//! A whole job: its fields read together, the check that they go together,
//! and the choice of the wall to run and of the function to run it on.

use vstd::prelude::*;

use crate::bi_directional_functions;
use crate::colours::{get_colours, palette_of, Colours, Palette};
use crate::config::{
    boundary_of, get_boundary, get_left_values, get_modulo, get_output_file, get_sequence,
    get_sequence_start, get_wall_type, left_values_of, modulo_of, output_file_of, sequence_of,
    sequence_start_of, wall_type_of, Boundary, NamedSequence, Sequence, SequenceView, WallType,
};
use crate::document::Value;
use crate::error::{ConfigError, ErrorKind};
use crate::left_const_functions;

verus! {

/// A job: everything that one run needs to know.
#[derive(Debug, PartialEq, Eq)]
pub struct JobDescriptor {
    pub wall_type: WallType,
    pub sequence: Sequence,
    /// The modulus by which the values of the wall are reduced; 0 for none.
    pub modulo: i128,
    /// The two values left of the columns; of use to a wall that starts at
    /// column zero and runs on a list of values.
    pub left_values: [i128; 2],
    /// The index of the first value of a list; of use to a wall over all
    /// integers that runs on a list of values.
    pub sequence_start: isize,
    pub colours: Colours,
    pub boundary: Boundary,
    pub output_file: String,
}

/// What a `JobDescriptor` holds.
pub struct JobView {
    pub wall_type: WallType,
    pub sequence: SequenceView,
    pub modulo: i128,
    pub left_values: [i128; 2],
    pub sequence_start: isize,
    pub colours: Palette,
    pub boundary: Boundary,
    pub output_file: Seq<char>,
}

impl JobView {
    /// The job is in order: the first row of its boundary does not lie below
    /// the last one, and its modulus is not negative.
    pub open spec fn wf(self) -> bool {
        &&& self.boundary.wf()
        &&& 0 <= self.modulo <= u64::MAX
    }
}

impl View for JobDescriptor {
    type V = JobView;

    open spec fn view(&self) -> JobView {
        JobView {
            wall_type: self.wall_type,
            sequence: self.sequence@,
            modulo: self.modulo,
            left_values: self.left_values,
            sequence_start: self.sequence_start,
            colours: self.colours@,
            boundary: self.boundary,
            output_file: self.output_file@,
        }
    }
}

/// The job that a document describes. The fields are looked at in a fixed
/// order: wall type, sequence, modulus, left values, start of the sequence,
/// palette, boundary, output file. The first one that is not in order
/// decides the error.
pub open spec fn job_of(input: Value) -> Result<JobView, ConfigError> {
    match wall_type_of(input) {
        Err(error) => Err(error),
        Ok(wall_type) => match sequence_of(input) {
            Err(error) => Err(error),
            Ok(sequence) => match modulo_of(input) {
                Err(error) => Err(error),
                Ok(modulo) => match left_values_of(input) {
                    Err(error) => Err(error),
                    Ok(left_values) => match sequence_start_of(input) {
                        Err(error) => Err(error),
                        Ok(sequence_start) => match palette_of(input) {
                            Err(error) => Err(error),
                            Ok(colours) => match boundary_of(input) {
                                Err(error) => Err(error),
                                Ok(boundary) => match output_file_of(input) {
                                    Err(error) => Err(error),
                                    Ok(output_file) => Ok(
                                        JobView {
                                            wall_type,
                                            sequence,
                                            modulo,
                                            left_values,
                                            sequence_start,
                                            colours,
                                            boundary,
                                            output_file,
                                        },
                                    ),
                                },
                            },
                        },
                    },
                },
            },
        },
    }
}

/// Reads a job from a document, field by field.
pub fn get_job(input: &Value) -> (result: Result<JobDescriptor, ConfigError>)
    ensures
        match result {
            Ok(job) => job_of(*input) == Ok::<JobView, ConfigError>(job@) && 0 <= job.modulo
                <= u64::MAX,
            Err(error) => job_of(*input) == Err::<JobView, ConfigError>(error),
        },
{
    let wall_type = match get_wall_type(input) {
        Ok(value) => value,
        Err(error) => {
            return Err(error);
        },
    };
    let sequence = match get_sequence(input) {
        Ok(value) => value,
        Err(error) => {
            return Err(error);
        },
    };
    let modulo: i128 = match get_modulo(input) {
        Ok(value) => value,
        Err(error) => {
            return Err(error);
        },
    };
    let left_values = match get_left_values(input) {
        Ok(value) => value,
        Err(error) => {
            return Err(error);
        },
    };
    let sequence_start: isize = match get_sequence_start(input) {
        Ok(value) => value,
        Err(error) => {
            return Err(error);
        },
    };
    let colours = match get_colours(input) {
        Ok(value) => value,
        Err(error) => {
            return Err(error);
        },
    };
    let boundary = match get_boundary(input) {
        Ok(value) => value,
        Err(error) => {
            return Err(error);
        },
    };
    let output_file = match get_output_file(input) {
        Ok(value) => value,
        Err(error) => {
            return Err(error);
        },
    };
    Ok(
        JobDescriptor {
            wall_type,
            sequence,
            modulo,
            left_values,
            sequence_start,
            colours,
            boundary,
            output_file,
        },
    )
}

/// The wall to run for a job, and what it runs on.
#[derive(Debug, Clone, Copy, PartialEq, Eq, Structural)]
pub enum Route {
    /// A repeating wall on the list of values of the job.
    RepeatingWall,
    /// A wall from column zero on a named sequence of the bounded domain.
    LeftConstFnWall(NamedSequence),
    /// A wall from column zero on the list of values of the job, with the
    /// job's two values left of the columns.
    LeftConstWall,
    /// A wall over all integers on a named sequence of the bi-directional
    /// domain.
    BiDirectionalFnWall(NamedSequence),
    /// A wall over all integers on the list of values of the job, which
    /// starts at the job's index.
    BiDirectionalWall,
}

/// The wall that goes with a wall type, a sequence and a boundary. A
/// repeating wall takes a list of values only. A repeating wall and a wall
/// from column zero have no columns below zero. No wall has its last row
/// above its first; this is looked at last.
pub open spec fn route_of(wall_type: WallType, sequence: SequenceView, boundary: Boundary) -> Result<
    Route,
    ConfigError,
> {
    match wall_type {
        WallType::Repeating => match sequence {
            SequenceView::Named(_) => Err(ConfigError::NamedSequenceRepeats),
            SequenceView::Custom(_) => if boundary.left < 0 {
                Err(ConfigError::NegativeLeft)
            } else if boundary.right < 0 {
                Err(ConfigError::NegativeRight)
            } else if boundary.top > boundary.bottom {
                Err(ConfigError::BottomAboveTop)
            } else {
                Ok(Route::RepeatingWall)
            },
        },
        WallType::LeftConst => if boundary.left < 0 {
            Err(ConfigError::NegativeLeft)
        } else if boundary.right < 0 {
            Err(ConfigError::NegativeRight)
        } else if boundary.top > boundary.bottom {
            Err(ConfigError::BottomAboveTop)
        } else {
            match sequence {
                SequenceView::Named(name) => Ok(Route::LeftConstFnWall(name)),
                SequenceView::Custom(_) => Ok(Route::LeftConstWall),
            }
        },
        WallType::BiDirectional => if boundary.top > boundary.bottom {
            Err(ConfigError::BottomAboveTop)
        } else {
            match sequence {
                SequenceView::Named(name) => Ok(Route::BiDirectionalFnWall(name)),
                SequenceView::Custom(_) => Ok(Route::BiDirectionalWall),
            }
        },
    }
}

/// Whatever keeps a job from a wall is a fault of compatibility. A column
/// below zero keeps every job from a wall whose columns start at zero, and a
/// last row above the first keeps every job from every wall.
pub proof fn lemma_route_faults(wall_type: WallType, sequence: SequenceView, boundary: Boundary)
    ensures
        route_of(wall_type, sequence, boundary) matches Err(error) ==> error.kind_of()
            == ErrorKind::Compatibility,
        wall_type != WallType::BiDirectional && (boundary.left < 0 || boundary.right < 0)
            ==> route_of(wall_type, sequence, boundary) is Err,
        !boundary.wf() ==> route_of(wall_type, sequence, boundary) is Err,
        route_of(wall_type, sequence, boundary) matches Ok(route) ==> (route
            is BiDirectionalFnWall || route is BiDirectionalWall) == (wall_type
            == WallType::BiDirectional),
{
}

/// Chooses the wall to run for a job, or says why its fields do not go
/// together.
pub fn dispatch(job: &JobDescriptor) -> (result: Result<Route, ConfigError>)
    ensures
        result == route_of(job.wall_type, job.sequence@, job.boundary),
        result is Ok ==> job.boundary.wf(),
        result is Ok && job.wall_type != WallType::BiDirectional ==> job.boundary.left >= 0
            && job.boundary.right >= 0,
{
    match job.wall_type {
        WallType::Repeating => match &job.sequence {
            Sequence::Custom(_) => {
                if job.boundary.left < 0 {
                    Err(ConfigError::NegativeLeft)
                } else if job.boundary.right < 0 {
                    Err(ConfigError::NegativeRight)
                } else if job.boundary.top > job.boundary.bottom {
                    Err(ConfigError::BottomAboveTop)
                } else {
                    Ok(Route::RepeatingWall)
                }
            },
            Sequence::Named(_) => Err(ConfigError::NamedSequenceRepeats),
        },
        WallType::LeftConst => {
            if job.boundary.left < 0 {
                Err(ConfigError::NegativeLeft)
            } else if job.boundary.right < 0 {
                Err(ConfigError::NegativeRight)
            } else if job.boundary.top > job.boundary.bottom {
                Err(ConfigError::BottomAboveTop)
            } else {
                match &job.sequence {
                    Sequence::Named(name) => Ok(Route::LeftConstFnWall(*name)),
                    Sequence::Custom(_) => Ok(Route::LeftConstWall),
                }
            }
        },
        WallType::BiDirectional => {
            if job.boundary.top > job.boundary.bottom {
                Err(ConfigError::BottomAboveTop)
            } else {
                match &job.sequence {
                    Sequence::Named(name) => Ok(Route::BiDirectionalFnWall(*name)),
                    Sequence::Custom(_) => Ok(Route::BiDirectionalWall),
                }
            }
        },
    }
}

/// A job that is ready to run: the job and the wall chosen for it.
#[derive(Debug, PartialEq, Eq)]
pub struct Execution {
    pub job: JobDescriptor,
    pub route: Route,
}

/// What a document leads to: a job with the wall to run for it, or the first
/// thing that is wrong, be it with one field or with how they go together.
pub open spec fn execution_of(input: Value) -> Result<(JobView, Route), ConfigError> {
    match job_of(input) {
        Err(error) => Err(error),
        Ok(job) => match route_of(job.wall_type, job.sequence, job.boundary) {
            Err(error) => Err(error),
            Ok(route) => Ok((job, route)),
        },
    }
}

/// Reads a job from a document and chooses the wall to run for it. No wall
/// is chosen unless every field is in order and the fields go together; the
/// job that comes with a wall is in order as a whole.
pub fn execute_input(input: &Value) -> (result: Result<Execution, ConfigError>)
    ensures
        match result {
            Ok(execution) => execution_of(*input) == Ok::<(JobView, Route), ConfigError>(
                (execution.job@, execution.route),
            ) && execution.job@.wf(),
            Err(error) => execution_of(*input) == Err::<(JobView, Route), ConfigError>(error),
        },
{
    let job = match get_job(input) {
        Ok(job) => job,
        Err(error) => {
            return Err(error);
        },
    };
    match dispatch(&job) {
        Ok(route) => Ok(Execution { job, route }),
        Err(error) => Err(error),
    }
}

impl NamedSequence {
    /// The value of the sequence at an index of the bounded domain.
    pub open spec fn left_const_value(self, n: nat) -> int {
        match self {
            NamedSequence::Knight => left_const_functions::knight_value(n),
            NamedSequence::Rook => left_const_functions::rook_value(n),
            NamedSequence::Pagoda => left_const_functions::pagoda_value(n),
            NamedSequence::Rueppel => left_const_functions::rueppel_value(n),
            NamedSequence::Zigzag => left_const_functions::zigzag_value(n),
        }
    }

    /// The value of the sequence at an index of the bi-directional domain.
    pub open spec fn bi_directional_value(self, n: int) -> int {
        match self {
            NamedSequence::Knight => bi_directional_functions::knight_value(n),
            NamedSequence::Rook => bi_directional_functions::rook_value(n),
            NamedSequence::Pagoda => bi_directional_functions::pagoda_value(n),
            NamedSequence::Rueppel => bi_directional_functions::rueppel_value(n),
            NamedSequence::Zigzag => bi_directional_functions::zigzag_value(n),
        }
    }

    /// Evaluates the sequence at an index of the bounded domain.
    pub fn left_const(self, n: usize) -> (value: i128)
        ensures
            value == self.left_const_value(n as nat),
            0 <= value <= 2,
    {
        match self {
            NamedSequence::Knight => left_const_functions::knight(n),
            NamedSequence::Rook => left_const_functions::rook(n),
            NamedSequence::Pagoda => left_const_functions::pagoda(n),
            NamedSequence::Rueppel => left_const_functions::rueppel(n),
            NamedSequence::Zigzag => left_const_functions::zigzag(n),
        }
    }

    /// Evaluates the sequence at an index of the bi-directional domain.
    pub fn bi_directional(self, n: isize) -> (value: i128)
        ensures
            value == self.bi_directional_value(n as int),
            0 <= value <= 2,
    {
        match self {
            NamedSequence::Knight => bi_directional_functions::knight(n),
            NamedSequence::Rook => bi_directional_functions::rook(n),
            NamedSequence::Pagoda => bi_directional_functions::pagoda(n),
            NamedSequence::Rueppel => bi_directional_functions::rueppel(n),
            NamedSequence::Zigzag => bi_directional_functions::zigzag(n),
        }
    }
}

} // verus!
