//! The image that the rows of a wall are painted into, one row at a time.

use vstd::prelude::*;

use crate::colours::{get_colour, Colours, Palette};
use crate::config::Boundary;

verus! {

/// An RGB image buffer of the `image` crate. What it holds is spoken of
/// through `grid_pixels` and `grid_width`.
#[verifier::external_body]
pub struct PixelGrid {
    image: image::RgbImage,
}

/// The pixels of a grid, row after row from the top, each row from the left,
/// each pixel as its red, green and blue channel.
pub uninterp spec fn grid_pixels(grid: PixelGrid) -> Seq<[u8; 3]>;

/// The number of pixels in one row of a grid.
pub uninterp spec fn grid_width(grid: PixelGrid) -> int;

/// `image::ImageBuffer::new`: an image of the given size in which every
/// channel of every pixel is zero. The call panics where the three bytes per
/// pixel do not fit a vector; those sizes are left out.
#[verifier::external_body]
fn new_grid(width: u32, height: u32) -> (grid: PixelGrid)
    requires
        3 * width * height <= isize::MAX,
    ensures
        grid_width(grid) == width,
        grid_pixels(grid).len() == width * height,
        forall|i: int|
            0 <= i < width * height ==> (#[trigger] grid_pixels(grid)[i])@ == seq![0u8, 0u8, 0u8],
{
    PixelGrid { image: image::RgbImage::new(width, height) }
}

/// `image::ImageBuffer::put_pixel`: sets the pixel in column `x` of row `y`
/// and leaves every other pixel as it was. The call panics on a place outside
/// the image, and on no other; the places outside are left out.
#[verifier::external_body]
fn put_pixel(grid: &mut PixelGrid, x: u32, y: u32, colour: [u8; 3])
    requires
        x < grid_width(*old(grid)),
        y * grid_width(*old(grid)) + x < grid_pixels(*old(grid)).len(),
    ensures
        grid_width(*final(grid)) == grid_width(*old(grid)),
        grid_pixels(*final(grid)) == grid_pixels(*old(grid)).update(
            y * grid_width(*old(grid)) + x,
            colour,
        ),
    no_unwind
{
    grid.image.put_pixel(x, y, image::Rgb(colour))
}

/// `image::ImageBuffer::into_raw`: the channels of all pixels in one vector,
/// three bytes for each pixel, in the order of the pixels.
#[verifier::external_body]
fn into_raw(grid: PixelGrid) -> (bytes: Vec<u8>)
    ensures
        bytes@ == channels(grid_pixels(grid)),
{
    grid.image.into_raw()
}

/// The channels of a row of pixels, three for each pixel.
pub open spec fn channels(pixels: Seq<[u8; 3]>) -> Seq<u8> {
    Seq::new(3 * pixels.len(), |i: int| pixels[i / 3][i % 3])
}

/// What a canvas holds.
pub struct Raster {
    /// The number of pixels in a row.
    pub width: nat,
    /// The number of rows.
    pub height: nat,
    /// The number of rows from the top that lines have been painted into.
    pub rows_painted: nat,
    /// The pixels, row after row from the top, each row from the left.
    pub pixels: Seq<[u8; 3]>,
}

impl Raster {
    /// The pixel in column `x` of row `y`.
    pub open spec fn pixel(self, x: int, y: int) -> [u8; 3] {
        self.pixels[y * self.width + x]
    }

    /// The raster has a pixel for each place, and no more rows painted than
    /// it has.
    pub open spec fn wf(self) -> bool {
        &&& self.pixels.len() == self.width * self.height
        &&& self.rows_painted <= self.height
    }

    /// Whether `line` can be painted: an empty line always can; any other
    /// needs a row that is not yet painted, and must not be longer than it.
    pub open spec fn takes(self, line: Seq<i128>) -> bool {
        line.len() == 0 || (self.rows_painted < self.height && line.len() <= self.width)
    }

    /// The raster after `line` is painted into its next row with the colours
    /// of `palette`. The pixels right of the line stay as they are.
    pub open spec fn with_line(self, line: Seq<i128>, palette: Palette) -> Raster {
        let from = self.rows_painted * self.width;
        Raster {
            width: self.width,
            height: self.height,
            rows_painted: if self.rows_painted < self.height {
                self.rows_painted + 1
            } else {
                self.rows_painted
            },
            pixels: Seq::new(
                self.pixels.len(),
                |i: int|
                    if from <= i < from + line.len() {
                        palette.colour(line[i - from])
                    } else {
                        self.pixels[i]
                    },
            ),
        }
    }
}

impl Boundary {
    /// The number of columns from `left` to `right`.
    pub open spec fn columns(self) -> int {
        self.right - self.left + 1
    }

    /// The number of rows from `top` to `bottom`.
    pub open spec fn rows(self) -> int {
        self.bottom - self.top + 1
    }

    /// Whether an image can hold the part of the wall inside the boundary:
    /// neither side is negative or longer than a `u32` counts, and three
    /// bytes for each pixel are no more than a vector holds.
    pub open spec fn paintable(self) -> bool {
        &&& self.top <= self.bottom
        &&& 0 <= self.columns() <= u32::MAX
        &&& self.rows() <= u32::MAX
        &&& 3 * self.columns() * self.rows() <= isize::MAX
    }
}

/// Why a line is not painted.
#[derive(Debug, Clone, Copy, PartialEq, Eq, Structural)]
pub enum PaintError {
    /// Every row of the canvas is painted already.
    NoRowLeft,
    /// The line is longer than a row of the canvas.
    LineTooLong,
}

/// An image of a fixed size that takes the rows of a wall from the top down.
pub struct Canvas {
    grid: PixelGrid,
    width: u32,
    height: u32,
    next_row: u32,
}

impl View for Canvas {
    type V = Raster;

    closed spec fn view(&self) -> Raster {
        Raster {
            width: self.width as nat,
            height: self.height as nat,
            rows_painted: self.next_row as nat,
            pixels: grid_pixels(self.grid),
        }
    }
}

impl Canvas {
    /// The image has the size that the canvas goes by, and no more rows are
    /// painted than it has.
    #[verifier::type_invariant]
    spec fn consistent(self) -> bool {
        &&& grid_width(self.grid) == self.width
        &&& grid_pixels(self.grid).len() == self.width * self.height
        &&& self.next_row <= self.height
    }

    /// A canvas for the part of a wall inside `boundary`, all black, with no
    /// row painted yet. There is none where no image can hold that part.
    pub fn new(boundary: &Boundary) -> (canvas: Option<Canvas>)
        ensures
            canvas is Some <==> boundary.paintable(),
            canvas matches Some(canvas) ==> {
                &&& canvas@.wf()
                &&& canvas@.width == boundary.columns()
                &&& canvas@.height == boundary.rows()
                &&& canvas@.rows_painted == 0
                &&& forall|i: int|
                    0 <= i < canvas@.pixels.len() ==> (#[trigger] canvas@.pixels[i])@ == seq![
                        0u8,
                        0u8,
                        0u8,
                    ]
            },
    {
        if boundary.top > boundary.bottom {
            return None;
        }
        let columns: i128 = boundary.right as i128 - boundary.left as i128 + 1;
        let rows: u128 = (boundary.bottom - boundary.top) as u128 + 1;
        if columns < 0 || columns > u32::MAX as i128 || rows > u32::MAX as u128 {
            return None;
        }
        let width: u32 = columns as u32;
        let height: u32 = rows as u32;
        assert(width * height <= 0xffff_ffff * 0xffff_ffff) by (nonlinear_arith)
            requires
                width <= 0xffff_ffff,
                height <= 0xffff_ffff,
        ;
        assert(3 * width * height == 3 * (width * height)) by (nonlinear_arith);
        assert(3 * boundary.columns() * boundary.rows() == 3 * (width * height))
            by (nonlinear_arith)
            requires
                boundary.columns() == width,
                boundary.rows() == height,
        ;
        let bytes: u128 = 3 * (width as u128 * height as u128);
        if bytes > isize::MAX as u128 {
            return None;
        }
        let grid = new_grid(width, height);
        Some(Canvas { grid, width, height, next_row: 0 })
    }

    /// The number of pixels in a row.
    pub fn width(&self) -> (width: u32)
        ensures
            width == self@.width,
            self@.wf(),
    {
        proof {
            use_type_invariant(self);
        }
        self.width
    }

    /// The number of rows.
    pub fn height(&self) -> (height: u32)
        ensures
            height == self@.height,
            self@.wf(),
    {
        proof {
            use_type_invariant(self);
        }
        self.height
    }

    /// The number of rows from the top that lines have been painted into.
    pub fn rows_painted(&self) -> (rows: u32)
        ensures
            rows == self@.rows_painted,
            self@.wf(),
    {
        proof {
            use_type_invariant(self);
        }
        self.next_row
    }

    /// Paints a line of sequence values into the next row, each value in the
    /// colour that the palette gives it, and moves on to the row below. A
    /// line that does not fit leaves the canvas as it is.
    pub fn paint_line(&mut self, line: &Vec<i128>, colours: &Colours) -> (result: Result<
        (),
        PaintError,
    >)
        ensures
            old(self)@.wf(),
            final(self)@.wf(),
            result is Ok <==> old(self)@.takes(line@),
            match result {
                Ok(()) => final(self)@ == old(self)@.with_line(line@, colours@),
                Err(PaintError::NoRowLeft) => {
                    &&& line@.len() > 0
                    &&& old(self)@.rows_painted == old(self)@.height
                    &&& final(self)@ == old(self)@
                },
                Err(PaintError::LineTooLong) => {
                    &&& old(self)@.rows_painted < old(self)@.height
                    &&& line@.len() > old(self)@.width
                    &&& final(self)@ == old(self)@
                },
            },
    {
        proof {
            use_type_invariant(&*self);
        }
        let ghost before = self@;
        if line.len() > 0 {
            if self.next_row >= self.height {
                return Err(PaintError::NoRowLeft);
            }
            if line.len() > self.width as usize {
                return Err(PaintError::LineTooLong);
            }
        }
        let y: u32 = self.next_row;
        let ghost from: int = y * self.width;
        assert(line@.len() > 0 ==> from + self.width <= self.width * self.height)
            by (nonlinear_arith)
            requires
                from == y * self.width,
                line@.len() > 0 ==> y < self.height,
        ;
        let mut x: usize = 0;
        while x < line.len()
            invariant
                x <= line@.len(),
                line@.len() > 0 ==> line@.len() <= self.width,
                line@.len() > 0 ==> from + self.width <= self.width * self.height,
                from == y * self.width,
                y == self.next_row,
                self.next_row <= self.height,
                self.width == old(self).width,
                self.height == old(self).height,
                grid_width(self.grid) == self.width,
                grid_pixels(self.grid).len() == self.width * self.height,
                before.pixels.len() == self.width * self.height,
                forall|i: int|
                    0 <= i < before.pixels.len() ==> #[trigger] grid_pixels(self.grid)[i] == (if from
                        <= i < from + x {
                        colours@.colour(line@[i - from])
                    } else {
                        before.pixels[i]
                    }),
            decreases line@.len() - x,
        {
            let colour: [u8; 3] = get_colour(line[x], colours);
            put_pixel(&mut self.grid, x as u32, y, colour);
            x = x + 1;
        }
        if self.next_row < self.height {
            self.next_row = self.next_row + 1;
        }
        assert(self@.pixels =~= before.with_line(line@, colours@).pixels);
        Ok(())
    }

    /// The finished image as bytes: the red, green and blue channel of each
    /// pixel, row after row from the top, each row from the left.
    pub fn into_bytes(self) -> (bytes: Vec<u8>)
        ensures
            bytes@ == channels(self@.pixels),
    {
        into_raw(self.grid)
    }
}

} // verus!
