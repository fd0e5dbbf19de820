//! Integer sequences for number walls (Rook, Knight, Pagoda, Rueppel and
//! ZigZag) over two index domains, together with the validation of a
//! rendering job and the painting of wall rows into an image.

pub mod bi_directional_functions;
pub mod canvas;
pub mod colours;
pub mod config;
pub mod dispatch;
pub mod document;
pub mod error;
pub mod left_const_functions;
pub mod zigzag;
