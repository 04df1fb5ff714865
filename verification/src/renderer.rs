//! The integer side of rendering: which texture each block face uses, quad
//! indices, panorama assembly and compute dispatch sizes.

pub mod chunk;
pub mod pipelines;
