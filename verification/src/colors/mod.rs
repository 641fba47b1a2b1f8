//! Colour markup: the palette, the ANSI building blocks, terminal support,
//! and the two markup renderers.
pub mod ansicodes;
pub mod colorsheet;
pub mod rendering;
pub mod terms;
pub mod transform;
pub mod ztran;
