//! A verified generator of C header files that embed a flat pixel buffer as a
//! statically initialized array, with include guards, dimension defines,
//! optional storage qualifiers and an optional linker-section attribute.

pub mod elem;
pub mod header;
pub mod laws;
pub mod numfmt;
pub mod stem;
pub mod transform;
