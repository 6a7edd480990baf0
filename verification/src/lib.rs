use vstd::prelude::*;

pub mod controls;
pub mod matrix;
pub mod mesh;
pub mod uniforms;

verus! {
}
