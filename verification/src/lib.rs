use vstd::prelude::*;

pub mod clock;
pub mod flow;
pub mod ip;
pub mod digest;
pub mod edge;
pub mod json_text;
pub mod order;
pub mod text;

verus! {
}
