//! Frame-wide resources handed to the passes: the elapsed time and the
//! input snapshot.

use vstd::prelude::*;

use crate::input::Input;
use crate::input::input_blank;

verus! {

/// Milliseconds elapsed since the previous frame; never negative.
#[derive(Debug, Copy, Clone, PartialEq, Eq, Structural)]
pub struct DeltaTime(pub i32);

impl Default for DeltaTime {
    fn default() -> (r: DeltaTime)
        ensures
            r.0 == 0,
    {
        DeltaTime(0)
    }
}

/// The input snapshot as a frame resource.
#[derive(Debug)]
pub struct InputResource(pub Input);

impl Default for InputResource {
    fn default() -> (r: InputResource)
        ensures
            input_blank(r.0@),
    {
        InputResource(Input::new())
    }
}

} // verus!
