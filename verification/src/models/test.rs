use vstd::prelude::*;

verus! {

/// A measurement between two guests, started `fire_at` seconds into the
/// experiment and lasting `duration` seconds.
#[derive(Debug, Clone)]
pub struct Test {
    pub name: String,
    pub test: String,
    pub fire_at: u64,
    pub duration: u64,
    pub from: String,
    pub to: String,
}

} // verus!
