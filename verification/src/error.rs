use vstd::prelude::*;

verus! {

/// Error returned by the resamplers when an input chunk has the wrong
/// shape or a requested ratio lies too far from the original one.
#[derive(Debug)]
pub struct ResamplerError {
    desc: String,
}

impl View for ResamplerError {
    type V = Seq<char>;

    closed spec fn view(&self) -> Seq<char> {
        self.desc@
    }
}

impl ResamplerError {
    /// Create an error carrying the given description.
    pub fn new(desc: &str) -> (e: ResamplerError)
        ensures
            e@ == desc@,
    {
        ResamplerError { desc: desc.to_owned() }
    }

    /// The description the error was created with.
    pub fn description(&self) -> (r: &str)
        ensures
            r@ == self@,
    {
        self.desc.as_str()
    }
}

} // verus!
