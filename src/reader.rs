use vstd::prelude::*;

verus! {

/// The source reader's rule: the first line of a stream is a preamble and
/// is dropped; every later line is forwarded unchanged.
pub struct LineFilter {
    seen_first: bool,
}

impl LineFilter {
    pub closed spec fn past_preamble(&self) -> bool {
        self.seen_first
    }

    /// A filter that has seen no line yet.
    pub fn new() -> (r: LineFilter)
        ensures
            !r.past_preamble(),
    {
        LineFilter { seen_first: false }
    }

    /// Whether the next line of the stream is forwarded.
    pub fn forward(&mut self) -> (r: bool)
        ensures
            r == old(self).past_preamble(),
            final(self).past_preamble(),
    {
        let r = self.seen_first;
        self.seen_first = true;
        r
    }
}

} // verus!
