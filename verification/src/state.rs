//! Per-source transformation state: created fresh for each input source and
//! discarded when that source is exhausted.

use vstd::prelude::*;

use crate::opt::Opt;

verus! {

/// State the engine carries from one line of a source to the next: the
/// reusable line buffer, the blank-run suppression flag, and the current
/// 1-based line number.
pub struct State {
    pub buffer: String,
    pub suppress: bool,
    pub line: u32,
}

impl State {
    /// Fresh state for one input source: empty buffer, no blank line seen
    /// yet, line number 1.
    pub fn new(_opt: &Opt) -> (r: State)
        ensures
            r.buffer@ == Seq::<char>::empty(),
            r.suppress == false,
            r.line == 1,
    {
        State { buffer: String::new(), suppress: false, line: 1 }
    }
}

} // verus!
