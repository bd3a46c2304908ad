//! The resolved configuration: one boolean per command-line flag, plus the
//! list of input paths. Composite flags (`show_all`,
//! `show_ends_and_nonprinting`) are expanded into the primitive flags they
//! imply exactly once, by `new_with_equivalent_options`, before the engine
//! sees the configuration.

use vstd::prelude::*;

verus! {

/// The set of options the utility runs under. A `files` entry of `-`, or an
/// empty `files` list, means the caller reads standard input.
#[derive(Debug)]
pub struct Opt {
    pub show_all: bool,
    pub number_nonblank: bool,
    pub show_ends_and_nonprinting: bool,
    pub show_ends: bool,
    pub number: bool,
    pub squeeze_blank: bool,
    pub show_tabs: bool,
    pub ignored: bool,
    pub show_nonprinting: bool,
    pub files: Vec<String>,
}

impl Opt {
    /// The result of expanding `show_all` into the flags it implies.
    pub open spec fn spec_show_all_expanded(self) -> Opt {
        if self.show_all {
            Opt { show_nonprinting: true, show_ends: true, show_tabs: true, ..self }
        } else {
            self
        }
    }

    /// The result of expanding `show_ends_and_nonprinting` into the flags it
    /// implies.
    pub open spec fn spec_show_ends_and_nonprinting_expanded(self) -> Opt {
        if self.show_ends_and_nonprinting {
            Opt { show_nonprinting: true, show_ends: true, ..self }
        } else {
            self
        }
    }

    /// The fully expanded configuration: both composite flags folded into
    /// the primitive flags they imply.
    pub open spec fn spec_expanded(self) -> Opt {
        self.spec_show_all_expanded().spec_show_ends_and_nonprinting_expanded()
    }

    /// Whether the verbatim byte-copy path may be taken: no flag that would
    /// alter the output is set.
    pub open spec fn fast_path_eligible(self) -> bool {
        !self.number && !self.show_ends && !self.show_tabs && !self.show_nonprinting
            && !self.show_ends_and_nonprinting && !self.number_nonblank && !self.show_all
            && !self.squeeze_blank
    }

    /// Whether some numbering mode is active.
    pub open spec fn numbering_active(self) -> bool {
        self.number || self.number_nonblank
    }

    /// Builds the configuration the engine observes: the raw flags with
    /// composite flags expanded into their implied primitive flags.
    pub fn new_with_equivalent_options(raw: Opt) -> (r: Opt)
        ensures
            r == raw.spec_expanded(),
    {
        let mut opt = raw;
        opt.show_all_equivalent();
        opt.show_ends_and_nonprinting_equivalent();
        opt
    }

    /// Output is unchanged by the engine exactly when this holds.
    pub fn should_use_fast_print(&self) -> (r: bool)
        ensures
            r == self.fast_path_eligible(),
    {
        !(self.number || self.show_ends || self.show_tabs || self.show_nonprinting
            || self.show_ends_and_nonprinting || self.number_nonblank || self.show_all
            || self.squeeze_blank)
    }

    /// Whether line numbers are prefixed to any lines at all.
    pub fn is_number_option(&self) -> (r: bool)
        ensures
            r == self.numbering_active(),
    {
        self.number || self.number_nonblank
    }

    fn show_all_equivalent(&mut self)
        ensures
            *final(self) == old(self).spec_show_all_expanded(),
    {
        if self.show_all {
            self.show_nonprinting = true;
            self.show_ends = true;
            self.show_tabs = true;
        }
    }

    fn show_ends_and_nonprinting_equivalent(&mut self)
        ensures
            *final(self) == old(self).spec_show_ends_and_nonprinting_expanded(),
    {
        if self.show_ends_and_nonprinting {
            self.show_nonprinting = true;
            self.show_ends = true;
        }
    }
}

/// Composite-flag expansion is idempotent: expanding an already expanded
/// configuration yields the identical configuration.
pub proof fn lemma_expansion_idempotent(o: Opt)
    ensures
        o.spec_expanded().spec_expanded() == o.spec_expanded(),
{
}

} // verus!
