//! Mapping from command-line switches to the listing mode.

use vstd::prelude::*;

verus! {

/// The listing mode requested on the command line: whether hidden entries
/// (names beginning with `.`) are included, and whether the detailed
/// per-entry format is used. The two switches are independent, so four
/// combinations exist.
#[derive(Clone, Copy, Debug, PartialEq, Eq, Structural)]
pub enum Flag {
    /// `-a` alone: include hidden entries, compact output.
    All,
    /// `-l` alone: detailed output, hidden entries excluded.
    List,
    /// `-a -l`: detailed output including hidden entries.
    AllAndList,
    /// Neither switch: compact output, hidden entries excluded.
    Empty,
}

impl Flag {
    /// Whether this mode asks for entries whose name begins with `.`.
    pub open spec fn spec_shows_hidden(self) -> bool {
        self is All || self is AllAndList
    }

    /// Whether this mode asks for the detailed per-entry format.
    pub open spec fn spec_is_detailed(self) -> bool {
        self is List || self is AllAndList
    }

    pub fn shows_hidden(&self) -> (r: bool)
        ensures
            r == self.spec_shows_hidden(),
    {
        match self {
            Flag::All => true,
            Flag::AllAndList => true,
            _ => false,
        }
    }

    pub fn is_detailed(&self) -> (r: bool)
        ensures
            r == self.spec_is_detailed(),
    {
        match self {
            Flag::List => true,
            Flag::AllAndList => true,
            _ => false,
        }
    }
}

/// The mode that a given pair of switches selects.
pub open spec fn spec_flag_of(all: bool, long: bool) -> Flag {
    if all && long {
        Flag::AllAndList
    } else if all {
        Flag::All
    } else if long {
        Flag::List
    } else {
        Flag::Empty
    }
}

/// Turns the parsed switches and the target path into the pair the rest of
/// the pipeline consumes. The path is passed through unchanged.
pub fn unpack_args(all: bool, long: bool, path: String) -> (r: (String, Flag))
    ensures
        r.0 == path,
        r.1 == spec_flag_of(all, long),
        r.1.spec_shows_hidden() == all,
        r.1.spec_is_detailed() == long,
{
    let flag = match (all, long) {
        (true, true) => Flag::AllAndList,
        (true, false) => Flag::All,
        (false, true) => Flag::List,
        (false, false) => Flag::Empty,
    };
    (path, flag)
}

} // verus!
