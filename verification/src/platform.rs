//! Operating-system families and the platform-specific classpath separator.

use vstd::prelude::*;

verus! {

/// The operating-system families a library entry's platform rule can name.
#[derive(Clone, Copy, PartialEq, Eq, Structural, Debug)]
pub enum Os {
    Linux,
    Windows,
    Osx,
}

/// The separator joining classpath entries: `;` on Windows, `:` elsewhere.
pub open spec fn spec_separator(os: Os) -> Seq<char> {
    if os is Windows {
        ";"@
    } else {
        ":"@
    }
}

/// Returns the classpath separator for the given platform.
pub fn classpath_separator(os: Os) -> (sep: &'static str)
    ensures
        sep@ == spec_separator(os),
{
    if let Os::Windows = os {
        ";"
    } else {
        ":"
    }
}

} // verus!
