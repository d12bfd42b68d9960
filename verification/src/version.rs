//! Extended version information of a build, to make reports of errors
//! easier to place.

use vstd::prelude::*;
use vstd::string::StringExecFns;

verus! {

/// Full information about a build.
#[derive(Debug, Clone, PartialEq, Eq)]
pub struct Version {
    /// Version of the package.
    pub pkg_version: String,
    /// Short hash of the commit that was built.
    pub hash: String,
    /// Full hash of the commit that was built.
    pub full_hash: String,
    /// Local date of the build.
    pub date: String,
    /// The repository held changes that were not committed.
    pub dirty: bool,
}

impl Version {
    /// The version in one line: package version, then hash, date and
    /// whether the tree was dirty, in parentheses.
    pub open spec fn spec_text(self) -> Seq<char> {
        self.pkg_version@ + " ("@ + self.hash@ + " "@ + self.date@ + (if self.dirty {
            " dirty"@
        } else {
            Seq::<char>::empty()
        }) + ")"@
    }

    /// The version as shown in a terminal.
    pub fn text(&self) -> (text: String)
        ensures
            text@ == self.spec_text(),
    {
        let mut text = self.pkg_version.clone();
        text.append(" (");
        text.append(self.hash.as_str());
        text.append(" ");
        text.append(self.date.as_str());
        if self.dirty {
            text.append(" dirty");
        } else {
            assert(text@ + Seq::<char>::empty() =~= text@);
        }
        text.append(")");
        text
    }
}

} // verus!
