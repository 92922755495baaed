//! Protocol versions.

use vstd::prelude::*;
use vstd::std_specs::convert::FromSpecImpl;
use vstd::string::StringExecFns;

verus! {

/// DAP version used for a task.
#[derive(Clone, Copy, Debug, Eq, Hash, PartialEq, Structural)]
pub enum DapVersion {
    Draft02,
    Draft03,
    Unknown,
}

impl DapVersion {
    /// The version that `name` stands for.
    pub open spec fn named(name: Seq<char>) -> DapVersion {
        if name == "v02"@ {
            DapVersion::Draft02
        } else if name == "v03"@ {
            DapVersion::Draft03
        } else {
            DapVersion::Unknown
        }
    }

    /// The name of the version.
    pub open spec fn name(self) -> Seq<char> {
        match self {
            DapVersion::Draft02 => "v02"@,
            DapVersion::Draft03 => "v03"@,
            DapVersion::Unknown => "unknown_version"@,
        }
    }

    /// The name of a known version, as it is written in requests and in
    /// the names of stores.
    pub fn as_ref(&self) -> (s: &'static str)
        requires
            !(self is Unknown),
        ensures
            s@ == self.name(),
    {
        match self {
            DapVersion::Draft02 => "v02",
            DapVersion::Draft03 => "v03",
            DapVersion::Unknown => "unknown_version",
        }
    }
}

impl FromSpecImpl<&str> for DapVersion {
    open spec fn obeys_from_spec() -> bool {
        true
    }

    open spec fn from_spec(version: &str) -> DapVersion {
        DapVersion::named(version@)
    }
}

impl From<&str> for DapVersion {
    fn from(version: &str) -> (v: DapVersion) {
        let name = String::from_str(version);
        if name.eq(&String::from_str("v02")) {
            DapVersion::Draft02
        } else if name.eq(&String::from_str("v03")) {
            DapVersion::Draft03
        } else {
            DapVersion::Unknown
        }
    }
}

/// The name of a known version stands for that version.
pub proof fn lemma_version_name_roundtrip(version: DapVersion)
    requires
        !(version is Unknown),
    ensures
        DapVersion::named(version.name()) == version,
{
    reveal_strlit("v02");
    reveal_strlit("v03");
    assert("v02"@[2] != "v03"@[2]);
}

} // verus!
