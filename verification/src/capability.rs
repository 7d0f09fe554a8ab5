//! CPU instruction-set capability tiers.

use vstd::prelude::*;
use crate::strutil::str_eq;

verus! {

/// Instruction-set tier of a CPU, ordered `Base < Avx < Avx2`.
///
/// `Base` is the tier with no vector extension; a CPU build requiring a
/// tier runs on every host whose detected tier is at least that tier.
#[derive(Debug, Clone, Copy, PartialEq, Eq, Structural)]
pub enum CPUCapability {
    Base,
    Avx,
    Avx2,
}

impl CPUCapability {
    /// Position of this tier in the total order.
    pub open spec fn tier(self) -> int {
        match self {
            CPUCapability::Base => 0,
            CPUCapability::Avx => 1,
            CPUCapability::Avx2 => 2,
        }
    }

    /// The tier a variant-tag string requires: the empty tag is the base
    /// tier, `avx` and `avx2` name their extensions.
    pub open spec fn of_tag(tag: Seq<char>) -> CPUCapability {
        if tag == "avx"@ {
            CPUCapability::Avx
        } else if tag == "avx2"@ {
            CPUCapability::Avx2
        } else {
            CPUCapability::Base
        }
    }

    /// True when `tag` is one of the three tag strings a CPU variant may
    /// carry.
    pub open spec fn wf_tag(tag: Seq<char>) -> bool {
        tag == ""@ || tag == "avx"@ || tag == "avx2"@
    }

    /// Parses a CPU variant tag.
    pub fn from(vv: &str) -> (r: Self)
        requires
            Self::wf_tag(vv@),
        ensures
            r == Self::of_tag(vv@),
    {
        proof {
            reveal_strlit("");
            reveal_strlit("avx");
            reveal_strlit("avx2");
        }
        if str_eq(vv, "avx") {
            CPUCapability::Avx
        } else if str_eq(vv, "avx2") {
            CPUCapability::Avx2
        } else {
            CPUCapability::Base
        }
    }

    /// True when `tag` is a well-formed CPU variant tag.
    pub fn tag_is_wf(vv: &str) -> (r: bool)
        ensures
            r == Self::wf_tag(vv@),
    {
        str_eq(vv, "") || str_eq(vv, "avx") || str_eq(vv, "avx2")
    }

    /// This tier as a number, respecting the order.
    pub fn rank(&self) -> (n: u8)
        ensures
            n as int == self.tier(),
    {
        match self {
            CPUCapability::Base => 0,
            CPUCapability::Avx => 1,
            CPUCapability::Avx2 => 2,
        }
    }

    /// True when this tier is at least `other`: a host at this tier can
    /// run a build requiring `other`.
    pub fn at_least(&self, other: &Self) -> (r: bool)
        ensures
            r == (self.tier() >= other.tier()),
    {
        self.rank() >= other.rank()
    }
}

} // verus!
