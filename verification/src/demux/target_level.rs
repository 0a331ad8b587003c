//! The levels that tags describe.

use core::cmp::Ordering;
use vstd::prelude::*;
use vstd::std_specs::cmp::PartialOrdSpecImpl;

verus! {

/// The level of organisation that a tag describes.
#[derive(Clone, Copy, Debug, PartialEq, Eq, Ord, Structural)]
pub enum TargetLevel {
    Shot,
    Subtrack,
    Track,
    Part,
    Album,
    Edition,
    Collection,
    /// A level without a name.
    Other(u64),
}

impl TargetLevel {
    /// The number of a level.
    pub open spec fn raw(self) -> u64 {
        match self {
            TargetLevel::Shot => 10,
            TargetLevel::Subtrack => 20,
            TargetLevel::Track => 30,
            TargetLevel::Part => 40,
            TargetLevel::Album => 50,
            TargetLevel::Edition => 60,
            TargetLevel::Collection => 70,
            TargetLevel::Other(v) => v,
        }
    }

    /// The level of a number.
    pub open spec fn of_raw(v: u64) -> TargetLevel {
        if v == 10 {
            TargetLevel::Shot
        } else if v == 20 {
            TargetLevel::Subtrack
        } else if v == 30 {
            TargetLevel::Track
        } else if v == 40 {
            TargetLevel::Part
        } else if v == 50 {
            TargetLevel::Album
        } else if v == 60 {
            TargetLevel::Edition
        } else if v == 70 {
            TargetLevel::Collection
        } else {
            TargetLevel::Other(v)
        }
    }

    /// The level of a number.
    pub fn from_raw(v: u64) -> (r: TargetLevel)
        ensures
            r == TargetLevel::of_raw(v),
    {
        match v {
            10 => TargetLevel::Shot,
            20 => TargetLevel::Subtrack,
            30 => TargetLevel::Track,
            40 => TargetLevel::Part,
            50 => TargetLevel::Album,
            60 => TargetLevel::Edition,
            70 => TargetLevel::Collection,
            other => TargetLevel::Other(other),
        }
    }

    /// The number of a level.
    pub fn to_raw(self) -> (r: u64)
        ensures
            r == self.raw(),
    {
        match self {
            TargetLevel::Shot => 10,
            TargetLevel::Subtrack => 20,
            TargetLevel::Track => 30,
            TargetLevel::Part => 40,
            TargetLevel::Album => 50,
            TargetLevel::Edition => 60,
            TargetLevel::Collection => 70,
            TargetLevel::Other(v) => v,
        }
    }

    /// The usual name of a level, for one that has a name.
    pub open spec fn label(self) -> Option<Seq<char>> {
        match self {
            TargetLevel::Shot => Some("SHOT"@),
            TargetLevel::Subtrack => Some("SUBTRACK"@),
            TargetLevel::Track => Some("TRACK"@),
            TargetLevel::Part => Some("PART"@),
            TargetLevel::Album => Some("ALBUM"@),
            TargetLevel::Edition => Some("EDITION"@),
            TargetLevel::Collection => Some("COLLECTION"@),
            TargetLevel::Other(_) => None,
        }
    }

    /// The usual name of a level, for one that has a name.
    pub fn canonical_label(self) -> (r: Option<&'static str>)
        ensures
            match r {
                Some(s) => self.label() == Some(s@),
                None => self.label() is None,
            },
    {
        match self {
            TargetLevel::Shot => Some("SHOT"),
            TargetLevel::Subtrack => Some("SUBTRACK"),
            TargetLevel::Track => Some("TRACK"),
            TargetLevel::Part => Some("PART"),
            TargetLevel::Album => Some("ALBUM"),
            TargetLevel::Edition => Some("EDITION"),
            TargetLevel::Collection => Some("COLLECTION"),
            TargetLevel::Other(_) => None,
        }
    }
}

impl TargetLevel {
    /// The place of a level among the others, from the smallest part to the largest whole.
    /// Levels without a name come last.
    pub open spec fn rank(self) -> u8 {
        match self {
            TargetLevel::Shot => 0,
            TargetLevel::Subtrack => 1,
            TargetLevel::Track => 2,
            TargetLevel::Part => 3,
            TargetLevel::Album => 4,
            TargetLevel::Edition => 5,
            TargetLevel::Collection => 6,
            TargetLevel::Other(_) => 7,
        }
    }

    /// Whether a level comes before another one: by their places, and levels without a name
    /// by their numbers.
    pub open spec fn below(self, other: TargetLevel) -> bool {
        self.rank() < other.rank() || (self.rank() == other.rank() && self.raw() < other.raw())
    }

    fn place(self) -> (r: u8)
        ensures
            r == self.rank(),
    {
        match self {
            TargetLevel::Shot => 0,
            TargetLevel::Subtrack => 1,
            TargetLevel::Track => 2,
            TargetLevel::Part => 3,
            TargetLevel::Album => 4,
            TargetLevel::Edition => 5,
            TargetLevel::Collection => 6,
            TargetLevel::Other(_) => 7,
        }
    }
}

impl PartialOrd for TargetLevel {
    fn partial_cmp(&self, other: &TargetLevel) -> (r: Option<Ordering>) {
        let a: u8 = self.place();
        let b: u8 = other.place();
        if a < b {
            Some(Ordering::Less)
        } else if a > b {
            Some(Ordering::Greater)
        } else if self.to_raw() < other.to_raw() {
            Some(Ordering::Less)
        } else if self.to_raw() > other.to_raw() {
            Some(Ordering::Greater)
        } else {
            Some(Ordering::Equal)
        }
    }
}

impl PartialOrdSpecImpl for TargetLevel {
    open spec fn obeys_partial_cmp_spec() -> bool {
        true
    }

    open spec fn partial_cmp_spec(&self, other: &TargetLevel) -> Option<Ordering> {
        if self.below(*other) {
            Some(Ordering::Less)
        } else if other.below(*self) {
            Some(Ordering::Greater)
        } else {
            Some(Ordering::Equal)
        }
    }
}

/// Levels with a name come in the order of their numbers, since the larger of them contain
/// the smaller ones. Every level without a name comes after them.
pub proof fn lemma_levels_nest(a: TargetLevel, b: TargetLevel)
    ensures
        !(a is Other) && !(b is Other) ==> (a.below(b) <==> a.raw() < b.raw()),
        !(a is Other) && b is Other ==> a.below(b),
{
}

/// The levels are in a line: of two of them one comes first unless they are the same, and
/// what comes before one comes before all that follow it.
pub proof fn lemma_levels_in_line(a: TargetLevel, b: TargetLevel, c: TargetLevel)
    ensures
        a.below(b) || b.below(a) || a == b,
        a.below(b) ==> !b.below(a) && a != b,
        a.below(b) && b.below(c) ==> a.below(c),
{
}

/// A level keeps its number, and a number its level; a number that has a level of its own
/// gives that.
pub proof fn lemma_target_level_round_trip(v: u64, x: TargetLevel)
    ensures
        TargetLevel::of_raw(v).raw() == v,
        TargetLevel::of_raw(x.raw()) == x
            || (x is Other && !(TargetLevel::of_raw(x.raw()) is Other)),
{
}

} // verus!
