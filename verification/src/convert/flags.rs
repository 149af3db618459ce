//! Bitset of boolean properties carried by a listing entry.

use vstd::prelude::*;

verus! {

/// The bit assigned to each flag, fixed by the listing source's encoding.
pub const ANIME_FLAG: u32 = 1;
pub const UNVERIFIED_FLAG: u32 = 2;
pub const EXTERNAL_FLAG: u32 = 4;
pub const MOVIE_FLAG: u32 = 8;
pub const ADULT_FLAG: u32 = 16;

/// Immutable bitset of boolean flags attached to a listing entry.
pub struct EntryFlags(pub u32);

impl EntryFlags {
    pub open spec fn spec_has_flag(self, val: u32) -> bool {
        self.0 & val == val
    }

    pub fn new(flag_value: u32) -> (r: Self)
        ensures
            r.0 == flag_value,
    {
        EntryFlags(flag_value)
    }

    fn has_flag(&self, val: u32) -> (r: bool)
        ensures
            r == self.spec_has_flag(val),
    {
        (self.0 & val) == val
    }

    pub fn is_anime(&self) -> (r: bool)
        ensures
            r == self.spec_has_flag(ANIME_FLAG),
    {
        self.has_flag(ANIME_FLAG)
    }

    pub fn is_unverified(&self) -> (r: bool)
        ensures
            r == self.spec_has_flag(UNVERIFIED_FLAG),
    {
        self.has_flag(UNVERIFIED_FLAG)
    }

    pub fn is_external(&self) -> (r: bool)
        ensures
            r == self.spec_has_flag(EXTERNAL_FLAG),
    {
        self.has_flag(EXTERNAL_FLAG)
    }

    pub fn is_movie(&self) -> (r: bool)
        ensures
            r == self.spec_has_flag(MOVIE_FLAG),
    {
        self.has_flag(MOVIE_FLAG)
    }

    pub fn is_adult(&self) -> (r: bool)
        ensures
            r == self.spec_has_flag(ADULT_FLAG),
    {
        self.has_flag(ADULT_FLAG)
    }
}

} // verus!
