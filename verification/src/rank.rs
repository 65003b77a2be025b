//! The ladder of ranked tiers.

use vstd::prelude::*;
use crate::text::{ascii_upper_is, to_ascii_upper};

verus! {

/// A ranked tier, lowest first.
#[derive(Clone, Copy, Debug, PartialEq, Eq, Structural)]
#[allow(non_camel_case_types)]
pub enum Tier {
    IRON,
    BRONZE,
    SILVER,
    GOLD,
    PLATINUM,
    EMERALD,
    DIAMOND,
    MASTER,
    GRANDMASTER,
    CHALLENGER,
}

/// The position of a tier on the ladder, `0` for the lowest.
pub open spec fn tier_rank(t: Tier) -> int {
    match t {
        Tier::IRON => 0,
        Tier::BRONZE => 1,
        Tier::SILVER => 2,
        Tier::GOLD => 3,
        Tier::PLATINUM => 4,
        Tier::EMERALD => 5,
        Tier::DIAMOND => 6,
        Tier::MASTER => 7,
        Tier::GRANDMASTER => 8,
        Tier::CHALLENGER => 9,
    }
}

pub fn tier_order(t: Tier) -> (r: i32)
    ensures
        r == tier_rank(t),
{
    match t {
        Tier::IRON => 0,
        Tier::BRONZE => 1,
        Tier::SILVER => 2,
        Tier::GOLD => 3,
        Tier::PLATINUM => 4,
        Tier::EMERALD => 5,
        Tier::DIAMOND => 6,
        Tier::MASTER => 7,
        Tier::GRANDMASTER => 8,
        Tier::CHALLENGER => 9,
    }
}

/// The upper-case name under which the provider reports a tier.
pub open spec fn tier_name(t: Tier) -> Seq<char> {
    match t {
        Tier::IRON => "IRON"@,
        Tier::BRONZE => "BRONZE"@,
        Tier::SILVER => "SILVER"@,
        Tier::GOLD => "GOLD"@,
        Tier::PLATINUM => "PLATINUM"@,
        Tier::EMERALD => "EMERALD"@,
        Tier::DIAMOND => "DIAMOND"@,
        Tier::MASTER => "MASTER"@,
        Tier::GRANDMASTER => "GRANDMASTER"@,
        Tier::CHALLENGER => "CHALLENGER"@,
    }
}

/// The tier that an upper-case name stands for, if it names one.
pub open spec fn tier_named(name: Seq<char>) -> Option<Tier> {
    if name == "IRON"@ {
        Some(Tier::IRON)
    } else if name == "BRONZE"@ {
        Some(Tier::BRONZE)
    } else if name == "SILVER"@ {
        Some(Tier::SILVER)
    } else if name == "GOLD"@ {
        Some(Tier::GOLD)
    } else if name == "PLATINUM"@ {
        Some(Tier::PLATINUM)
    } else if name == "EMERALD"@ {
        Some(Tier::EMERALD)
    } else if name == "DIAMOND"@ {
        Some(Tier::DIAMOND)
    } else if name == "MASTER"@ {
        Some(Tier::MASTER)
    } else if name == "GRANDMASTER"@ {
        Some(Tier::GRANDMASTER)
    } else if name == "CHALLENGER"@ {
        Some(Tier::CHALLENGER)
    } else {
        None
    }
}

/// The tier one step up; the highest tier stays where it is.
pub open spec fn tier_above(t: Tier) -> Tier {
    match t {
        Tier::IRON => Tier::BRONZE,
        Tier::BRONZE => Tier::SILVER,
        Tier::SILVER => Tier::GOLD,
        Tier::GOLD => Tier::PLATINUM,
        Tier::PLATINUM => Tier::EMERALD,
        Tier::EMERALD => Tier::DIAMOND,
        Tier::DIAMOND => Tier::MASTER,
        Tier::MASTER => Tier::GRANDMASTER,
        Tier::GRANDMASTER => Tier::CHALLENGER,
        Tier::CHALLENGER => Tier::CHALLENGER,
    }
}

/// The tier one step down; the lowest tier stays where it is.
pub open spec fn tier_below(t: Tier) -> Tier {
    match t {
        Tier::IRON => Tier::IRON,
        Tier::BRONZE => Tier::IRON,
        Tier::SILVER => Tier::BRONZE,
        Tier::GOLD => Tier::SILVER,
        Tier::PLATINUM => Tier::GOLD,
        Tier::EMERALD => Tier::PLATINUM,
        Tier::DIAMOND => Tier::EMERALD,
        Tier::MASTER => Tier::DIAMOND,
        Tier::GRANDMASTER => Tier::MASTER,
        Tier::CHALLENGER => Tier::GRANDMASTER,
    }
}

impl Tier {
    /// Reads a tier from its name, whatever the case of its ASCII letters.
    pub fn from_str(s: &str) -> (r: Option<Tier>)
        ensures
            r == tier_named(to_ascii_upper(s@)),
    {
        if ascii_upper_is(s, "IRON") {
            Some(Tier::IRON)
        } else if ascii_upper_is(s, "BRONZE") {
            Some(Tier::BRONZE)
        } else if ascii_upper_is(s, "SILVER") {
            Some(Tier::SILVER)
        } else if ascii_upper_is(s, "GOLD") {
            Some(Tier::GOLD)
        } else if ascii_upper_is(s, "PLATINUM") {
            Some(Tier::PLATINUM)
        } else if ascii_upper_is(s, "EMERALD") {
            Some(Tier::EMERALD)
        } else if ascii_upper_is(s, "DIAMOND") {
            Some(Tier::DIAMOND)
        } else if ascii_upper_is(s, "MASTER") {
            Some(Tier::MASTER)
        } else if ascii_upper_is(s, "GRANDMASTER") {
            Some(Tier::GRANDMASTER)
        } else if ascii_upper_is(s, "CHALLENGER") {
            Some(Tier::CHALLENGER)
        } else {
            None
        }
    }

    /// The upper-case name of the tier.
    pub fn to_str(&self) -> (r: &'static str)
        ensures
            r@ == tier_name(*self),
    {
        match self {
            Tier::IRON => "IRON",
            Tier::BRONZE => "BRONZE",
            Tier::SILVER => "SILVER",
            Tier::GOLD => "GOLD",
            Tier::PLATINUM => "PLATINUM",
            Tier::EMERALD => "EMERALD",
            Tier::DIAMOND => "DIAMOND",
            Tier::MASTER => "MASTER",
            Tier::GRANDMASTER => "GRANDMASTER",
            Tier::CHALLENGER => "CHALLENGER",
        }
    }
}

pub fn next_tier(t: Tier) -> (r: Tier)
    ensures
        r == tier_above(t),
{
    match t {
        Tier::IRON => Tier::BRONZE,
        Tier::BRONZE => Tier::SILVER,
        Tier::SILVER => Tier::GOLD,
        Tier::GOLD => Tier::PLATINUM,
        Tier::PLATINUM => Tier::EMERALD,
        Tier::EMERALD => Tier::DIAMOND,
        Tier::DIAMOND => Tier::MASTER,
        Tier::MASTER => Tier::GRANDMASTER,
        Tier::GRANDMASTER => Tier::CHALLENGER,
        Tier::CHALLENGER => Tier::CHALLENGER,
    }
}

pub fn prev_tier(t: Tier) -> (r: Tier)
    ensures
        r == tier_below(t),
{
    match t {
        Tier::IRON => Tier::IRON,
        Tier::BRONZE => Tier::IRON,
        Tier::SILVER => Tier::BRONZE,
        Tier::GOLD => Tier::SILVER,
        Tier::PLATINUM => Tier::GOLD,
        Tier::EMERALD => Tier::PLATINUM,
        Tier::DIAMOND => Tier::EMERALD,
        Tier::MASTER => Tier::DIAMOND,
        Tier::GRANDMASTER => Tier::MASTER,
        Tier::CHALLENGER => Tier::GRANDMASTER,
    }
}

/// A step up raises the rank by one, except at the top of the ladder; a step
/// down lowers it by one, except at the bottom.
pub proof fn lemma_steps_move_one_rank(t: Tier)
    ensures
        tier_rank(tier_above(t)) == if t == Tier::CHALLENGER { 9 } else { tier_rank(t) + 1 },
        tier_rank(tier_below(t)) == if t == Tier::IRON { 0 } else { tier_rank(t) - 1 },
        t != Tier::CHALLENGER ==> tier_below(tier_above(t)) == t,
        t != Tier::IRON ==> tier_above(tier_below(t)) == t,
{
}

/// Two tiers of the same rank are the same tier.
pub proof fn lemma_rank_identifies_tier(a: Tier, b: Tier)
    requires
        tier_rank(a) == tier_rank(b),
    ensures
        a == b,
{
}

/// Reading the name that a tier writes gives the tier back.
pub proof fn lemma_name_round_trip(t: Tier)
    ensures
        tier_named(to_ascii_upper(tier_name(t))) == Some(t),
{
    reveal_strlit("IRON");
    reveal_strlit("BRONZE");
    reveal_strlit("SILVER");
    reveal_strlit("GOLD");
    reveal_strlit("PLATINUM");
    reveal_strlit("EMERALD");
    reveal_strlit("DIAMOND");
    reveal_strlit("MASTER");
    reveal_strlit("GRANDMASTER");
    reveal_strlit("CHALLENGER");
    assert(to_ascii_upper(tier_name(t)) =~= tier_name(t));
    assert("IRON"@.len() == 4 && "IRON"@[0] == 'I');
    assert("BRONZE"@.len() == 6 && "BRONZE"@[0] == 'B');
    assert("SILVER"@.len() == 6 && "SILVER"@[0] == 'S');
    assert("GOLD"@.len() == 4 && "GOLD"@[0] == 'G');
    assert("PLATINUM"@.len() == 8 && "PLATINUM"@[0] == 'P');
    assert("EMERALD"@.len() == 7 && "EMERALD"@[0] == 'E');
    assert("DIAMOND"@.len() == 7 && "DIAMOND"@[0] == 'D');
    assert("MASTER"@.len() == 6 && "MASTER"@[0] == 'M');
    assert("GRANDMASTER"@.len() == 11);
    assert("CHALLENGER"@.len() == 10);
}

} // verus!
