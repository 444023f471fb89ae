//! The leveling engine: a pure, total map from cumulative experience points
//! to a level number and its display name, over six contiguous bands.

use vstd::prelude::*;

verus! {

/// Level for a given amount of experience points: six bands with
/// inclusive lower edges at 0, 100, 200, 300, 400 and 500.
pub open spec fn spec_level(xp: int) -> int {
    if xp >= 500 {
        6
    } else if xp >= 400 {
        5
    } else if xp >= 300 {
        4
    } else if xp >= 200 {
        3
    } else if xp >= 100 {
        2
    } else {
        1
    }
}

/// Display name of the band a given amount of experience points falls in.
pub open spec fn spec_level_name(xp: int) -> Seq<char> {
    if xp >= 500 {
        "전문가"@
    } else if xp >= 400 {
        "숙련자"@
    } else if xp >= 300 {
        "중급자"@
    } else if xp >= 200 {
        "초보자"@
    } else if xp >= 100 {
        "입문자"@
    } else {
        "관심인"@
    }
}

/// Compute level and level name from experience points.
pub fn compute_level(xp: i64) -> (r: (i64, &'static str))
    ensures
        r.0 == spec_level(xp as int),
        r.1@ == spec_level_name(xp as int),
{
    if xp >= 500 {
        (6, "전문가")
    } else if xp >= 400 {
        (5, "숙련자")
    } else if xp >= 300 {
        (4, "중급자")
    } else if xp >= 200 {
        (3, "초보자")
    } else if xp >= 100 {
        (2, "입문자")
    } else {
        (1, "관심인")
    }
}

/// Every non-negative amount of experience points falls in exactly one band,
/// and band boundaries are inclusive on the lower edge.
pub proof fn lemma_level_bands(xp: int)
    requires
        xp >= 0,
    ensures
        0 <= xp < 100 ==> spec_level(xp) == 1 && spec_level_name(xp) == "관심인"@,
        100 <= xp < 200 ==> spec_level(xp) == 2 && spec_level_name(xp) == "입문자"@,
        200 <= xp < 300 ==> spec_level(xp) == 3 && spec_level_name(xp) == "초보자"@,
        300 <= xp < 400 ==> spec_level(xp) == 4 && spec_level_name(xp) == "중급자"@,
        400 <= xp < 500 ==> spec_level(xp) == 5 && spec_level_name(xp) == "숙련자"@,
        xp >= 500 ==> spec_level(xp) == 6 && spec_level_name(xp) == "전문가"@,
        1 <= spec_level(xp) <= 6,
{
}

} // verus!
