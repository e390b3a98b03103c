//! Capabilities and regions are closed enumerations compiled to fixed-width
//! bitmasks.  Mask generation (from strings) and matching live together here
//! so the two are extended in one place.

use vstd::prelude::*;

verus! {

use crate::text::lower_eq;
use crate::text::eq_ignore_case;

pub const CAP_TEXT: u32 = 1;

pub const CAP_VISION: u32 = 2;

pub const CAP_TOOLS: u32 = 4;

pub const CAP_JSON: u32 = 8;

pub const CAP_STRUCTURED: u32 = 16;

pub const CAP_PROMPT_CACHE: u32 = 32;

pub const REGION_GLOBAL: u32 = 1;

pub const REGION_EU: u32 = 2;

pub const REGION_US: u32 = 4;

pub const REGION_APAC: u32 = 8;

pub const REGION_EDGE: u32 = 16;

pub const REGION_ALL: u32 = 31;

/// The capability bit a name stands for, compared ignoring ASCII case;
/// unknown names contribute nothing.
pub open spec fn cap_of_name(s: Seq<char>) -> u32 {
    if lower_eq(s, "text"@) {
        CAP_TEXT
    } else if lower_eq(s, "vision"@) {
        CAP_VISION
    } else if lower_eq(s, "tools"@) {
        CAP_TOOLS
    } else if lower_eq(s, "json"@) || lower_eq(s, "json_mode"@) {
        CAP_JSON
    } else if lower_eq(s, "structured"@) || lower_eq(s, "structured_output"@) {
        CAP_STRUCTURED
    } else if lower_eq(s, "prompt_cache"@) {
        CAP_PROMPT_CACHE
    } else {
        0
    }
}

fn cap_from_str(s: &str) -> (r: u32)
    ensures
        r == cap_of_name(s@),
{
    if eq_ignore_case(s, "text") {
        CAP_TEXT
    } else if eq_ignore_case(s, "vision") {
        CAP_VISION
    } else if eq_ignore_case(s, "tools") {
        CAP_TOOLS
    } else if eq_ignore_case(s, "json") || eq_ignore_case(s, "json_mode") {
        CAP_JSON
    } else if eq_ignore_case(s, "structured") || eq_ignore_case(s, "structured_output") {
        CAP_STRUCTURED
    } else if eq_ignore_case(s, "prompt_cache") {
        CAP_PROMPT_CACHE
    } else {
        0
    }
}

/// Union of the capability bits named by a list.
pub open spec fn caps_of_names(vs: Seq<String>) -> u32
    decreases vs.len(),
{
    if vs.len() == 0 {
        0u32
    } else {
        caps_of_names(vs.drop_last()) | cap_of_name(vs.last()@)
    }
}

/// Compile capability names to a bitmask.
pub fn caps_from_strings(values: &Vec<String>) -> (r: u32)
    ensures
        r == caps_of_names(values@),
{
    let mut mask: u32 = 0;
    let mut i: usize = 0;
    while i < values.len()
        invariant
            i <= values@.len(),
            mask == caps_of_names(values@.subrange(0, i as int)),
        decreases values@.len() - i,
    {
        proof {
            assert(values@.subrange(0, i + 1).drop_last() =~= values@.subrange(0, i as int));
            assert(values@.subrange(0, i + 1).last() == values@[i as int]);
        }
        mask = mask | cap_from_str(values[i].as_str());
        i = i + 1;
    }
    proof {
        assert(values@.subrange(0, values@.len() as int) =~= values@);
    }
    mask
}

/// The region bit a name stands for, compared ignoring ASCII case; unknown
/// names fold into the global region.
pub open spec fn region_of_name(s: Seq<char>) -> u32 {
    if lower_eq(s, "eu"@) || lower_eq(s, "eu-west-1"@) {
        REGION_EU
    } else if lower_eq(s, "us"@) || lower_eq(s, "us-east-1"@) || lower_eq(s, "useast"@) {
        REGION_US
    } else if lower_eq(s, "apac"@) || lower_eq(s, "ap-southeast-1"@) {
        REGION_APAC
    } else if lower_eq(s, "edge"@) {
        REGION_EDGE
    } else {
        REGION_GLOBAL
    }
}

/// Compile one region name to its bit.
pub fn region_from_str(s: &str) -> (r: u32)
    ensures
        r == region_of_name(s@),
{
    if eq_ignore_case(s, "eu") || eq_ignore_case(s, "eu-west-1") {
        REGION_EU
    } else if eq_ignore_case(s, "us") || eq_ignore_case(s, "us-east-1") || eq_ignore_case(
        s,
        "useast",
    ) {
        REGION_US
    } else if eq_ignore_case(s, "apac") || eq_ignore_case(s, "ap-southeast-1") {
        REGION_APAC
    } else if eq_ignore_case(s, "edge") {
        REGION_EDGE
    } else {
        REGION_GLOBAL
    }
}

/// Union of the region bits named by a list.
pub open spec fn regions_of_names(vs: Seq<String>) -> u32
    decreases vs.len(),
{
    if vs.len() == 0 {
        0u32
    } else {
        regions_of_names(vs.drop_last()) | region_of_name(vs.last()@)
    }
}

/// Compile region names to a bitmask.
pub fn regions_from_strings(values: &Vec<String>) -> (r: u32)
    ensures
        r == regions_of_names(values@),
{
    let mut mask: u32 = 0;
    let mut i: usize = 0;
    while i < values.len()
        invariant
            i <= values@.len(),
            mask == regions_of_names(values@.subrange(0, i as int)),
        decreases values@.len() - i,
    {
        proof {
            assert(values@.subrange(0, i + 1).drop_last() =~= values@.subrange(0, i as int));
            assert(values@.subrange(0, i + 1).last() == values@[i as int]);
        }
        mask = mask | region_from_str(values[i].as_str());
        i = i + 1;
    }
    proof {
        assert(values@.subrange(0, values@.len() as int) =~= values@);
    }
    mask
}

/// `sup` has every bit of `sub`.
pub open spec fn mask_contains(sup: u32, sub: u32) -> bool {
    sup & sub == sub
}

/// The two masks share a bit.
pub open spec fn mask_intersects(a: u32, b: u32) -> bool {
    a & b != 0
}

pub fn contains_mask(sup: u32, sub: u32) -> (r: bool)
    ensures
        r == mask_contains(sup, sub),
{
    sup & sub == sub
}

pub fn intersects_mask(a: u32, b: u32) -> (r: bool)
    ensures
        r == mask_intersects(a, b),
{
    a & b != 0
}


/// Lists equal name for name compile to the same capability mask.
pub proof fn lemma_caps_of_names_eqv(a: Seq<String>, b: Seq<String>)
    requires
        a.len() == b.len(),
        forall|i: int| 0 <= i < a.len() ==> (#[trigger] a[i])@ == b[i]@,
    ensures
        caps_of_names(a) == caps_of_names(b),
    decreases a.len(),
{
    if a.len() > 0 {
        assert(forall|i: int|
            0 <= i < a.drop_last().len() ==> (#[trigger] a.drop_last()[i])@ == b.drop_last()[i]@);
        lemma_caps_of_names_eqv(a.drop_last(), b.drop_last());
        assert(a.last()@ == b.last()@);
    }
}

} // verus!
