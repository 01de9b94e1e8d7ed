//! What the host's switch values mean: a hierarchy-cut pin named by text, and feature switches
//! that only the word `off` turns off.
use vstd::prelude::*;
use vstd::string::StringSliceAdditionalSpecFns;
use super::{SCENE_CUT_AUTO, SCENE_CUT_FORCE_COARSE, SCENE_CUT_FORCE_FINE};

verus! {

/// Whether two byte strings are equal.
fn same_bytes(a: &[u8], b: &[u8]) -> (r: bool)
    ensures
        r == (a@ == b@),
{
    if a.len() != b.len() {
        return false;
    }
    let mut i: usize = 0;
    while i < a.len()
        invariant
            i <= a@.len(),
            a@.len() == b@.len(),
            forall|k: int| 0 <= k < i ==> a@[k] == b@[k],
        decreases a.len() - i,
    {
        if a[i] != b[i] {
            return false;
        }
        i = i + 1;
    }
    assert(a@ =~= b@);
    true
}

/// Whether `value` is exactly the text `expected`.
pub fn text_is(value: &str, expected: &str) -> (r: bool)
    ensures
        r == (value@ == expected@),
{
    let r = same_bytes(value.as_bytes(), expected.as_bytes());
    proof {
        vstd::utf8::encode_utf8_decode_utf8(value@);
        vstd::utf8::encode_utf8_decode_utf8(expected@);
        assert(value.spec_bytes() == vstd::utf8::encode_utf8(value@));
        assert(expected.spec_bytes() == vstd::utf8::encode_utf8(expected@));
    }
    r
}

/// The cut pin a host value names: `coarse` pins the coarse cut, `fine` the fine cut, and
/// anything else, or no value, leaves the cut to projected error.
pub open spec fn spec_cut_override_from(value: Option<Seq<char>>) -> u32 {
    match value {
        Some(s) => if s == "coarse"@ {
            SCENE_CUT_FORCE_COARSE
        } else if s == "fine"@ {
            SCENE_CUT_FORCE_FINE
        } else {
            SCENE_CUT_AUTO
        },
        None => SCENE_CUT_AUTO,
    }
}

/// The hierarchy-cut pin a host value asks for.
pub fn cut_override_from(value: Option<&str>) -> (r: u32)
    ensures
        r == spec_cut_override_from(
            match value {
                Some(s) => Some(s@),
                None => None,
            },
        ),
{
    match value {
        Some(s) => if text_is(s, "coarse") {
            SCENE_CUT_FORCE_COARSE
        } else if text_is(s, "fine") {
            SCENE_CUT_FORCE_FINE
        } else {
            SCENE_CUT_AUTO
        },
        None => SCENE_CUT_AUTO,
    }
}

/// Whether a feature switch leaves its feature on: every value but `off`, and no value.
pub fn switch_on(value: Option<&str>) -> (r: bool)
    ensures
        r == !(value matches Some(s) && s@ == "off"@),
{
    match value {
        Some(s) => !text_is(s, "off"),
        None => true,
    }
}

} // verus!
