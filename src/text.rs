//! Name text: NUL-terminated UTF-16 code units and their decoding.
use vstd::prelude::*;
use vstd::utf8::{valid_utf8, decode_utf8};

verus! {

/// The characters that lossy UTF-16 decoding gives for `units` (ill-formed
/// surrogates become U+FFFD).
pub uninterp spec fn utf16_lossy(units: Seq<u16>) -> Seq<char>;

/// The characters of `s` in lower case, as Unicode defines it.
pub uninterp spec fn lower_of(s: Seq<char>) -> Seq<char>;

/// The characters of `s` without its trailing white space, as Unicode defines it.
pub uninterp spec fn trim_end_of(s: Seq<char>) -> Seq<char>;

/// Relies on `String::from_utf8`: valid UTF-8 gives the characters it encodes,
/// anything else gives an error.
#[verifier::external_body]
pub(crate) fn utf8_string(bytes: Vec<u8>) -> (r: Option<String>)
    ensures
        r is Some <==> valid_utf8(bytes@),
        r matches Some(s) ==> s@ == decode_utf8(bytes@),
{
    String::from_utf8(bytes).ok()
}

/// Relies on `str::trim_end`: its result depends on the characters alone.
#[verifier::external_body]
pub(crate) fn trim_end(s: &str) -> (r: String)
    ensures
        r@ == trim_end_of(s@),
{
    s.trim_end().to_owned()
}

/// Relies on `String::from_utf16_lossy`: its result depends on the code units alone,
/// and no units give the empty string.
#[verifier::external_body]
pub(crate) fn decode_utf16(units: &[u16]) -> (r: String)
    ensures
        r@ == utf16_lossy(units@),
        units@.len() == 0 ==> r@.len() == 0,
{
    String::from_utf16_lossy(units)
}

/// Relies on `str::to_lowercase`: its result depends on the characters alone, and
/// the empty string stays empty.
#[verifier::external_body]
pub(crate) fn lowercase(s: &str) -> (r: String)
    ensures
        r@ == lower_of(s@),
        s@.len() == 0 ==> r@.len() == 0,
{
    s.to_lowercase()
}

/// The position of the first U+0000 in `s`, or its length when there is none.
pub open spec fn nul_pos(s: Seq<u16>) -> nat
    decreases s.len(),
{
    if s.len() == 0 {
        0
    } else if s[0] == 0 {
        0
    } else {
        1 + nul_pos(s.drop_first())
    }
}

/// The code units before the first U+0000.
pub open spec fn until_nul(s: Seq<u16>) -> Seq<u16> {
    s.take(nul_pos(s) as int)
}

proof fn lemma_nul_pos(s: Seq<u16>, k: int)
    requires
        0 <= k <= s.len(),
        forall|j: int| 0 <= j < k ==> s[j] != 0,
        k < s.len() ==> s[k] == 0,
    ensures
        nul_pos(s) == k,
    decreases s.len(),
{
    if s.len() > 0 && s[0] != 0 {
        let t = s.drop_first();
        assert forall|j: int| 0 <= j < k - 1 implies t[j] != 0 by {
            assert(t[j] == s[j + 1]);
        }
        if k - 1 < t.len() {
            assert(t[k - 1] == s[k]);
        }
        lemma_nul_pos(t, k - 1);
    }
}

/// `units` up to, and without, the first U+0000.
pub fn take_until_nul(units: &[u16]) -> (r: Vec<u16>)
    ensures
        r@ == until_nul(units@),
{
    let n = units.len();
    let mut i: usize = 0;
    while i < n && units[i] != 0
        invariant
            i <= n,
            n == units@.len(),
            forall|j: int| 0 <= j < i ==> units@[j] != 0,
        decreases n - i,
    {
        i += 1;
    }
    proof {
        lemma_nul_pos(units@, i as int);
    }
    let mut r: Vec<u16> = Vec::new();
    let mut k: usize = 0;
    while k < i
        invariant
            k <= i <= n,
            n == units@.len(),
            r@ == units@.take(k as int),
        decreases i - k,
    {
        r.push(units[k]);
        k += 1;
        assert(r@ =~= units@.take(k as int));
    }
    r
}

/// Decodes NUL-terminated UTF-16 code units.
pub fn decode_name(units: &[u16]) -> (r: String)
    ensures
        r@ == utf16_lossy(until_nul(units@)),
{
    let t = take_until_nul(units);
    decode_utf16(t.as_slice())
}

} // verus!
