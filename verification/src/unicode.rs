//! Unicode character classification, backed by the `unicode-normalization`
//! and `unicode-script` crates behind trusted wrappers, plus the verified
//! ASCII projection of a decomposition.

use vstd::prelude::*;

verus! {

use crate::spec_is_ascii_char;
use crate::strutil::str_to_chars;

/// Whether `c` is a combining mark, a property of the character alone.
pub uninterp spec fn is_combining_of(c: char) -> bool;

/// Relies on `unicode_normalization::char::is_combining_mark`: the general
/// category of a code point depends on the code point alone.
#[verifier::external_body]
pub fn is_combining_mark_char(c: char) -> (r: bool)
    ensures
        r == is_combining_of(c),
{
    unicode_normalization::char::is_combining_mark(c)
}

/// The compatibility decomposition (NFKD) of one character, a property of the
/// character alone.
pub uninterp spec fn nfkd_of(c: char) -> Seq<char>;

/// Relies on `unicode_normalization`'s `nfkd` (UAX #15): the compatibility
/// decomposition of a single character depends on the character alone.
#[verifier::external_body]
pub fn nfkd_char(c: char) -> (r: String)
    ensures
        r@ == nfkd_of(c),
{
    let s: String = c.to_string();
    unicode_normalization::UnicodeNormalization::nfkd(s.as_str()).collect()
}

/// The Script property of `c` when it is a specific script; `None` for the
/// Common, Inherited and Unknown values. Distinct codes mean distinct scripts.
pub uninterp spec fn major_script_of(c: char) -> Option<u32>;

/// Relies on `unicode_script`'s `UnicodeScript::script` (UAX #24): the script
/// of a code point depends on the code point alone. Common, Inherited and
/// Unknown are mapped to `None`; other scripts keep their distinct values.
#[verifier::external_body]
pub fn major_script_code(c: char) -> (r: Option<u32>)
    ensures
        r == major_script_of(c),
{
    match unicode_script::UnicodeScript::script(&c) {
        unicode_script::Script::Common => None,
        unicode_script::Script::Inherited => None,
        unicode_script::Script::Unknown => None,
        s => Some(s as u32),
    }
}

/// The ASCII, non-combining characters of `s`, in order.
pub open spec fn spec_keep_ascii_noncombining(s: Seq<char>) -> Seq<char>
    decreases s.len(),
{
    if s.len() == 0 {
        Seq::<char>::empty()
    } else if !is_combining_of(s.last()) && spec_is_ascii_char(s.last()) {
        spec_keep_ascii_noncombining(s.drop_last()).push(s.last())
    } else {
        spec_keep_ascii_noncombining(s.drop_last())
    }
}

/// The ASCII projection of the compatibility decomposition of `c`: its NFKD
/// decomposition with combining marks and non-ASCII characters removed.
pub open spec fn spec_nfkd_ascii(c: char) -> Seq<char> {
    spec_keep_ascii_noncombining(nfkd_of(c))
}

/// Compute the ASCII projection of the decomposition of `c`.
pub fn nfkd_ascii(c: char) -> (r: Vec<char>)
    ensures
        r@ == spec_nfkd_ascii(c),
{
    let decomposed = nfkd_char(c);
    let chars = str_to_chars(decomposed.as_str());
    let mut out: Vec<char> = Vec::new();
    let mut i: usize = 0;
    proof {
        assert(chars@.take(0) =~= Seq::<char>::empty());
        assert(out@ =~= spec_keep_ascii_noncombining(chars@.take(0)));
    }
    while i < chars.len()
        invariant
            i <= chars@.len(),
            chars@ == nfkd_of(c),
            out@ == spec_keep_ascii_noncombining(chars@.take(i as int)),
        decreases chars@.len() - i,
    {
        let d = chars[i];
        let keep = !is_combining_mark_char(d) && (d as u32) < 128;
        if keep {
            out.push(d);
        }
        i = i + 1;
        proof {
            let t = chars@.take(i as int);
            assert(t.drop_last() =~= chars@.take(i - 1));
            assert(t.last() == chars@[i - 1]);
        }
    }
    proof {
        assert(chars@.take(chars@.len() as int) =~= chars@);
    }
    out
}

} // verus!
