//! Local-part validation: RFC 5321 atext plus dot rules in strict mode, a
//! simple quoted string additionally accepted in relaxed mode.

use vstd::prelude::*;

verus! {

use crate::strutil::{spec_is_ascii_alphanumeric, is_ascii_alphanumeric_char, spec_contains_sub,
    contains_sub_chars};

/// Characters allowed in a strict local part: ASCII alphanumerics, atext
/// specials and the dot.
pub open spec fn spec_is_local_char(c: char) -> bool {
    spec_is_ascii_alphanumeric(c) || c == '!' || c == '#' || c == '$' || c == '%' || c == '&'
        || c == '\'' || c == '*' || c == '+' || c == '-' || c == '/' || c == '=' || c == '?'
        || c == '^' || c == '_' || c == '`' || c == '{' || c == '|' || c == '}' || c == '~'
        || c == '.'
}

pub fn is_local_char(c: char) -> (r: bool)
    ensures
        r == spec_is_local_char(c),
{
    is_ascii_alphanumeric_char(c) || c == '!' || c == '#' || c == '$' || c == '%' || c == '&'
        || c == '\'' || c == '*' || c == '+' || c == '-' || c == '/' || c == '=' || c == '?'
        || c == '^' || c == '_' || c == '`' || c == '{' || c == '|' || c == '}' || c == '~'
        || c == '.'
}

/// The strict rule: atext characters and dots, with no leading dot, no
/// trailing dot and no empty dot-separated run.
pub open spec fn spec_local_strict(s: Seq<char>) -> bool {
    &&& !(s.len() > 0 && s[0] == '.')
    &&& !(s.len() > 0 && s.last() == '.')
    &&& !spec_contains_sub(s, seq!['.', '.'])
    &&& forall|i: int| 0 <= i < s.len() ==> spec_is_local_char(#[trigger] s[i])
}

/// The relaxed rule: a simple quoted string, or whatever strict accepts.
pub open spec fn spec_local_relaxed(s: Seq<char>) -> bool {
    (s.len() >= 2 && s[0] == '"' && s.last() == '"') || spec_local_strict(s)
}

/// Strict validation of the local part.
pub fn is_local_strict(s: &Vec<char>) -> (r: bool)
    ensures
        r == spec_local_strict(s@),
{
    if s.len() > 0 && (s[0] == '.' || s[s.len() - 1] == '.') {
        return false;
    }
    let mut dots: Vec<char> = Vec::new();
    dots.push('.');
    dots.push('.');
    proof {
        assert(dots@ =~= seq!['.', '.']);
    }
    if contains_sub_chars(s, &dots) {
        return false;
    }
    let mut i: usize = 0;
    while i < s.len()
        invariant
            i <= s@.len(),
            forall|k: int| 0 <= k < i ==> spec_is_local_char(#[trigger] s@[k]),
        decreases s@.len() - i,
    {
        if !is_local_char(s[i]) {
            return false;
        }
        i = i + 1;
    }
    true
}

/// Relaxed validation of the local part.
pub fn is_local_relaxed(s: &Vec<char>) -> (r: bool)
    ensures
        r == spec_local_relaxed(s@),
{
    if s.len() >= 2 && s[0] == '"' && s[s.len() - 1] == '"' {
        true
    } else {
        is_local_strict(s)
    }
}

} // verus!
