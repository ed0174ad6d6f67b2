//! Verified helpers over characters, strings and character sequences:
//! case folding, trimming, splitting, joining and number formatting.

use vstd::prelude::*;

verus! {

use crate::spec_is_ascii_char;

// ---------------------------------------------------------------------------
// The one trusted bridge to a std string primitive vstd does not specify.
// ---------------------------------------------------------------------------

/// Relies on `String::push`: appends exactly the given character.
pub assume_specification[ String::push ](s: &mut String, c: char)
    ensures
        final(s)@ == old(s)@.push(c),
;

/// Whether two string slices have exactly the same characters.
pub fn str_eq(a: &str, b: &str) -> (r: bool)
    ensures
        r == (a@ == b@),
{
    let ac = str_to_chars(a);
    let bc = str_to_chars(b);
    if ac.len() != bc.len() {
        proof {
            assert(a@.len() != b@.len());
        }
        return false;
    }
    let mut i: usize = 0;
    while i < ac.len()
        invariant
            i <= ac@.len(),
            ac@ == a@,
            bc@ == b@,
            ac@.len() == bc@.len(),
            forall|k: int| 0 <= k < i ==> ac@[k] == bc@[k],
        decreases ac@.len() - i,
    {
        if ac[i] != bc[i] {
            return false;
        }
        i = i + 1;
    }
    proof {
        assert(a@ =~= b@);
    }
    true
}

// ---------------------------------------------------------------------------
// Character predicates and case folding
// ---------------------------------------------------------------------------

/// The Unicode `White_Space` code points (the set used by `char::is_whitespace`).
pub open spec fn spec_is_ws(c: char) -> bool {
    let u = c as u32;
    (9 <= u && u <= 13) || u == 32 || u == 0x85 || u == 0xA0 || u == 0x1680 || (0x2000 <= u
        && u <= 0x200A) || u == 0x2028 || u == 0x2029 || u == 0x202F || u == 0x205F || u == 0x3000
}

pub fn is_ws_char(c: char) -> (r: bool)
    ensures
        r == spec_is_ws(c),
{
    let u = c as u32;
    (9 <= u && u <= 13) || u == 32 || u == 0x85 || u == 0xA0 || u == 0x1680 || (0x2000 <= u
        && u <= 0x200A) || u == 0x2028 || u == 0x2029 || u == 0x202F || u == 0x205F || u == 0x3000
}

/// ASCII lower-casing of a single character.
pub open spec fn spec_lower_char(c: char) -> char {
    if 65 <= c as u32 && c as u32 <= 90 {
        (((c as u32) + 32) as u8) as char
    } else {
        c
    }
}

pub fn lower_char(c: char) -> (r: char)
    ensures
        r == spec_lower_char(c),
{
    let u = c as u32;
    if 65 <= u && u <= 90 {
        ((u + 32) as u8) as char
    } else {
        c
    }
}

/// ASCII lower-casing of a character sequence.
pub open spec fn spec_lower(s: Seq<char>) -> Seq<char> {
    s.map_values(|c: char| spec_lower_char(c))
}

pub open spec fn spec_is_ascii_digit(c: char) -> bool {
    48 <= c as u32 && c as u32 <= 57
}

pub open spec fn spec_is_ascii_alphanumeric(c: char) -> bool {
    spec_is_ascii_digit(c) || (65 <= c as u32 && c as u32 <= 90) || (97 <= c as u32 && c as u32
        <= 122)
}

pub fn is_ascii_digit_char(c: char) -> (r: bool)
    ensures
        r == spec_is_ascii_digit(c),
{
    let u = c as u32;
    48 <= u && u <= 57
}

pub fn is_ascii_alphanumeric_char(c: char) -> (r: bool)
    ensures
        r == spec_is_ascii_alphanumeric(c),
{
    let u = c as u32;
    (48 <= u && u <= 57) || (65 <= u && u <= 90) || (97 <= u && u <= 122)
}

// ---------------------------------------------------------------------------
// Conversions between &str, String and Vec<char>
// ---------------------------------------------------------------------------

/// Collect the characters of a string slice into a vector.
pub fn str_to_chars(s: &str) -> (r: Vec<char>)
    ensures
        r@ == s@,
{
    let n = s.unicode_len();
    let mut r: Vec<char> = Vec::new();
    let mut i: usize = 0;
    while i < n
        invariant
            i <= n,
            n == s@.len(),
            r@ == s@.take(i as int),
        decreases n - i,
    {
        r.push(s.get_char(i));
        i = i + 1;
        proof {
            assert(r@ =~= s@.take(i as int));
        }
    }
    proof {
        assert(r@ =~= s@);
    }
    r
}

/// Build a string from a vector of characters.
pub fn chars_to_string(v: &Vec<char>) -> (r: String)
    ensures
        r@ == v@,
{
    let mut r = String::new();
    let mut i: usize = 0;
    while i < v.len()
        invariant
            i <= v@.len(),
            r@ == v@.take(i as int),
        decreases v@.len() - i,
    {
        r.push(v[i]);
        i = i + 1;
        proof {
            assert(r@ =~= v@.take(i as int));
        }
    }
    proof {
        assert(r@ =~= v@);
    }
    r
}

/// Append every character of `v` to `out`.
pub fn push_chars(out: &mut String, v: &Vec<char>)
    ensures
        final(out)@ == old(out)@ + v@,
{
    let mut i: usize = 0;
    while i < v.len()
        invariant
            i <= v@.len(),
            out@ == old(out)@ + v@.take(i as int),
        decreases v@.len() - i,
    {
        out.push(v[i]);
        i = i + 1;
        proof {
            assert(out@ =~= old(out)@ + v@.take(i as int));
        }
    }
    proof {
        assert(old(out)@ + v@.take(v@.len() as int) =~= old(out)@ + v@);
    }
}

/// ASCII lower-case a whole string.
pub fn lower_string(s: &str) -> (r: String)
    ensures
        r@ == spec_lower(s@),
{
    let n = s.unicode_len();
    let mut r = String::new();
    let mut i: usize = 0;
    while i < n
        invariant
            i <= n,
            n == s@.len(),
            r@ == spec_lower(s@.take(i as int)),
        decreases n - i,
    {
        r.push(lower_char(s.get_char(i)));
        i = i + 1;
        proof {
            assert(r@ =~= spec_lower(s@.take(i as int)));
        }
    }
    proof {
        assert(spec_lower(s@.take(n as int)) =~= spec_lower(s@));
        assert(r@ =~= spec_lower(s@));
    }
    r
}


// ---------------------------------------------------------------------------
// Trimming
// ---------------------------------------------------------------------------

/// `s` without its leading whitespace.
pub open spec fn spec_trim_start(s: Seq<char>) -> Seq<char>
    decreases s.len(),
{
    if s.len() > 0 && spec_is_ws(s[0]) {
        spec_trim_start(s.drop_first())
    } else {
        s
    }
}

/// `s` without its trailing whitespace.
pub open spec fn spec_trim_end(s: Seq<char>) -> Seq<char>
    decreases s.len(),
{
    if s.len() > 0 && spec_is_ws(s.last()) {
        spec_trim_end(s.drop_last())
    } else {
        s
    }
}

/// `s` without leading and trailing whitespace, as `str::trim` yields it.
pub open spec fn spec_trim(s: Seq<char>) -> Seq<char> {
    spec_trim_end(spec_trim_start(s))
}

proof fn lemma_trim_start_skip(s: Seq<char>, k: int)
    requires
        0 <= k <= s.len(),
        forall|i: int| 0 <= i < k ==> spec_is_ws(s[i]),
        k == s.len() || !spec_is_ws(s[k]),
    ensures
        spec_trim_start(s) == s.skip(k),
    decreases k,
{
    if k == 0 {
        assert(s.skip(0) =~= s);
    } else {
        assert(spec_is_ws(s[0]));
        lemma_trim_start_skip(s.drop_first(), k - 1);
        assert(s.drop_first().skip(k - 1) =~= s.skip(k));
    }
}

proof fn lemma_trim_end_take(s: Seq<char>, k: int)
    requires
        0 <= k <= s.len(),
        forall|i: int| k <= i < s.len() ==> spec_is_ws(s[i]),
        k == 0 || !spec_is_ws(s[k - 1]),
    ensures
        spec_trim_end(s) == s.take(k),
    decreases s.len(),
{
    if k == s.len() {
        assert(s.take(k) =~= s);
    } else {
        assert(spec_is_ws(s.last()));
        lemma_trim_end_take(s.drop_last(), k);
        assert(s.drop_last().take(k) =~= s.take(k));
    }
}

/// Trim whitespace at both ends of a character vector.
pub fn trim_chars(v: &Vec<char>) -> (r: Vec<char>)
    ensures
        r@ == spec_trim(v@),
{
    let n = v.len();
    let mut a: usize = 0;
    while a < n && is_ws_char(v[a])
        invariant
            a <= n,
            n == v@.len(),
            forall|i: int| 0 <= i < a ==> spec_is_ws(v@[i]),
        decreases n - a,
    {
        a = a + 1;
    }
    let mut b: usize = n;
    while b > a && is_ws_char(v[b - 1])
        invariant
            a <= b <= n,
            n == v@.len(),
            forall|i: int| b <= i < n ==> spec_is_ws(v@[i]),
        decreases b,
    {
        b = b - 1;
    }
    let mut r: Vec<char> = Vec::new();
    let mut i: usize = a;
    while i < b
        invariant
            a <= i <= b <= n,
            n == v@.len(),
            r@ == v@.subrange(a as int, i as int),
        decreases b - i,
    {
        r.push(v[i]);
        i = i + 1;
        proof {
            assert(r@ =~= v@.subrange(a as int, i as int));
        }
    }
    proof {
        lemma_trim_start_skip(v@, a as int);
        if b == a {
            lemma_trim_end_take(v@.skip(a as int), 0);
        } else {
            lemma_trim_end_take(v@.skip(a as int), b - a);
        }
        assert(v@.skip(a as int).take(b - a) =~= v@.subrange(a as int, b as int));
        assert(r@ =~= spec_trim(v@));
    }
    r
}

/// Trim whitespace at both ends of a string, as `str::trim` does.
pub fn trim_str(s: &str) -> (r: Vec<char>)
    ensures
        r@ == spec_trim(s@),
{
    let v = str_to_chars(s);
    trim_chars(&v)
}

/// `s` without every trailing `'.'`, as `str::trim_end_matches('.')` yields it.
pub open spec fn spec_trim_trailing_dots(s: Seq<char>) -> Seq<char>
    decreases s.len(),
{
    if s.len() > 0 && s.last() == '.' {
        spec_trim_trailing_dots(s.drop_last())
    } else {
        s
    }
}

proof fn lemma_trim_dots_take(s: Seq<char>, k: int)
    requires
        0 <= k <= s.len(),
        forall|i: int| k <= i < s.len() ==> s[i] == '.',
        k == 0 || s[k - 1] != '.',
    ensures
        spec_trim_trailing_dots(s) == s.take(k),
    decreases s.len(),
{
    if k == s.len() {
        assert(s.take(k) =~= s);
    } else {
        lemma_trim_dots_take(s.drop_last(), k);
        assert(s.drop_last().take(k) =~= s.take(k));
    }
}

/// Drop every trailing `'.'` from a character vector.
pub fn trim_trailing_dots(v: &Vec<char>) -> (r: Vec<char>)
    ensures
        r@ == spec_trim_trailing_dots(v@),
{
    let n = v.len();
    let mut b: usize = n;
    while b > 0 && v[b - 1] == '.'
        invariant
            b <= n,
            n == v@.len(),
            forall|i: int| b <= i < n ==> v@[i] == '.',
        decreases b,
    {
        b = b - 1;
    }
    let mut r: Vec<char> = Vec::new();
    let mut i: usize = 0;
    while i < b
        invariant
            i <= b <= n,
            n == v@.len(),
            r@ == v@.take(i as int),
        decreases b - i,
    {
        r.push(v[i]);
        i = i + 1;
        proof {
            assert(r@ =~= v@.take(i as int));
        }
    }
    proof {
        lemma_trim_dots_take(v@, b as int);
    }
    r
}

// ---------------------------------------------------------------------------
// Splitting and tokenizing
// ---------------------------------------------------------------------------

/// Split `s` at every occurrence of `sep`, keeping empty segments, exactly as
/// `str::split` does.
pub open spec fn spec_split(s: Seq<char>, sep: char) -> Seq<Seq<char>>
    decreases s.len(),
{
    if s.len() == 0 {
        seq![Seq::<char>::empty()]
    } else if s.last() == sep {
        spec_split(s.drop_last(), sep).push(Seq::<char>::empty())
    } else {
        let rest = spec_split(s.drop_last(), sep);
        rest.update(rest.len() - 1, rest.last().push(s.last()))
    }
}

pub proof fn lemma_split_len(s: Seq<char>, sep: char)
    ensures
        spec_split(s, sep).len() >= 1,
    decreases s.len(),
{
    if s.len() > 0 {
        lemma_split_len(s.drop_last(), sep);
    }
}

/// Split `s` at every whitespace character, keeping empty segments.
pub open spec fn spec_split_ws(s: Seq<char>) -> Seq<Seq<char>>
    decreases s.len(),
{
    if s.len() == 0 {
        seq![Seq::<char>::empty()]
    } else if spec_is_ws(s.last()) {
        spec_split_ws(s.drop_last()).push(Seq::<char>::empty())
    } else {
        let rest = spec_split_ws(s.drop_last());
        rest.update(rest.len() - 1, rest.last().push(s.last()))
    }
}

pub proof fn lemma_split_ws_len(s: Seq<char>)
    ensures
        spec_split_ws(s).len() >= 1,
    decreases s.len(),
{
    if s.len() > 0 {
        lemma_split_ws_len(s.drop_last());
    }
}

/// The non-empty segments of `ss`, in order.
pub open spec fn spec_keep_nonempty(ss: Seq<Seq<char>>) -> Seq<Seq<char>>
    decreases ss.len(),
{
    if ss.len() == 0 {
        Seq::<Seq<char>>::empty()
    } else if ss.last().len() > 0 {
        spec_keep_nonempty(ss.drop_last()).push(ss.last())
    } else {
        spec_keep_nonempty(ss.drop_last())
    }
}

/// The whitespace-delimited tokens of `s`, as `str::split_whitespace` yields
/// them: maximal runs of non-whitespace characters.
pub open spec fn spec_tokens(s: Seq<char>) -> Seq<Seq<char>> {
    spec_keep_nonempty(spec_split_ws(s))
}

/// The first whitespace-delimited token of `s`, or the empty sequence.
pub open spec fn spec_first_token(s: Seq<char>) -> Seq<char> {
    if spec_tokens(s).len() == 0 {
        Seq::<char>::empty()
    } else {
        spec_tokens(s)[0]
    }
}

/// Split a character vector at `sep`, keeping empty segments.
pub fn split_chars(v: &Vec<char>, sep: char) -> (r: Vec<Vec<char>>)
    ensures
        r.deep_view() == spec_split(v@, sep),
{
    let mut parts: Vec<Vec<char>> = Vec::new();
    let mut cur: Vec<char> = Vec::new();
    let mut i: usize = 0;
    proof {
        assert(v@.take(0) =~= Seq::<char>::empty());
        assert(parts.deep_view().push(cur@) =~~= spec_split(v@.take(0), sep));
    }
    while i < v.len()
        invariant
            i <= v@.len(),
            parts.deep_view().push(cur@) == spec_split(v@.take(i as int), sep),
        decreases v@.len() - i,
    {
        let ghost pre = parts.deep_view().push(cur@);
        let ghost oldparts = parts.deep_view();
        let ghost oldcur = cur@;
        let c = v[i];
        if c == sep {
            parts.push(cur);
            cur = Vec::new();
        } else {
            cur.push(c);
        }
        i = i + 1;
        proof {
            let t = v@.take(i as int);
            assert(t.drop_last() =~= v@.take(i - 1));
            assert(t.last() == v@[i - 1]);
            lemma_split_len(t.drop_last(), sep);
            assert(spec_split(t.drop_last(), sep) == pre);
            if c == sep {
                assert(spec_split(t, sep) == spec_split(t.drop_last(), sep).push(
                    Seq::<char>::empty()));
                assert(parts.deep_view() =~~= oldparts.push(oldcur));
                assert(parts.deep_view().push(cur@) =~~= pre.push(Seq::<char>::empty()));
            } else {
                assert(spec_split(t, sep) == pre.update(pre.len() - 1, pre.last().push(
                    t.last())));
                assert(parts.deep_view() =~~= oldparts);
                assert(pre.update(pre.len() - 1, pre.last().push(c)) =~~= oldparts.push(
                    oldcur.push(c)));
                assert(parts.deep_view().push(cur@) =~~= oldparts.push(oldcur.push(c)));
            }
        }
    }
    let ghost m = parts.deep_view().push(cur@);
    proof {
        assert(v@.take(v@.len() as int) =~= v@);
    }
    parts.push(cur);
    proof {
        assert(parts.deep_view() =~~= m);
    }
    parts
}

/// Split a character vector at whitespace, keeping empty segments.
pub fn split_ws_chars(v: &Vec<char>) -> (r: Vec<Vec<char>>)
    ensures
        r.deep_view() == spec_split_ws(v@),
{
    let mut parts: Vec<Vec<char>> = Vec::new();
    let mut cur: Vec<char> = Vec::new();
    let mut i: usize = 0;
    proof {
        assert(v@.take(0) =~= Seq::<char>::empty());
        assert(parts.deep_view().push(cur@) =~~= spec_split_ws(v@.take(0)));
    }
    while i < v.len()
        invariant
            i <= v@.len(),
            parts.deep_view().push(cur@) == spec_split_ws(v@.take(i as int)),
        decreases v@.len() - i,
    {
        let ghost pre = parts.deep_view().push(cur@);
        let ghost oldparts = parts.deep_view();
        let ghost oldcur = cur@;
        let c = v[i];
        let ws = is_ws_char(c);
        if ws {
            parts.push(cur);
            cur = Vec::new();
        } else {
            cur.push(c);
        }
        i = i + 1;
        proof {
            let t = v@.take(i as int);
            assert(t.drop_last() =~= v@.take(i - 1));
            assert(t.last() == v@[i - 1]);
            lemma_split_ws_len(t.drop_last());
            assert(spec_split_ws(t.drop_last()) == pre);
            if ws {
                assert(spec_split_ws(t) == spec_split_ws(t.drop_last()).push(
                    Seq::<char>::empty()));
                assert(parts.deep_view() =~~= oldparts.push(oldcur));
                assert(parts.deep_view().push(cur@) =~~= pre.push(Seq::<char>::empty()));
            } else {
                assert(spec_split_ws(t) == pre.update(pre.len() - 1, pre.last().push(
                    t.last())));
                assert(parts.deep_view() =~~= oldparts);
                assert(pre.update(pre.len() - 1, pre.last().push(c)) =~~= oldparts.push(
                    oldcur.push(c)));
                assert(parts.deep_view().push(cur@) =~~= oldparts.push(oldcur.push(c)));
            }
        }
    }
    let ghost m = parts.deep_view().push(cur@);
    proof {
        assert(v@.take(v@.len() as int) =~= v@);
    }
    parts.push(cur);
    proof {
        assert(parts.deep_view() =~~= m);
    }
    parts
}

/// The whitespace-delimited tokens of a character vector.
pub fn tokens_chars(v: &Vec<char>) -> (r: Vec<Vec<char>>)
    ensures
        r.deep_view() == spec_tokens(v@),
{
    let parts = split_ws_chars(v);
    let mut out: Vec<Vec<char>> = Vec::new();
    let mut j: usize = 0;
    proof {
        assert(parts.deep_view().take(0) =~= Seq::<Seq<char>>::empty());
        assert(out.deep_view() =~~= spec_keep_nonempty(parts.deep_view().take(0)));
    }
    while j < parts.len()
        invariant
            j <= parts@.len(),
            parts@.len() == parts.deep_view().len(),
            out.deep_view() == spec_keep_nonempty(parts.deep_view().take(j as int)),
        decreases parts@.len() - j,
    {
        let ghost olddeep = out.deep_view();
        let keep_it = parts[j].len() > 0;
        if keep_it {
            let copy = clone_chars(&parts[j]);
            out.push(copy);
        }
        j = j + 1;
        proof {
            let t = parts.deep_view().take(j as int);
            assert(t.drop_last() =~= parts.deep_view().take(j - 1));
            assert(t.last() =~= parts@[j - 1]@);
            assert((t.last().len() > 0) == keep_it);
            if keep_it {
                assert(out.deep_view() =~~= olddeep.push(parts@[j - 1]@));
                assert(spec_keep_nonempty(t) == spec_keep_nonempty(t.drop_last()).push(
                    t.last()));
            } else {
                assert(out.deep_view() =~~= olddeep);
            }
        }
    }
    proof {
        assert(parts.deep_view().take(parts@.len() as int) =~= parts.deep_view());
    }
    out
}

/// Copy a character vector.
pub fn clone_chars(v: &Vec<char>) -> (r: Vec<char>)
    ensures
        r@ == v@,
{
    let mut r: Vec<char> = Vec::new();
    let mut i: usize = 0;
    while i < v.len()
        invariant
            i <= v@.len(),
            r@ == v@.take(i as int),
        decreases v@.len() - i,
    {
        r.push(v[i]);
        i = i + 1;
        proof {
            assert(r@ =~= v@.take(i as int));
        }
    }
    proof {
        assert(r@ =~= v@);
    }
    r
}

/// Split a string at `sep` into owned segments.
pub fn split_string(s: &str, sep: char) -> (r: Vec<String>)
    ensures
        r.deep_view() == spec_split(s@, sep),
{
    let v = str_to_chars(s);
    let parts = split_chars(&v, sep);
    strings_of_parts(parts)
}

/// Turn a vector of character vectors into owned strings.
pub fn strings_of_parts(parts: Vec<Vec<char>>) -> (r: Vec<String>)
    ensures
        r.deep_view() == parts.deep_view(),
{
    let mut out: Vec<String> = Vec::new();
    let mut j: usize = 0;
    proof {
        assert(out.deep_view() =~~= parts.deep_view().take(0));
    }
    while j < parts.len()
        invariant
            j <= parts@.len(),
            out.deep_view() == parts.deep_view().take(j as int),
        decreases parts@.len() - j,
    {
        let s = chars_to_string(&parts[j]);
        let ghost olddeep = out.deep_view();
        out.push(s);
        j = j + 1;
        proof {
            assert(out.deep_view() =~~= olddeep.push(s@));
            assert(parts.deep_view().take(j as int) =~~= parts.deep_view().take(j - 1).push(
                parts@[j - 1].deep_view()));
            assert(parts@[j - 1].deep_view() =~= parts@[j - 1]@);
            assert(out.deep_view() =~~= parts.deep_view().take(j as int));
        }
    }
    proof {
        assert(parts.deep_view().take(parts@.len() as int) =~= parts.deep_view());
    }
    out
}

// ---------------------------------------------------------------------------
// Prefixes, suffixes, containment, case-insensitive comparison
// ---------------------------------------------------------------------------

pub open spec fn spec_starts_with(s: Seq<char>, p: Seq<char>) -> bool {
    s.len() >= p.len() && s.take(p.len() as int) == p
}

pub open spec fn spec_ends_with(s: Seq<char>, p: Seq<char>) -> bool {
    s.len() >= p.len() && s.skip(s.len() - p.len()) == p
}

/// `p` occurs as a contiguous subsequence of `s`.
pub open spec fn spec_contains_sub(s: Seq<char>, p: Seq<char>) -> bool {
    exists|i: int| 0 <= i <= s.len() - p.len() && #[trigger] s.subrange(i, i + p.len()) == p
}

pub fn starts_with_chars(s: &Vec<char>, p: &Vec<char>) -> (r: bool)
    ensures
        r == spec_starts_with(s@, p@),
{
    if s.len() < p.len() {
        return false;
    }
    let mut i: usize = 0;
    while i < p.len()
        invariant
            i <= p@.len() <= s@.len(),
            forall|k: int| 0 <= k < i ==> s@[k] == p@[k],
        decreases p@.len() - i,
    {
        if s[i] != p[i] {
            proof {
                assert(s@.take(p@.len() as int)[i as int] != p@[i as int]);
            }
            return false;
        }
        i = i + 1;
    }
    proof {
        assert(s@.take(p@.len() as int) =~= p@);
    }
    true
}

pub fn ends_with_chars(s: &Vec<char>, p: &Vec<char>) -> (r: bool)
    ensures
        r == spec_ends_with(s@, p@),
{
    if s.len() < p.len() {
        return false;
    }
    let n = s.len();
    let off = n - p.len();
    let mut i: usize = 0;
    while i < p.len()
        invariant
            i <= p@.len() <= s@.len(),
            n == s@.len(),
            off == s@.len() - p@.len(),
            forall|k: int| 0 <= k < i ==> s@[off + k] == p@[k],
        decreases p@.len() - i,
    {
        if s[off + i] != p[i] {
            proof {
                assert(s@.skip(off as int)[i as int] != p@[i as int]);
            }
            return false;
        }
        i = i + 1;
    }
    proof {
        assert(s@.skip(off as int) =~= p@);
    }
    true
}

fn matches_at(s: &Vec<char>, p: &Vec<char>, at: usize) -> (r: bool)
    requires
        at + p@.len() <= s@.len(),
    ensures
        r == (s@.subrange(at as int, at + p@.len()) == p@),
{
    let n = s.len();
    let mut i: usize = 0;
    while i < p.len()
        invariant
            i <= p@.len(),
            n == s@.len(),
            at + p@.len() <= s@.len(),
            forall|k: int| 0 <= k < i ==> s@[at + k] == p@[k],
        decreases p@.len() - i,
    {
        if s[at + i] != p[i] {
            proof {
                assert(s@.subrange(at as int, at + p@.len())[i as int] != p@[i as int]);
            }
            return false;
        }
        i = i + 1;
    }
    proof {
        assert(s@.subrange(at as int, at + p@.len()) =~= p@);
    }
    true
}

pub fn contains_sub_chars(s: &Vec<char>, p: &Vec<char>) -> (r: bool)
    ensures
        r == spec_contains_sub(s@, p@),
{
    if p.len() > s.len() {
        return false;
    }
    let limit = s.len() - p.len();
    let mut at: usize = 0;
    loop
        invariant
            p@.len() <= s@.len(),
            limit == s@.len() - p@.len(),
            at <= limit,
            forall|i: int|
                0 <= i < at ==> #[trigger] s@.subrange(i, i + p@.len()) != p@,
        ensures
            forall|i: int|
                0 <= i <= limit ==> #[trigger] s@.subrange(i, i + p@.len()) != p@,
        decreases limit - at,
    {
        if matches_at(s, p, at) {
            return true;
        }
        if at == limit {
            break;
        }
        at = at + 1;
    }
    false
}

pub fn contains_char(s: &Vec<char>, c: char) -> (r: bool)
    ensures
        r == s@.contains(c),
{
    let mut i: usize = 0;
    while i < s.len()
        invariant
            i <= s@.len(),
            forall|k: int| 0 <= k < i ==> s@[k] != c,
        decreases s@.len() - i,
    {
        if s[i] == c {
            return true;
        }
        i = i + 1;
    }
    false
}

/// Case-insensitive (ASCII) equality of two character vectors.
pub fn eq_ignore_case_chars(a: &Vec<char>, b: &Vec<char>) -> (r: bool)
    ensures
        r == (spec_lower(a@) == spec_lower(b@)),
{
    if a.len() != b.len() {
        proof {
            assert(spec_lower(a@).len() != spec_lower(b@).len());
        }
        return false;
    }
    let mut i: usize = 0;
    while i < a.len()
        invariant
            i <= a@.len(),
            a@.len() == b@.len(),
            forall|k: int| 0 <= k < i ==> spec_lower_char(a@[k]) == spec_lower_char(b@[k]),
        decreases a@.len() - i,
    {
        if lower_char(a[i]) != lower_char(b[i]) {
            proof {
                assert(spec_lower(a@)[i as int] != spec_lower(b@)[i as int]);
            }
            return false;
        }
        i = i + 1;
    }
    proof {
        assert(spec_lower(a@) =~= spec_lower(b@));
    }
    true
}

/// Whether `s` starts with `p`, compared ASCII-case-insensitively.
pub open spec fn spec_starts_with_icase(s: Seq<char>, p: Seq<char>) -> bool {
    s.len() >= p.len() && spec_lower(s.take(p.len() as int)) == spec_lower(p)
}

pub fn starts_with_icase_chars(s: &Vec<char>, p: &Vec<char>) -> (r: bool)
    ensures
        r == spec_starts_with_icase(s@, p@),
{
    if s.len() < p.len() {
        return false;
    }
    let mut i: usize = 0;
    while i < p.len()
        invariant
            i <= p@.len() <= s@.len(),
            forall|k: int| 0 <= k < i ==> spec_lower_char(s@[k]) == spec_lower_char(p@[k]),
        decreases p@.len() - i,
    {
        if lower_char(s[i]) != lower_char(p[i]) {
            proof {
                assert(spec_lower(s@.take(p@.len() as int))[i as int] != spec_lower(p@)[
                    i as int]);
            }
            return false;
        }
        i = i + 1;
    }
    proof {
        assert(spec_lower(s@.take(p@.len() as int)) =~= spec_lower(p@));
    }
    true
}

// ---------------------------------------------------------------------------
// Joining
// ---------------------------------------------------------------------------

/// `parts` joined with `sep` between consecutive elements.
pub open spec fn spec_join(parts: Seq<Seq<char>>, sep: Seq<char>) -> Seq<char>
    decreases parts.len(),
{
    if parts.len() == 0 {
        Seq::<char>::empty()
    } else if parts.len() == 1 {
        parts[0]
    } else {
        spec_join(parts.drop_last(), sep) + sep + parts.last()
    }
}

/// Join owned strings with a separator string.
pub fn join_strings(parts: &Vec<String>, sep: &str) -> (r: String)
    ensures
        r@ == spec_join(parts.deep_view(), sep@),
{
    let mut out = String::new();
    let mut j: usize = 0;
    while j < parts.len()
        invariant
            j <= parts@.len(),
            parts@.len() == parts.deep_view().len(),
            out@ == spec_join(parts.deep_view().take(j as int), sep@),
        decreases parts@.len() - j,
    {
        if j > 0 {
            out.append(sep);
        }
        out.append(parts[j].as_str());
        j = j + 1;
        proof {
            let t = parts.deep_view().take(j as int);
            assert(t.drop_last() =~= parts.deep_view().take(j - 1));
            assert(t.last() =~= parts.deep_view()[j - 1]);
            assert(parts.deep_view()[j - 1] =~= parts@[j - 1]@);
            if j > 1 {
                assert(out@ =~= spec_join(t.drop_last(), sep@) + sep@ + t.last());
            } else {
                assert(out@ =~= t[0]);
            }
        }
    }
    proof {
        assert(parts.deep_view().take(parts@.len() as int) =~= parts.deep_view());
    }
    out
}

// ---------------------------------------------------------------------------
// Decimal and hexadecimal formatting
// ---------------------------------------------------------------------------

/// The decimal digit character for `d` (0 through 9).
pub open spec fn spec_digit(d: nat) -> char {
    if d == 0 { '0' } else if d == 1 { '1' } else if d == 2 { '2' } else if d == 3 { '3' }
    else if d == 4 { '4' } else if d == 5 { '5' } else if d == 6 { '6' } else if d == 7 { '7' }
    else if d == 8 { '8' } else { '9' }
}

/// The decimal digit string of `n`, without leading zeros.
pub open spec fn spec_dec(n: nat) -> Seq<char>
    decreases n,
{
    if n < 10 {
        seq![spec_digit(n)]
    } else {
        spec_dec(n / 10).push(spec_digit(n % 10))
    }
}

fn digit_char(d: u64) -> (r: char)
    requires
        d < 10,
    ensures
        r == spec_digit(d as nat),
{
    if d == 0 { '0' } else if d == 1 { '1' } else if d == 2 { '2' } else if d == 3 { '3' }
    else if d == 4 { '4' } else if d == 5 { '5' } else if d == 6 { '6' } else if d == 7 { '7' }
    else if d == 8 { '8' } else { '9' }
}

/// Append the decimal representation of `n` to `out`.
pub fn push_dec_u64(out: &mut String, n: u64)
    ensures
        final(out)@ == old(out)@ + spec_dec(n as nat),
    decreases n,
{
    if n < 10 {
        out.push(digit_char(n));
        proof {
            assert(out@ =~= old(out)@ + spec_dec(n as nat));
        }
    } else {
        push_dec_u64(out, n / 10);
        out.push(digit_char(n % 10));
        proof {
            assert(out@ =~= old(out)@ + spec_dec(n as nat));
        }
    }
}

/// The decimal representation of `n` as a string.
pub fn u64_to_string(n: u64) -> (r: String)
    ensures
        r@ == spec_dec(n as nat),
{
    let mut out = String::new();
    push_dec_u64(&mut out, n);
    proof {
        assert(out@ =~= spec_dec(n as nat));
    }
    out
}

/// The upper-case hexadecimal digit character for `d` (0 through 15).
pub open spec fn spec_hex_digit(d: nat) -> char {
    if d == 0 { '0' } else if d == 1 { '1' } else if d == 2 { '2' } else if d == 3 { '3' }
    else if d == 4 { '4' } else if d == 5 { '5' } else if d == 6 { '6' } else if d == 7 { '7' }
    else if d == 8 { '8' } else if d == 9 { '9' } else if d == 10 { 'A' } else if d == 11 { 'B' }
    else if d == 12 { 'C' } else if d == 13 { 'D' } else if d == 14 { 'E' } else { 'F' }
}

/// The upper-case hexadecimal digit string of `n`, without leading zeros.
pub open spec fn spec_hex(n: nat) -> Seq<char>
    decreases n,
{
    if n < 16 {
        seq![spec_hex_digit(n)]
    } else {
        spec_hex(n / 16).push(spec_hex_digit(n % 16))
    }
}

/// The hexadecimal digit string of `n`, zero-padded to at least four digits,
/// as `{:04X}` formats it.
pub open spec fn spec_hex4(n: nat) -> Seq<char> {
    if n < 0x10 {
        seq!['0', '0', '0'] + spec_hex(n)
    } else if n < 0x100 {
        seq!['0', '0'] + spec_hex(n)
    } else if n < 0x1000 {
        seq!['0'] + spec_hex(n)
    } else {
        spec_hex(n)
    }
}

fn hex_digit_char(d: u32) -> (r: char)
    requires
        d < 16,
    ensures
        r == spec_hex_digit(d as nat),
{
    if d == 0 { '0' } else if d == 1 { '1' } else if d == 2 { '2' } else if d == 3 { '3' }
    else if d == 4 { '4' } else if d == 5 { '5' } else if d == 6 { '6' } else if d == 7 { '7' }
    else if d == 8 { '8' } else if d == 9 { '9' } else if d == 10 { 'A' } else if d == 11 { 'B' }
    else if d == 12 { 'C' } else if d == 13 { 'D' } else if d == 14 { 'E' } else { 'F' }
}

fn push_hex_u32(out: &mut String, n: u32)
    ensures
        final(out)@ == old(out)@ + spec_hex(n as nat),
    decreases n,
{
    if n < 16 {
        out.push(hex_digit_char(n));
        proof {
            assert(out@ =~= old(out)@ + spec_hex(n as nat));
        }
    } else {
        push_hex_u32(out, n / 16);
        out.push(hex_digit_char(n % 16));
        proof {
            assert(out@ =~= old(out)@ + spec_hex(n as nat));
        }
    }
}

/// Append `{:04X}`-formatted `n` to `out`.
pub fn push_hex4_u32(out: &mut String, n: u32)
    ensures
        final(out)@ == old(out)@ + spec_hex4(n as nat),
{
    if n < 0x10 {
        out.push('0');
        out.push('0');
        out.push('0');
    } else if n < 0x100 {
        out.push('0');
        out.push('0');
    } else if n < 0x1000 {
        out.push('0');
    }
    push_hex_u32(out, n);
    proof {
        assert(out@ =~= old(out)@ + spec_hex4(n as nat));
    }
}

// ---------------------------------------------------------------------------
// Lexicographic order on character sequences (code point order)
// ---------------------------------------------------------------------------

pub open spec fn spec_lex_le(a: Seq<char>, b: Seq<char>) -> bool
    decreases a.len(),
{
    if a.len() == 0 {
        true
    } else if b.len() == 0 {
        false
    } else if (a[0] as u32) < (b[0] as u32) {
        true
    } else if (a[0] as u32) > (b[0] as u32) {
        false
    } else {
        spec_lex_le(a.drop_first(), b.drop_first())
    }
}

fn lex_le_at(a: &Vec<char>, b: &Vec<char>, i: usize) -> (r: bool)
    requires
        i <= a@.len(),
        i <= b@.len(),
    ensures
        r == spec_lex_le(a@.skip(i as int), b@.skip(i as int)),
    decreases a@.len() - i,
{
    if i == a.len() {
        proof {
            assert(a@.skip(i as int).len() == 0);
        }
        true
    } else if i == b.len() {
        proof {
            assert(b@.skip(i as int).len() == 0);
            assert(a@.skip(i as int).len() > 0);
        }
        false
    } else {
        let ca = a[i] as u32;
        let cb = b[i] as u32;
        proof {
            assert(a@.skip(i as int)[0] == a@[i as int]);
            assert(b@.skip(i as int)[0] == b@[i as int]);
            assert(a@.skip(i as int).drop_first() =~= a@.skip(i + 1));
            assert(b@.skip(i as int).drop_first() =~= b@.skip(i + 1));
        }
        if ca < cb {
            true
        } else if ca > cb {
            false
        } else {
            lex_le_at(a, b, i + 1)
        }
    }
}

/// Compare two character vectors in code point order.
pub fn lex_le_chars(a: &Vec<char>, b: &Vec<char>) -> (r: bool)
    ensures
        r == spec_lex_le(a@, b@),
{
    let r = lex_le_at(a, b, 0);
    proof {
        assert(a@.skip(0) =~= a@);
        assert(b@.skip(0) =~= b@);
    }
    r
}

/// Two characters with the same code point are the same character.
pub proof fn lemma_char_eq(a: char, b: char)
    requires
        a as u32 == b as u32,
    ensures
        a == b,
{
    vstd::utf8::char_u32_cast(a, a as u32);
    vstd::utf8::char_u32_cast(b, b as u32);
}

pub proof fn lemma_lex_total(a: Seq<char>, b: Seq<char>)
    ensures
        spec_lex_le(a, b) || spec_lex_le(b, a),
    decreases a.len(),
{
    if a.len() > 0 && b.len() > 0 && (a[0] as u32) == (b[0] as u32) {
        lemma_lex_total(a.drop_first(), b.drop_first());
    }
}

pub proof fn lemma_lex_antisym(a: Seq<char>, b: Seq<char>)
    requires
        spec_lex_le(a, b),
        spec_lex_le(b, a),
    ensures
        a == b,
    decreases a.len(),
{
    if a.len() == 0 {
        assert(b.len() == 0);
        assert(a =~= b);
    } else {
        assert(b.len() > 0);
        assert((a[0] as u32) == (b[0] as u32));
        lemma_char_eq(a[0], b[0]);
        lemma_lex_antisym(a.drop_first(), b.drop_first());
        assert(a =~= seq![a[0]] + a.drop_first());
        assert(b =~= seq![b[0]] + b.drop_first());
    }
}

pub proof fn lemma_lex_trans(a: Seq<char>, b: Seq<char>, c: Seq<char>)
    requires
        spec_lex_le(a, b),
        spec_lex_le(b, c),
    ensures
        spec_lex_le(a, c),
    decreases a.len(),
{
    if a.len() > 0 && b.len() > 0 && c.len() > 0 && (a[0] as u32) == (b[0] as u32) && (
    b[0] as u32) == (c[0] as u32) {
        lemma_char_eq(a[0], b[0]);
        lemma_char_eq(b[0], c[0]);
        lemma_lex_trans(a.drop_first(), b.drop_first(), c.drop_first());
    }
}


/// Whether some element of `v` has exactly the characters of `s`.
pub fn contains_string(v: &Vec<String>, s: &str) -> (r: bool)
    ensures
        r == v.deep_view().contains(s@),
{
    let mut i: usize = 0;
    while i < v.len()
        invariant
            i <= v@.len(),
            forall|k: int| 0 <= k < i ==> v.deep_view()[k] != s@,
        decreases v@.len() - i,
    {
        if str_eq(v[i].as_str(), s) {
            proof {
                assert(v.deep_view()[i as int] == s@);
            }
            return true;
        }
        i = i + 1;
    }
    proof {
        assert(forall|k: int| 0 <= k < v.deep_view().len() ==> v.deep_view()[k] != s@);
    }
    false
}

/// ASCII lower-case a character vector.
pub fn lower_chars(v: &Vec<char>) -> (r: Vec<char>)
    ensures
        r@ == spec_lower(v@),
{
    let mut r: Vec<char> = Vec::new();
    let mut i: usize = 0;
    while i < v.len()
        invariant
            i <= v@.len(),
            r@ == spec_lower(v@.take(i as int)),
        decreases v@.len() - i,
    {
        r.push(lower_char(v[i]));
        i = i + 1;
        proof {
            assert(r@ =~= spec_lower(v@.take(i as int)));
        }
    }
    proof {
        assert(spec_lower(v@.take(v@.len() as int)) =~= spec_lower(v@));
    }
    r
}


/// The first `n` characters of `v`.
pub fn take_chars(v: &Vec<char>, n: usize) -> (r: Vec<char>)
    requires
        n <= v@.len(),
    ensures
        r@ == v@.take(n as int),
{
    let mut r: Vec<char> = Vec::new();
    let mut i: usize = 0;
    while i < n
        invariant
            i <= n <= v@.len(),
            r@ == v@.take(i as int),
        decreases n - i,
    {
        r.push(v[i]);
        i = i + 1;
        proof {
            assert(r@ =~= v@.take(i as int));
        }
    }
    r
}

/// The characters of `v` from index `n` on.
pub fn skip_chars(v: &Vec<char>, n: usize) -> (r: Vec<char>)
    requires
        n <= v@.len(),
    ensures
        r@ == v@.skip(n as int),
{
    let mut r: Vec<char> = Vec::new();
    let mut i: usize = n;
    proof {
        assert(r@ =~= v@.subrange(n as int, n as int));
    }
    while i < v.len()
        invariant
            n <= i <= v@.len(),
            r@ == v@.subrange(n as int, i as int),
        decreases v@.len() - i,
    {
        r.push(v[i]);
        i = i + 1;
        proof {
            assert(r@ =~= v@.subrange(n as int, i as int));
        }
    }
    proof {
        assert(v@.subrange(n as int, v@.len() as int) =~= v@.skip(n as int));
    }
    r
}

/// Copy an optional string.
pub fn clone_opt_string(o: &Option<String>) -> (r: Option<String>)
    ensures
        match r {
            Some(s) => o matches Some(x) && s@ == x@,
            None => o is None,
        },
{
    match o {
        Some(s) => Some(s.clone()),
        None => None,
    }
}

/// Copy a vector of strings.
pub fn clone_string_vec(v: &Vec<String>) -> (r: Vec<String>)
    ensures
        r.deep_view() == v.deep_view(),
{
    let mut r: Vec<String> = Vec::new();
    let mut i: usize = 0;
    proof {
        assert(r.deep_view() =~~= v.deep_view().take(0));
    }
    while i < v.len()
        invariant
            i <= v@.len(),
            v@.len() == v.deep_view().len(),
            r.deep_view() == v.deep_view().take(i as int),
        decreases v@.len() - i,
    {
        let ghost olddeep = r.deep_view();
        r.push(v[i].clone());
        i = i + 1;
        proof {
            assert(r.deep_view() =~~= olddeep.push(v@[i - 1]@));
            assert(v.deep_view().take(i as int) =~~= v.deep_view().take(i - 1).push(
                v.deep_view()[i - 1]));
            assert(v.deep_view()[i - 1] =~= v@[i - 1]@);
        }
    }
    proof {
        assert(v.deep_view().take(v@.len() as int) =~= v.deep_view());
    }
    r
}


/// The index of the first occurrence of `c` in `s`, if any.
pub open spec fn spec_first_index(s: Seq<char>, c: char) -> Option<int>
    decreases s.len(),
{
    if s.len() == 0 {
        None
    } else if s[0] == c {
        Some(0int)
    } else {
        match spec_first_index(s.drop_first(), c) {
            None => None,
            Some(i) => Some(i + 1),
        }
    }
}

proof fn lemma_first_index_found(s: Seq<char>, c: char, k: int)
    requires
        0 <= k < s.len(),
        forall|i: int| 0 <= i < k ==> s[i] != c,
        s[k] == c,
    ensures
        spec_first_index(s, c) == Some(k),
    decreases k,
{
    if k > 0 {
        lemma_first_index_found(s.drop_first(), c, k - 1);
    }
}

proof fn lemma_first_index_none(s: Seq<char>, c: char)
    requires
        forall|i: int| 0 <= i < s.len() ==> s[i] != c,
    ensures
        spec_first_index(s, c) is None,
    decreases s.len(),
{
    if s.len() > 0 {
        lemma_first_index_none(s.drop_first(), c);
    }
}

pub proof fn lemma_first_index_bounds(s: Seq<char>, c: char)
    requires
        spec_first_index(s, c) is Some,
    ensures
        0 <= spec_first_index(s, c)->Some_0 < s.len(),
        s[spec_first_index(s, c)->Some_0] == c,
    decreases s.len(),
{
    if s.len() > 0 && s[0] != c {
        lemma_first_index_bounds(s.drop_first(), c);
    }
}

/// Find the first occurrence of `c` in `v`.
pub fn find_char(v: &Vec<char>, c: char) -> (r: Option<usize>)
    ensures
        match r {
            Some(i) => spec_first_index(v@, c) == Some(i as int),
            None => spec_first_index(v@, c) is None,
        },
{
    let mut i: usize = 0;
    while i < v.len()
        invariant
            i <= v@.len(),
            forall|k: int| 0 <= k < i ==> v@[k] != c,
        decreases v@.len() - i,
    {
        if v[i] == c {
            proof {
                lemma_first_index_found(v@, c, i as int);
            }
            return Some(i);
        }
        i = i + 1;
    }
    proof {
        lemma_first_index_none(v@, c);
    }
    None
}

// ---------------------------------------------------------------------------
// Sorting and deduplicating string lists (code point order)
// ---------------------------------------------------------------------------

/// Insert `x` into the sorted list `s`, before the first element it is
/// less-than-or-equal to.
pub open spec fn spec_str_insert(x: Seq<char>, s: Seq<Seq<char>>) -> Seq<Seq<char>>
    decreases s.len(),
{
    if s.len() == 0 {
        seq![x]
    } else if spec_lex_le(x, s[0]) {
        seq![x] + s
    } else {
        seq![s[0]] + spec_str_insert(x, s.drop_first())
    }
}

/// Insertion sort of a string list.
pub open spec fn spec_str_sort(s: Seq<Seq<char>>) -> Seq<Seq<char>>
    decreases s.len(),
{
    if s.len() == 0 {
        Seq::<Seq<char>>::empty()
    } else {
        spec_str_insert(s.last(), spec_str_sort(s.drop_last()))
    }
}

/// Remove consecutive duplicates, as `Vec::dedup` does.
pub open spec fn spec_str_dedup(s: Seq<Seq<char>>) -> Seq<Seq<char>>
    decreases s.len(),
{
    if s.len() == 0 {
        Seq::<Seq<char>>::empty()
    } else {
        let pre = spec_str_dedup(s.drop_last());
        if pre.len() > 0 && pre.last() == s.last() {
            pre
        } else {
            pre.push(s.last())
        }
    }
}

proof fn lemma_str_insert_at(x: Seq<char>, s: Seq<Seq<char>>, pos: int)
    requires
        0 <= pos <= s.len(),
        forall|i: int| 0 <= i < pos ==> !spec_lex_le(x, #[trigger] s[i]),
        pos == s.len() || spec_lex_le(x, s[pos]),
    ensures
        spec_str_insert(x, s) == s.take(pos) + seq![x] + s.skip(pos),
    decreases pos,
{
    if pos == 0 {
        if s.len() == 0 {
            assert(spec_str_insert(x, s) =~= s.take(0) + seq![x] + s.skip(0));
        } else {
            assert(s.take(0) + seq![x] + s.skip(0) =~= seq![x] + s);
        }
    } else {
        lemma_str_insert_at(x, s.drop_first(), pos - 1);
        assert(s.drop_first().take(pos - 1) =~= s.take(pos).drop_first());
        assert(s.drop_first().skip(pos - 1) =~= s.skip(pos));
        assert(seq![s[0]] + (s.drop_first().take(pos - 1) + seq![x] + s.drop_first().skip(pos - 1))
            =~= s.take(pos) + seq![x] + s.skip(pos));
    }
}

/// Insert one string into a sorted vector of strings.
fn insert_sorted(out: &mut Vec<String>, x: String)
    ensures
        final(out).deep_view() == spec_str_insert(x@, old(out).deep_view()),
{
    let xc = str_to_chars(x.as_str());
    let mut pos: usize = 0;
    loop
        invariant_except_break
            pos <= out@.len(),
            out@.len() == out.deep_view().len(),
            xc@ == x@,
            out == old(out),
            forall|i: int| 0 <= i < pos ==> !spec_lex_le(x@, #[trigger] out.deep_view()[i]),
        ensures
            pos <= out@.len(),
            out == old(out),
            forall|i: int| 0 <= i < pos ==> !spec_lex_le(x@, #[trigger] out.deep_view()[i]),
            pos == out@.len() || spec_lex_le(x@, out.deep_view()[pos as int]),
        decreases out@.len() - pos,
    {
        if pos == out.len() {
            break;
        }
        let ec = str_to_chars(out[pos].as_str());
        if lex_le_chars(&xc, &ec) {
            break;
        }
        pos = pos + 1;
    }
    proof {
        lemma_str_insert_at(x@, out.deep_view(), pos as int);
    }
    let ghost pre = out.deep_view();
    out.insert(pos, x);
    proof {
        assert(out.deep_view() =~~= pre.take(pos as int) + seq![x@] + pre.skip(pos as int));
    }
}

/// Sort a vector of strings in code point order, by insertion.
pub fn sort_strings(v: &Vec<String>) -> (r: Vec<String>)
    ensures
        r.deep_view() == spec_str_sort(v.deep_view()),
{
    let mut out: Vec<String> = Vec::new();
    let mut i: usize = 0;
    proof {
        assert(v.deep_view().take(0) =~= Seq::<Seq<char>>::empty());
        assert(out.deep_view() =~~= spec_str_sort(v.deep_view().take(0)));
    }
    while i < v.len()
        invariant
            i <= v@.len(),
            v@.len() == v.deep_view().len(),
            out.deep_view() == spec_str_sort(v.deep_view().take(i as int)),
        decreases v@.len() - i,
    {
        insert_sorted(&mut out, v[i].clone());
        i = i + 1;
        proof {
            let t = v.deep_view().take(i as int);
            assert(t.drop_last() =~= v.deep_view().take(i - 1));
            assert(t.last() == v.deep_view()[i - 1]);
            assert(v.deep_view()[i - 1] == v@[i - 1]@);
        }
    }
    proof {
        assert(v.deep_view().take(v@.len() as int) =~= v.deep_view());
    }
    out
}

/// Remove consecutive duplicate strings.
pub fn dedup_strings(v: &Vec<String>) -> (r: Vec<String>)
    ensures
        r.deep_view() == spec_str_dedup(v.deep_view()),
{
    let mut out: Vec<String> = Vec::new();
    let mut i: usize = 0;
    proof {
        assert(v.deep_view().take(0) =~= Seq::<Seq<char>>::empty());
        assert(out.deep_view() =~~= spec_str_dedup(v.deep_view().take(0)));
    }
    while i < v.len()
        invariant
            i <= v@.len(),
            v@.len() == v.deep_view().len(),
            out.deep_view() == spec_str_dedup(v.deep_view().take(i as int)),
        decreases v@.len() - i,
    {
        let keep = if out.len() == 0 {
            true
        } else {
            !str_eq(out[out.len() - 1].as_str(), v[i].as_str())
        };
        if keep {
            out.push(v[i].clone());
        }
        i = i + 1;
        proof {
            let t = v.deep_view().take(i as int);
            assert(t.drop_last() =~= v.deep_view().take(i - 1));
            assert(t.last() == v.deep_view()[i - 1]);
            assert(v.deep_view()[i - 1] == v@[i - 1]@);
            if keep {
                assert(out.deep_view() =~~= spec_str_dedup(t.drop_last()).push(t.last()));
            }
        }
    }
    proof {
        assert(v.deep_view().take(v@.len() as int) =~= v.deep_view());
    }
    out
}

} // verus!
