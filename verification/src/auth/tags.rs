//! The semicolon-separated `key=value` tag lists shared by DMARC and DKIM
//! records: keys are trimmed and lowercased, values trimmed, last key wins.

use vstd::prelude::*;

verus! {

use crate::strutil::{spec_trim, spec_lower, spec_split, spec_first_index, trim_chars, trim_str,
    lower_chars, chars_to_string, split_chars, find_char, skip_chars, take_chars,
    lemma_first_index_bounds, str_to_chars};

/// The key of one `key=value` part: what stands before the first `'='` (or
/// the whole part), trimmed and lowercased. The part itself is trimmed first.
pub open spec fn spec_tag_key(part: Seq<char>) -> Seq<char> {
    let t = spec_trim(part);
    match spec_first_index(t, '=') {
        Some(i) => spec_lower(spec_trim(t.take(i))),
        None => spec_lower(spec_trim(t)),
    }
}

/// The value of one `key=value` part: what follows the first `'='`, trimmed;
/// empty when there is no `'='`.
pub open spec fn spec_tag_value(part: Seq<char>) -> Seq<char> {
    let t = spec_trim(part);
    match spec_first_index(t, '=') {
        Some(i) => spec_trim(t.skip(i + 1)),
        None => Seq::<char>::empty(),
    }
}

/// Whether a part carries a tag at all (it is not blank).
pub open spec fn spec_tag_present(part: Seq<char>) -> bool {
    spec_trim(part).len() > 0
}

/// The value of tag `key` among `parts`, the last occurrence winning.
pub open spec fn spec_lookup_in(parts: Seq<Seq<char>>, key: Seq<char>) -> Option<Seq<char>>
    decreases parts.len(),
{
    if parts.len() == 0 {
        None
    } else if spec_tag_present(parts.last()) && spec_tag_key(parts.last()) == key {
        Some(spec_tag_value(parts.last()))
    } else {
        spec_lookup_in(parts.drop_last(), key)
    }
}

/// The value of tag `key` in `record`, a `;`-separated tag list.
pub open spec fn spec_tag_lookup(record: Seq<char>, key: Seq<char>) -> Option<Seq<char>> {
    spec_lookup_in(spec_split(record, ';'), key)
}

/// The trimmed key and value of one part, when the part is not blank.
fn tag_entry(part: &Vec<char>) -> (r: Option<(String, String)>)
    ensures
        match r {
            Some(kv) => spec_tag_present(part@) && kv.0@ == spec_tag_key(part@) && kv.1@
                == spec_tag_value(part@),
            None => !spec_tag_present(part@),
        },
{
    let t = trim_chars(part);
    if t.len() == 0 {
        return None;
    }
    match find_char(&t, '=') {
        Some(i) => {
            proof {
                lemma_first_index_bounds(t@, '=');
            }
            let key_raw = take_chars(&t, i);
            let val_raw = skip_chars(&t, i + 1);
            let key = chars_to_string(&lower_chars(&trim_chars(&key_raw)));
            let val = chars_to_string(&trim_chars(&val_raw));
            Some((key, val))
        },
        None => {
            let key = chars_to_string(&lower_chars(&trim_chars(&t)));
            let val = String::new();
            proof {
                assert(val@ =~= spec_tag_value(part@));
            }
            Some((key, val))
        },
    }
}

/// Look up tag `key` in a record, the last occurrence winning.
pub fn tag_lookup(record: &str, key: &str) -> (r: Option<String>)
    ensures
        match r {
            Some(v) => spec_tag_lookup(record@, key@) == Some(v@),
            None => spec_tag_lookup(record@, key@) is None,
        },
{
    let chars = str_to_chars(record);
    let parts = split_chars(&chars, ';');
    let mut cur: Option<String> = None;
    let mut j: usize = 0;
    proof {
        assert(parts.deep_view().take(0) =~= Seq::<Seq<char>>::empty());
    }
    while j < parts.len()
        invariant
            j <= parts@.len(),
            parts@.len() == parts.deep_view().len(),
            parts.deep_view() == spec_split(record@, ';'),
            match cur {
                Some(v) => spec_lookup_in(parts.deep_view().take(j as int), key@) == Some(v@),
                None => spec_lookup_in(parts.deep_view().take(j as int), key@) is None,
            },
        decreases parts@.len() - j,
    {
        let entry = tag_entry(&parts[j]);
        if let Some(kv) = entry {
            if crate::strutil::str_eq(kv.0.as_str(), key) {
                cur = Some(kv.1);
            }
        }
        j = j + 1;
        proof {
            let t = parts.deep_view().take(j as int);
            assert(t.drop_last() =~= parts.deep_view().take(j - 1));
            assert(t.last() == parts.deep_view()[j - 1]);
            assert(parts.deep_view()[j - 1] == parts@[j - 1]@);
            assert(spec_lookup_in(t, key@) == (if spec_tag_present(t.last()) && spec_tag_key(
                t.last(),
            ) == key@ {
                Some(spec_tag_value(t.last()))
            } else {
                spec_lookup_in(t.drop_last(), key@)
            }));
        }
    }
    proof {
        assert(parts.deep_view().take(parts@.len() as int) =~= parts.deep_view());
    }
    cur
}

/// Whether the comma-separated flag list `v` contains the token `y`,
/// compared case-insensitively after trimming.
pub open spec fn spec_flags_contain_y(v: Seq<char>) -> bool {
    exists|i: int|
        0 <= i < spec_split(v, ',').len() && spec_lower(
            spec_trim(#[trigger] spec_split(v, ',')[i]),
        ) == "y"@
}

/// Test the `y` flag in a comma-separated flag list.
pub fn flags_contain_y(v: &str) -> (r: bool)
    ensures
        r == spec_flags_contain_y(v@),
{
    let chars = str_to_chars(v);
    let parts = split_chars(&chars, ',');
    let mut j: usize = 0;
    while j < parts.len()
        invariant
            j <= parts@.len(),
            parts@.len() == parts.deep_view().len(),
            parts.deep_view() == spec_split(v@, ','),
            forall|k: int|
                0 <= k < j ==> spec_lower(spec_trim(#[trigger] parts.deep_view()[k])) != "y"@,
        decreases parts@.len() - j,
    {
        proof {
            assert(parts.deep_view()[j as int] == parts@[j as int]@);
        }
        let token = chars_to_string(&lower_chars(&trim_chars(&parts[j])));
        if crate::strutil::str_eq(token.as_str(), "y") {
            proof {
                assert(spec_lower(spec_trim(parts.deep_view()[j as int])) == "y"@);
            }
            return true;
        }
        j = j + 1;
    }
    false
}

} // verus!
