//! Domain validation: IDNA conversion behind a trusted wrapper, then label
//! checks on the ASCII form.

use vstd::prelude::*;

verus! {

use vstd::string::StringExecFns;
use crate::strutil::{spec_is_ascii_alphanumeric, is_ascii_alphanumeric_char, spec_split,
    split_chars, str_to_chars, chars_to_string, push_chars, push_dec_u64, spec_dec, spec_lower,
    lower_string};

/// What `idna::domain_to_ascii` yields for a domain: its ASCII (Punycode)
/// form, or nothing when the conversion fails. A function of the input alone.
pub uninterp spec fn idna_of(s: Seq<char>) -> Option<Seq<char>>;

/// Every character of `s` is one a host name may hold: an ASCII letter or
/// digit, a hyphen, an underscore, or a dot.
pub open spec fn spec_hostname_chars(s: Seq<char>) -> bool {
    forall|i: int|
        0 <= i < s.len() ==> spec_is_ascii_alphanumeric(#[trigger] s[i]) || s[i] == '-' || s[i]
            == '_' || s[i] == '.'
}

/// No dot-separated label of the lowercased domain begins with the Punycode
/// prefix `xn--`.
pub open spec fn spec_no_punycode_label(s: Seq<char>) -> bool {
    forall|i: int|
        0 <= i < spec_split(spec_lower(s), '.').len() ==> !crate::strutil::spec_starts_with(
            #[trigger] spec_split(spec_lower(s), '.')[i],
            "xn--"@,
        )
}

/// Relies on `idna::domain_to_ascii` (UTS 46 ToASCII, non-strict): the ASCII
/// form of a domain depends on the domain alone. For a domain made of ASCII
/// letters, digits, hyphens, underscores and dots, with no `xn--` label, the
/// conversion only lowercases: ASCII letters and digits pass the mapper
/// unchanged or case-folded, underscores are STD3-valid characters that the
/// non-strict profile keeps, and only `xn--` labels take the Punycode path.
#[verifier::external_body]
pub fn domain_to_ascii(domain: &str) -> (r: Option<String>)
    ensures
        match r {
            Some(a) => idna_of(domain@) == Some(a@),
            None => idna_of(domain@) is None,
        },
        match r {
            Some(a) => spec_hostname_chars(domain@) && spec_no_punycode_label(domain@) ==> a@
                == spec_lower(domain@),
            None => !(spec_hostname_chars(domain@) && spec_no_punycode_label(domain@)),
        },
{
    match idna::domain_to_ascii(domain) {
        Ok(a) => Some(a),
        Err(_) => None,
    }
}

/// One label is well-formed when it is non-empty, at most 63 characters,
/// has no hyphen at either end and holds only ASCII alphanumerics or hyphens.
pub open spec fn spec_label_all_valid_chars(l: Seq<char>) -> bool {
    forall|i: int| 0 <= i < l.len() ==> spec_is_ascii_alphanumeric(#[trigger] l[i]) || l[i] == '-'
}

/// The reasons one ASCII domain label is rejected, in the order they are
/// reported.
pub open spec fn spec_label_reasons(l: Seq<char>) -> Seq<Seq<char>> {
    if l.len() == 0 {
        seq!["empty domain label"@]
    } else {
        (if l.len() > 63 {
            seq![spec_msg_label_too_long(l)]
        } else {
            Seq::<Seq<char>>::empty()
        }) + (if l[0] == '-' || l.last() == '-' {
            seq![spec_msg_label_hyphen(l)]
        } else {
            Seq::<Seq<char>>::empty()
        }) + (if !spec_label_all_valid_chars(l) {
            seq![spec_msg_label_chars(l)]
        } else {
            Seq::<Seq<char>>::empty()
        })
    }
}

pub open spec fn spec_msg_label_too_long(l: Seq<char>) -> Seq<char> {
    "domain label '"@ + l + "' length "@ + spec_dec(l.len()) + " > 63"@
}

pub open spec fn spec_msg_label_hyphen(l: Seq<char>) -> Seq<char> {
    "domain label '"@ + l + "' cannot start/end with '-'"@
}

pub open spec fn spec_msg_label_chars(l: Seq<char>) -> Seq<char> {
    "domain label '"@ + l + "' has invalid chars"@
}

/// The reasons accumulated over a prefix of the label list.
pub open spec fn spec_labels_reasons(labels: Seq<Seq<char>>) -> Seq<Seq<char>>
    decreases labels.len(),
{
    if labels.len() == 0 {
        Seq::<Seq<char>>::empty()
    } else {
        spec_labels_reasons(labels.drop_last()) + spec_label_reasons(labels.last())
    }
}

/// The reasons the domain of an address is rejected: IDNA failure, emptiness,
/// a missing dot, then per-label faults on the ASCII form.
pub open spec fn spec_domain_reasons(domain: Seq<char>) -> Seq<Seq<char>> {
    match idna_of(domain) {
        None => seq!["domain punycode conversion failed"@],
        Some(ascii) => {
            if ascii.len() == 0 {
                seq!["domain empty after IDNA conversion"@]
            } else {
                (if !ascii.contains('.') {
                    seq!["domain must contain at least one dot"@]
                } else {
                    Seq::<Seq<char>>::empty()
                }) + spec_labels_reasons(spec_split(ascii, '.'))
            }
        },
    }
}

fn label_all_valid_chars(l: &Vec<char>) -> (r: bool)
    ensures
        r == spec_label_all_valid_chars(l@),
{
    let mut i: usize = 0;
    while i < l.len()
        invariant
            i <= l@.len(),
            forall|k: int|
                0 <= k < i ==> spec_is_ascii_alphanumeric(#[trigger] l@[k]) || l@[k] == '-',
        decreases l@.len() - i,
    {
        if !(is_ascii_alphanumeric_char(l[i]) || l[i] == '-') {
            return false;
        }
        i = i + 1;
    }
    true
}

fn push_label_reasons(reasons: &mut Vec<String>, label: &Vec<char>)
    ensures
        final(reasons).deep_view() == old(reasons).deep_view() + spec_label_reasons(label@),
{
    let ghost orig = old(reasons).deep_view();
    if label.len() == 0 {
        reasons.push(String::from_str("empty domain label"));
        proof {
            assert(reasons.deep_view() =~~= orig + spec_label_reasons(label@));
        }
        return ;
    }
    let ghost mid0 = reasons.deep_view();
    if label.len() > 63 {
        let mut m = String::from_str("domain label '");
        push_chars(&mut m, label);
        m.append("' length ");
        push_dec_u64(&mut m, label.len() as u64);
        m.append(" > 63");
        proof {
            assert(m@ =~= spec_msg_label_too_long(label@));
        }
        reasons.push(m);
    }
    let ghost mid1 = reasons.deep_view();
    proof {
        assert(mid1 =~~= orig + (if label@.len() > 63 {
            seq![spec_msg_label_too_long(label@)]
        } else {
            Seq::<Seq<char>>::empty()
        }));
    }
    if label[0] == '-' || label[label.len() - 1] == '-' {
        let mut m = String::from_str("domain label '");
        push_chars(&mut m, label);
        m.append("' cannot start/end with '-'");
        proof {
            assert(m@ =~= spec_msg_label_hyphen(label@));
        }
        reasons.push(m);
    }
    let ghost mid2 = reasons.deep_view();
    proof {
        assert(mid2 =~~= mid1 + (if label@[0] == '-' || label@.last() == '-' {
            seq![spec_msg_label_hyphen(label@)]
        } else {
            Seq::<Seq<char>>::empty()
        }));
    }
    if !label_all_valid_chars(label) {
        let mut m = String::from_str("domain label '");
        push_chars(&mut m, label);
        m.append("' has invalid chars");
        proof {
            assert(m@ =~= spec_msg_label_chars(label@));
        }
        reasons.push(m);
    }
    proof {
        assert(reasons.deep_view() =~~= mid2 + (if !spec_label_all_valid_chars(label@) {
            seq![spec_msg_label_chars(label@)]
        } else {
            Seq::<Seq<char>>::empty()
        }));
        assert(reasons.deep_view() =~~= orig + spec_label_reasons(label@));
    }
}

/// Validate the domain part: IDNA conversion, then label checks. Each fault
/// appends one reason.
pub fn check_domain(domain: &str, reasons: &mut Vec<String>)
    ensures
        final(reasons).deep_view() == old(reasons).deep_view() + spec_domain_reasons(domain@),
{
    let ghost orig = old(reasons).deep_view();
    let converted = domain_to_ascii(domain);
    let ascii = match converted {
        Some(a) => a,
        None => {
            reasons.push(String::from_str("domain punycode conversion failed"));
            proof {
                assert(reasons.deep_view() =~~= orig + spec_domain_reasons(domain@));
            }
            return ;
        },
    };
    let ascii_chars = str_to_chars(ascii.as_str());
    if ascii_chars.len() == 0 {
        reasons.push(String::from_str("domain empty after IDNA conversion"));
        proof {
            assert(reasons.deep_view() =~~= orig + spec_domain_reasons(domain@));
        }
        return ;
    }
    if !crate::strutil::contains_char(&ascii_chars, '.') {
        reasons.push(String::from_str("domain must contain at least one dot"));
    }
    let ghost mid = reasons.deep_view();
    proof {
        assert(mid =~~= orig + (if !ascii@.contains('.') {
            seq!["domain must contain at least one dot"@]
        } else {
            Seq::<Seq<char>>::empty()
        }));
    }
    let labels = split_chars(&ascii_chars, '.');
    let mut j: usize = 0;
    proof {
        assert(labels.deep_view().take(0) =~= Seq::<Seq<char>>::empty());
        assert(reasons.deep_view() =~~= mid + spec_labels_reasons(labels.deep_view().take(0)));
    }
    while j < labels.len()
        invariant
            j <= labels@.len(),
            labels@.len() == labels.deep_view().len(),
            labels.deep_view() == spec_split(ascii@, '.'),
            reasons.deep_view() == mid + spec_labels_reasons(labels.deep_view().take(j as int)),
        decreases labels@.len() - j,
    {
        push_label_reasons(reasons, &labels[j]);
        j = j + 1;
        proof {
            let t = labels.deep_view().take(j as int);
            assert(t.drop_last() =~= labels.deep_view().take(j - 1));
            assert(t.last() =~= labels@[j - 1]@);
            assert(reasons.deep_view() =~~= mid + spec_labels_reasons(t));
        }
    }
    proof {
        assert(labels.deep_view().take(labels@.len() as int) =~= labels.deep_view());
        assert(reasons.deep_view() =~~= orig + spec_domain_reasons(domain@));
    }
}

/// The normalized forms of the raw domain text: its ASCII-lowercased form and
/// its IDNA ASCII form (empty when conversion fails). On a plain ASCII host
/// name the IDNA form is the lowercased text itself.
pub fn normalize_domain(domain: &str) -> (r: (String, String))
    ensures
        r.0@ == spec_lower(domain@),
        r.1@ == match idna_of(domain@) {
            Some(a) => a,
            None => Seq::<char>::empty(),
        },
        spec_hostname_chars(domain@) && spec_no_punycode_label(domain@) ==> r.1@ == spec_lower(
            domain@,
        ),
{
    let lowered = lower_string(domain);
    let ascii = match domain_to_ascii(domain) {
        Some(a) => a,
        None => String::new(),
    };
    (lowered, ascii)
}

} // verus!
