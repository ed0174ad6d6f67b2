//! MX record handling: exchange normalization and the sorted, deduplicated
//! record list of a lookup, over a pluggable MX lookup capability.

use vstd::prelude::*;

verus! {

use vstd::string::StringExecFns;
use crate::strutil::{spec_trim, spec_trim_trailing_dots, spec_lower, spec_lex_le, trim_str,
    trim_trailing_dots, lower_chars, chars_to_string, str_to_chars, lex_le_chars, str_eq,
    lemma_lex_total, lemma_lex_antisym, lemma_lex_trans};
use crate::validator::domain::{idna_of, domain_to_ascii, spec_hostname_chars,
    spec_no_punycode_label};

/// One MX record: preference and exchange host name.
#[derive(Debug, Clone, PartialEq, Eq)]
pub struct MxRecord {
    pub preference: u16,
    pub exchange: String,
}

/// The view of an MX record.
#[verifier::ext_equal]
pub struct MxRecordView {
    pub preference: u16,
    pub exchange: Seq<char>,
}

impl View for MxRecord {
    type V = MxRecordView;

    open spec fn view(&self) -> MxRecordView {
        MxRecordView { preference: self.preference, exchange: self.exchange@ }
    }
}

impl DeepView for MxRecord {
    type V = MxRecordView;

    open spec fn deep_view(&self) -> MxRecordView {
        self@
    }
}

impl MxRecord {
    /// Build a record.
    pub fn new(preference: u16, exchange: String) -> (r: MxRecord)
        ensures
            r@.preference == preference,
            r@.exchange == exchange@,
    {
        MxRecord { preference, exchange }
    }
}

/// The outcome of an MX lookup.
#[derive(Debug, Clone, PartialEq, Eq)]
pub enum MxStatus {
    Records(Vec<MxRecord>),
    NoRecords,
}

impl MxStatus {
    /// The records of the lookup; empty when there were none.
    pub fn records(&self) -> (r: Vec<MxRecord>)
        ensures
            self matches MxStatus::Records(rs) ==> r.deep_view() == rs.deep_view(),
            self is NoRecords ==> r.deep_view() == Seq::<MxRecordView>::empty(),
    {
        match self {
            MxStatus::Records(records) => clone_records(records),
            MxStatus::NoRecords => {
                let empty: Vec<MxRecord> = Vec::new();
                proof {
                    assert(empty.deep_view() =~~= Seq::<MxRecordView>::empty());
                }
                empty
            },
        }
    }
}

/// Copy a record list.
pub fn clone_records(v: &Vec<MxRecord>) -> (r: Vec<MxRecord>)
    ensures
        r.deep_view() == v.deep_view(),
{
    let mut r: Vec<MxRecord> = Vec::new();
    let mut i: usize = 0;
    proof {
        assert(r.deep_view() =~~= v.deep_view().take(0));
    }
    while i < v.len()
        invariant
            i <= v@.len(),
            v@.len() == v.deep_view().len(),
            r.deep_view() == v.deep_view().take(i as int),
        decreases v@.len() - i,
    {
        let ghost olddeep = r.deep_view();
        let rec = MxRecord { preference: v[i].preference, exchange: v[i].exchange.clone() };
        r.push(rec);
        i = i + 1;
        proof {
            assert(r.deep_view() =~~= olddeep.push(v@[i - 1]@));
            assert(v.deep_view().take(i as int) =~~= v.deep_view().take(i - 1).push(
                v.deep_view()[i - 1]));
            assert(v.deep_view()[i - 1] =~= v@[i - 1]@);
        }
    }
    proof {
        assert(v.deep_view().take(v@.len() as int) =~= v.deep_view());
    }
    r
}

/// Errors of an MX lookup.
#[derive(Debug, Clone, PartialEq, Eq)]
pub enum MxError {
    EmptyDomain,
    IdnaConversion,
    ResolverInit { message: String },
    Lookup { message: String },
}

impl MxError {
    /// A human-readable description of the error.
    pub fn message(&self) -> (r: String)
        ensures
            self is EmptyDomain ==> r@ == "domain is empty"@,
            self is IdnaConversion ==> r@ == "domain IDNA conversion failed"@,
    {
        match self {
            MxError::EmptyDomain => String::from_str("domain is empty"),
            MxError::IdnaConversion => String::from_str("domain IDNA conversion failed"),
            MxError::ResolverInit { message } => {
                let mut m = String::from_str("resolver initialization failed: ");
                m.append(message.as_str());
                m
            },
            MxError::Lookup { message } => {
                let mut m = String::from_str("MX lookup failed: ");
                m.append(message.as_str());
                m
            },
        }
    }
}

/// The MX lookup capability, so that callers can bind the system resolver or
/// a stub.
pub trait LookupMx {
    /// The MX records of `domain`, in any order; the error text of a failed
    /// lookup.
    fn lookup_mx(&self, domain: &str) -> Result<Vec<MxRecord>, String>;
}

/// Trim the domain and convert it to its IDNA ASCII form. A plain ASCII
/// host name comes back as its lowercased self.
pub fn normalize_domain(domain: &str) -> (r: Result<String, MxError>)
    ensures
        spec_trim(domain@).len() == 0 ==> r matches Err(MxError::EmptyDomain),
        spec_trim(domain@).len() > 0 ==> match r {
            Ok(a) => idna_of(spec_trim(domain@)) == Some(a@) && (spec_hostname_chars(
                spec_trim(domain@),
            ) && spec_no_punycode_label(spec_trim(domain@)) ==> a@ == spec_lower(
                spec_trim(domain@),
            )),
            Err(e) => e is IdnaConversion && idna_of(spec_trim(domain@)) is None,
        },
{
    let trimmed_chars = trim_str(domain);
    if trimmed_chars.len() == 0 {
        return Err(MxError::EmptyDomain);
    }
    let trimmed = chars_to_string(&trimmed_chars);
    match domain_to_ascii(trimmed.as_str()) {
        Some(a) => Ok(a),
        None => Err(MxError::IdnaConversion),
    }
}

/// Normalize an exchange name: trailing dots removed, then ASCII-lowercased.
pub fn normalize_exchange(exchange: String) -> (r: String)
    ensures
        r@ == spec_lower(spec_trim_trailing_dots(exchange@)),
{
    let trimmed = trim_trailing_dots(&str_to_chars(exchange.as_str()));
    chars_to_string(&lower_chars(&trimmed))
}

/// The `(preference, exchange)` order of the record list.
pub open spec fn spec_mx_le(a: MxRecordView, b: MxRecordView) -> bool {
    a.preference < b.preference || (a.preference == b.preference && spec_lex_le(
        a.exchange,
        b.exchange,
    ))
}

/// Insert a record into a sorted list, before the first record it does not
/// come after.
pub open spec fn spec_mx_insert(x: MxRecordView, s: Seq<MxRecordView>) -> Seq<MxRecordView>
    decreases s.len(),
{
    if s.len() == 0 {
        seq![x]
    } else if spec_mx_le(x, s[0]) {
        seq![x] + s
    } else {
        seq![s[0]] + spec_mx_insert(x, s.drop_first())
    }
}

/// Insertion sort of a record list.
pub open spec fn spec_mx_sort(s: Seq<MxRecordView>) -> Seq<MxRecordView>
    decreases s.len(),
{
    if s.len() == 0 {
        Seq::<MxRecordView>::empty()
    } else {
        spec_mx_insert(s.last(), spec_mx_sort(s.drop_last()))
    }
}

/// Remove consecutive duplicate records.
pub open spec fn spec_mx_dedup(s: Seq<MxRecordView>) -> Seq<MxRecordView>
    decreases s.len(),
{
    if s.len() == 0 {
        Seq::<MxRecordView>::empty()
    } else {
        let pre = spec_mx_dedup(s.drop_last());
        if pre.len() > 0 && pre.last() == s.last() {
            pre
        } else {
            pre.push(s.last())
        }
    }
}

/// Every pair of the list is ordered.
pub open spec fn spec_mx_sorted(s: Seq<MxRecordView>) -> bool {
    forall|i: int, j: int| 0 <= i < j < s.len() ==> spec_mx_le(#[trigger] s[i], #[trigger] s[j])
}

/// No two records of the list are equal.
pub open spec fn spec_mx_distinct(s: Seq<MxRecordView>) -> bool {
    forall|i: int, j: int| 0 <= i < j < s.len() ==> #[trigger] s[i] != #[trigger] s[j]
}

pub proof fn lemma_mx_le_total(a: MxRecordView, b: MxRecordView)
    ensures
        spec_mx_le(a, b) || spec_mx_le(b, a),
{
    lemma_lex_total(a.exchange, b.exchange);
}

pub proof fn lemma_mx_le_antisym(a: MxRecordView, b: MxRecordView)
    requires
        spec_mx_le(a, b),
        spec_mx_le(b, a),
    ensures
        a =~= b,
{
    lemma_lex_antisym(a.exchange, b.exchange);
}

pub proof fn lemma_mx_le_trans(a: MxRecordView, b: MxRecordView, c: MxRecordView)
    requires
        spec_mx_le(a, b),
        spec_mx_le(b, c),
    ensures
        spec_mx_le(a, c),
{
    if a.preference == b.preference && b.preference == c.preference {
        lemma_lex_trans(a.exchange, b.exchange, c.exchange);
    }
}

proof fn lemma_mx_insert_keeps(x: MxRecordView, s: Seq<MxRecordView>)
    ensures
        spec_mx_insert(x, s).len() == s.len() + 1,
        spec_mx_insert(x, s).contains(x),
        forall|y: MxRecordView|
            #[trigger] spec_mx_insert(x, s).contains(y) ==> y == x || s.contains(y),
        forall|y: MxRecordView| s.contains(y) ==> #[trigger] spec_mx_insert(x, s).contains(y),
    decreases s.len(),
{
    if s.len() == 0 {
        assert(spec_mx_insert(x, s)[0] == x);
    } else if spec_mx_le(x, s[0]) {
        assert(spec_mx_insert(x, s)[0] == x);
        assert forall|y: MxRecordView| s.contains(y) implies #[trigger] spec_mx_insert(
            x,
            s,
        ).contains(y) by {
            let k = choose|k: int| 0 <= k < s.len() && s[k] == y;
            assert(spec_mx_insert(x, s)[k + 1] == y);
        }
        assert forall|y: MxRecordView| #[trigger] spec_mx_insert(x, s).contains(y) implies y == x
            || s.contains(y) by {
            let k = choose|k: int| 0 <= k < spec_mx_insert(x, s).len() && spec_mx_insert(x, s)[k]
                == y;
            if k > 0 {
                assert(s[k - 1] == y);
            }
        }
    } else {
        lemma_mx_insert_keeps(x, s.drop_first());
        let rest = spec_mx_insert(x, s.drop_first());
        assert(spec_mx_insert(x, s) =~~= seq![s[0]] + rest);
        assert forall|y: MxRecordView| s.contains(y) implies #[trigger] spec_mx_insert(
            x,
            s,
        ).contains(y) by {
            let k = choose|k: int| 0 <= k < s.len() && s[k] == y;
            if k == 0 {
                assert(spec_mx_insert(x, s)[0] == y);
                assert(spec_mx_insert(x, s).contains(y));
            } else {
                assert(s.drop_first()[k - 1] == y);
                assert(s.drop_first().contains(y));
                assert(rest.contains(y));
                let m = choose|m: int| 0 <= m < rest.len() && rest[m] == y;
                assert(spec_mx_insert(x, s)[m + 1] == rest[m]);
                assert(spec_mx_insert(x, s).contains(y));
            }
        }
        assert(rest.contains(x));
        let m = choose|m: int| 0 <= m < rest.len() && rest[m] == x;
        assert(spec_mx_insert(x, s)[m + 1] == rest[m]);
        assert(spec_mx_insert(x, s).contains(x));
        assert forall|y: MxRecordView| #[trigger] spec_mx_insert(x, s).contains(y) implies y == x
            || s.contains(y) by {
            let k = choose|k: int| 0 <= k < spec_mx_insert(x, s).len() && spec_mx_insert(x, s)[k]
                == y;
            if k == 0 {
                assert(s[0] == y);
            } else {
                assert(rest[k - 1] == y);
                assert(rest.contains(y));
                if y != x {
                    assert(s.drop_first().contains(y));
                    let m2 = choose|m2: int| 0 <= m2 < s.drop_first().len() && s.drop_first()[m2]
                        == y;
                    assert(s[m2 + 1] == y);
                }
            }
        }
    }
}

proof fn lemma_mx_insert_sorted(x: MxRecordView, s: Seq<MxRecordView>)
    requires
        spec_mx_sorted(s),
    ensures
        spec_mx_sorted(spec_mx_insert(x, s)),
    decreases s.len(),
{
    lemma_mx_insert_keeps(x, s);
    if s.len() == 0 {
    } else if spec_mx_le(x, s[0]) {
        let r = spec_mx_insert(x, s);
        assert forall|i: int, j: int| 0 <= i < j < r.len() implies spec_mx_le(
            #[trigger] r[i],
            #[trigger] r[j],
        ) by {
            if i == 0 {
                assert(r[0] == x);
                assert(r[j] == s[j - 1]);
                if j > 1 {
                    lemma_mx_le_trans(x, s[0], s[j - 1]);
                }
            } else {
                assert(r[i] == s[i - 1]);
                assert(r[j] == s[j - 1]);
            }
        }
    } else {
        assert(spec_mx_sorted(s.drop_first()));
        lemma_mx_insert_sorted(x, s.drop_first());
        lemma_mx_insert_keeps(x, s.drop_first());
        let rest = spec_mx_insert(x, s.drop_first());
        let r = spec_mx_insert(x, s);
        assert(r =~~= seq![s[0]] + rest);
        lemma_mx_le_total(x, s[0]);
        assert forall|i: int, j: int| 0 <= i < j < r.len() implies spec_mx_le(
            #[trigger] r[i],
            #[trigger] r[j],
        ) by {
            if i == 0 {
                assert(r[j] == rest[j - 1]);
                assert(rest.contains(rest[j - 1]));
                if rest[j - 1] == x {
                    assert(spec_mx_le(s[0], x));
                } else {
                    assert(rest.contains(rest[j - 1]) && rest[j - 1] != x);
                    assert(s.drop_first().contains(rest[j - 1]));
                    let m = choose|m: int|
                        0 <= m < s.drop_first().len() && s.drop_first()[m] == rest[j - 1];
                    assert(s.drop_first()[m] == s[m + 1]);
                    assert(s[m + 1] == rest[j - 1]);
                    assert(spec_mx_le(s[0], s[m + 1]));
                }
            } else {
                assert(r[i] == rest[i - 1]);
                assert(r[j] == rest[j - 1]);
            }
        }
    }
}

pub proof fn lemma_mx_sort_sorted(s: Seq<MxRecordView>)
    ensures
        spec_mx_sorted(spec_mx_sort(s)),
    decreases s.len(),
{
    if s.len() > 0 {
        lemma_mx_sort_sorted(s.drop_last());
        lemma_mx_insert_sorted(s.last(), spec_mx_sort(s.drop_last()));
    }
}

/// On a sorted list, removing consecutive duplicates leaves a sorted list
/// with no duplicate pairs at all.
pub proof fn lemma_mx_dedup_sorted(s: Seq<MxRecordView>)
    requires
        spec_mx_sorted(s),
    ensures
        spec_mx_sorted(spec_mx_dedup(s)),
        spec_mx_distinct(spec_mx_dedup(s)),
        forall|y: MxRecordView| #[trigger] spec_mx_dedup(s).contains(y) ==> s.contains(y),
        spec_mx_dedup(s).len() > 0 <==> s.len() > 0,
        spec_mx_dedup(s).len() > 0 ==> spec_mx_dedup(s).last() == s.last(),
    decreases s.len(),
{
    if s.len() > 0 {
        assert(spec_mx_sorted(s.drop_last()));
        lemma_mx_dedup_sorted(s.drop_last());
        let pre = spec_mx_dedup(s.drop_last());
        let r = spec_mx_dedup(s);
        assert forall|y: MxRecordView| #[trigger] r.contains(y) implies s.contains(y) by {
            let k = choose|k: int| 0 <= k < r.len() && r[k] == y;
            if k < pre.len() && pre.len() > 0 && pre.last() == s.last() {
                assert(pre.contains(y));
                let m = choose|m: int| 0 <= m < s.drop_last().len() && s.drop_last()[m] == y;
                assert(s[m] == y);
            } else if k < pre.len() {
                assert(pre.contains(y));
                let m = choose|m: int| 0 <= m < s.drop_last().len() && s.drop_last()[m] == y;
                assert(s[m] == y);
            } else {
                assert(y == s.last());
                assert(s[s.len() - 1] == y);
            }
        }
        if !(pre.len() > 0 && pre.last() == s.last()) {
            // a fresh last element was appended
            assert(r == pre.push(s.last()));
            assert forall|i: int, j: int| 0 <= i < j < r.len() implies spec_mx_le(
                #[trigger] r[i],
                #[trigger] r[j],
            ) by {
                if j == r.len() - 1 {
                    assert(pre.contains(r[i]));
                    let m = choose|m: int|
                        0 <= m < s.drop_last().len() && s.drop_last()[m] == r[i];
                    assert(s[m] == r[i]);
                    assert(spec_mx_le(s[m], s[s.len() - 1]));
                }
            }
            assert forall|i: int, j: int| 0 <= i < j < r.len() implies #[trigger] r[i]
                != #[trigger] r[j] by {
                if j == r.len() - 1 && pre.len() > 0 {
                    if r[i] == s.last() {
                        // the previous last equals it, contradiction with freshness
                        assert(pre.contains(r[i]));
                        let m = choose|m: int|
                            0 <= m < s.drop_last().len() && s.drop_last()[m] == r[i];
                        assert(s[m] == r[i]);
                        assert(spec_mx_le(s[m], s.drop_last().last()) || m == s.len() - 2);
                        let plast = pre.last();
                        assert(s.drop_last().contains(plast));
                        let pm = choose|pm: int|
                            0 <= pm < s.drop_last().len() && s.drop_last()[pm] == plast;
                        if pm < m {
                            assert(spec_mx_le(s[pm], s[m]));
                            assert(spec_mx_le(s[m], s[s.len() - 1]));
                            assert(s[m] == s[s.len() - 1]);
                            lemma_mx_le_antisym(s[pm], s[m]);
                        } else if pm > m {
                            assert(spec_mx_le(s[m], s[pm]));
                            assert(spec_mx_le(s[pm], s[s.len() - 1]));
                            assert(s[m] == s[s.len() - 1]);
                            lemma_mx_le_antisym(s[m], s[pm]);
                        }
                    }
                }
            }
        }
    }
}


/// Compare two records in `(preference, exchange)` order.
fn mx_le(a: &MxRecord, b: &MxRecord) -> (r: bool)
    ensures
        r == spec_mx_le(a@, b@),
{
    if a.preference < b.preference {
        true
    } else if a.preference > b.preference {
        false
    } else {
        let ac = str_to_chars(a.exchange.as_str());
        let bc = str_to_chars(b.exchange.as_str());
        lex_le_chars(&ac, &bc)
    }
}

proof fn lemma_mx_insert_at(x: MxRecordView, s: Seq<MxRecordView>, pos: int)
    requires
        0 <= pos <= s.len(),
        forall|i: int| 0 <= i < pos ==> !spec_mx_le(x, #[trigger] s[i]),
        pos == s.len() || spec_mx_le(x, s[pos]),
    ensures
        spec_mx_insert(x, s) == s.take(pos) + seq![x] + s.skip(pos),
    decreases pos,
{
    if pos == 0 {
        if s.len() == 0 {
            assert(spec_mx_insert(x, s) =~~= s.take(0) + seq![x] + s.skip(0));
        } else {
            assert(s.take(0) + seq![x] + s.skip(0) =~~= seq![x] + s);
        }
    } else {
        lemma_mx_insert_at(x, s.drop_first(), pos - 1);
        assert(s.drop_first().take(pos - 1) =~= s.take(pos).drop_first());
        assert(s.drop_first().skip(pos - 1) =~= s.skip(pos));
        assert(seq![s[0]] + (s.drop_first().take(pos - 1) + seq![x] + s.drop_first().skip(pos - 1))
            =~~= s.take(pos) + seq![x] + s.skip(pos));
    }
}

/// Insert one record into a sorted list.
fn insert_sorted_record(out: &mut Vec<MxRecord>, x: MxRecord)
    ensures
        final(out).deep_view() == spec_mx_insert(x@, old(out).deep_view()),
{
    let mut pos: usize = 0;
    loop
        invariant_except_break
            pos <= out@.len(),
            out@.len() == out.deep_view().len(),
            out == old(out),
            forall|i: int| 0 <= i < pos ==> !spec_mx_le(x@, #[trigger] out.deep_view()[i]),
        ensures
            pos <= out@.len(),
            out == old(out),
            forall|i: int| 0 <= i < pos ==> !spec_mx_le(x@, #[trigger] out.deep_view()[i]),
            pos == out@.len() || spec_mx_le(x@, out.deep_view()[pos as int]),
        decreases out@.len() - pos,
    {
        if pos == out.len() {
            break;
        }
        if mx_le(&x, &out[pos]) {
            proof {
                assert(out.deep_view()[pos as int] == out@[pos as int]@);
            }
            break;
        }
        proof {
            assert(out.deep_view()[pos as int] == out@[pos as int]@);
        }
        pos = pos + 1;
    }
    proof {
        lemma_mx_insert_at(x@, out.deep_view(), pos as int);
    }
    let ghost pre = out.deep_view();
    out.insert(pos, x);
    proof {
        assert(out.deep_view() =~~= pre.take(pos as int) + seq![x@] + pre.skip(pos as int));
    }
}

/// Sort records in `(preference, exchange)` order, by insertion.
fn sort_records(v: &Vec<MxRecord>) -> (r: Vec<MxRecord>)
    ensures
        r.deep_view() == spec_mx_sort(v.deep_view()),
{
    let mut out: Vec<MxRecord> = Vec::new();
    let mut i: usize = 0;
    proof {
        assert(v.deep_view().take(0) =~= Seq::<MxRecordView>::empty());
        assert(out.deep_view() =~~= spec_mx_sort(v.deep_view().take(0)));
    }
    while i < v.len()
        invariant
            i <= v@.len(),
            v@.len() == v.deep_view().len(),
            out.deep_view() == spec_mx_sort(v.deep_view().take(i as int)),
        decreases v@.len() - i,
    {
        let rec = MxRecord { preference: v[i].preference, exchange: v[i].exchange.clone() };
        insert_sorted_record(&mut out, rec);
        i = i + 1;
        proof {
            let t = v.deep_view().take(i as int);
            assert(t.drop_last() =~= v.deep_view().take(i - 1));
            assert(t.last() == v.deep_view()[i - 1]);
            assert(v.deep_view()[i - 1] =~= v@[i - 1]@);
        }
    }
    proof {
        assert(v.deep_view().take(v@.len() as int) =~= v.deep_view());
    }
    out
}

/// Whether two records are the same.
fn records_equal(a: &MxRecord, b: &MxRecord) -> (r: bool)
    ensures
        r == (a@ =~= b@),
{
    a.preference == b.preference && str_eq(a.exchange.as_str(), b.exchange.as_str())
}

/// Remove consecutive duplicate records.
fn dedup_records(v: &Vec<MxRecord>) -> (r: Vec<MxRecord>)
    ensures
        r.deep_view() == spec_mx_dedup(v.deep_view()),
{
    let mut out: Vec<MxRecord> = Vec::new();
    let mut i: usize = 0;
    proof {
        assert(v.deep_view().take(0) =~= Seq::<MxRecordView>::empty());
        assert(out.deep_view() =~~= spec_mx_dedup(v.deep_view().take(0)));
    }
    while i < v.len()
        invariant
            i <= v@.len(),
            v@.len() == v.deep_view().len(),
            out.deep_view() == spec_mx_dedup(v.deep_view().take(i as int)),
        decreases v@.len() - i,
    {
        let keep = if out.len() == 0 {
            true
        } else {
            proof {
                assert(out.deep_view()[out@.len() - 1] == out@[out@.len() - 1]@);
            }
            !records_equal(&out[out.len() - 1], &v[i])
        };
        if keep {
            let ghost olddeep = out.deep_view();
            let rec = MxRecord { preference: v[i].preference, exchange: v[i].exchange.clone() };
            out.push(rec);
            proof {
                assert(out.deep_view() =~~= olddeep.push(v@[i as int]@));
            }
        }
        i = i + 1;
        proof {
            let t = v.deep_view().take(i as int);
            assert(t.drop_last() =~= v.deep_view().take(i - 1));
            assert(t.last() == v.deep_view()[i - 1]);
            assert(v.deep_view()[i - 1] =~= v@[i - 1]@);
        }
    }
    proof {
        assert(v.deep_view().take(v@.len() as int) =~= v.deep_view());
    }
    out
}

/// Sort and deduplicate a lookup's records; an empty outcome is `NoRecords`.
pub fn arrange_records(records: Vec<MxRecord>) -> (r: MxStatus)
    ensures
        ({
            let arranged = spec_mx_dedup(spec_mx_sort(records.deep_view()));
            match r {
                MxStatus::Records(rs) => rs.deep_view() == arranged && arranged.len() > 0,
                MxStatus::NoRecords => arranged.len() == 0,
            }
        }),
{
    let sorted = sort_records(&records);
    let deduped = dedup_records(&sorted);
    if deduped.len() == 0 {
        MxStatus::NoRecords
    } else {
        MxStatus::Records(deduped)
    }
}

/// Look up and arrange the MX records of an ASCII domain. Whatever the
/// resolver returned, a `Records` outcome is non-empty, sorted by
/// `(preference, exchange)` and free of duplicates, and the only error this
/// function raises is a failed lookup.
pub fn resolve_with<R: LookupMx>(resolver: &R, ascii_domain: &str) -> (r: Result<
    MxStatus,
    MxError,
>)
    ensures
        r matches Ok(st) ==> match st {
            MxStatus::Records(rs) => spec_mx_sorted(rs.deep_view()) && spec_mx_distinct(
                rs.deep_view(),
            ) && rs.deep_view().len() > 0,
            MxStatus::NoRecords => true,
        },
        r matches Err(e) ==> e is Lookup,
{
    let looked_up = match resolver.lookup_mx(ascii_domain) {
        Ok(rs) => rs,
        Err(message) => {
            return Err(MxError::Lookup { message });
        },
    };
    let ghost input = looked_up.deep_view();
    let status = arrange_records(looked_up);
    proof {
        lemma_mx_sort_sorted(input);
        lemma_mx_dedup_sorted(spec_mx_sort(input));
    }
    Ok(status)
}


} // verus!
