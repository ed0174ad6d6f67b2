//! SMTP replies and the wire-format parser: CRLF lines, a three-digit code,
//! `-` continuation, one shared code across a multi-line reply.

use vstd::prelude::*;

verus! {

use vstd::string::StringExecFns;
use crate::strutil::{spec_lower, spec_split, spec_first_token, spec_dec, spec_is_ascii_digit,
    str_to_chars, chars_to_string, split_chars, tokens_chars, lower_chars, str_eq, skip_chars,
    push_dec_u64, push_chars, is_ascii_digit_char};

/// A raw SMTP reply: the status code and the joined continuation text.
#[derive(Debug, Clone, PartialEq, Eq)]
pub struct SmtpReply {
    pub code: u16,
    pub message: String,
}

/// The view of a reply.
#[verifier::ext_equal]
pub struct SmtpReplyView {
    pub code: u16,
    pub message: Seq<char>,
}

impl View for SmtpReply {
    type V = SmtpReplyView;

    open spec fn view(&self) -> SmtpReplyView {
        SmtpReplyView { code: self.code, message: self.message@ }
    }
}

/// A reply the parser can hand out: its code lies between 100 and 599.
pub open spec fn spec_reply_wf(r: SmtpReplyView) -> bool {
    100 <= r.code <= 599
}

impl SmtpReply {
    /// Positive completion: a 2xx code.
    pub fn is_positive_completion(&self) -> (r: bool)
        ensures
            r == (200 <= self.code < 300),
    {
        200 <= self.code && self.code < 300
    }

    /// Transient failure: a 4xx code.
    pub fn is_transient_failure(&self) -> (r: bool)
        ensures
            r == (400 <= self.code < 500),
    {
        400 <= self.code && self.code < 500
    }

    /// Permanent failure: a 5xx code.
    pub fn is_permanent_failure(&self) -> (r: bool)
        ensures
            r == (500 <= self.code < 600),
    {
        500 <= self.code && self.code < 600
    }

    /// Whether a line of the reply advertises the capability: its first
    /// whitespace-separated token equals `cap`, ASCII-case-insensitively.
    pub fn has_capability(&self, cap: &str) -> (r: bool)
        ensures
            r == exists|i: int|
                0 <= i < spec_split(self.message@, '\n').len() && spec_lower(
                    spec_first_token(#[trigger] spec_split(self.message@, '\n')[i]),
                ) == spec_lower(cap@),
    {
        let chars = str_to_chars(self.message.as_str());
        let lines = split_chars(&chars, '\n');
        let cap_chars = str_to_chars(cap);
        let cap_lower = chars_to_string(&lower_chars(&cap_chars));
        let mut i: usize = 0;
        while i < lines.len()
            invariant
                i <= lines@.len(),
                lines@.len() == lines.deep_view().len(),
                lines.deep_view() == spec_split(self.message@, '\n'),
                cap_lower@ == spec_lower(cap@),
                forall|k: int|
                    0 <= k < i ==> spec_lower(
                        spec_first_token(#[trigger] lines.deep_view()[k]),
                    ) != spec_lower(cap@),
            decreases lines@.len() - i,
        {
            proof {
                assert(lines.deep_view()[i as int] == lines@[i as int]@);
            }
            let toks = tokens_chars(&lines[i]);
            let first_lower = if toks.len() == 0 {
                let empty: Vec<char> = Vec::new();
                proof {
                    assert(empty@ =~= spec_lower(spec_first_token(lines.deep_view()[i as int])));
                }
                chars_to_string(&empty)
            } else {
                proof {
                    assert(toks.deep_view()[0] == toks@[0]@);
                }
                chars_to_string(&lower_chars(&toks[0]))
            };
            if str_eq(first_lower.as_str(), cap_lower.as_str()) {
                proof {
                    assert(spec_lower(spec_first_token(lines.deep_view()[i as int]))
                        == spec_lower(cap@));
                }
                return true;
            }
            i = i + 1;
        }
        false
    }
}

// ---------------------------------------------------------------------------
// Wire parsing
// ---------------------------------------------------------------------------

/// The numeric value a line's first three characters encode, when they are
/// ASCII digits.
pub open spec fn spec_line_code(line: Seq<char>) -> int {
    ((line[0] as u32) - 48) * 100 + ((line[1] as u32) - 48) * 10 + ((line[2] as u32) - 48)
}

/// A well-formed reply line: at least three characters, the first three are
/// digits, and the code lies between 100 and 599.
pub open spec fn spec_line_ok(line: Seq<char>) -> bool {
    &&& line.len() >= 3
    &&& spec_is_ascii_digit(line[0])
    &&& spec_is_ascii_digit(line[1])
    &&& spec_is_ascii_digit(line[2])
    &&& 100 <= spec_line_code(line) <= 599
}

/// Whether the line ends the reply: no `'-'` in the fourth column.
pub open spec fn spec_line_final(line: Seq<char>) -> bool {
    !(line.len() > 3 && line[3] == '-')
}

/// The text the line contributes to the joined message.
pub open spec fn spec_line_text(line: Seq<char>) -> Seq<char> {
    if line.len() > 4 {
        line.skip(4)
    } else {
        Seq::<char>::empty()
    }
}

/// Accumulates the lines of one reply until its final line arrives.
pub struct ReplyAccumulator {
    code: Option<u16>,
    message: String,
    have_line: bool,
}

impl ReplyAccumulator {
    /// The code of the lines seen so far.
    pub closed spec fn spec_code(&self) -> Option<u16> {
        self.code
    }

    /// The joined text of the lines seen so far.
    pub closed spec fn spec_message(&self) -> Seq<char> {
        self.message@
    }

    /// Whether a line has been consumed already.
    pub closed spec fn spec_started(&self) -> bool {
        self.have_line
    }

    /// An accumulator with no lines yet.
    pub fn new() -> (r: ReplyAccumulator)
        ensures
            r.spec_code() is None,
            r.spec_message() == Seq::<char>::empty(),
            !r.spec_started(),
    {
        ReplyAccumulator { code: None, message: String::new(), have_line: false }
    }

    /// Consume one line (already stripped of its CRLF). A malformed line or
    /// an inconsistent code is a protocol fault; the final line of the reply
    /// yields the assembled reply, whose code always lies in 100..=599.
    pub fn push_line(&mut self, line: &str) -> (r: Result<Option<SmtpReply>, String>)
        ensures
            !spec_line_ok(line@) ==> r is Err && *final(self) == *old(self),
            spec_line_ok(line@) && old(self).spec_code() is Some && old(
                self,
            ).spec_code()->Some_0 as int != spec_line_code(line@) ==> r is Err && *final(self)
                == *old(self),
            spec_line_ok(line@) && (old(self).spec_code() is None || old(
                self,
            ).spec_code()->Some_0 as int == spec_line_code(line@)) ==> {
                &&& final(self).spec_code() == Some((spec_line_code(line@) as u16))
                &&& final(self).spec_message() == old(self).spec_message() + (if old(
                    self,
                ).spec_started() {
                    seq!['\n'] + spec_line_text(line@)
                } else {
                    spec_line_text(line@)
                })
                &&& final(self).spec_started()
                &&& (match r {
                    Ok(Some(reply)) => spec_line_final(line@) && reply.code as int
                        == spec_line_code(line@) && reply.message@ == final(self).spec_message()
                        && spec_reply_wf(reply@),
                    Ok(None) => !spec_line_final(line@),
                    Err(_) => false,
                })
            },
    {
        let chars = str_to_chars(line);
        if chars.len() < 3 {
            let mut m = String::from_str("invalid reply: ");
            m.append(line);
            return Err(m);
        }
        let d0 = chars[0];
        let d1 = chars[1];
        let d2 = chars[2];
        if !(is_ascii_digit_char(d0) && is_ascii_digit_char(d1) && is_ascii_digit_char(d2)) {
            let mut m = String::from_str("invalid code in line: ");
            m.append(line);
            return Err(m);
        }
        let value: u32 = ((d0 as u32) - 48) * 100 + ((d1 as u32) - 48) * 10 + ((d2 as u32) - 48);
        if value < 100 || value > 599 {
            let mut m = String::from_str("invalid code in line: ");
            m.append(line);
            return Err(m);
        }
        let code16: u16 = value as u16;
        if let Some(existing) = self.code {
            if existing != code16 {
                let mut m = String::from_str("inconsistent reply codes: ");
                push_dec_u64(&mut m, existing as u64);
                m.append(" vs ");
                push_dec_u64(&mut m, code16 as u64);
                return Err(m);
            }
        }
        self.code = Some(code16);
        let text = if chars.len() > 4 {
            skip_chars(&chars, 4)
        } else {
            let empty: Vec<char> = Vec::new();
            proof {
                assert(empty@ =~= spec_line_text(line@));
            }
            empty
        };
        if self.have_line {
            self.message.push('\n');
        }
        push_chars(&mut self.message, &text);
        self.have_line = true;
        let is_final = !(chars.len() > 3 && chars[3] == '-');
        if is_final {
            let reply = SmtpReply { code: code16, message: self.message.clone() };
            Ok(Some(reply))
        } else {
            Ok(None)
        }
    }
}

} // verus!
