//! What one submission came to: the request that carries a flag, and the
//! mapping from the endpoint's reply to an outcome.
use vstd::prelude::*;

use crate::flag::Flag;

verus! {

/// Text whose presence in a successful reply body means the flag was refused.
pub const INVALID_MARKER: &'static str = "invalid";

/// Form field that carries the team credential.
pub const TOKEN_FIELD: &'static str = "team_token";

/// Form field that carries the flag.
pub const FLAG_FIELD: &'static str = "flag";

/// What the transport handed back for one submission.
#[derive(Debug, Clone)]
pub enum Reply {
    /// The request failed outright: connection error, timeout.
    Unreachable,
    /// The endpoint answered with `status`; `body` is `None` when it could
    /// not be read.
    Answered { status: u16, body: Option<String> },
}

/// Classified result of one submission.
#[derive(Debug, Clone, Copy, PartialEq, Eq, Structural)]
pub enum Outcome {
    /// The endpoint accepted the flag.
    Confirmed,
    /// The endpoint declared the flag invalid.
    Rejected,
    /// Nothing can be concluded; the flag stays unsent and is tried again.
    Undetermined,
}

/// An HTTP status in the success class.
pub open spec fn is_success_status(status: u16) -> bool {
    200 <= status <= 299
}

/// `pat` occurs in `s` starting at position `i`.
pub open spec fn occurs_at(s: Seq<char>, pat: Seq<char>, i: int) -> bool {
    0 <= i && i + pat.len() <= s.len() && s.subrange(i, i + pat.len()) == pat
}

/// `pat` occurs somewhere in `s`.
pub open spec fn contains_seq(s: Seq<char>, pat: Seq<char>) -> bool {
    exists|i: int| occurs_at(s, pat, i)
}

/// The outcome that a reply stands for.
pub open spec fn reply_outcome(reply: &Reply) -> Outcome {
    match reply {
        Reply::Unreachable => Outcome::Undetermined,
        Reply::Answered { status, body } => {
            if !is_success_status(*status) {
                Outcome::Undetermined
            } else {
                match body {
                    None => Outcome::Undetermined,
                    Some(text) => if contains_seq(text@, INVALID_MARKER@) {
                        Outcome::Rejected
                    } else {
                        Outcome::Confirmed
                    },
                }
            }
        },
    }
}

/// The characters of `s`, one per element.
fn chars_of(s: &str) -> (r: Vec<char>)
    ensures
        r@ == s@,
{
    let mut out: Vec<char> = Vec::new();
    for c in it: s.chars()
        invariant
            it.seq() == s@,
            out@ == it.seq().subrange(0, it.index() as int),
    {
        out.push(c);
    }
    out
}

/// Whether `pat` occurs in `text`.
pub fn contains_text(text: &str, pat: &str) -> (r: bool)
    ensures
        r == contains_seq(text@, pat@),
{
    let s = chars_of(text);
    let p = chars_of(pat);
    if p.len() > s.len() {
        proof {
            assert forall|i: int| !occurs_at(s@, p@, i) by {}
        }
        return false;
    }
    let last = s.len() - p.len();
    let mut i: usize = 0;
    while i <= last
        invariant
            s@ == text@,
            p@ == pat@,
            last == s.len() - p.len(),
            0 <= i <= last + 1,
            forall|k: int| 0 <= k < i ==> !occurs_at(s@, p@, k),
        decreases last + 1 - i,
    {
        let mut j: usize = 0;
        while j < p.len() && s[i + j] == p[j]
            invariant
                s@ == text@,
                p@ == pat@,
                last == s.len() - p.len(),
                0 <= i <= last,
                0 <= j <= p.len(),
                forall|m: int| 0 <= m < j ==> s@[i + m] == p@[m],
            decreases p.len() - j,
        {
            j = j + 1;
        }
        if j == p.len() {
            proof {
                assert(s@.subrange(i as int, i + p.len()) =~= p@);
                assert(occurs_at(s@, p@, i as int));
            }
            return true;
        }
        proof {
            assert(s@.subrange(i as int, i + p.len())[j as int] != p@[j as int]);
        }
        i = i + 1;
    }
    proof {
        assert forall|k: int| !occurs_at(s@, p@, k) by {
            if 0 <= k && k + p@.len() <= s@.len() {
                assert(k < i);
            }
        }
    }
    false
}

/// Maps what the transport handed back to an outcome. A reply counts as a
/// verdict only when its status is in the success class and its body could
/// be read; the body then rejects the flag if it holds `INVALID_MARKER`.
pub fn classify(reply: &Reply) -> (r: Outcome)
    ensures
        r == reply_outcome(reply),
{
    match reply {
        Reply::Unreachable => Outcome::Undetermined,
        Reply::Answered { status, body } => {
            if !(200 <= *status && *status <= 299) {
                return Outcome::Undetermined;
            }
            match body {
                None => Outcome::Undetermined,
                Some(text) => {
                    if contains_text(text.as_str(), INVALID_MARKER) {
                        Outcome::Rejected
                    } else {
                        Outcome::Confirmed
                    }
                },
            }
        },
    }
}

/// The form fields of the request that submits `flag`: the team credential
/// under `TOKEN_FIELD`, then the flag's value under `FLAG_FIELD`.
pub fn submission_form<'a>(team_token: &'a str, flag: &'a Flag) -> (r: [(&'static str, &'a str); 2])
    ensures
        r@[0].0@ == TOKEN_FIELD@,
        r@[0].1@ == team_token@,
        r@[1].0@ == FLAG_FIELD@,
        r@[1].1@ == flag.flag@,
{
    [(TOKEN_FIELD, team_token), (FLAG_FIELD, flag.flag.as_str())]
}

} // verus!
