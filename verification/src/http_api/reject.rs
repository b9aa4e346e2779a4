//! Why a request was turned down, and what the client is told.

use crate::text::chars_of;
use vstd::prelude::*;
use vstd::string::StringExecFns;

verus! {

/// What was asked for does not exist; the message says what.
#[derive(Clone, Debug)]
pub struct CustomNotFound(pub String);

/// Why a request was turned down.
#[derive(Clone, Debug)]
pub enum Rejection {
    /// No route matched.
    NotFound,
    /// The body could not be read; the cause, where one is known.
    BodyDeserializeError(Option<String>),
    /// The route does not take this method.
    MethodNotAllowed,
    /// The chain failed; its own description of how.
    BeaconChainError(String),
    /// What was asked for does not exist.
    CustomNotFound(CustomNotFound),
    /// Anything else.
    Unhandled,
}

/// An API error as it is sent to the client.
#[derive(Clone, Debug)]
pub struct ErrorMessage {
    pub code: u16,
    pub message: String,
}

pub const NOT_FOUND: u16 = 404;

pub const BAD_REQUEST: u16 = 400;

pub const METHOD_NOT_ALLOWED: u16 = 405;

pub const INTERNAL_SERVER_ERROR: u16 = 500;

/// `word` occurs in `text` at position `at`.
pub open spec fn occurs_at(text: Seq<char>, word: Seq<char>, at: int) -> bool {
    0 <= at && at + word.len() <= text.len() && text.subrange(at, at + word.len()) == word
}

/// `word` occurs somewhere in `text`.
pub open spec fn occurs_in(text: Seq<char>, word: Seq<char>) -> bool {
    exists|at: int| occurs_at(text, word, at)
}

/// Whether `word` occurs somewhere in `text`.
pub fn contains(text: &str, word: &str) -> (found: bool)
    ensures
        found == occurs_in(text@, word@),
{
    let t = chars_of(text);
    let w = chars_of(word);
    if w.len() > t.len() {
        assert forall|at: int| !occurs_at(text@, word@, at) by {}
        return false;
    }
    let last = t.len() - w.len();
    let mut at: usize = 0;
    while at <= last
        invariant
            at <= last + 1,
            last == t.len() - w.len(),
            w.len() <= t.len(),
            t@ == text@,
            w@ == word@,
            forall|k: int| 0 <= k < at ==> !occurs_at(text@, word@, k),
        decreases last + 1 - at,
    {
        let mut i: usize = 0;
        let mut same = true;
        while i < w.len()
            invariant_except_break
                same,
                forall|j: int| 0 <= j < i ==> t@[at + j] == w@[j],
            invariant
                i <= w.len(),
                at <= last,
                last == t.len() - w.len(),
                w.len() <= t.len(),
            ensures
                same ==> forall|j: int| 0 <= j < w.len() ==> t@[at + j] == w@[j],
                !same ==> i < w.len() && t@[at + i] != w@[i as int],
            decreases w.len() - i,
        {
            if t[at + i] != w[i] {
                same = false;
                break ;
            }
            i = i + 1;
        }
        if same {
            assert(t@.subrange(at as int, at + w.len()) =~= w@);
            assert(occurs_at(text@, word@, at as int));
            return true;
        }
        proof {
            let sub = t@.subrange(at as int, at + w.len());
            assert(sub[i as int] == t@[at + i]);
            assert(!occurs_at(text@, word@, at as int));
        }
        at = at + 1;
    }
    assert forall|k: int| !occurs_at(text@, word@, k) by {}
    false
}

impl Rejection {
    /// The status code that answers the rejection.
    pub open spec fn code(self) -> u16 {
        match self {
            Rejection::NotFound => NOT_FOUND,
            Rejection::BodyDeserializeError(_) => BAD_REQUEST,
            Rejection::MethodNotAllowed => METHOD_NOT_ALLOWED,
            Rejection::BeaconChainError(_) => INTERNAL_SERVER_ERROR,
            Rejection::CustomNotFound(_) => NOT_FOUND,
            Rejection::Unhandled => INTERNAL_SERVER_ERROR,
        }
    }

    /// The message that answers the rejection.
    pub open spec fn message(self) -> Seq<char> {
        match self {
            Rejection::NotFound => "NOT_FOUND"@,
            Rejection::BodyDeserializeError(Some(cause)) => if occurs_in(cause@, "denom"@) {
                "FIELD_ERROR: denom"@
            } else {
                "BAD_REQUEST"@
            },
            Rejection::BodyDeserializeError(None) => "BAD_REQUEST"@,
            Rejection::MethodNotAllowed => "METHOD_NOT_ALLOWED"@,
            Rejection::BeaconChainError(e) => "UNHANDLED_ERROR: "@ + e@,
            Rejection::CustomNotFound(e) => "NOT_FOUND: "@ + e.0@,
            Rejection::Unhandled => "UNHANDLED_REJECTION"@,
        }
    }
}

/// What the client is told of a rejection: a status code and a message.
pub fn handle_rejection(err: &Rejection) -> (reply: ErrorMessage)
    ensures
        reply.code == err.code(),
        reply.message@ == err.message(),
{
    match err {
        Rejection::NotFound => ErrorMessage {
            code: NOT_FOUND,
            message: String::from_str("NOT_FOUND"),
        },
        Rejection::BodyDeserializeError(cause) => {
            let message = match cause {
                Some(cause) => if contains(cause.as_str(), "denom") {
                    "FIELD_ERROR: denom"
                } else {
                    "BAD_REQUEST"
                },
                None => "BAD_REQUEST",
            };
            ErrorMessage { code: BAD_REQUEST, message: String::from_str(message) }
        },
        Rejection::MethodNotAllowed => ErrorMessage {
            code: METHOD_NOT_ALLOWED,
            message: String::from_str("METHOD_NOT_ALLOWED"),
        },
        Rejection::BeaconChainError(e) => ErrorMessage {
            code: INTERNAL_SERVER_ERROR,
            message: String::from_str("UNHANDLED_ERROR: ").concat(e.as_str()),
        },
        Rejection::CustomNotFound(e) => ErrorMessage {
            code: NOT_FOUND,
            message: String::from_str("NOT_FOUND: ").concat(e.0.as_str()),
        },
        Rejection::Unhandled => ErrorMessage {
            code: INTERNAL_SERVER_ERROR,
            message: String::from_str("UNHANDLED_REJECTION"),
        },
    }
}

/// The rejection for something that does not exist.
pub fn custom_not_found(msg: String) -> (rejection: Rejection)
    ensures
        rejection == Rejection::CustomNotFound(CustomNotFound(msg)),
{
    Rejection::CustomNotFound(CustomNotFound(msg))
}

/// The rejection for a failure of the chain, from its description.
pub fn beacon_chain_error(description: String) -> (rejection: Rejection)
    ensures
        rejection == Rejection::BeaconChainError(description),
{
    Rejection::BeaconChainError(description)
}

} // verus!
