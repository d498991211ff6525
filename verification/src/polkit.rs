//! Who may do what: the actions, and how an answer about one is judged.
//!
//! A caller is asked about twice at most. The first question allows no interaction and
//! returns promptly, which is all that most callers need; only where it says no is a human
//! asked, and only where the wait for one can be bounded.

pub mod actions;

use vstd::prelude::*;
use crate::number::{decimal, decimal_text};

verus! {

/// How long to wait for a human to answer a prompt, in seconds. Without an authentication
/// agent a prompt is never answered at all.
pub const PROMPT_TIMEOUT_S: u64 = 60;

/// How one question ended.
#[derive(Debug, Clone, PartialEq, Eq)]
pub enum Asked {
    Answered(bool),
    /// There was nobody to put it to.
    Unreachable(String),
    /// The caller's name could not be put into it.
    Unencodable(String),
    Failed(String),
}

/// How a prompt ended.
#[derive(Debug, Clone, PartialEq, Eq)]
pub enum Prompt {
    Asked(Asked),
    TimedOut,
    /// The prompt itself broke down.
    Broken(String),
}

/// What the first question leads to.
#[derive(Debug, Clone, PartialEq, Eq)]
pub enum Next {
    Allow,
    Prompt,
    Deny(String),
}

/// Why a question brought no answer, if it brought none.
pub open spec fn trouble(a: Asked) -> Option<Seq<char>> {
    match a {
        Asked::Answered(_) => None,
        Asked::Unreachable(e) => Some("cannot reach polkit: "@ + e@),
        Asked::Unencodable(e) => Some("cannot encode caller name: "@ + e@),
        Asked::Failed(e) => Some("polkit check failed: "@ + e@),
    }
}

impl Asked {
    fn trouble_text(&self) -> (r: Option<String>)
        ensures
            match trouble(*self) {
                None => r is None,
                Some(t) => r matches Some(s) && s@ == t,
            },
    {
        match self {
            Asked::Answered(_) => None,
            Asked::Unreachable(e) => {
                let mut s = "cannot reach polkit: ".to_owned();
                s.append(e.as_str());
                Some(s)
            },
            Asked::Unencodable(e) => {
                let mut s = "cannot encode caller name: ".to_owned();
                s.append(e.as_str());
                Some(s)
            },
            Asked::Failed(e) => {
                let mut s = "polkit check failed: ".to_owned();
                s.append(e.as_str());
                Some(s)
            },
        }
    }
}

/// Why a caller is turned away after the first question: `None` where it is not, or not yet.
pub open spec fn first_denial(action: Seq<char>, a: Asked, bounded: bool) -> Option<Seq<char>> {
    match a {
        Asked::Answered(false) if !bounded => Some(
            "cannot bound the authentication prompt for "@ + action
                + ": no runtime handle. Refusing rather than waiting forever"@,
        ),
        _ => trouble(a),
    }
}

/// Where the first question leads. `bounded` says whether the wait for a prompt can be.
pub fn first(action: &str, a: &Asked, bounded: bool) -> (r: Next)
    ensures
        match first_denial(action@, *a, bounded) {
            Some(why) => r matches Next::Deny(t) && t@ == why,
            None => r == (if *a == Asked::Answered(true) {
                Next::Allow
            } else {
                Next::Prompt
            }),
        },
{
    if let Some(why) = a.trouble_text() {
        return Next::Deny(why);
    }
    match a {
        Asked::Answered(true) => Next::Allow,
        _ => if bounded {
            Next::Prompt
        } else {
            let mut s = "cannot bound the authentication prompt for ".to_owned();
            s.append(action);
            s.append(": no runtime handle. Refusing rather than waiting forever");
            Next::Deny(s)
        },
    }
}

/// Why a caller is not let through by a prompt, if it is not. Anything but a yes is a no.
pub open spec fn denial(action: Seq<char>, p: Prompt) -> Option<Seq<char>> {
    match p {
        Prompt::Asked(Asked::Answered(true)) => None,
        Prompt::Asked(Asked::Answered(false)) => Some("not authorized for "@ + action),
        Prompt::Asked(a) => trouble(a),
        Prompt::TimedOut => Some(
            "no answer from polkit within "@ + decimal(PROMPT_TIMEOUT_S as nat) + "s for "@ + action
                + ". No authentication agent is available for this caller \u{2014} run from a desktop session, or as root"@,
        ),
        Prompt::Broken(e) => Some("polkit check did not complete: "@ + e@),
    }
}

/// Whether a caller is let through by a prompt. Fails closed.
pub fn verdict(action: &str, p: &Prompt) -> (r: Result<(), String>)
    ensures
        match denial(action@, *p) {
            None => r is Ok,
            Some(why) => r matches Err(e) && e@ == why,
        },
{
    match p {
        Prompt::Asked(a) => {
            if let Some(why) = a.trouble_text() {
                return Err(why);
            }
            match a {
                Asked::Answered(true) => Ok(()),
                _ => {
                    let mut s = "not authorized for ".to_owned();
                    s.append(action);
                    Err(s)
                },
            }
        },
        Prompt::TimedOut => {
            let mut s = "no answer from polkit within ".to_owned();
            s.append(decimal_text(PROMPT_TIMEOUT_S).as_str());
            s.append("s for ");
            s.append(action);
            s.append(
                ". No authentication agent is available for this caller \u{2014} run from a desktop session, or as root",
            );
            Err(s)
        },
        Prompt::Broken(e) => {
            let mut s = "polkit check did not complete: ".to_owned();
            s.append(e.as_str());
            Err(s)
        },
    }
}

/// Whether a caller gets through, all told: by the first question, or by a prompt that it
/// led to.
pub open spec fn authorized(action: Seq<char>, a: Asked, bounded: bool, p: Prompt) -> bool {
    first_denial(action, a, bounded) is None && (a == Asked::Answered(true) || denial(
        action,
        p,
    ) is None)
}

/// Only an answered yes lets a caller through, and nobody waits for one without bound.
pub proof fn nothing_but_a_yes_authorizes(action: Seq<char>, a: Asked, bounded: bool, p: Prompt)
    ensures
        authorized(action, a, bounded, p) <==> a == Asked::Answered(true) || (a == Asked::Answered(
            false,
        ) && bounded && p == Prompt::Asked(Asked::Answered(true))),
{
}

}
