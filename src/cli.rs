//! Terminal output helpers.

use colored::Colorize;
use vstd::prelude::*;
use vstd::string::*;

use crate::text::str_eq;

verus! {

/// No escape character in `s`.
pub open spec fn plain_text(s: Seq<char>) -> bool {
    forall|i: int| 0 <= i < s.len() ==> s[i] != '\u{1b}'
}

/// `r` is `s`, possibly wrapped in terminal style codes.
pub open spec fn styled(r: Seq<char>, s: Seq<char>) -> bool {
    exists|pre: Seq<char>, post: Seq<char>| r == pre + s + post
}

/// Relies on colored's `red`, `bold` and `Display`: the text, wrapped in style
/// codes when colouring is on and left as it is otherwise.
#[verifier::external_body]
fn red_bold(s: &str) -> (r: String)
    requires
        plain_text(s@),
    ensures
        styled(r@, s@),
{
    s.red().bold().to_string()
}

/// Relies on colored's `yellow`, `bold` and `Display`: the text, wrapped in
/// style codes when colouring is on and left as it is otherwise.
#[verifier::external_body]
fn yellow_bold(s: &str) -> (r: String)
    requires
        plain_text(s@),
    ensures
        styled(r@, s@),
{
    s.yellow().bold().to_string()
}

/// Relies on colored's `blue` and `Display`: the text, wrapped in style codes
/// when colouring is on and left as it is otherwise.
#[verifier::external_body]
fn blue(s: &str) -> (r: String)
    requires
        plain_text(s@),
    ensures
        styled(r@, s@),
{
    s.blue().to_string()
}

/// The text in upper case.
pub uninterp spec fn upper_of(s: Seq<char>) -> Seq<char>;

/// Relies on str::to_uppercase: the upper-case form of the text.
#[verifier::external_body]
fn uppercase(s: &str) -> (r: String)
    ensures
        r@ == upper_of(s@),
{
    s.to_uppercase()
}

/// The badge text for a priority name whose upper-case form is `upper`.
pub open spec fn badge_label(upper: Seq<char>, priority: Seq<char>) -> Seq<char> {
    if upper == "HIGH"@ {
        "[HIGH]"@
    } else if upper == "MEDIUM"@ {
        "[MEDIUM]"@
    } else if upper == "LOW"@ {
        "[LOW]"@
    } else {
        "["@ + priority + "]"@
    }
}

/// A badge for `priority` given its upper-case form `upper`: the known levels
/// get a coloured label, anything else is shown in brackets as written.
pub fn badge_for(upper: &str, priority: &str) -> (r: String)
    ensures
        upper@ == "HIGH"@ || upper@ == "MEDIUM"@ || upper@ == "LOW"@ ==> styled(r@, badge_label(upper@, priority@)),
        !(upper@ == "HIGH"@ || upper@ == "MEDIUM"@ || upper@ == "LOW"@) ==> r@ == badge_label(upper@, priority@),
{
    proof {
        reveal_strlit("[HIGH]");
        reveal_strlit("[MEDIUM]");
        reveal_strlit("[LOW]");
    }
    if str_eq(upper, "HIGH") {
        red_bold("[HIGH]")
    } else if str_eq(upper, "MEDIUM") {
        yellow_bold("[MEDIUM]")
    } else if str_eq(upper, "LOW") {
        blue("[LOW]")
    } else {
        String::from_str("[").concat(priority).concat("]")
    }
}

/// A badge for a nudge priority name, matched without regard to case.
pub fn priority_badge(priority: &str) -> (r: String)
    ensures
        ({
            let u = upper_of(priority@);
            &&& (u == "HIGH"@ || u == "MEDIUM"@ || u == "LOW"@ ==> styled(r@, badge_label(u, priority@)))
            &&& (!(u == "HIGH"@ || u == "MEDIUM"@ || u == "LOW"@) ==> r@ == badge_label(u, priority@))
        }),
{
    let u = uppercase(priority);
    badge_for(u.as_str(), priority)
}

} // verus!
