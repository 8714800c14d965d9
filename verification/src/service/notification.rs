use vstd::prelude::*;
use regex::Regex;
use crate::text::{is_digit, owned};

verus! {

/// A compiled regular expression of the regex crate; opaque to proofs.
#[verifier::external_type_specification]
#[verifier::external_body]
pub struct ExRegex(regex::Regex);

/// The format a notification time must have: two-digit hours `00`..`23`, a colon and
/// two-digit minutes `00`..`59`, and nothing else.
pub const TIME_PATTERN: &'static str = "^(0[0-9]|1[0-9]|2[0-3]):[0-5][0-9]$";

/// A regular expression together with the text it was compiled from.
pub struct Pattern {
    source: String,
    compiled: Regex,
}

impl View for Pattern {
    type V = Seq<char>;

    closed spec fn view(&self) -> Seq<char> {
        self.source@
    }
}

/// Whether the regex crate finds a match of the expression `pattern` in `text`.
pub uninterp spec fn regex_matches(pattern: Seq<char>, text: Seq<char>) -> bool;

/// Whether `t` is a time of day written `HH:MM`, with hours `00`..`23` and minutes `00`..`59`.
pub open spec fn is_clock_time(t: Seq<char>) -> bool {
    &&& t.len() == 5
    &&& (('0' <= t[0] && t[0] <= '1' && is_digit(t[1])) || (t[0] == '2' && '0' <= t[1] && t[1]
        <= '3'))
    &&& t[2] == ':'
    &&& '0' <= t[3] && t[3] <= '5'
    &&& is_digit(t[4])
}

/// `Regex::new`: compiles `pattern`, or gives nothing when it is no valid expression.
/// Claimed: a compiled pattern keeps the text it came from, and `TIME_PATTERN`, whose
/// syntax the crate's documentation covers, compiles.
#[verifier::external_body]
fn compile_pattern(pattern: &str) -> (r: Option<Pattern>)
    ensures
        r matches Some(p) ==> p@ == pattern@,
        pattern@ == TIME_PATTERN@ ==> r is Some,
{
    match Regex::new(pattern) {
        Ok(re) => Some(Pattern { source: pattern.to_string(), compiled: re }),
        Err(_) => None,
    }
}

/// `Regex::is_match`: whether the expression matches somewhere in `text`.
/// Claimed: the answer is a function of the expression and the text; for `TIME_PATTERN`,
/// whose `^` and `$` anchor at the start and end of the whole text, it is `is_clock_time`.
#[verifier::external_body]
fn pattern_matches(p: &Pattern, text: &str) -> (r: bool)
    ensures
        r == regex_matches(p@, text@),
        p@ == TIME_PATTERN@ ==> (r == is_clock_time(text@)),
{
    p.compiled.is_match(text)
}

/// The answer to a time check, given whether the text had the time format.
pub fn time_check_result(valid: bool) -> (r: Result<String, String>)
    ensures
        valid ==> (r matches Ok(s) && s@ == "ok"@),
        !valid ==> (r matches Err(e) && e@ == "Неправильный формат времени"@),
{
    if valid {
        Ok(owned("ok"))
    } else {
        Err(owned("Неправильный формат времени"))
    }
}

/// Checks that `text` is a notification time `HH:MM` of the 24-hour clock.
pub fn parse_time(text: &str) -> (r: Result<String, String>)
    ensures
        is_clock_time(text@) ==> (r matches Ok(s) && s@ == "ok"@),
        !is_clock_time(text@) ==> (r matches Err(e) && e@ == "Неправильный формат времени"@),
{
    match compile_pattern(TIME_PATTERN) {
        Some(p) => time_check_result(pattern_matches(&p, text)),
        None => time_check_result(false),
    }
}

/// The reply to a request to set the notification time to `text`: success when `text`
/// is a time `HH:MM`, else the time format error.
pub fn notification_time_reply(text: &str) -> (r: Result<String, String>)
    ensures
        is_clock_time(text@) ==> (r matches Ok(s) && s@ == "Время уведомления успешно установлено"@),
        !is_clock_time(text@) ==> (r matches Err(e) && e@ == "Неправильный формат времени"@),
{
    match parse_time(text) {
        Ok(_) => Ok(owned("Время уведомления успешно установлено")),
        Err(e) => Err(e),
    }
}

} // verus!
