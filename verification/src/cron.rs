//! Cron expressions: which ones the library hands to the expression parser,
//! and what it asks of it.

use vstd::prelude::*;

use std::str::FromStr;

use crate::clock::{is_time, time_in_range};
use crate::text::{chars_of, split_words, views, words};

verus! {

/// Whether `c` is one of the blanks that may separate the fields of an
/// expression: space, tab, carriage return, line feed.
pub open spec fn is_blank(c: char) -> bool {
    c == ' ' || c == '\t' || c == '\r' || c == '\n'
}

/// Whether `c` is one of `0` to `9`.
pub open spec fn is_digit(c: char) -> bool {
    '0' <= c <= '9'
}

/// Whether `c` is one of `A` to `Z` or `a` to `z`.
pub open spec fn is_letter(c: char) -> bool {
    ('A' <= c <= 'Z') || ('a' <= c <= 'z')
}

/// Whether `c` may occur in an expression at all.
pub open spec fn is_schedule_char(c: char) -> bool {
    is_blank(c) || is_digit(c) || is_letter(c) || c == '*' || c == ',' || c == '-' || c == '/'
}

/// Whether the digits of `s` that begin at `from` hold one that is not `0`:
/// a number greater than zero stands there.
pub open spec fn positive_number_at(s: Seq<char>, from: int) -> bool
    decreases s.len() - from,
{
    0 <= from < s.len() && is_digit(s[from]) && (s[from] != '0' || positive_number_at(s, from + 1))
}

/// What is asked of the character at `i`: it is a character of expressions;
/// a `*` stands alone between blanks, commas and the ends; no digit touches
/// a letter; and a `/` is followed at once by a number greater than zero.
pub open spec fn well_formed_at(s: Seq<char>, i: int) -> bool {
    &&& is_schedule_char(s[i])
    &&& s[i] == '*' ==> (i == 0 || is_blank(s[i - 1]) || s[i - 1] == ',') && (i + 1 == s.len()
        || is_blank(s[i + 1]) || s[i + 1] == ',')
    &&& i + 1 < s.len() ==> !(is_digit(s[i]) && is_letter(s[i + 1])) && !(is_letter(s[i])
        && is_digit(s[i + 1]))
    &&& s[i] == '/' ==> positive_number_at(s, i + 1)
}

/// The expressions that the library hands to the parser: six fields
/// separated by blanks, each written with digits, names, `*`, `,`, `-` and
/// `/` only, and no step of zero. A seventh field (years) and the `@`
/// shorthands are not among them.
pub open spec fn is_plain_schedule(s: Seq<char>) -> bool {
    &&& words(s).len() == 6
    &&& forall|i: int| 0 <= i < s.len() ==> well_formed_at(s, i)
}

fn char_is_blank(c: char) -> (b: bool)
    ensures
        b == is_blank(c),
{
    c == ' ' || c == '\t' || c == '\r' || c == '\n'
}

fn char_is_digit(c: char) -> (b: bool)
    ensures
        b == is_digit(c),
{
    '0' <= c && c <= '9'
}

fn char_is_letter(c: char) -> (b: bool)
    ensures
        b == is_letter(c),
{
    ('A' <= c && c <= 'Z') || ('a' <= c && c <= 'z')
}

fn has_positive_number(cs: &Vec<char>, from: usize) -> (b: bool)
    ensures
        b == positive_number_at(cs@, from as int),
{
    let mut i: usize = from;
    while i < cs.len() && cs[i] == '0'
        invariant
            from <= i,
            positive_number_at(cs@, from as int) == positive_number_at(cs@, i as int),
        decreases cs.len() - i,
    {
        i += 1;
    }
    i < cs.len() && char_is_digit(cs[i])
}

fn check_at(cs: &Vec<char>, i: usize) -> (b: bool)
    requires
        i < cs.len(),
    ensures
        b == well_formed_at(cs@, i as int),
{
    let c = cs[i];
    let digit = char_is_digit(c);
    let letter = char_is_letter(c);
    if !(char_is_blank(c) || digit || letter || c == '*' || c == ',' || c == '-' || c == '/') {
        return false;
    }
    if c == '*' {
        let left = i == 0 || char_is_blank(cs[i - 1]) || cs[i - 1] == ',';
        let right = i + 1 == cs.len() || char_is_blank(cs[i + 1]) || cs[i + 1] == ',';
        if !(left && right) {
            return false;
        }
    }
    if i + 1 < cs.len() {
        let next = cs[i + 1];
        if (digit && char_is_letter(next)) || (letter && char_is_digit(next)) {
            return false;
        }
    }
    if c == '/' {
        if i + 1 >= cs.len() {
            return false;
        }
        return has_positive_number(cs, i + 1);
    }
    true
}

/// Decides `is_plain_schedule`.
pub fn schedule_is_plain(expr: &str) -> (plain: bool)
    ensures
        plain == is_plain_schedule(expr@),
{
    let fields = split_words(expr);
    assert(views(fields@).len() == fields@.len());
    if fields.len() != 6 {
        return false;
    }
    let cs = chars_of(expr);
    let mut i: usize = 0;
    while i < cs.len()
        invariant
            i <= cs.len(),
            cs@ == expr@,
            forall|k: int| 0 <= k < i ==> well_formed_at(cs@, k),
        decreases cs.len() - i,
    {
        if !check_at(&cs, i) {
            return false;
        }
        i += 1;
    }
    true
}

/// Whether `<cron::Schedule as FromStr>::from_str` accepts `expr`.
pub uninterp spec fn cron_parses(expr: Seq<char>) -> bool;

/// The first fire time strictly after `after` that the schedule parsed from
/// `expr` yields (`cron::Schedule::after`, first item), both in milliseconds
/// since the Unix epoch; `None` when `expr` does not parse or the schedule
/// has no fire time left.
pub uninterp spec fn cron_next_after(expr: Seq<char>, after: i64) -> Option<i64>;

/// `<cron::Schedule as FromStr>::from_str`, kept only as the answer whether
/// the expression parses. The parser is handed plain expressions only: on
/// others (a step of zero) it may panic.
#[verifier::external_body]
fn cron_accepts(expr: &str) -> (ok: bool)
    requires
        is_plain_schedule(expr@),
    ensures
        ok == cron_parses(expr@),
{
    job_scheduler::Schedule::from_str(expr).is_ok()
}

/// `cron::Schedule::after` on the schedule parsed from `expr`, asked for its
/// first item. Times go in and out as milliseconds since the Unix epoch.
/// The item lies strictly after `after`: the search starts one second later
/// and yields whole seconds. With six fields every year up to 2100 is in the
/// schedule, which keeps the search within valid dates.
#[verifier::external_body]
fn cron_first_after(expr: &str, after: i64) -> (next: Option<i64>)
    requires
        is_plain_schedule(expr@),
        is_time(after),
    ensures
        next == cron_next_after(expr@, after),
        next matches Some(t) ==> after < t,
{
    let schedule = job_scheduler::Schedule::from_str(expr).ok()?;
    let start = chrono::DateTime::<chrono::Utc>::from_timestamp_millis(after)?;
    match schedule.after(&start).next() {
        Some(t) => Some(t.timestamp_millis()),
        None => None,
    }
}

/// The expressions that a job can be scheduled with: plain ones that the
/// parser accepts.
pub open spec fn is_schedule(expr: Seq<char>) -> bool {
    is_plain_schedule(expr) && cron_parses(expr)
}

/// The next fire time of a schedule after a point in time, if the schedule
/// has one. Expressions that are not plain, and points in time that the
/// library does not handle, have none.
pub open spec fn next_fire(expr: Seq<char>, after: i64) -> Option<i64> {
    if is_plain_schedule(expr) && is_time(after) {
        cron_next_after(expr, after)
    } else {
        None
    }
}

/// Tells whether `expr` is an expression that a job can be scheduled with.
pub fn validate(expr: &str) -> (ok: bool)
    ensures
        ok == is_schedule(expr@),
{
    schedule_is_plain(expr) && cron_accepts(expr)
}

/// Computes the next fire time of the schedule `expr` after `after`.
pub fn next_fire_after(expr: &str, after: i64) -> (next: Option<i64>)
    ensures
        next == next_fire(expr@, after),
        next matches Some(t) ==> after < t,
{
    if schedule_is_plain(expr) && time_in_range(after) {
        cron_first_after(expr, after)
    } else {
        None
    }
}

} // verus!
