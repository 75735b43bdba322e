//! Crawling pipeline for product catalogues: extraction of records from page
//! markup, deduplication by identity key, the scroll convergence detector and
//! the decisions of the bounded crawl, each with a machine-checked contract.

pub mod attributes;
pub mod configuration;
pub mod crawler;
pub mod markup;
pub mod pool;
pub mod spiders;
pub mod text;

use crate::text::{padded_digits, push_char, push_padded};
use chrono::{Datelike, FixedOffset, Utc};
use vstd::prelude::*;

verus! {

/// The lines that name the first `k` of the causes.
pub open spec fn cause_lines(causes: Seq<Seq<char>>, k: int) -> Seq<char>
    decreases k,
{
    if k <= 0 {
        Seq::empty()
    } else {
        cause_lines(causes, k - 1) + "Caused by:\n\t"@ + causes[k - 1] + "\n"@
    }
}

/// An error and its causes as text: the message and an empty line, then
/// each cause under the words `Caused by:`, the nearest cause first.
pub open spec fn chain_text(message: Seq<char>, causes: Seq<Seq<char>>) -> Seq<char> {
    message + "\n\n"@ + cause_lines(causes, causes.len() as int)
}

/// Writes out an error with all of its underlying causes.
pub fn error_chain_fmt(message: &str, causes: &Vec<String>) -> (r: String)
    ensures
        r@ == chain_text(message@, causes.deep_view()),
{
    let mut out = String::from_str(message);
    out.append("\n\n");
    let mut k: usize = 0;
    while k < causes.len()
        invariant
            k <= causes@.len(),
            out@ == message@ + "\n\n"@ + cause_lines(causes.deep_view(), k as int),
        decreases causes@.len() - k,
    {
        out.append("Caused by:\n\t");
        out.append(causes[k].as_str());
        out.append("\n");
        k += 1;
    }
    out
}

/// A year as it stands in a date: four digits from 0 to 9999, a plus sign
/// and all digits beyond, a minus sign and at least four digits below 0.
pub open spec fn year_text(year: int) -> Seq<char> {
    if 0 <= year <= 9999 {
        padded_digits(year as nat, 4)
    } else if year > 9999 {
        seq!['+'] + padded_digits(year as nat, 4)
    } else {
        seq!['-'] + padded_digits((-year) as nat, 4)
    }
}

/// A date as year, month and day without anything between them.
pub open spec fn date_text(year: int, month: nat, day: nat) -> Seq<char> {
    year_text(year) + padded_digits(month, 2) + padded_digits(day, 2)
}

/// Writes a date as year, month and day without anything between them.
pub fn format_date(year: i32, month: u32, day: u32) -> (r: String)
    ensures
        r@ == date_text(year as int, month as nat, day as nat),
{
    let mut out = String::new();
    if year < 0 {
        push_char(&mut out, '-');
        let below: i64 = 0 - (year as i64);
        push_padded(&mut out, below as usize, 4);
    } else {
        if year > 9999 {
            push_char(&mut out, '+');
        }
        push_padded(&mut out, year as usize, 4);
    }
    push_padded(&mut out, month as usize, 2);
    push_padded(&mut out, day as usize, 2);
    assert(out@ == date_text(year as int, month as nat, day as nat));
    out
}

/// Reads the clock with `Utc::now`, moves the moment to the offset that
/// `FixedOffset::west_opt` makes of `west_seconds`, and gives its year,
/// month and day as `Datelike` tells them. Trusted: the month is from 1 to
/// 12 and the day from 1 to 31. Which day it is depends on the clock.
#[verifier::external_body]
fn date_west_of_greenwich(west_seconds: i32) -> (r: (i32, u32, u32))
    requires
        -86_400 < west_seconds < 86_400,
    ensures
        1 <= r.1 <= 12,
        1 <= r.2 <= 31,
{
    let offset = FixedOffset::west_opt(west_seconds).unwrap();
    let now = Utc::now().with_timezone(&offset);
    (now.year(), now.month(), now.day())
}

/// How far west of Greenwich the clocks of Peru stand, in seconds.
pub const PERU_WEST_SECONDS: i32 = 18_000;

/// Gets current date on "%Y%m%d" format for Peru timezone
pub fn get_peru_date() -> (r: String)
    ensures
        exists|year: int, month: nat, day: nat|
            1 <= month <= 12 && 1 <= day <= 31 && r@ == #[trigger] date_text(year, month, day),
{
    let (year, month, day) = date_west_of_greenwich(PERU_WEST_SECONDS);
    format_date(year, month, day)
}

} // verus!
