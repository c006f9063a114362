//! What the engine needs to know of the account and of the remote side's
//! pace: the API credentials, the life time of a login token, and what to do
//! when the remote side asks for a pause.

use crate::text::{chars_of, find, find_chars, is_ascii_digit, char_is_ascii_digit, parse_i32, parse_i32_chars, parse_u64, parse_u64_chars, to_uppercase, uppercase};
use vstd::prelude::*;

verus! {

/// The credentials under which the application speaks to the remote side.
#[derive(Debug, Clone, PartialEq, Eq)]
pub struct ApiCredentials {
    pub api_id: i32,
    pub api_hash: String,
}

/// The credentials that two texts spell: the id must be an integer and the
/// hash must not be empty.
pub open spec fn credentials_of(api_id: Seq<char>, api_hash: Seq<char>) -> Option<(i32, Seq<char>)> {
    match parse_i32(api_id) {
        Some(id) => if api_hash.len() == 0 {
            None
        } else {
            Some((id, api_hash))
        },
        None => None,
    }
}

/// Reads the credentials from the two texts in which they are configured.
pub fn parse_api_credentials(api_id: &str, api_hash: &str) -> (r: Option<ApiCredentials>)
    ensures
        match r {
            Some(c) => credentials_of(api_id@, api_hash@) == Some((c.api_id, c.api_hash@)),
            None => credentials_of(api_id@, api_hash@) is None,
        },
{
    match parse_i32_chars(&chars_of(api_id)) {
        Some(id) => {
            if api_hash.unicode_len() == 0 {
                None
            } else {
                Some(ApiCredentials { api_id: id, api_hash: api_hash.to_owned() })
            }
        },
        None => None,
    }
}

/// The API id of the application.
pub fn get_api_id(credentials: &ApiCredentials) -> (id: i32)
    ensures
        id == credentials.api_id,
{
    credentials.api_id
}

/// The API hash of the application.
pub fn get_api_hash(credentials: &ApiCredentials) -> (hash: &str)
    ensures
        hash@ == credentials.api_hash@,
{
    credentials.api_hash.as_str()
}

/// When a login token expires, from the `expires` field it came with: a
/// field that is not positive means two minutes from now; a field below six
/// hours is a life time in seconds; any other field is the moment itself.
/// A moment that lies ahead is taken one second early.
pub open spec fn expires_at(expires_field: i32, now: i64) -> int {
    let computed: int = if expires_field <= 0 {
        now + 120
    } else if expires_field < 21600 {
        now + expires_field
    } else {
        expires_field as int
    };
    if computed > now {
        computed - 1
    } else {
        computed
    }
}

/// When a login token expires.
pub fn compute_expires_at(expires_field: i32, now: i64) -> (r: i64)
    requires
        now <= i64::MAX - 21600,
    ensures
        r == expires_at(expires_field, now),
{
    let computed: i64 = if expires_field <= 0 {
        now + 120
    } else if expires_field < 21600 {
        now + (expires_field as i64)
    } else {
        expires_field as i64
    };
    if computed > now {
        computed - 1
    } else {
        computed
    }
}

/// `s` without its leading characters that are no digits.
pub open spec fn skip_non_digits(s: Seq<char>) -> Seq<char>
    decreases s.len(),
{
    if s.len() > 0 && !is_ascii_digit(s[0]) {
        skip_non_digits(s.drop_first())
    } else {
        s
    }
}

/// The leading digits of `s`.
pub open spec fn leading_digits(s: Seq<char>) -> Seq<char>
    decreases s.len(),
{
    if s.len() > 0 && is_ascii_digit(s[0]) {
        seq![s[0]] + leading_digits(s.drop_first())
    } else {
        Seq::empty()
    }
}

/// A pause in seconds, at least one.
pub open spec fn at_least_one(seconds: u64) -> u64 {
    if seconds < 1 {
        1
    } else {
        seconds
    }
}

/// The number that follows the first `pattern` in `text`: with `skip`, the
/// first run of digits behind the pattern; without, the digits right behind
/// it.
pub open spec fn number_behind(text: Seq<char>, pattern: Seq<char>, skip: bool) -> Option<u64> {
    match find(text, pattern) {
        Some(at) => {
            let suffix = text.skip(at + pattern.len());
            parse_u64(
                leading_digits(
                    if skip {
                        skip_non_digits(suffix)
                    } else {
                        suffix
                    },
                ),
            )
        },
        None => None,
    }
}

/// The pause that an error message in upper case asks for: nothing where
/// the message does not speak of a flood wait; else the number behind
/// `VALUE:`, else the number behind `FLOOD_WAIT_`, else one second.
pub open spec fn flood_wait_in(upper: Seq<char>) -> Option<u64> {
    if find(upper, "FLOOD_WAIT"@) is None {
        None
    } else {
        match number_behind(upper, "VALUE:"@, true) {
            Some(seconds) => Some(at_least_one(seconds)),
            None => match number_behind(upper, "FLOOD_WAIT_"@, false) {
                Some(seconds) => Some(at_least_one(seconds)),
                None => Some(1),
            },
        }
    }
}

/// The pause that an error message asks for, whatever its case.
pub open spec fn flood_wait_seconds(message: Seq<char>) -> Option<u64> {
    flood_wait_in(uppercase(message))
}

fn digits_behind(text: &Vec<char>, from: usize, skip: bool) -> (r: Vec<char>)
    requires
        from <= text.len(),
    ensures
        r@ == leading_digits(
            if skip {
                skip_non_digits(text@.skip(from as int))
            } else {
                text@.skip(from as int)
            },
        ),
{
    let mut i: usize = from;
    if skip {
        while i < text.len() && !char_is_ascii_digit(text[i])
            invariant
                from <= i <= text.len(),
                skip_non_digits(text@.skip(from as int)) == skip_non_digits(text@.skip(i as int)),
            decreases text.len() - i,
        {
            assert(text@.skip(i as int).drop_first() =~= text@.skip(i + 1));
            i += 1;
        }
    }
    let ghost rest = text@.skip(i as int);
    let start: usize = i;
    let mut r: Vec<char> = Vec::new();
    assert(r@ + leading_digits(text@.skip(i as int)) =~= leading_digits(rest));
    while i < text.len() && char_is_ascii_digit(text[i])
        invariant
            start <= i <= text.len(),
            rest == text@.skip(start as int),
            r@ + leading_digits(text@.skip(i as int)) == leading_digits(rest),
        decreases text.len() - i,
    {
        let ghost before = r@;
        r.push(text[i]);
        assert(text@.skip(i as int).drop_first() =~= text@.skip(i + 1));
        assert(r@ + leading_digits(text@.skip(i + 1)) =~= before + leading_digits(
            text@.skip(i as int),
        ));
        i += 1;
    }
    assert(leading_digits(text@.skip(i as int)) =~= Seq::<char>::empty());
    assert(r@ + Seq::<char>::empty() =~= r@);
    r
}

fn number_behind_pattern(text: &Vec<char>, pattern: &str, skip: bool) -> (r: Option<u64>)
    ensures
        r == number_behind(text@, pattern@, skip),
{
    let p = chars_of(pattern);
    match find_chars(text, &p) {
        Some(at) => {
            let end: usize = text.len();
            assert(at + p@.len() <= end) by {
                assert(crate::text::occurs_at(text@, p@, at as int));
            }
            let digits = digits_behind(text, at + p.len(), skip);
            parse_u64_chars(&digits)
        },
        None => None,
    }
}

/// The pause that an error message in upper case asks for.
pub fn flood_wait_seconds_in(upper: &str) -> (r: Option<u64>)
    ensures
        r == flood_wait_in(upper@),
{
    let text = chars_of(upper);
    if find_chars(&text, &chars_of("FLOOD_WAIT")).is_none() {
        return None;
    }
    if let Some(seconds) = number_behind_pattern(&text, "VALUE:", true) {
        return Some(if seconds < 1 { 1 } else { seconds });
    }
    if let Some(seconds) = number_behind_pattern(&text, "FLOOD_WAIT_", false) {
        return Some(if seconds < 1 { 1 } else { seconds });
    }
    Some(1)
}

/// The pause in seconds that an error message of the remote side asks for;
/// `None` where the message does not speak of a flood wait.
pub fn parse_flood_wait_seconds(message: &str) -> (r: Option<u64>)
    ensures
        r == flood_wait_seconds(message@),
{
    let upper = to_uppercase(message);
    flood_wait_seconds_in(upper.as_str())
}

/// How often a request is tried again after a flood wait.
pub const TELEGRAM_FLOOD_WAIT_RETRY_LIMIT: usize = 3;

/// The least time between two requests, in milliseconds.
pub const TELEGRAM_REQUEST_DELAY_MS: u64 = 350;

/// What to do with a request that failed.
#[derive(Clone, Copy, Debug, PartialEq, Eq)]
pub enum RetryDecision {
    /// The error goes to the caller.
    GiveUp,
    /// The request is tried again after so many seconds.
    RetryAfter { seconds: u64 },
}

/// What to do with a request that failed with the pause `wait` asked for,
/// after `retries` earlier retries: an error that asks for no pause goes to
/// the caller, and so does any error after three retries.
pub open spec fn retry_for(wait: Option<u64>, retries: usize) -> RetryDecision {
    match wait {
        Some(seconds) => if retries >= 3 {
            RetryDecision::GiveUp
        } else {
            RetryDecision::RetryAfter { seconds: at_least_one(seconds) }
        },
        None => RetryDecision::GiveUp,
    }
}

/// What to do with a request that failed, given the pause that its error
/// asks for.
pub fn retry_decision(wait: Option<u64>, retries: usize) -> (d: RetryDecision)
    ensures
        d == retry_for(wait, retries),
{
    match wait {
        Some(seconds) => {
            if retries >= TELEGRAM_FLOOD_WAIT_RETRY_LIMIT {
                RetryDecision::GiveUp
            } else {
                RetryDecision::RetryAfter { seconds: if seconds < 1 { 1 } else { seconds } }
            }
        },
        None => RetryDecision::GiveUp,
    }
}

/// What to do with a request that failed with `error_message`.
pub fn flood_wait_decision(error_message: &str, retries: usize) -> (d: RetryDecision)
    ensures
        d == retry_for(flood_wait_seconds(error_message@), retries),
{
    retry_decision(parse_flood_wait_seconds(error_message), retries)
}

/// How long to wait before the next request, in milliseconds, when the
/// last one was sent `elapsed_ms` ago: what is missing to 350.
pub fn request_delay_ms(elapsed_ms: u64) -> (delay: u64)
    ensures
        delay == if elapsed_ms < 350 {
            350 - elapsed_ms
        } else {
            0
        },
{
    if elapsed_ms < TELEGRAM_REQUEST_DELAY_MS {
        TELEGRAM_REQUEST_DELAY_MS - elapsed_ms
    } else {
        0
    }
}

} // verus!
