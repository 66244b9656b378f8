//! Reading usage off the API's rate-limit headers.
//!
//! There is no usage endpoint. The numbers ride on the response headers of an
//! ordinary request, so the smallest one possible is made and its completion
//! thrown away.

use crate::icd::{UsageSnapshot, UsageStatus};
use crate::text;
use vstd::prelude::*;
use vstd::string::StrSliceExecFns;

verus! {

pub const API_URL: &'static str = "https://api.anthropic.com/v1/messages";

pub const API_VERSION: &'static str = "2023-06-01";

/// The token is an OAuth token, so it goes on the bearer header together with
/// this beta, not on the header for API keys.
pub const OAUTH_BETA: &'static str = "oauth-2025-04-20";

/// How long a request may take.
pub const REQUEST_TIMEOUT_SECONDS: u64 = 20;

pub const SESSION_UTILIZATION: &'static str = "anthropic-ratelimit-unified-5h-utilization";

pub const SESSION_STATUS: &'static str = "anthropic-ratelimit-unified-5h-status";

pub const SESSION_RESET: &'static str = "anthropic-ratelimit-unified-5h-reset";

pub const WEEKLY_UTILIZATION: &'static str = "anthropic-ratelimit-unified-7d-utilization";

pub const WEEKLY_RESET: &'static str = "anthropic-ratelimit-unified-7d-reset";

/// Characters of a body that an error quotes.
pub const QUOTED_CHARACTERS: usize = 200;

/// The answer to a request without a valid token.
pub const UNAUTHORIZED: u16 = 401;

/// `reqwest::header::HeaderMap`, the headers of a response.
#[verifier::external_type_specification]
#[verifier::external_body]
#[verifier::reject_recursive_types(T)]
pub struct ExHeaderMap<T>(reqwest::header::HeaderMap<T>);

/// `reqwest::header::HeaderValue`, the value of a header.
#[verifier::external_type_specification]
#[verifier::external_body]
pub struct ExHeaderValue(reqwest::header::HeaderValue);

/// The first header with a name, where there is one.
pub uninterp spec fn first_header(
    headers: reqwest::header::HeaderMap<reqwest::header::HeaderValue>,
    name: Seq<char>,
) -> Option<reqwest::header::HeaderValue>;

/// `reqwest::header::HeaderMap::get`: the first header with a name.
#[verifier::external_body]
fn first_value<'a>(
    headers: &'a reqwest::header::HeaderMap<reqwest::header::HeaderValue>,
    name: &str,
) -> (value: Option<&'a reqwest::header::HeaderValue>)
    ensures
        value is Some <==> first_header(*headers, name@) is Some,
        value matches Some(found) ==> first_header(*headers, name@) == Some(*found),
{
    headers.get(name)
}

/// The text of a header, where it is text.
pub uninterp spec fn visible_text(value: reqwest::header::HeaderValue) -> Option<Seq<char>>;

/// `reqwest::header::HeaderValue::to_str`: the value as text, unless it holds
/// other than visible characters.
#[verifier::external_body]
fn value_text(value: &reqwest::header::HeaderValue) -> (text: Option<&str>)
    ensures
        text is Some <==> visible_text(*value) is Some,
        text matches Some(found) ==> visible_text(*value) == Some(found@),
{
    value.to_str().ok()
}

/// The text of the first header with a name, where there is one and it is text.
pub open spec fn header_text(
    headers: reqwest::header::HeaderMap<reqwest::header::HeaderValue>,
    name: Seq<char>,
) -> Option<Seq<char>> {
    match first_header(headers, name) {
        Some(value) => visible_text(value),
        None => None,
    }
}

fn header_value<'a>(
    headers: &'a reqwest::header::HeaderMap<reqwest::header::HeaderValue>,
    name: &str,
) -> (value: Option<&'a str>)
    ensures
        value is Some <==> header_text(*headers, name@) is Some,
        value matches Some(text) ==> header_text(*headers, name@) == Some(text@),
{
    match first_value(headers, name) {
        Some(value) => value_text(value),
        None => None,
    }
}

/// The text of a header.
pub fn header(
    headers: &reqwest::header::HeaderMap<reqwest::header::HeaderValue>,
    name: &str,
) -> (value: Option<String>)
    ensures
        match value {
            Some(value) => header_text(*headers, name@) == Some(value@),
            None => header_text(*headers, name@) is None,
        },
{
    match header_value(headers, name) {
        Some(value) => {
            let mut owned = String::new();
            text::append_text(&mut owned, value);
            assert(owned@ =~= value@);
            Some(owned)
        },
        None => None,
    }
}

/// The word for requests going through.
pub open spec fn allowed() -> Seq<char> {
    seq!['a', 'l', 'l', 'o', 'w', 'e', 'd']
}

/// A text begins with another.
pub open spec fn begins_with(text: Seq<char>, start: Seq<char>) -> bool {
    start.len() <= text.len() && text.take(start.len() as int) == start
}

fn is_allowed(status: &str) -> (allowing: bool)
    ensures
        allowing == begins_with(status@, allowed()),
{
    if status.unicode_len() < 7 {
        return false;
    }
    let allowing = status.get_char(0) == 'a' && status.get_char(1) == 'l' && status.get_char(2)
        == 'l' && status.get_char(3) == 'o' && status.get_char(4) == 'w' && status.get_char(5)
        == 'e' && status.get_char(6) == 'd';
    proof {
        let head = status@.take(7);
        assert(head.len() == 7);
        assert(head[0] == status@[0] && head[1] == status@[1] && head[2] == status@[2] && head[3]
            == status@[3] && head[4] == status@[4] && head[5] == status@[5] && head[6]
            == status@[6]);
        if allowing {
            assert(head =~= allowed());
        } else {
            assert(allowed()[0] == 'a' && allowed()[1] == 'l' && allowed()[2] == 'l'
                && allowed()[3] == 'o' && allowed()[4] == 'w' && allowed()[5] == 'e'
                && allowed()[6] == 'd');
        }
    }
    allowing
}

/// What a status header says of the limits.
pub open spec fn status_of(status: Option<Seq<char>>) -> UsageStatus {
    match status {
        Some(status) => if begins_with(status, allowed()) {
            UsageStatus::Allowed
        } else {
            UsageStatus::Limited
        },
        None => UsageStatus::Unknown,
    }
}

/// The numbers on the headers, whole percent and Unix seconds, with zero for
/// those that are missing or no numbers.
#[derive(Debug, Clone, Copy, PartialEq, Eq, Structural)]
pub struct Numbers {
    pub session_pct: u8,
    pub session_reset_at: i64,
    pub weekly_pct: u8,
    pub weekly_reset_at: i64,
}

/// The snapshot of a response, given whether it reports the rolling windows,
/// what its status header says, and its numbers.
pub open spec fn snapshot_of(
    reports_windows: bool,
    status: Option<Seq<char>>,
    numbers: Numbers,
) -> UsageSnapshot {
    if reports_windows {
        UsageSnapshot {
            session_pct: numbers.session_pct,
            session_reset_at: numbers.session_reset_at,
            weekly_pct: numbers.weekly_pct,
            weekly_reset_at: numbers.weekly_reset_at,
            status: status_of(status),
        }
    } else {
        UsageSnapshot::spec_unknown()
    }
}

/// The snapshot of a response from what its headers say.
///
/// Accounts without the rolling windows report a spending limit instead. Saying
/// that nothing is known is better than showing a number that means something
/// else.
pub fn snapshot_from_readings(reports_windows: bool, status: Option<&str>, numbers: Numbers)
    -> (snapshot: UsageSnapshot)
    ensures
        snapshot == snapshot_of(
            reports_windows,
            match status {
                Some(status) => Some(status@),
                None => None,
            },
            numbers,
        ),
{
    if !reports_windows {
        return UsageSnapshot::unknown();
    }
    let status = match status {
        Some(status) => if is_allowed(status) {
            UsageStatus::Allowed
        } else {
            UsageStatus::Limited
        },
        None => UsageStatus::Unknown,
    };
    UsageSnapshot {
        session_pct: numbers.session_pct,
        session_reset_at: numbers.session_reset_at,
        weekly_pct: numbers.weekly_pct,
        weekly_reset_at: numbers.weekly_reset_at,
        status,
    }
}

/// What a response's headers show, given the numbers on them.
pub open spec fn snapshot_in(
    headers: reqwest::header::HeaderMap<reqwest::header::HeaderValue>,
    numbers: Numbers,
) -> UsageSnapshot {
    snapshot_of(
        header_text(headers, SESSION_UTILIZATION@) is Some,
        header_text(headers, SESSION_STATUS@),
        numbers,
    )
}

/// The snapshot of a response, given the numbers on its headers.
pub fn snapshot_from_headers(
    headers: &reqwest::header::HeaderMap<reqwest::header::HeaderValue>,
    numbers: Numbers,
) -> (snapshot: UsageSnapshot)
    ensures
        snapshot == snapshot_of(
            header_text(*headers, SESSION_UTILIZATION@) is Some,
            header_text(*headers, SESSION_STATUS@),
            numbers,
        ),
        snapshot == snapshot_in(*headers, numbers),
{
    let reports_windows = header_value(headers, SESSION_UTILIZATION).is_some();
    snapshot_from_readings(reports_windows, header_value(headers, SESSION_STATUS), numbers)
}

/// The first characters of a text.
pub open spec fn quoted(body: Seq<char>) -> Seq<char> {
    if body.len() > QUOTED_CHARACTERS {
        body.take(QUOTED_CHARACTERS as int)
    } else {
        body
    }
}

/// What an answer other than success means, in words.
pub open spec fn refusal_text(
    status: u16,
    status_text: Seq<char>,
    body: Seq<char>,
    login: Seq<char>,
) -> Seq<char> {
    "API returned "@ + status_text + (if status == UNAUTHORIZED {
        " — token expired? re-run `"@ + login + "`"@
    } else {
        Seq::empty()
    }) + ": "@ + quoted(body)
}

/// What an answer other than success means, in words; `login` is the command
/// that renews the token.
pub fn refusal(status: u16, status_text: &str, body: &str, login: &str) -> (message: String)
    ensures
        message@ == "API returned "@ + status_text@ + (if status == UNAUTHORIZED {
            " — token expired? re-run `"@ + login@ + "`"@
        } else {
            Seq::empty()
        }) + ": "@ + quoted(body@),
        message@ == refusal_text(status, status_text@, body@, login@),
{
    let length: usize = body.unicode_len();
    let shown: usize = if length > QUOTED_CHARACTERS {
        QUOTED_CHARACTERS
    } else {
        length
    };
    let quote = body.substring_char(0, shown);
    assert(quote@ =~= quoted(body@));
    let mut hint = String::new();
    if status == UNAUTHORIZED {
        text::append_text(&mut hint, " — token expired? re-run `");
        text::append_text(&mut hint, login);
        text::append_text(&mut hint, "`");
        assert(hint@ =~= " — token expired? re-run `"@ + login@ + "`"@);
    }
    let mut message = String::new();
    text::append_text(&mut message, "API returned ");
    text::append_text(&mut message, status_text);
    text::append_text(&mut message, hint.as_str());
    text::append_text(&mut message, ": ");
    text::append_text(&mut message, quote);
    assert(message@ =~= "API returned "@ + status_text@ + hint@ + ": "@ + quoted(body@));
    message
}

impl Numbers {
    /// Whole percentages, and times that are not before 1970.
    pub open spec fn in_range(self) -> bool {
        &&& self.session_pct <= 100
        &&& self.weekly_pct <= 100
        &&& 0 <= self.session_reset_at
        &&& 0 <= self.weekly_reset_at
    }
}

/// Headers decide the snapshot. Without the rolling windows nothing is known,
/// whatever else is there. With them the status is allowed where its header
/// begins with that word, limited for any other text and unknown without the
/// header, and the snapshot shows exactly its numbers, within their range where
/// they are.
pub proof fn law_headers_decide_the_snapshot(status: Option<Seq<char>>, numbers: Numbers)
    ensures
        snapshot_of(false, status, numbers) == UsageSnapshot::spec_unknown(),
        ({
            let snapshot = snapshot_of(true, status, numbers);
            &&& snapshot.status is Allowed <==> status is Some && begins_with(status->0, allowed())
            &&& snapshot.status is Limited <==> status is Some && !begins_with(
                status->0,
                allowed(),
            )
            &&& snapshot.status is Unknown <==> status is None
            &&& snapshot.session_pct == numbers.session_pct
            &&& snapshot.session_reset_at == numbers.session_reset_at
            &&& snapshot.weekly_pct == numbers.weekly_pct
            &&& snapshot.weekly_reset_at == numbers.weekly_reset_at
        }),
        forall|reports_windows: bool|
            numbers.in_range() ==> ({
                let snapshot = #[trigger] snapshot_of(reports_windows, status, numbers);
                &&& snapshot.session_pct <= 100
                &&& snapshot.weekly_pct <= 100
                &&& 0 <= snapshot.session_reset_at
                &&& 0 <= snapshot.weekly_reset_at
            }),
{
}

/// The windows and the status are read off the headers of the five-hour window:
/// without its utilization nothing is known, and with it the status is allowed
/// where its own status header begins with that word.
pub proof fn law_headers_are_known_by_name(
    headers: reqwest::header::HeaderMap<reqwest::header::HeaderValue>,
    numbers: Numbers,
)
    ensures
        ({
            let utilization = header_text(headers, "anthropic-ratelimit-unified-5h-utilization"@);
            let status = header_text(headers, "anthropic-ratelimit-unified-5h-status"@);
            let snapshot = snapshot_in(headers, numbers);
            &&& utilization is None ==> snapshot == UsageSnapshot::spec_unknown()
            &&& utilization is Some ==> {
                &&& snapshot.session_pct == numbers.session_pct
                &&& snapshot.session_reset_at == numbers.session_reset_at
                &&& snapshot.weekly_pct == numbers.weekly_pct
                &&& snapshot.weekly_reset_at == numbers.weekly_reset_at
                &&& snapshot.status is Unknown <==> status is None
                &&& snapshot.status is Allowed <==> (status matches Some(text) && begins_with(
                    text,
                    "allowed"@,
                ))
            }
        }),
{
    law_allowed_is_a_beginning(Seq::empty());
}

/// A status allows requests where it is the word for that, whatever follows it.
pub proof fn law_allowed_is_a_beginning(rest: Seq<char>)
    ensures
        allowed() == "allowed"@,
        status_of(Some("allowed"@ + rest)) is Allowed,
{
    reveal_strlit("allowed");
    assert(allowed() =~= "allowed"@);
    assert(("allowed"@ + rest).take(7) =~= allowed());
}

/// A text begins with another exactly where it is that one with more behind it.
pub proof fn law_beginnings_are_continued(text: Seq<char>, start: Seq<char>)
    ensures
        begins_with(text, start) <==> exists|rest: Seq<char>| text == #[trigger] (start + rest),
{
    if begins_with(text, start) {
        assert(text =~= start + text.skip(start.len() as int));
    }
    if exists|rest: Seq<char>| text == #[trigger] (start + rest) {
        let rest = choose|rest: Seq<char>| text == #[trigger] (start + rest);
        assert(text.take(start.len() as int) =~= start);
    }
}

/// A quote is the beginning of the body: all of it up to two hundred characters,
/// and no more than that.
pub proof fn law_quotes_are_beginnings(body: Seq<char>)
    ensures
        quoted(body) == body.take(quoted(body).len() as int),
        quoted(body).len() == if body.len() < 200 {
            body.len()
        } else {
            200
        },
{
    assert(body.len() <= 200 ==> body =~= body.take(body.len() as int));
}

/// A refusal names the status of the answer first and quotes its body last. In
/// between it names the command that renews the token, exactly where the token
/// was not accepted.
pub proof fn law_refusals_name_the_status(
    status: u16,
    status_text: Seq<char>,
    body: Seq<char>,
    login: Seq<char>,
)
    ensures
        ({
            let message = refusal_text(status, status_text, body, login);
            let named = "API returned "@ + status_text;
            let quote = ": "@ + quoted(body);
            &&& message.len() >= named.len() + quote.len()
            &&& message.take(named.len() as int) == named
            &&& message.skip(message.len() - quote.len()) == quote
            &&& message.subrange(named.len() as int, message.len() - quote.len()) == if status
                == 401 {
                " — token expired? re-run `"@ + login + "`"@
            } else {
                Seq::empty()
            }
        }),
{
    let message = refusal_text(status, status_text, body, login);
    let named = "API returned "@ + status_text;
    let quote = ": "@ + quoted(body);
    let hint = if status == 401 {
        " — token expired? re-run `"@ + login + "`"@
    } else {
        Seq::empty()
    };
    assert(message =~= named + hint + quote);
    assert(message.take(named.len() as int) =~= named);
    assert(message.skip(message.len() - quote.len()) =~= quote);
    assert(message.subrange(named.len() as int, message.len() - quote.len()) =~= hint);
}

} // verus!
