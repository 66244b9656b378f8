//! Reading usage from a proxy that keeps a subscription snapshot.
//!
//! The proxy caches the numbers for its own rate limiting, so asking it costs
//! no request upstream.

use crate::clawdmeter::{UsageSnapshot, UsageStatus};
use crate::icd;
use crate::text;
use vstd::prelude::*;
use vstd::string::StrSliceExecFns;

verus! {

pub const URL_VAR: &'static str = "CLAUDIAL_PROXY_URL";

pub const USERNAME_VAR: &'static str = "CLAUDIAL_PROXY_USERNAME";

pub const PASSWORD_VAR: &'static str = "CLAUDIAL_PROXY_PASSWORD";

/// How long a request may take.
pub const REQUEST_TIMEOUT_SECONDS: u64 = 20;

/// The answer to a request without the right credentials.
pub const UNAUTHORIZED: u16 = 401;

/// A text without the slashes at its end.
pub open spec fn without_slashes(url: Seq<char>) -> Seq<char>
    decreases url.len(),
{
    if url.len() > 0 && url.last() == '/' {
        without_slashes(url.drop_last())
    } else {
        url
    }
}

/// A text ends with another.
pub open spec fn ends_with(url: Seq<char>, end: Seq<char>) -> bool {
    end.len() <= url.len() && url.skip(url.len() - end.len()) == end
}

/// The path of the admin pages.
pub open spec fn admin_path() -> Seq<char> {
    seq!['/', 'a', 'd', 'm', 'i', 'n']
}

/// A text without the repetitions of the admin path at its end.
pub open spec fn without_admin(url: Seq<char>) -> Seq<char>
    decreases url.len(),
{
    if ends_with(url, admin_path()) {
        without_admin(url.take(url.len() - 6))
    } else {
        url
    }
}

/// The proxy's own address.
pub open spec fn base_of(url: Seq<char>) -> Seq<char> {
    without_admin(without_slashes(url))
}

/// Whether the first characters of a text end with the admin path.
fn admin_ends_at(url: &str, end: usize) -> (found: bool)
    requires
        end <= url@.len(),
    ensures
        found == ends_with(url@.take(end as int), admin_path()),
{
    let ghost head = url@.take(end as int);
    if end < 6 {
        return false;
    }
    let found = url.get_char(end - 6) == '/' && url.get_char(end - 5) == 'a' && url.get_char(end
        - 4) == 'd' && url.get_char(end - 3) == 'm' && url.get_char(end - 2) == 'i'
        && url.get_char(end - 1) == 'n';
    proof {
        let tail = head.skip(end - 6);
        assert(tail.len() == 6);
        assert(tail[0] == url@[end - 6] && tail[1] == url@[end - 5] && tail[2] == url@[end - 4]
            && tail[3] == url@[end - 3] && tail[4] == url@[end - 2] && tail[5] == url@[end - 1]);
        if found {
            assert(tail =~= admin_path());
        } else {
            assert(admin_path()[0] == '/' && admin_path()[1] == 'a' && admin_path()[2] == 'd'
                && admin_path()[3] == 'm' && admin_path()[4] == 'i' && admin_path()[5] == 'n');
        }
    }
    found
}

/// The proxy's own address, from one with or without the admin path, since that
/// is the address a user has bookmarked.
pub fn base_url(url: &str) -> (base: String)
    ensures
        base@ == base_of(url@),
{
    let mut end: usize = url.unicode_len();
    assert(url@.take(end as int) =~= url@);
    while end > 0 && url.get_char(end - 1) == '/'
        invariant
            end <= url@.len(),
            without_slashes(url@.take(end as int)) == without_slashes(url@),
        decreases end,
    {
        assert(url@.take(end as int).drop_last() =~= url@.take(end - 1));
        end = end - 1;
    }
    assert(without_slashes(url@) == url@.take(end as int));
    while admin_ends_at(url, end)
        invariant
            end <= url@.len(),
            without_admin(url@.take(end as int)) == base_of(url@),
        decreases end,
    {
        assert(url@.take(end as int).take(end - 6) =~= url@.take(end - 6));
        end = end - 6;
    }
    let mut base = String::new();
    text::append_text(&mut base, url.substring_char(0, end));
    assert(base@ =~= url@.take(end as int));
    base
}

/// The address of the usage snapshot.
pub open spec fn usage_address(base: Seq<char>) -> Seq<char> {
    base + "/admin/oauth/usage"@
}

/// The address of the usage snapshot. The plain address honours the proxy's
/// freshness throttle.
pub fn usage_url(base: &str) -> (url: String)
    ensures
        url@ == base@ + "/admin/oauth/usage"@,
        url@ == usage_address(base@),
{
    let mut url = String::new();
    text::append_text(&mut url, base);
    text::append_text(&mut url, "/admin/oauth/usage");
    assert(url@ =~= base@ + "/admin/oauth/usage"@);
    url
}

/// A variable that a client needs and that is not set.
#[derive(Debug, Clone, Copy, PartialEq, Eq, Structural)]
pub enum Unset {
    Url,
    Username,
    Password,
}

impl Unset {
    /// The error in words.
    pub fn message(self) -> (message: &'static str)
        ensures
            message@ == match self {
                Unset::Url => "CLAUDIAL_PROXY_URL is not set"@,
                Unset::Username => "CLAUDIAL_PROXY_USERNAME is not set"@,
                Unset::Password => "CLAUDIAL_PROXY_PASSWORD is not set"@,
            },
    {
        match self {
            Unset::Url => "CLAUDIAL_PROXY_URL is not set",
            Unset::Username => "CLAUDIAL_PROXY_USERNAME is not set",
            Unset::Password => "CLAUDIAL_PROXY_PASSWORD is not set",
        }
    }
}

/// The first variable that is not set.
pub open spec fn first_unset(
    url: Option<String>,
    username: Option<String>,
    password: Option<String>,
) -> Option<Unset> {
    if url is None {
        Some(Unset::Url)
    } else if username is None {
        Some(Unset::Username)
    } else if password is None {
        Some(Unset::Password)
    } else {
        None
    }
}

/// Whom to ask, and as whom.
pub struct UsageClient {
    /// The proxy's own address.
    pub url: String,
    pub username: String,
    pub password: String,
}

impl UsageClient {
    /// The client that the variables describe, or the first that is not set.
    pub open spec fn made(
        result: Result<UsageClient, Unset>,
        url: Option<String>,
        username: Option<String>,
        password: Option<String>,
    ) -> bool {
        match result {
            Ok(client) => {
                &&& first_unset(url, username, password) is None
                &&& client.url@ == base_of(url->0@)
                &&& Some(client.username) == username
                &&& Some(client.password) == password
            },
            Err(unset) => first_unset(url, username, password) == Some(unset),
        }
    }

    /// A client of the proxy that the three variables describe. Failing here
    /// means that a missing variable is reported at startup.
    pub fn new(url: Option<String>, username: Option<String>, password: Option<String>) -> (result:
        Result<UsageClient, Unset>)
        ensures
            UsageClient::made(result, url, username, password),
    {
        let url = match url {
            Some(url) => base_url(url.as_str()),
            None => {
                return Err(Unset::Url);
            },
        };
        let username = match username {
            Some(username) => username,
            None => {
                return Err(Unset::Username);
            },
        };
        let password = match password {
            Some(password) => password,
            None => {
                return Err(Unset::Password);
            },
        };
        Ok(UsageClient { url, username, password })
    }

    /// The address to poll.
    pub fn address(&self) -> (address: String)
        ensures
            address@ == self.url@ + "/admin/oauth/usage"@,
            address@ == usage_address(self.url@),
    {
        usage_url(self.url.as_str())
    }
}

/// What an answer other than success means, in words.
pub open spec fn refusal_text(status: u16, status_text: Seq<char>) -> Seq<char> {
    "proxy returned "@ + status_text + if status == UNAUTHORIZED {
        " — check the admin username and password"@
    } else {
        ""@
    }
}

/// What an answer other than success means, in words.
pub fn refusal(status: u16, status_text: &str) -> (message: String)
    ensures
        message@ == "proxy returned "@ + status_text@ + if status == UNAUTHORIZED {
            " — check the admin username and password"@
        } else {
            ""@
        },
        message@ == refusal_text(status, status_text@),
{
    let hint = if status == UNAUTHORIZED {
        " — check the admin username and password"
    } else {
        ""
    };
    let mut message = String::new();
    text::append_text(&mut message, "proxy returned ");
    text::append_text(&mut message, status_text);
    text::append_text(&mut message, hint);
    assert(message@ =~= "proxy returned "@ + status_text@ + hint@);
    message
}

/// First second that chrono knows, at the start of the year -262143.
pub const EARLIEST_SECOND: i64 = -8_334_601_228_800;

/// Last second that it knows, at the end of the year 262142.
pub const LATEST_SECOND: i64 = 8_210_266_876_799;

/// Seconds and nanoseconds since the start of 1970 name an instant. A leap
/// second lengthens the last second of a minute.
pub open spec fn is_instant(seconds: i64, nanos: u32) -> bool {
    &&& EARLIEST_SECOND <= seconds <= LATEST_SECOND
    &&& nanos < 1_000_000_000 || (nanos < 2_000_000_000 && seconds % 60 == 59)
}

/// Nanoseconds from an instant to another, `at`. A leap second counts where it
/// lies between their times of day.
pub open spec fn nanos_between(at: (i64, u32), now: (i64, u32)) -> int {
    let at_time = at.0 % 86_400;
    let now_time = now.0 % 86_400;
    let leap: int = if at_time > now_time && now.1 >= 1_000_000_000 {
        1
    } else if at_time < now_time && at.1 >= 1_000_000_000 {
        -1
    } else {
        0
    };
    (at.0 - now.0 + leap) * 1_000_000_000 + at.1 - now.1
}

/// Whole seconds in nanoseconds, towards zero.
pub open spec fn whole_seconds(nanos: int) -> int {
    if nanos >= 0 {
        nanos / 1_000_000_000
    } else {
        -((-nanos) / 1_000_000_000)
    }
}

/// The instant that an RFC 3339 text names, in seconds and nanoseconds since
/// the start of 1970; nothing where the text names none.
pub uninterp spec fn instant_in(text: Seq<char>) -> Option<(i64, u32)>;

/// `chrono::DateTime::parse_from_rfc3339`: the instant that a text names.
#[verifier::external_body]
fn parsed_instant(text: &str) -> (at: Option<(i64, u32)>)
    ensures
        at == instant_in(text@),
{
    let at = chrono::DateTime::parse_from_rfc3339(text).ok()?;
    Some((at.timestamp(), at.timestamp_subsec_nanos()))
}

/// `chrono::DateTime::signed_duration_since` in whole seconds, between the
/// instants that `chrono::DateTime::from_timestamp` makes of the numbers;
/// nothing where either pair of numbers names no instant.
#[verifier::external_body]
fn seconds_between(at_seconds: i64, at_nanos: u32, now_seconds: i64, now_nanos: u32) -> (whole:
    Option<i64>)
    ensures
        whole is Some <==> (is_instant(at_seconds, at_nanos) && is_instant(
            now_seconds,
            now_nanos,
        )),
        whole matches Some(seconds) ==> seconds == whole_seconds(
            nanos_between((at_seconds, at_nanos), (now_seconds, now_nanos)),
        ),
{
    let at = chrono::DateTime::from_timestamp(at_seconds, at_nanos)?;
    let now = chrono::DateTime::from_timestamp(now_seconds, now_nanos)?;
    Some(at.signed_duration_since(now).num_seconds())
}

/// Seconds as minutes, rounded to the nearest and kept within the wire's range.
pub open spec fn minutes_in(seconds: int) -> int {
    if seconds < 30 {
        0
    } else if (seconds + 30) / 60 > u16::MAX {
        u16::MAX as int
    } else {
        (seconds + 30) / 60
    }
}

/// Seconds until a reset as minutes for the display.
pub fn clamp_minutes(seconds: i64) -> (minutes: u16)
    ensures
        minutes == minutes_in(seconds as int),
{
    if seconds < 30 {
        return 0;
    }
    let minutes: i128 = (seconds as i128 + 30) / 60;
    if minutes > u16::MAX as i128 {
        u16::MAX
    } else {
        minutes as u16
    }
}

/// Minutes from the present instant to a reset, none where either is unknown.
pub open spec fn minutes_to(at: Option<(i64, u32)>, now_seconds: i64, now_nanos: u32) -> int {
    match at {
        Some(at) => if is_instant(at.0, at.1) && is_instant(now_seconds, now_nanos) {
            minutes_in(whole_seconds(nanos_between(at, (now_seconds, now_nanos))))
        } else {
            0
        },
        None => 0,
    }
}

/// Minutes from the present instant to a reset, where one is known.
pub fn reset_minutes(at: Option<(i64, u32)>, now_seconds: i64, now_nanos: u32) -> (minutes: u16)
    ensures
        minutes == minutes_to(at, now_seconds, now_nanos),
{
    match at {
        Some(at) => match seconds_between(at.0, at.1, now_seconds, now_nanos) {
            Some(seconds) => clamp_minutes(seconds),
            None => 0,
        },
        None => 0,
    }
}

/// One window of the proxy's snapshot.
pub struct UsageLimit {
    /// Whole percent, 0 to 100, where the proxy knows it.
    pub utilization: Option<u8>,
    /// When the window resets, as RFC 3339 text.
    pub resets_at: Option<String>,
}

impl UsageLimit {
    /// The percentage to show.
    pub open spec fn shown_percent(self) -> u8 {
        match self.utilization {
            Some(percent) => percent,
            None => 0,
        }
    }

    /// Minutes until the window resets.
    pub open spec fn minutes_left(self, now_seconds: i64, now_nanos: u32) -> int {
        match self.resets_at {
            Some(text) => minutes_to(instant_in(text@), now_seconds, now_nanos),
            None => 0,
        }
    }

    /// The percentage to show; unknown counts as none.
    pub fn percent(&self) -> (percent: u8)
        ensures
            percent == self.shown_percent(),
    {
        match self.utilization {
            Some(percent) => percent,
            None => 0,
        }
    }

    /// Minutes until the window resets; an unknown reset counts as now.
    pub fn reset_mins(&self, now_seconds: i64, now_nanos: u32) -> (minutes: u16)
        ensures
            minutes == self.minutes_left(now_seconds, now_nanos),
    {
        match &self.resets_at {
            Some(text) => reset_minutes(parsed_instant(text.as_str()), now_seconds, now_nanos),
            None => 0,
        }
    }
}

/// What the proxy answers.
pub struct SubscriptionUsage {
    pub five_hour: Option<UsageLimit>,
    pub seven_day: Option<UsageLimit>,
    /// Set when the proxy's own last fetch failed; the numbers are then the
    /// last good ones rather than current.
    pub upstream_error: Option<String>,
}

/// One window as it is shown: percent, and minutes until it resets.
#[derive(Debug, Clone, Copy, PartialEq, Eq, Structural)]
pub struct Window {
    pub percent: u8,
    pub reset_mins: u16,
}

/// The snapshot of two windows.
pub open spec fn snapshot_of(five_hour: Option<Window>, seven_day: Option<Window>) -> UsageSnapshot {
    match five_hour {
        None => UsageSnapshot::spec_unknown(),
        Some(session) => {
            let weekly = match seven_day {
                Some(weekly) => weekly,
                None => Window { percent: 0, reset_mins: 0 },
            };
            UsageSnapshot {
                session_pct: session.percent,
                session_reset_mins: session.reset_mins,
                weekly_pct: weekly.percent,
                weekly_reset_mins: weekly.reset_mins,
                status: if session.percent >= 100 || weekly.percent >= 100 {
                    UsageStatus::Limited
                } else {
                    UsageStatus::Allowed
                },
            }
        },
    }
}

/// The snapshot of two windows.
///
/// Without the first the proxy has never completed a fetch, and saying so is
/// better than showing a confident zero. The proxy has no flag of its own: a
/// limit is hit when either window has run out.
pub fn snapshot_from_windows(five_hour: Option<Window>, seven_day: Option<Window>) -> (snapshot:
    UsageSnapshot)
    ensures
        snapshot == snapshot_of(five_hour, seven_day),
{
    let session = match five_hour {
        Some(session) => session,
        None => {
            return UsageSnapshot::unknown();
        },
    };
    let weekly = match seven_day {
        Some(weekly) => weekly,
        None => Window { percent: 0, reset_mins: 0 },
    };
    UsageSnapshot {
        session_pct: session.percent,
        session_reset_mins: session.reset_mins,
        weekly_pct: weekly.percent,
        weekly_reset_mins: weekly.reset_mins,
        status: if session.percent >= 100 || weekly.percent >= 100 {
            UsageStatus::Limited
        } else {
            UsageStatus::Allowed
        },
    }
}

/// A window as it is shown at an instant.
pub open spec fn window_at(limit: Option<UsageLimit>, now_seconds: i64, now_nanos: u32) -> Option<
    Window,
> {
    match limit {
        Some(limit) => Some(
            Window {
                percent: limit.shown_percent(),
                reset_mins: limit.minutes_left(now_seconds, now_nanos) as u16,
            },
        ),
        None => None,
    }
}

fn window(limit: &Option<UsageLimit>, now_seconds: i64, now_nanos: u32) -> (window: Option<Window>)
    ensures
        window == window_at(*limit, now_seconds, now_nanos),
{
    match limit {
        Some(limit) => Some(
            Window {
                percent: limit.percent(),
                reset_mins: limit.reset_mins(now_seconds, now_nanos),
            },
        ),
        None => None,
    }
}

impl SubscriptionUsage {
    /// What is shown of the answer at an instant.
    pub open spec fn shown(self, now_seconds: i64, now_nanos: u32) -> UsageSnapshot {
        snapshot_of(
            window_at(self.five_hour, now_seconds, now_nanos),
            window_at(self.seven_day, now_seconds, now_nanos),
        )
    }

    /// The snapshot at an instant.
    pub fn into_snapshot(self, now_seconds: i64, now_nanos: u32) -> (snapshot: UsageSnapshot)
        ensures
            snapshot == snapshot_of(
                window_at(self.five_hour, now_seconds, now_nanos),
                window_at(self.seven_day, now_seconds, now_nanos),
            ),
            snapshot == self.shown(now_seconds, now_nanos),
    {
        snapshot_from_windows(
            window(&self.five_hour, now_seconds, now_nanos),
            window(&self.seven_day, now_seconds, now_nanos),
        )
    }
}

/// When a window resets that has some minutes left, or zero where it has none.
pub open spec fn reset_time(minutes: u16, now_seconds: i64) -> int {
    if minutes == 0 {
        0
    } else {
        now_seconds + 60 * minutes
    }
}

fn reset_at(minutes: u16, now_seconds: i64) -> (at: i64)
    requires
        now_seconds + 60 * u16::MAX <= i64::MAX,
    ensures
        at == reset_time(minutes, now_seconds),
{
    if minutes == 0 {
        0
    } else {
        now_seconds + 60 * minutes as i64
    }
}

/// A snapshot taken now as it crosses the wire.
pub open spec fn wired(snapshot: UsageSnapshot, now_seconds: i64) -> icd::UsageSnapshot {
    icd::UsageSnapshot {
        session_pct: snapshot.session_pct,
        session_reset_at: reset_time(snapshot.session_reset_mins, now_seconds) as i64,
        weekly_pct: snapshot.weekly_pct,
        weekly_reset_at: reset_time(snapshot.weekly_reset_mins, now_seconds) as i64,
        status: match snapshot.status {
            UsageStatus::Allowed => icd::UsageStatus::Allowed,
            UsageStatus::Limited => icd::UsageStatus::Limited,
            UsageStatus::Unknown => icd::UsageStatus::Unknown,
        },
    }
}

/// A snapshot taken now as it crosses the wire, which names the times of the
/// resets instead of counting down to them.
pub fn wire_snapshot(snapshot: UsageSnapshot, now_seconds: i64) -> (wire: icd::UsageSnapshot)
    requires
        now_seconds + 60 * u16::MAX <= i64::MAX,
    ensures
        wire == (icd::UsageSnapshot {
            session_pct: snapshot.session_pct,
            session_reset_at: reset_time(snapshot.session_reset_mins, now_seconds) as i64,
            weekly_pct: snapshot.weekly_pct,
            weekly_reset_at: reset_time(snapshot.weekly_reset_mins, now_seconds) as i64,
            status: match snapshot.status {
                UsageStatus::Allowed => icd::UsageStatus::Allowed,
                UsageStatus::Limited => icd::UsageStatus::Limited,
                UsageStatus::Unknown => icd::UsageStatus::Unknown,
            },
        }),
        wire == wired(snapshot, now_seconds),
{
    icd::UsageSnapshot {
        session_pct: snapshot.session_pct,
        session_reset_at: reset_at(snapshot.session_reset_mins, now_seconds),
        weekly_pct: snapshot.weekly_pct,
        weekly_reset_at: reset_at(snapshot.weekly_reset_mins, now_seconds),
        status: match snapshot.status {
            UsageStatus::Allowed => icd::UsageStatus::Allowed,
            UsageStatus::Limited => icd::UsageStatus::Limited,
            UsageStatus::Unknown => icd::UsageStatus::Unknown,
        },
    }
}

/// The instrument counts down from what the proxy reported: at the moment of
/// the snapshot it shows the very minutes that were left.
pub proof fn law_resets_are_shown_as_reported(minutes: u16, now_seconds: i64)
    requires
        0 <= now_seconds,
    ensures
        icd::countdown(reset_time(minutes, now_seconds), now_seconds as int) == minutes,
{
}

proof fn lemma_slash_trimmed(url: Seq<char>)
    ensures
        without_slashes(url.push('/')) == without_slashes(url),
{
    assert(url.push('/').drop_last() =~= url);
}

/// Bookmarks of the admin pages work as well as the address itself: with or
/// without the admin path, and with or without a slash at the end, the proxy's
/// address is the same.
pub proof fn law_bookmarks_name_the_proxy(url: Seq<char>)
    requires
        url.len() > 0 ==> url.last() != '/',
        !ends_with(url, admin_path()),
    ensures
        base_of(url) == url,
        base_of(url.push('/')) == url,
        base_of(url + admin_path()) == url,
        base_of((url + admin_path()).push('/')) == url,
{
    lemma_slash_trimmed(url);
    let admin = url + admin_path();
    lemma_slash_trimmed(admin);
    assert(admin.last() == 'n');
    assert(admin.skip(admin.len() - 6) =~= admin_path());
    assert(admin.take(admin.len() - 6) =~= url);
    assert(without_admin(url) == url);
    assert(without_admin(admin) == url);
}

/// A client is refused exactly where one of the three variables is not set.
/// Otherwise it asks the proxy at its own address, whichever of the four
/// bookmarks of it was given, with the username and the password as given.
pub proof fn law_clients_ask_the_proxy(
    result: Result<UsageClient, Unset>,
    proxy: Seq<char>,
    url: Option<String>,
    username: Option<String>,
    password: Option<String>,
)
    requires
        UsageClient::made(result, url, username, password),
        proxy.len() > 0 ==> proxy.last() != '/',
        !ends_with(proxy, admin_path()),
        url matches Some(given) ==> given@ == proxy || given@ == proxy.push('/') || given@ == proxy
            + admin_path() || given@ == (proxy + admin_path()).push('/'),
    ensures
        result is Err <==> url is None || username is None || password is None,
        result matches Ok(client) ==> client.url@ == proxy && Some(client.username) == username
            && Some(client.password) == password,
{
    law_bookmarks_name_the_proxy(proxy);
}

/// A proxy that never fetched anything gives an unknown snapshot, and one whose
/// window has run out a limited one.
pub proof fn law_exhausted_windows_are_limited(five_hour: Window, seven_day: Option<Window>)
    ensures
        snapshot_of(None, seven_day).status is Unknown,
        snapshot_of(Some(five_hour), seven_day).status is Limited <==> five_hour.percent >= 100 || (
        seven_day matches Some(weekly) && weekly.percent >= 100),
        snapshot_of(Some(five_hour), seven_day).status !is Unknown,
{
}

/// Each window is shown with its own numbers: where the five-hour window is
/// known, the session is its percentage and its minutes, and the week is the
/// percentage and the minutes of the seven-day window alone, or nothing without
/// one.
pub proof fn law_windows_are_shown_with_their_own_numbers(
    five_hour: Window,
    seven_day: Option<Window>,
    other: Window,
)
    ensures
        ({
            let snapshot = snapshot_of(Some(five_hour), seven_day);
            &&& snapshot.session_pct == five_hour.percent
            &&& snapshot.session_reset_mins == five_hour.reset_mins
            &&& seven_day matches Some(weekly) ==> snapshot.weekly_pct == weekly.percent
                && snapshot.weekly_reset_mins == weekly.reset_mins
            &&& seven_day is None ==> snapshot.weekly_pct == 0 && snapshot.weekly_reset_mins == 0
            &&& snapshot_of(Some(other), seven_day).weekly_pct == snapshot.weekly_pct
            &&& snapshot_of(Some(other), seven_day).weekly_reset_mins == snapshot.weekly_reset_mins
            &&& snapshot_of(Some(five_hour), Some(other)).session_pct == snapshot.session_pct
            &&& snapshot_of(Some(five_hour), Some(other)).session_reset_mins
                == snapshot.session_reset_mins
        }),
        snapshot_of(None, seven_day).session_pct == 0,
        snapshot_of(None, seven_day).session_reset_mins == 0,
        snapshot_of(None, seven_day).weekly_pct == 0,
        snapshot_of(None, seven_day).weekly_reset_mins == 0,
{
}

/// A reset is counted in minutes to the nearest: it lies within half a minute of
/// as many minutes from now as are shown, where the display can show them. What
/// has passed shows none.
pub proof fn law_resets_are_counted_to_the_nearest_minute(
    at_seconds: i64,
    now_seconds: i64,
    nanos: u32,
)
    requires
        nanos < 1_000_000_000,
        -8_334_601_228_800 <= at_seconds <= 8_210_266_876_799,
        -8_334_601_228_800 <= now_seconds <= 8_210_266_876_799,
    ensures
        ({
            let minutes = minutes_to(Some((at_seconds, nanos)), now_seconds, nanos);
            &&& 0 <= minutes <= 65535
            &&& at_seconds < now_seconds + 30 ==> minutes == 0
            &&& at_seconds >= now_seconds + 30 && minutes < 65535 ==> now_seconds + 60 * minutes - 30
                <= at_seconds < now_seconds + 60 * minutes + 30
            &&& minutes == 65535 ==> at_seconds >= now_seconds + 60 * 65535 - 30
        }),
        minutes_to(None, now_seconds, nanos) == 0,
{
    let seconds = at_seconds - now_seconds;
    assert(nanos_between((at_seconds, nanos), (now_seconds, nanos)) == seconds * 1_000_000_000);
    assert(whole_seconds(seconds * 1_000_000_000) == seconds);
}

/// What is shown of a window is what the proxy said of it: its percentage, or
/// none where it is not known, and the minutes to the instant it names, or none
/// where it names none.
pub proof fn law_limits_are_shown_as_told(limit: UsageLimit, now_seconds: i64, now_nanos: u32)
    ensures
        ({
            let window = window_at(Some(limit), now_seconds, now_nanos);
            &&& window is Some
            &&& limit.utilization matches Some(percent) ==> window->0.percent == percent
            &&& limit.utilization is None ==> window->0.percent == 0
            &&& limit.resets_at matches Some(text) ==> window->0.reset_mins == minutes_to(
                instant_in(text@),
                now_seconds,
                now_nanos,
            )
            &&& limit.resets_at is None ==> window->0.reset_mins == 0
        }),
        window_at(None, now_seconds, now_nanos) is None,
{
}

/// Nothing is lost on the wire: the instrument shows the percentages, the status
/// and the minutes that the snapshot had when it was taken.
pub proof fn law_snapshots_survive_the_wire(snapshot: UsageSnapshot, now_seconds: i64)
    requires
        0 <= now_seconds,
        now_seconds + 60 * 65535 <= i64::MAX,
    ensures
        ({
            let wire = wired(snapshot, now_seconds);
            &&& wire.session_pct == snapshot.session_pct
            &&& wire.weekly_pct == snapshot.weekly_pct
            &&& wire.status is Allowed <==> snapshot.status is Allowed
            &&& wire.status is Limited <==> snapshot.status is Limited
            &&& snapshot.session_reset_mins > 0 ==> wire.session_reset_at - now_seconds == 60
                * snapshot.session_reset_mins
            &&& snapshot.weekly_reset_mins > 0 ==> wire.weekly_reset_at - now_seconds == 60
                * snapshot.weekly_reset_mins
            &&& snapshot.session_reset_mins == 0 ==> wire.session_reset_at == 0
            &&& snapshot.weekly_reset_mins == 0 ==> wire.weekly_reset_at == 0
            &&& icd::countdown(wire.session_reset_at as int, now_seconds as int)
                == snapshot.session_reset_mins
            &&& icd::countdown(wire.weekly_reset_at as int, now_seconds as int)
                == snapshot.weekly_reset_mins
        }),
{
    law_resets_are_shown_as_reported(snapshot.session_reset_mins, now_seconds);
    law_resets_are_shown_as_reported(snapshot.weekly_reset_mins, now_seconds);
}

/// The session is what the proxy said of five hours and the week what it said of
/// seven days: each limit's percentage is shown in its own place, and without the
/// first nothing is known.
pub proof fn law_answers_are_shown_by_window(
    usage: SubscriptionUsage,
    now_seconds: i64,
    now_nanos: u32,
)
    ensures
        usage.five_hour is None ==> usage.shown(now_seconds, now_nanos).status is Unknown,
        usage.five_hour matches Some(limit) ==> {
            let snapshot = usage.shown(now_seconds, now_nanos);
            &&& limit.utilization matches Some(percent) ==> snapshot.session_pct == percent
            &&& limit.utilization is None ==> snapshot.session_pct == 0
            &&& limit.resets_at matches Some(text) ==> snapshot.session_reset_mins == minutes_to(
                instant_in(text@),
                now_seconds,
                now_nanos,
            )
            &&& limit.resets_at is None ==> snapshot.session_reset_mins == 0
            &&& usage.seven_day is None ==> snapshot.weekly_pct == 0 && snapshot.weekly_reset_mins
                == 0
            &&& usage.seven_day matches Some(weekly) ==> {
                &&& weekly.utilization matches Some(percent) ==> snapshot.weekly_pct == percent
                &&& weekly.utilization is None ==> snapshot.weekly_pct == 0
                &&& weekly.resets_at matches Some(text) ==> snapshot.weekly_reset_mins
                    == minutes_to(instant_in(text@), now_seconds, now_nanos)
                &&& weekly.resets_at is None ==> snapshot.weekly_reset_mins == 0
            }
        },
{
}

/// The usage snapshot is asked for at the proxy's own address: the address comes
/// first and the path of the snapshot follows it.
pub proof fn law_usage_is_below_the_address(base: Seq<char>)
    ensures
        usage_address(base).take(base.len() as int) == base,
        usage_address(base).skip(base.len() as int) == "/admin/oauth/usage"@,
{
    assert(usage_address(base).take(base.len() as int) =~= base);
    assert(usage_address(base).skip(base.len() as int) =~= "/admin/oauth/usage"@);
}

/// An address without its admin path is its beginning: nothing but slashes and
/// admin paths is taken off its end, and neither is left there, except for
/// slashes in front of an admin path.
pub proof fn law_addresses_are_beginnings(url: Seq<char>)
    ensures
        base_of(url).len() <= url.len(),
        base_of(url) == url.take(base_of(url).len() as int),
        !ends_with(base_of(url), admin_path()),
        !ends_with(url, admin_path()) && (url.len() > 0 ==> url.last() != '/') ==> base_of(url)
            == url,
{
    lemma_without_slashes(url);
    lemma_without_admin(without_slashes(url));
    let bare = without_slashes(url);
    assert(base_of(url) =~= url.take(base_of(url).len() as int));
}

proof fn lemma_without_slashes(url: Seq<char>)
    ensures
        without_slashes(url).len() <= url.len(),
        without_slashes(url) == url.take(without_slashes(url).len() as int),
        without_slashes(url).len() > 0 ==> without_slashes(url).last() != '/',
    decreases url.len(),
{
    if url.len() > 0 && url.last() == '/' {
        lemma_without_slashes(url.drop_last());
    }
    assert(without_slashes(url) =~= url.take(without_slashes(url).len() as int));
}

proof fn lemma_without_admin(url: Seq<char>)
    ensures
        without_admin(url).len() <= url.len(),
        without_admin(url) == url.take(without_admin(url).len() as int),
        !ends_with(without_admin(url), admin_path()),
    decreases url.len(),
{
    if ends_with(url, admin_path()) {
        lemma_without_admin(url.take(url.len() - 6));
    }
    assert(without_admin(url) =~= url.take(without_admin(url).len() as int));
}

/// A refusal names the status of the answer, and gives a hint exactly where the
/// credentials were not accepted.
pub proof fn law_refusals_name_the_status(status: u16, status_text: Seq<char>)
    ensures
        ({
            let message = refusal_text(status, status_text);
            let named = "proxy returned "@ + status_text;
            &&& message.len() >= named.len()
            &&& message.take(named.len() as int) == named
            &&& status == 401 ==> message.skip(named.len() as int)
                == " — check the admin username and password"@
            &&& status != 401 ==> message == named
        }),
{
    reveal_strlit("");
    let message = refusal_text(status, status_text);
    let named = "proxy returned "@ + status_text;
    assert(message.take(named.len() as int) =~= named);
    assert(status == 401 ==> message.skip(named.len() as int)
        =~= " — check the admin username and password"@);
    assert(status != 401 ==> message =~= named);
}

/// Whichever variable is missing first is the one that is named.
pub proof fn law_the_first_missing_variable_is_named(
    url: Option<String>,
    username: Option<String>,
    password: Option<String>,
)
    ensures
        first_unset(url, username, password) == Some(Unset::Url) <==> url is None,
        first_unset(url, username, password) == Some(Unset::Username) <==> url is Some && username
            is None,
        first_unset(url, username, password) == Some(Unset::Password) <==> url is Some && username
            is Some && password is None,
{
}

} // verus!
