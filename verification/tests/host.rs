use chrono::{Duration, Utc};
use claudial::ble::{DEVICE_NAME, NUS_RX_UUID, NUS_TX_UUID};
use claudial::clawdmeter::UsageStatus as ShownStatus;
use claudial::host::credentials;
use claudial::host::credentials::{choose_token, read_access_token};
use claudial::host::direct;
use claudial::host::direct::{snapshot_from_headers, snapshot_from_readings, Numbers};
use claudial::host::proxy;
use claudial::host::proxy::{
    base_url, clamp_minutes, reset_minutes, snapshot_from_windows, usage_url, wire_snapshot,
    SubscriptionUsage, Unset, UsageClient, UsageLimit, Window,
};
use claudial::host::proxy_credentials as wallet;
use claudial::host::proxy_credentials::{
    Entry, Origin, WalletAction, WalletInput, WalletReading,
};
use claudial::host::session::{
    clock_due, current_clock_sync, Session, SessionAction, SessionInput,
};
use claudial::host::transport::{
    attached_state, find_device, may_connect, on_received, ConnectAction, ConnectError,
    ConnectInput, Connecting, LinkState, Received,
    RxAction, Search, SearchAction, SearchError, SearchInput,
};
use claudial::host::usage::UsageSource;
use claudial::icd::{minutes_until, ClockSync, UsageSnapshot, UsageStatus};
use reqwest::header::{HeaderMap, HeaderValue};

/// A window of the proxy's answer, its percentage rounded into a byte.
fn limit(value: &serde_json::Value) -> Option<UsageLimit> {
    if value.is_null() {
        return None;
    }
    Some(UsageLimit {
        utilization: value["utilization"]
            .as_f64()
            .map(|percent| percent.round().clamp(0.0, 100.0) as u8),
        resets_at: value["resets_at"].as_str().map(String::from),
    })
}

fn subscription(raw: &str) -> SubscriptionUsage {
    let value: serde_json::Value = serde_json::from_str(raw).unwrap();
    SubscriptionUsage {
        five_hour: limit(&value["five_hour"]),
        seven_day: limit(&value["seven_day"]),
        upstream_error: value["upstream_error"].as_str().map(String::from),
    }
}

/// The proxy reports whole percent and an RFC 3339 reset, where the headers
/// hold a fraction and epoch seconds. Reading one as the other is silent and
/// plausible.
#[test]
fn reads_percent_and_rfc3339() {
    let resets_at = (Utc::now() + Duration::minutes(90)).to_rfc3339();
    let raw = format!(
        r#"{{"five_hour":{{"utilization":21.4,"resets_at":"{resets_at}"}},
             "seven_day":{{"utilization":80.0,"resets_at":null}}}}"#
    );

    let now = Utc::now();
    let snapshot =
        subscription(&raw).into_snapshot(now.timestamp(), now.timestamp_subsec_nanos());

    assert_eq!(snapshot.session_pct, 21);
    assert_eq!(snapshot.weekly_pct, 80);
    assert_eq!(snapshot.session_reset_mins, 90);
    assert_eq!(snapshot.weekly_reset_mins, 0);
    assert_eq!(snapshot.status, ShownStatus::Allowed);
}

/// A proxy that has not fetched yet answers with nulls throughout.
#[test]
fn empty_snapshot_is_unknown() {
    let snapshot = subscription(r#"{"five_hour":null}"#).into_snapshot(0, 0);
    assert_eq!(snapshot.status, ShownStatus::Unknown);
}

#[test]
fn resets_are_counted_from_now() {
    let limit = |text: &str| UsageLimit {
        utilization: Some(3),
        resets_at: Some(String::from(text)),
    };
    // 2024-02-29 12:05:09 UTC.
    let now = 1_709_208_309;
    assert_eq!(limit("2024-02-29T13:05:09Z").reset_mins(now, 0), 60);
    assert_eq!(limit("2024-02-29T13:05:09+01:00").reset_mins(now, 0), 0);
    assert_eq!(limit("2024-02-29T12:05:39Z").reset_mins(now, 0), 1);
    assert_eq!(limit("2024-02-29T12:05:38Z").reset_mins(now, 0), 0);
    assert_eq!(limit("2024-02-29T12:05:39Z").reset_mins(now, 1), 0);
    assert_eq!(limit("tomorrow").reset_mins(now, 0), 0);
    assert_eq!(limit("9999-01-01T00:00:00Z").reset_mins(now, 0), u16::MAX);
    let unknown = UsageLimit {
        utilization: None,
        resets_at: None,
    };
    assert_eq!(unknown.percent(), 0);
    assert_eq!(unknown.reset_mins(now, 0), 0);
}

#[test]
fn minutes_are_rounded_and_clamped() {
    assert_eq!(clamp_minutes(-90), 0);
    assert_eq!(clamp_minutes(29), 0);
    assert_eq!(clamp_minutes(30), 1);
    assert_eq!(clamp_minutes(89), 1);
    assert_eq!(clamp_minutes(90), 2);
    assert_eq!(clamp_minutes(i64::MAX), u16::MAX);
    assert_eq!(clamp_minutes(i64::MIN), 0);
}

#[test]
fn exhausted_windows_are_limited() {
    let window = |percent| {
        Some(Window {
            percent,
            reset_mins: 5,
        })
    };
    let status = |a, b| snapshot_from_windows(a, b).status;
    assert_eq!(status(window(99), None), ShownStatus::Allowed);
    assert_eq!(status(window(100), None), ShownStatus::Limited);
    assert_eq!(status(window(0), window(100)), ShownStatus::Limited);
    assert_eq!(status(None, window(100)), ShownStatus::Unknown);
    let snapshot = snapshot_from_windows(window(10), window(20));
    assert_eq!((snapshot.session_pct, snapshot.weekly_pct), (10, 20));
    assert_eq!(snapshot.weekly_reset_mins, 5);
}

#[test]
fn bookmarks_name_the_proxy() {
    for url in [
        "http://host:8080",
        "http://host:8080/",
        "http://host:8080///",
        "http://host:8080/admin",
        "http://host:8080/admin/",
        "http://host:8080/admin/admin",
    ] {
        assert_eq!(base_url(url), "http://host:8080");
    }
    assert_eq!(base_url("http://host/admins"), "http://host/admins");
    assert_eq!(base_url("http://höst/admin"), "http://höst");
    assert_eq!(base_url(""), "");
    assert_eq!(base_url("/admin"), "");
    assert_eq!(usage_url("http://host"), "http://host/admin/oauth/usage");
}

#[test]
fn proxy_refusals_are_explained() {
    assert_eq!(
        proxy::refusal(401, "401 Unauthorized"),
        "proxy returned 401 Unauthorized — check the admin username and password"
    );
    assert_eq!(
        proxy::refusal(502, "502 Bad Gateway"),
        "proxy returned 502 Bad Gateway"
    );
}

fn text(value: &str) -> Option<String> {
    Some(String::from(value))
}

#[test]
fn tokens_are_found_in_both_shapes() {
    assert!(matches!(
        read_access_token(r#"{"accessToken":"abc"}"#),
        Ok(token) if token == "abc"
    ));
    assert!(matches!(
        read_access_token(r#"{"a":1,"oauth":{"accessToken":"def"}}"#),
        Ok(token) if token == "def"
    ));
    // The document's own token comes first, and tokens that are no text are
    // passed over.
    assert!(matches!(
        read_access_token(r#"{"a":{"accessToken":"nested"},"accessToken":"own"}"#),
        Ok(token) if token == "own"
    ));
    assert!(matches!(
        read_access_token(r#"{"accessToken":7,"a":{"accessToken":7},"b":{"accessToken":"b"}}"#),
        Ok(token) if token == "b"
    ));
    for raw in ["{}", "[]", "7", r#"{"a":{"b":{"accessToken":"deep"}}}"#] {
        assert_eq!(
            read_access_token(raw),
            Err(credentials::CredentialsError::NoToken)
        );
    }
    assert_eq!(
        read_access_token("not json"),
        Err(credentials::CredentialsError::NotJson)
    );
}

#[test]
fn first_token_is_chosen() {
    let nested = vec![None, text("b"), text("c")];
    assert_eq!(choose_token(text("a"), &nested), text("a"));
    assert_eq!(choose_token(None, &nested), text("b"));
    assert_eq!(choose_token(None, &vec![None]), None);
    assert_eq!(
        credentials::credentials_message(
            credentials::CredentialsError::NoToken,
            "/home/me/file",
            "the program"
        ),
        "no accessToken in /home/me/file — is the program logged in?"
    );
    assert_eq!(
        credentials::credentials_message(
            credentials::CredentialsError::NotJson,
            "/home/me/file",
            "the program"
        ),
        "parsing /home/me/file"
    );
}

fn numbers() -> Numbers {
    Numbers {
        session_pct: 21,
        session_reset_at: 1_785_792_600,
        weekly_pct: 80,
        weekly_reset_at: 1_786_000_000,
    }
}

#[test]
fn headers_become_a_snapshot() {
    let mut headers = HeaderMap::new();
    assert_eq!(
        snapshot_from_headers(&headers, numbers()),
        UsageSnapshot::unknown()
    );
    headers.insert(
        direct::SESSION_UTILIZATION,
        HeaderValue::from_static("0.214"),
    );
    let snapshot = snapshot_from_headers(&headers, numbers());
    assert_eq!(snapshot.status, UsageStatus::Unknown);
    assert_eq!(snapshot.session_pct, 21);
    assert_eq!(snapshot.session_reset_at, 1_785_792_600);
    assert_eq!(snapshot.weekly_pct, 80);
    assert_eq!(snapshot.weekly_reset_at, 1_786_000_000);
    for (value, status) in [
        ("allowed", UsageStatus::Allowed),
        ("allowed_warning", UsageStatus::Allowed),
        ("rejected", UsageStatus::Limited),
        ("allow", UsageStatus::Limited),
    ] {
        headers.insert(direct::SESSION_STATUS, HeaderValue::from_static(value));
        assert_eq!(snapshot_from_headers(&headers, numbers()).status, status);
        assert_eq!(
            snapshot_from_readings(true, Some(value), numbers()).status,
            status
        );
    }
    assert_eq!(
        snapshot_from_readings(false, Some("allowed"), numbers()),
        UsageSnapshot::unknown()
    );
}

#[test]
fn headers_are_read_as_text() {
    let mut headers = HeaderMap::new();
    headers.insert(direct::WEEKLY_RESET, HeaderValue::from_static("17"));
    assert_eq!(direct::header(&headers, direct::WEEKLY_RESET), text("17"));
    assert_eq!(direct::header(&headers, direct::SESSION_RESET), None);
    headers.insert(
        direct::SESSION_RESET,
        HeaderValue::from_bytes(&[0xff, 0xfe]).unwrap(),
    );
    assert_eq!(direct::header(&headers, direct::SESSION_RESET), None);
}

#[test]
fn api_refusals_quote_the_body() {
    assert_eq!(
        direct::refusal(401, "401 Unauthorized", "no", "tool login"),
        "API returned 401 Unauthorized — token expired? re-run `tool login`: no"
    );
    let body = "é".repeat(300);
    let message = direct::refusal(500, "500 Internal Server Error", &body, "tool login");
    assert_eq!(
        message,
        format!(
            "API returned 500 Internal Server Error: {}",
            "é".repeat(200)
        )
    );
}

#[test]
fn credentials_come_from_one_place() {
    assert!(matches!(
        wallet::load(text("http://host"), text("me"), text("pass")),
        Ok(Origin::Environment(credentials)) if credentials.username == "me"
    ));
    assert!(matches!(wallet::load(None, None, None), Ok(Origin::Wallet)));
    assert!(matches!(
        wallet::load(text("http://host"), None, text("pass")),
        Err(wallet::CredentialsError::PartlySet)
    ));
    for (url, username, password) in [
        ("", "me", "pass"),
        (" \t\u{a0}\u{3000}", "me", "pass"),
        ("http://host", "", "pass"),
        ("http://host", "me", ""),
    ] {
        assert!(matches!(
            wallet::load(text(url), text(username), text(password)),
            Err(wallet::CredentialsError::Incomplete)
        ));
    }
    // White space is only looked for in the address.
    assert!(wallet::load(text(" http://host "), text(" "), text(" ")).is_ok());
    assert_eq!(
        wallet::CredentialsError::Incomplete.message(),
        "proxy credentials are incomplete"
    );
}

#[test]
fn wallet_is_read_and_closed() {
    let mut reading = WalletReading::new();
    assert_eq!(reading.doing, WalletAction::Reach);
    assert_eq!(
        reading.step(WalletInput::Reached(Ok(()))),
        WalletAction::FindNetworkWallet
    );
    assert_eq!(
        reading.step(WalletInput::Found(true)),
        WalletAction::CheckOpen
    );
    assert_eq!(
        reading.step(WalletInput::State(Some(true))),
        WalletAction::Open
    );
    let mut entry = Entry::Url;
    for next in ["http://host", "me", "pass"] {
        if entry == Entry::Url {
            reading.step(WalletInput::Opened(Some(3)));
        }
        assert_eq!(
            reading.doing,
            WalletAction::Read { handle: 3, entry }
        );
        reading.step(WalletInput::Entry(text(next)));
        entry = match entry {
            Entry::Url => Entry::Username,
            _ => Entry::Password,
        };
    }
    assert_eq!(reading.doing, WalletAction::Close { handle: 3 });
    assert_eq!(reading.step(WalletInput::Closed), WalletAction::Finish);
    assert!(matches!(
        reading.read_kwallet(),
        Ok(credentials) if credentials.url == "http://host" && credentials.password == "pass"
    ));
    assert_eq!(Entry::Username.key(), "username");
}

#[test]
fn wallet_failures_are_named() {
    let finish = |inputs: Vec<WalletInput>| {
        let mut reading = WalletReading::new();
        for input in inputs {
            reading.step(input);
        }
        assert_eq!(reading.doing, WalletAction::Finish);
        match reading.read_kwallet() {
            Err(error) => error,
            Ok(_) => panic!("nothing was read"),
        }
    };
    let reached = || WalletInput::Reached(Ok(()));
    assert_eq!(
        finish(vec![WalletInput::Reached(Err(
            wallet::CredentialsError::Bus
        ))]),
        wallet::CredentialsError::Bus
    );
    assert_eq!(
        finish(vec![reached(), WalletInput::Found(false)]),
        wallet::CredentialsError::NoNetworkWallet
    );
    let found = || WalletInput::Found(true);
    assert_eq!(
        finish(vec![reached(), found(), WalletInput::State(None)]),
        wallet::CredentialsError::StateUnknown
    );
    assert_eq!(
        finish(vec![reached(), found(), WalletInput::State(Some(false))]),
        wallet::CredentialsError::Locked
    );
    let unlocked = || WalletInput::State(Some(true));
    assert_eq!(
        finish(vec![reached(), found(), unlocked(), WalletInput::Opened(None)]),
        wallet::CredentialsError::OpenFailed
    );
    assert_eq!(
        finish(vec![
            reached(),
            found(),
            unlocked(),
            WalletInput::Opened(Some(-1))
        ]),
        wallet::CredentialsError::Unavailable
    );
    let opened = || WalletInput::Opened(Some(0));
    assert_eq!(
        finish(vec![
            reached(),
            found(),
            unlocked(),
            opened(),
            WalletInput::Entry(None),
            WalletInput::Closed
        ]),
        wallet::CredentialsError::UrlUnreadable
    );
    assert_eq!(
        finish(vec![
            reached(),
            found(),
            unlocked(),
            opened(),
            WalletInput::Entry(text("")),
            WalletInput::Entry(text("me")),
            WalletInput::Entry(text("pass")),
            WalletInput::Closed
        ]),
        wallet::CredentialsError::Incomplete
    );
}

fn clock(unix_seconds: i64, utc_offset_minutes: i16) -> ClockSync {
    ClockSync {
        unix_seconds,
        utc_offset_minutes,
    }
}

#[test]
fn clock_offsets_are_whole_minutes() {
    assert_eq!(current_clock_sync(5, 7200), clock(5, 120));
    assert_eq!(current_clock_sync(5, -12_600), clock(5, -210));
    assert_eq!(current_clock_sync(5, -90), clock(5, -1));
    assert_eq!(current_clock_sync(5, 119), clock(5, 1));
    assert_eq!(current_clock_sync(5, i32::MIN), clock(5, 0));
    assert_eq!(current_clock_sync(5, i32::MAX), clock(5, 0));
}

#[test]
fn clock_is_due_hourly_and_on_change() {
    assert!(clock_due(None, clock(0, 0)));
    assert!(!clock_due(Some(clock(100, 60)), clock(3699, 60)));
    assert!(clock_due(Some(clock(100, 60)), clock(3700, 60)));
    assert!(clock_due(Some(clock(100, 60)), clock(101, 120)));
    assert!(!clock_due(Some(clock(i64::MAX, 0)), clock(i64::MIN, 0)));
    assert!(clock_due(Some(clock(i64::MIN, 0)), clock(i64::MAX, 0)));
}

#[test]
fn sessions_publish_until_the_link_is_down() {
    let mut session = Session::new();
    assert_eq!(session.doing, SessionAction::FindDevice);
    assert_eq!(
        session.step(SessionInput::Found(true)),
        SessionAction::Connect
    );
    assert_eq!(
        session.step(SessionInput::Connected(true)),
        SessionAction::CheckLink
    );
    let first = clock(1000, 60);
    let link = |clock| SessionInput::Link { up: true, clock };
    assert_eq!(
        session.step(link(first)),
        SessionAction::PublishClock(first)
    );
    assert_eq!(
        session.step(SessionInput::ClockPublished(false)),
        SessionAction::PollUsage
    );
    assert_eq!(
        session.step(SessionInput::Polled(None)),
        SessionAction::Sleep
    );
    assert_eq!(
        session.step(SessionInput::Slept),
        SessionAction::CheckLink
    );
    // The clock did not arrive, so it is sent again.
    let second = clock(1060, 60);
    assert_eq!(
        session.step(link(second)),
        SessionAction::PublishClock(second)
    );
    session.step(SessionInput::ClockPublished(true));
    let snapshot = UsageSnapshot::unknown();
    assert_eq!(
        session.step(SessionInput::Polled(Some(snapshot))),
        SessionAction::PublishUsage(snapshot)
    );
    assert_eq!(
        session.step(SessionInput::UsagePublished(false)),
        SessionAction::Sleep
    );
    session.step(SessionInput::Slept);
    assert_eq!(
        session.step(link(clock(1120, 60))),
        SessionAction::PollUsage
    );
    session.step(SessionInput::Polled(None));
    session.step(SessionInput::Slept);
    assert_eq!(
        session.step(SessionInput::Link {
            up: false,
            clock: second
        }),
        SessionAction::End { failed: false }
    );
}

#[test]
fn sessions_tear_down_dead_links() {
    let mut session = Session::new();
    session.step(SessionInput::Found(true));
    assert_eq!(
        session.step(SessionInput::Connected(false)),
        SessionAction::Disconnect
    );
    assert_eq!(
        session.step(SessionInput::Disconnected),
        SessionAction::End { failed: true }
    );
    let mut session = Session::new();
    assert_eq!(
        session.step(SessionInput::Found(false)),
        SessionAction::End { failed: true }
    );
}

#[test]
fn instruments_are_found_by_name() {
    let names = vec![None, text("Keyboard"), text("Claudial"), text("Claudial")];
    assert_eq!(find_device(&names, DEVICE_NAME), Some(2));
    assert_eq!(
        find_device(&vec![None, text("claudial")], DEVICE_NAME),
        None
    );
}

#[test]
fn links_need_both_characteristics() {
    let attach = |uuids: Option<Vec<u128>>| {
        let mut connecting = Connecting::new();
        connecting.step(ConnectInput::Interface(Some(LinkState::Down)));
        connecting.step(ConnectInput::Adapter(true));
        connecting.step(ConnectInput::Connected(true));
        assert_eq!(
            connecting.step(ConnectInput::Services(Some(1))),
            ConnectAction::DiscoverCharacteristics
        );
        connecting.step(ConnectInput::Characteristics(uuids))
    };
    assert_eq!(
        attach(Some(vec![1, NUS_TX_UUID, NUS_RX_UUID])),
        ConnectAction::Attach {
            rx: 2,
            tx: 1,
            state: LinkState::Active {
                net_id: 1,
                central: true,
            },
        }
    );
    assert_eq!(
        attach(Some(vec![NUS_TX_UUID])),
        ConnectAction::Fail(ConnectError::RxMissing)
    );
    assert_eq!(
        attach(Some(vec![NUS_RX_UUID])),
        ConnectAction::Fail(ConnectError::TxMissing)
    );
    assert_eq!(
        attach(None),
        ConnectAction::Fail(ConnectError::CharacteristicDiscoveryFailed)
    );
}

#[test]
fn link_failures_are_named() {
    let mut connecting = Connecting::new();
    let failed = connecting.step(ConnectInput::Interface(Some(LinkState::Inactive)));
    assert_eq!(failed, ConnectAction::Fail(ConnectError::NotDown));
    assert_eq!(
        ConnectError::NotDown.message(),
        "BLE interface is not Down"
    );
    let mut connecting = Connecting::new();
    connecting.step(ConnectInput::Interface(Some(LinkState::Down)));
    let mut no_adapter = connecting;
    assert_eq!(
        no_adapter.step(ConnectInput::Adapter(false)),
        ConnectAction::Fail(ConnectError::NoAdapter)
    );
    connecting.step(ConnectInput::Adapter(true));
    let mut refused = connecting;
    assert_eq!(
        refused.step(ConnectInput::Connected(false)),
        ConnectAction::Fail(ConnectError::ConnectFailed)
    );
    connecting.step(ConnectInput::Connected(true));
    let mut silent = connecting;
    assert_eq!(
        silent.step(ConnectInput::Services(None)),
        ConnectAction::Fail(ConnectError::ServiceDiscoveryFailed)
    );
    assert_eq!(
        connecting.step(ConnectInput::Services(Some(0))),
        ConnectAction::Fail(ConnectError::NoService)
    );
    assert_eq!(on_received(Received::Frame), RxAction::Process);
    assert_eq!(on_received(Received::Failed), RxAction::TakeDown);
    assert_eq!(on_received(Received::Ended), RxAction::TakeDown);
}

#[test]
fn default_source_is_the_local_credential() {
    assert_eq!(UsageSource::default(), UsageSource::ClaudeCode);
}

/// A search whose radio is ready.
fn ready_search() -> Search {
    let mut search = Search::new();
    search.step(SearchInput::Adapter(true), DEVICE_NAME);
    search.step(SearchInput::Available(true), DEVICE_NAME);
    search
}

/// A search that waits for an advertisement.
fn scanning_search() -> Search {
    let mut search = ready_search();
    search.step(SearchInput::Connected(Vec::new()), DEVICE_NAME);
    search.step(SearchInput::Scanning(true), DEVICE_NAME);
    search
}

#[test]
fn search_adopts_a_connected_instrument() {
    let mut search = ready_search();
    assert_eq!(search.doing, SearchAction::ListConnected);
    let names = vec![
        None,
        Some(String::from("Headphones")),
        Some(String::from(DEVICE_NAME)),
        Some(String::from(DEVICE_NAME)),
    ];
    let action = search.step(SearchInput::Connected(names), DEVICE_NAME);
    assert_eq!(action, SearchAction::Adopt(2));
}

#[test]
fn search_scans_until_the_instrument_advertises() {
    let mut search = ready_search();
    let names = vec![Some(String::from("Headphones"))];
    let action = search.step(SearchInput::Connected(names), DEVICE_NAME);
    assert_eq!(action, SearchAction::Scan);
    let action = search.step(SearchInput::Scanning(true), DEVICE_NAME);
    assert_eq!(action, SearchAction::AwaitAdvertisement);
    for other in [None, Some(String::from("Headphones"))] {
        let action = search.step(SearchInput::Advertised(other), DEVICE_NAME);
        assert_eq!(action, SearchAction::AwaitAdvertisement);
    }
    let name = Some(String::from(DEVICE_NAME));
    let action = search.step(SearchInput::Advertised(name), DEVICE_NAME);
    assert_eq!(action, SearchAction::UseAdvertised);
}

#[test]
fn search_reports_why_it_failed() {
    let mut search = Search::new();
    let action = search.step(SearchInput::Adapter(false), DEVICE_NAME);
    assert_eq!(action, SearchAction::Fail(SearchError::NoAdapter));

    let mut search = Search::new();
    search.step(SearchInput::Adapter(true), DEVICE_NAME);
    let action = search.step(SearchInput::Available(false), DEVICE_NAME);
    assert_eq!(action, SearchAction::Fail(SearchError::RadioFailed));

    let mut search = scanning_search();
    let action = search.step(SearchInput::ScanEnded, DEVICE_NAME);
    assert_eq!(action, SearchAction::Fail(SearchError::ScanEnded));

    let mut search = scanning_search();
    let action = search.step(SearchInput::TimedOut, DEVICE_NAME);
    assert_eq!(action, SearchAction::Fail(SearchError::TimedOut));
}

#[test]
fn wire_snapshots_name_the_reset_times() {
    let shown = snapshot_from_windows(
        Some(Window {
            percent: 100,
            reset_mins: 90,
        }),
        None,
    );
    let now = 1_700_000_000;
    let wire = wire_snapshot(shown, now);
    assert_eq!(
        wire,
        UsageSnapshot {
            session_pct: 100,
            session_reset_at: 1_700_005_400,
            weekly_pct: 0,
            weekly_reset_at: 0,
            status: UsageStatus::Limited,
        }
    );
    assert_eq!(minutes_until(wire.session_reset_at, now), 90);
    assert_eq!(minutes_until(wire.weekly_reset_at, now), 0);
}

#[test]
fn known_resets_are_counted_in_minutes() {
    // 2024-02-29 12:05:09 UTC.
    let now = 1_709_208_309;
    assert_eq!(reset_minutes(Some((now + 5_400, 0)), now, 0), 90);
    assert_eq!(reset_minutes(Some((now + 30, 0)), now, 1), 0);
    assert_eq!(reset_minutes(Some((now - 5_400, 0)), now, 0), 0);
    assert_eq!(reset_minutes(None, now, 0), 0);
    // No instants: beyond the calendar, or a leap second within a minute.
    assert_eq!(reset_minutes(Some((i64::MAX, 0)), now, 0), 0);
    assert_eq!(reset_minutes(Some((now + 5_400, 0)), i64::MIN, 0), 0);
    assert_eq!(reset_minutes(Some((now + 5_400, 1_500_000_000)), now, 0), 0);
    // The ends of the calendar still are.
    let last = 8_210_266_876_799;
    assert_eq!(reset_minutes(Some((last, 0)), last - 600, 0), 10);
    assert_eq!(reset_minutes(Some((last + 1, 0)), last - 600, 0), 0);
    let first = -8_334_601_228_800;
    assert_eq!(reset_minutes(Some((first + 600, 0)), first, 0), 10);
    assert_eq!(reset_minutes(Some((first + 600, 0)), first - 1, 0), 0);
}

#[test]
fn leap_seconds_are_counted() {
    // 2015-06-30 23:59:59 UTC, which a leap second lengthened.
    let leap = 1_435_708_799;
    // 29 seconds, and one and a half more.
    assert_eq!(reset_minutes(Some((leap, 1_500_000_000)), leap - 29, 0), 1);
    assert_eq!(reset_minutes(Some((leap, 500_000_000)), leap - 29, 0), 0);
    // From the middle of the leap second to half a minute past midnight.
    assert_eq!(reset_minutes(Some((leap + 31, 0)), leap, 1_500_000_000), 0);
    let limit = UsageLimit {
        utilization: None,
        resets_at: Some(String::from("2015-06-30T23:59:60.5Z")),
    };
    assert_eq!(limit.reset_mins(leap - 29, 0), 1);
}

#[test]
fn clients_ask_the_proxy() {
    let some = |text: &str| Some(String::from(text));
    for url in [
        "https://proxy",
        "https://proxy/",
        "https://proxy/admin",
        "https://proxy/admin/",
    ] {
        let Ok(client) = UsageClient::new(some(url), some("me"), some("secret")) else {
            panic!("{url} was refused");
        };
        assert_eq!(client.url, "https://proxy");
        assert_eq!(client.username, "me");
        assert_eq!(client.password, "secret");
        assert_eq!(client.address(), "https://proxy/admin/oauth/usage");
    }
    let unset = |result: Result<UsageClient, Unset>| result.err().map(Unset::message);
    assert_eq!(
        unset(UsageClient::new(None, None, some("secret"))),
        Some("CLAUDIAL_PROXY_URL is not set")
    );
    assert_eq!(
        unset(UsageClient::new(some("https://proxy"), None, None)),
        Some("CLAUDIAL_PROXY_USERNAME is not set")
    );
    assert_eq!(
        unset(UsageClient::new(some("https://proxy"), some("me"), None)),
        Some("CLAUDIAL_PROXY_PASSWORD is not set")
    );
}

#[test]
fn headers_that_are_no_text_are_absent() {
    let mut headers = HeaderMap::new();
    headers.insert("name", HeaderValue::from_bytes(b"caf\xe9").unwrap());
    assert_eq!(direct::header(&headers, "name"), None);
    assert_eq!(direct::header(&headers, "other"), None);
    headers.insert("name", HeaderValue::from_static("text"));
    assert_eq!(direct::header(&headers, "NAME"), Some(String::from("text")));
}

#[test]
fn links_need_an_interface_that_is_down() {
    assert!(may_connect(None));
    assert!(may_connect(Some(LinkState::Down)));
    assert!(!may_connect(Some(LinkState::Inactive)));
    assert!(!may_connect(Some(LinkState::ActiveLocal)));
    assert!(!may_connect(Some(attached_state())));
    assert_eq!(
        attached_state(),
        LinkState::Active {
            net_id: 1,
            central: true
        }
    );
    let mut connecting = Connecting::new();
    assert_eq!(
        connecting.step(ConnectInput::Interface(None)),
        ConnectAction::GetAdapter
    );
}
