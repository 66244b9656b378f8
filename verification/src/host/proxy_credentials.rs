//! Credentials for the proxy.
//!
//! On a desktop with a wallet the entries another program keeps there are
//! reused, so the password has one owner. Three environment variables provide
//! an explicit fallback.

use vstd::prelude::*;

verus! {

pub const APP_ID: &'static str = "claudial-host";

pub struct Credentials {
    pub url: String,
    pub username: String,
    pub password: String,
}

/// Why there are no credentials.
#[derive(Debug, Clone, Copy, PartialEq, Eq, Structural)]
pub enum CredentialsError {
    /// Some of the variables are set and some are not.
    PartlySet,
    /// One of the three is empty.
    Incomplete,
    Bus,
    Wallet,
    NoNetworkWallet,
    StateUnknown,
    Locked,
    OpenFailed,
    Unavailable,
    UrlUnreadable,
    UsernameUnreadable,
    PasswordUnreadable,
}

impl CredentialsError {
    /// The error in words.
    pub fn message(self) -> (message: &'static str)
        ensures
            message@ == match self {
                CredentialsError::PartlySet =>
                    "set all of CLAUDIAL_PROXY_URL, CLAUDIAL_PROXY_USERNAME, and CLAUDIAL_PROXY_PASSWORD, or unset all three to use KWallet"@,
                CredentialsError::Incomplete => "proxy credentials are incomplete"@,
                CredentialsError::Bus => "connecting to the user D-Bus"@,
                CredentialsError::Wallet => "connecting to KWallet"@,
                CredentialsError::NoNetworkWallet => "finding the network wallet"@,
                CredentialsError::StateUnknown => "checking KWallet state"@,
                CredentialsError::Locked =>
                    "KWallet is locked; unlock it or configure the proxy variables"@,
                CredentialsError::OpenFailed => "opening KWallet"@,
                CredentialsError::Unavailable => "KWallet is unavailable"@,
                CredentialsError::UrlUnreadable => "reading proxy URL from KWallet"@,
                CredentialsError::UsernameUnreadable => "reading proxy username from KWallet"@,
                CredentialsError::PasswordUnreadable => "reading proxy password from KWallet"@,
            },
    {
        match self {
            CredentialsError::PartlySet =>
                "set all of CLAUDIAL_PROXY_URL, CLAUDIAL_PROXY_USERNAME, and CLAUDIAL_PROXY_PASSWORD, or unset all three to use KWallet",
            CredentialsError::Incomplete => "proxy credentials are incomplete",
            CredentialsError::Bus => "connecting to the user D-Bus",
            CredentialsError::Wallet => "connecting to KWallet",
            CredentialsError::NoNetworkWallet => "finding the network wallet",
            CredentialsError::StateUnknown => "checking KWallet state",
            CredentialsError::Locked =>
                "KWallet is locked; unlock it or configure the proxy variables",
            CredentialsError::OpenFailed => "opening KWallet",
            CredentialsError::Unavailable => "KWallet is unavailable",
            CredentialsError::UrlUnreadable => "reading proxy URL from KWallet",
            CredentialsError::UsernameUnreadable => "reading proxy username from KWallet",
            CredentialsError::PasswordUnreadable => "reading proxy password from KWallet",
        }
    }
}

/// A character that Unicode counts as white space.
pub open spec fn is_white(c: char) -> bool {
    let code = c as u32;
    ||| 0x09 <= code <= 0x0d
    ||| code == 0x20
    ||| code == 0x85
    ||| code == 0xa0
    ||| code == 0x1680
    ||| 0x2000 <= code <= 0x200a
    ||| code == 0x2028
    ||| code == 0x2029
    ||| code == 0x202f
    ||| code == 0x205f
    ||| code == 0x3000
}

/// A text of white space alone.
pub open spec fn is_blank(text: Seq<char>) -> bool {
    forall|i: int| 0 <= i < text.len() ==> is_white(#[trigger] text[i])
}

/// A text is another with the white space at both ends taken off.
pub open spec fn is_trimmed(trimmed: Seq<char>, text: Seq<char>) -> bool {
    exists|begin: int, end: int|
        #![trigger text.subrange(begin, end)]
        0 <= begin <= end <= text.len() && trimmed == text.subrange(begin, end) && is_blank(
            text.take(begin),
        ) && is_blank(text.skip(end)) && (trimmed.len() > 0 ==> !is_white(trimmed[0]) && !is_white(
            trimmed.last(),
        ))
}

/// `str::trim`: the text without the white space at its ends.
#[verifier::external_body]
fn trim(text: &str) -> (trimmed: &str)
    ensures
        is_trimmed(trimmed@, text@),
{
    text.trim()
}

/// A trimmed text is empty exactly where nothing but white space was there.
proof fn lemma_trimmed_blank(trimmed: Seq<char>, text: Seq<char>)
    requires
        is_trimmed(trimmed, text),
    ensures
        trimmed.len() == 0 <==> is_blank(text),
{
    let (begin, end) = choose|begin: int, end: int|
        #![trigger text.subrange(begin, end)]
        0 <= begin <= end <= text.len() && trimmed == text.subrange(begin, end) && is_blank(
            text.take(begin),
        ) && is_blank(text.skip(end)) && (trimmed.len() > 0 ==> !is_white(trimmed[0]) && !is_white(
            trimmed.last(),
        ));
    if trimmed.len() == 0 {
        assert forall|i: int| 0 <= i < text.len() implies is_white(#[trigger] text[i]) by {
            if i < begin {
                assert(is_white(text.take(begin)[i]));
            } else {
                assert(is_white(text.skip(end)[i - end]));
            }
        }
    } else {
        assert(trimmed[0] == text[begin]);
    }
}

/// Credentials that can be used: an address and both halves of the login.
pub open spec fn complete(credentials: Credentials) -> bool {
    !is_blank(credentials.url@) && credentials.username@.len() > 0 && credentials.password@.len()
        > 0
}

/// Accept credentials that are complete.
pub fn validate(credentials: Credentials) -> (result: Result<Credentials, CredentialsError>)
    ensures
        result == if complete(credentials) {
            Ok::<Credentials, CredentialsError>(credentials)
        } else {
            Err::<Credentials, CredentialsError>(CredentialsError::Incomplete)
        },
{
    let trimmed = trim(credentials.url.as_str());
    proof {
        lemma_trimmed_blank(trimmed@, credentials.url@);
    }
    if trimmed.is_empty() || credentials.username.as_str().is_empty()
        || credentials.password.as_str().is_empty() {
        return Err(CredentialsError::Incomplete);
    }
    Ok(credentials)
}

/// Where credentials come from.
pub enum Origin {
    /// They were all set.
    Environment(Credentials),
    /// None was set; the wallet is asked.
    Wallet,
}

/// What is decided on where credentials come from.
pub open spec fn decided(
    origin: Result<Origin, CredentialsError>,
    url: Option<String>,
    username: Option<String>,
    password: Option<String>,
) -> bool {
    match origin {
        Ok(Origin::Environment(credentials)) => {
            &&& url == Some(credentials.url)
            &&& username == Some(credentials.username)
            &&& password == Some(credentials.password)
            &&& complete(credentials)
        },
        Ok(Origin::Wallet) => url is None && username is None && password is None,
        Err(CredentialsError::Incomplete) => {
            &&& url is Some && username is Some && password is Some
            &&& !complete(Credentials { url: url->0, username: username->0, password: password->0 })
        },
        Err(CredentialsError::PartlySet) => {
            &&& url is Some || username is Some || password is Some
            &&& url is None || username is None || password is None
        },
        Err(_) => false,
    }
}

/// Decide where credentials come from, given what is set: all three or none.
pub fn load(url: Option<String>, username: Option<String>, password: Option<String>) -> (origin:
    Result<Origin, CredentialsError>)
    ensures
        match origin {
            Ok(Origin::Environment(credentials)) => {
                &&& url == Some(credentials.url)
                &&& username == Some(credentials.username)
                &&& password == Some(credentials.password)
                &&& complete(credentials)
            },
            Ok(Origin::Wallet) => url is None && username is None && password is None,
            Err(CredentialsError::Incomplete) => {
                &&& url is Some && username is Some && password is Some
                &&& !complete(
                    Credentials { url: url->0, username: username->0, password: password->0 },
                )
            },
            Err(CredentialsError::PartlySet) => {
                &&& url is Some || username is Some || password is Some
                &&& url is None || username is None || password is None
            },
            Err(_) => false,
        },
        decided(origin, url, username, password),
{
    match (url, username, password) {
        (Some(url), Some(username), Some(password)) => match validate(
            Credentials { url, username, password },
        ) {
            Ok(credentials) => Ok(Origin::Environment(credentials)),
            Err(error) => Err(error),
        },
        (None, None, None) => Ok(Origin::Wallet),
        _ => Err(CredentialsError::PartlySet),
    }
}

/// What came of the last action.
pub enum WalletInput {
    /// The bus and the wallet on it were reached, or which was not.
    Reached(Result<(), CredentialsError>),
    /// The network wallet was found, or was not.
    Found(bool),
    /// Whether the wallet is open, or nothing.
    State(Option<bool>),
    /// The handle of the opened wallet, or nothing.
    Opened(Option<i32>),
    /// An entry, or nothing.
    Entry(Option<String>),
    /// The wallet was closed, or could not be.
    Closed,
}

/// An entry of the wallet.
#[derive(Debug, Clone, Copy, PartialEq, Eq, Structural)]
pub enum Entry {
    Url,
    Username,
    Password,
}

impl Entry {
    /// The key under which the entry is kept.
    pub open spec fn key_text(self) -> Seq<char> {
        match self {
            Entry::Url => "url"@,
            Entry::Username => "username"@,
            Entry::Password => "password"@,
        }
    }

    /// The key under which the entry is kept.
    pub fn key(self) -> (key: &'static str)
        ensures
            key@ == match self {
                Entry::Url => "url"@,
                Entry::Username => "username"@,
                Entry::Password => "password"@,
            },
            key@ == self.key_text(),
    {
        match self {
            Entry::Url => "url",
            Entry::Username => "username",
            Entry::Password => "password",
        }
    }

    /// What is wrong when the entry cannot be read.
    pub open spec fn unreadable(self) -> CredentialsError {
        match self {
            Entry::Url => CredentialsError::UrlUnreadable,
            Entry::Username => CredentialsError::UsernameUnreadable,
            Entry::Password => CredentialsError::PasswordUnreadable,
        }
    }

    fn unreadable_error(self) -> (error: CredentialsError)
        ensures
            error == self.unreadable(),
    {
        match self {
            Entry::Url => CredentialsError::UrlUnreadable,
            Entry::Username => CredentialsError::UsernameUnreadable,
            Entry::Password => CredentialsError::PasswordUnreadable,
        }
    }
}

/// What to do next.
#[derive(Debug, Clone, Copy, PartialEq, Eq, Structural)]
pub enum WalletAction {
    Reach,
    FindNetworkWallet,
    CheckOpen,
    Open,
    Read { handle: i32, entry: Entry },
    Close { handle: i32 },
    /// The credentials were read, or why they were not.
    Finish,
}

/// Reading credentials from the wallet.
pub struct WalletReading {
    pub doing: WalletAction,
    pub url: Option<String>,
    pub username: Option<String>,
    pub password: Option<String>,
    pub error: Option<CredentialsError>,
}

impl WalletReading {
    /// The wallet is open and has to be closed.
    pub open spec fn holds_wallet(self) -> bool {
        self.doing is Read || self.doing is Close
    }

    /// The action after an input. An input that was not waited for changes
    /// nothing.
    pub open spec fn next(self, input: WalletInput) -> WalletAction {
        match (self.doing, input) {
            (WalletAction::Reach, WalletInput::Reached(Ok(()))) => WalletAction::FindNetworkWallet,
            (WalletAction::Reach, WalletInput::Reached(Err(_))) => WalletAction::Finish,
            (WalletAction::FindNetworkWallet, WalletInput::Found(found)) => if found {
                WalletAction::CheckOpen
            } else {
                WalletAction::Finish
            },
            (WalletAction::CheckOpen, WalletInput::State(state)) => if state == Some(true) {
                WalletAction::Open
            } else {
                WalletAction::Finish
            },
            (WalletAction::Open, WalletInput::Opened(Some(handle))) => if handle >= 0 {
                WalletAction::Read { handle, entry: Entry::Url }
            } else {
                WalletAction::Finish
            },
            (WalletAction::Open, WalletInput::Opened(None)) => WalletAction::Finish,
            (WalletAction::Read { handle, entry }, WalletInput::Entry(found)) => if found is None {
                WalletAction::Close { handle }
            } else {
                match entry {
                    Entry::Url => WalletAction::Read { handle, entry: Entry::Username },
                    Entry::Username => WalletAction::Read { handle, entry: Entry::Password },
                    Entry::Password => WalletAction::Close { handle },
                }
            },
            (WalletAction::Close { .. }, WalletInput::Closed) => WalletAction::Finish,
            (doing, _) => doing,
        }
    }

    /// What went wrong, after an input.
    pub open spec fn failure(self, input: WalletInput) -> Option<CredentialsError> {
        match (self.doing, input) {
            (WalletAction::Reach, WalletInput::Reached(Err(error))) => Some(error),
            (WalletAction::FindNetworkWallet, WalletInput::Found(false)) => Some(
                CredentialsError::NoNetworkWallet,
            ),
            (WalletAction::CheckOpen, WalletInput::State(None)) => Some(
                CredentialsError::StateUnknown,
            ),
            (WalletAction::CheckOpen, WalletInput::State(Some(false))) => Some(
                CredentialsError::Locked,
            ),
            (WalletAction::Open, WalletInput::Opened(None)) => Some(CredentialsError::OpenFailed),
            (WalletAction::Open, WalletInput::Opened(Some(handle))) => if handle < 0 {
                Some(CredentialsError::Unavailable)
            } else {
                self.error
            },
            (WalletAction::Read { entry, .. }, WalletInput::Entry(None)) => Some(
                entry.unreadable(),
            ),
            _ => self.error,
        }
    }

    /// An entry after an input.
    pub open spec fn entry_after(self, entry: Entry, held: Option<String>, input: WalletInput)
        -> Option<String> {
        if self.doing is Read && self.doing->entry == entry && (input matches WalletInput::Entry(
            Some(_),
        )) {
            input->Entry_0
        } else {
            held
        }
    }

    /// The reading after an input.
    pub open spec fn after(self, input: WalletInput) -> WalletReading {
        WalletReading {
            doing: self.next(input),
            url: self.entry_after(Entry::Url, self.url, input),
            username: self.entry_after(Entry::Username, self.username, input),
            password: self.entry_after(Entry::Password, self.password, input),
            error: self.failure(input),
        }
    }

    /// What the reading comes to.
    pub open spec fn yields(self, result: Result<Credentials, CredentialsError>) -> bool {
        match result {
            Ok(credentials) => {
                &&& self.error is None
                &&& self.url == Some(credentials.url)
                &&& self.username == Some(credentials.username)
                &&& self.password == Some(credentials.password)
                &&& complete(credentials)
            },
            Err(error) => if self.error is Some {
                error == self.error->0
            } else {
                &&& error == CredentialsError::Incomplete
                &&& self.url is Some && self.username is Some && self.password is Some ==> !complete(
                    Credentials {
                        url: self.url->0,
                        username: self.username->0,
                        password: self.password->0,
                    },
                )
            },
        }
    }

    /// A reading that is about to start.
    pub fn new() -> (reading: Self)
        ensures
            reading == (WalletReading {
                doing: WalletAction::Reach,
                url: None,
                username: None,
                password: None,
                error: None,
            }),
    {
        WalletReading {
            doing: WalletAction::Reach,
            url: None,
            username: None,
            password: None,
            error: None,
        }
    }

    /// Take one step.
    pub fn step(&mut self, input: WalletInput) -> (action: WalletAction)
        ensures
            action == old(self).next(input),
            final(self).doing == action,
            final(self).error == old(self).failure(input),
            final(self).url == old(self).entry_after(Entry::Url, old(self).url, input),
            final(self).username == old(self).entry_after(
                Entry::Username,
                old(self).username,
                input,
            ),
            final(self).password == old(self).entry_after(
                Entry::Password,
                old(self).password,
                input,
            ),
            *final(self) == old(self).after(input),
    {
        match (self.doing, input) {
            (WalletAction::Reach, WalletInput::Reached(reached)) => match reached {
                Ok(()) => {
                    self.doing = WalletAction::FindNetworkWallet;
                },
                Err(error) => {
                    self.error = Some(error);
                    self.doing = WalletAction::Finish;
                },
            },
            (WalletAction::FindNetworkWallet, WalletInput::Found(found)) => {
                if found {
                    self.doing = WalletAction::CheckOpen;
                } else {
                    self.error = Some(CredentialsError::NoNetworkWallet);
                    self.doing = WalletAction::Finish;
                }
            },
            (WalletAction::CheckOpen, WalletInput::State(state)) => match state {
                Some(true) => {
                    self.doing = WalletAction::Open;
                },
                Some(false) => {
                    self.error = Some(CredentialsError::Locked);
                    self.doing = WalletAction::Finish;
                },
                None => {
                    self.error = Some(CredentialsError::StateUnknown);
                    self.doing = WalletAction::Finish;
                },
            },
            (WalletAction::Open, WalletInput::Opened(opened)) => match opened {
                Some(handle) => {
                    if handle >= 0 {
                        self.doing = WalletAction::Read { handle, entry: Entry::Url };
                    } else {
                        self.error = Some(CredentialsError::Unavailable);
                        self.doing = WalletAction::Finish;
                    }
                },
                None => {
                    self.error = Some(CredentialsError::OpenFailed);
                    self.doing = WalletAction::Finish;
                },
            },
            (WalletAction::Read { handle, entry }, WalletInput::Entry(found)) => match found {
                Some(text) => match entry {
                    Entry::Url => {
                        self.url = Some(text);
                        self.doing = WalletAction::Read { handle, entry: Entry::Username };
                    },
                    Entry::Username => {
                        self.username = Some(text);
                        self.doing = WalletAction::Read { handle, entry: Entry::Password };
                    },
                    Entry::Password => {
                        self.password = Some(text);
                        self.doing = WalletAction::Close { handle };
                    },
                },
                None => {
                    self.error = Some(entry.unreadable_error());
                    self.doing = WalletAction::Close { handle };
                },
            },
            (WalletAction::Close { .. }, WalletInput::Closed) => {
                self.doing = WalletAction::Finish;
            },
            _ => {},
        }
        self.doing
    }

    /// The credentials that were read, once nothing is left to do.
    pub fn read_kwallet(self) -> (result: Result<Credentials, CredentialsError>)
        ensures
            match result {
                Ok(credentials) => {
                    &&& self.error is None
                    &&& self.url == Some(credentials.url)
                    &&& self.username == Some(credentials.username)
                    &&& self.password == Some(credentials.password)
                    &&& complete(credentials)
                },
                Err(error) => if self.error is Some {
                    error == self.error->0
                } else {
                    &&& error == CredentialsError::Incomplete
                    &&& self.url is Some && self.username is Some && self.password is Some
                        ==> !complete(
                        Credentials {
                            url: self.url->0,
                            username: self.username->0,
                            password: self.password->0,
                        },
                    )
                },
            },
            self.yields(result),
    {
        if let Some(error) = self.error {
            return Err(error);
        }
        match (self.url, self.username, self.password) {
            (Some(url), Some(username), Some(password)) => validate(
                Credentials { url, username, password },
            ),
            _ => Err(CredentialsError::Incomplete),
        }
    }
}

/// An open wallet is always closed again: from the first entry that is read,
/// the only way to the end leads through closing it, with the handle it was
/// opened with.
pub proof fn law_wallet_is_closed(reading: WalletReading, input: WalletInput)
    requires
        reading.holds_wallet(),
    ensures
        reading.doing is Read ==> reading.next(input) is Read || reading.next(input) is Close,
        reading.next(input) is Finish ==> reading.doing is Close && input is Closed,
        reading.doing matches WalletAction::Read { handle, .. } ==> (reading.next(input) matches
        WalletAction::Read { handle: kept, .. } ==> kept == handle) && (reading.next(input) matches
        WalletAction::Close { handle: kept } ==> kept == handle),
{
}

/// A wallet that is locked or missing is never opened.
pub proof fn law_locked_wallets_stay_shut(reading: WalletReading, state: Option<bool>)
    requires
        reading.doing is CheckOpen,
        state != Some(true),
    ensures
        reading.next(WalletInput::State(state)) is Finish,
        reading.failure(WalletInput::State(state)) is Some,
{
}

/// Credentials can be used exactly where the address has more than white space in
/// it and neither half of the login is empty.
pub proof fn law_usable_credentials(credentials: Credentials)
    ensures
        complete(credentials) <==> {
            &&& exists|i: int| 0 <= i < credentials.url@.len() && !is_white(
                #[trigger] credentials.url@[i],
            )
            &&& credentials.username@.len() > 0
            &&& credentials.password@.len() > 0
        },
        is_white(' '),
        is_white('\n'),
        !is_white('a'),
{
}

/// The environment is used where all three variables are set, the wallet where
/// none is, and a part of them is refused. What the environment gives is what is
/// used, and refused where it is not complete.
pub proof fn law_credentials_come_whole(
    origin: Result<Origin, CredentialsError>,
    url: Option<String>,
    username: Option<String>,
    password: Option<String>,
)
    requires
        decided(origin, url, username, password),
    ensures
        origin matches Ok(Origin::Wallet) <==> url is None && username is None && password is None,
        origin == Err::<Origin, CredentialsError>(CredentialsError::PartlySet) <==> !(url is Some
            && username is Some && password is Some) && !(url is None && username is None
            && password is None),
        url is Some && username is Some && password is Some ==> {
            let given = Credentials { url: url->0, username: username->0, password: password->0 };
            &&& complete(given) ==> origin == Ok::<Origin, CredentialsError>(
                Origin::Environment(given),
            )
            &&& !complete(given) ==> origin == Err::<Origin, CredentialsError>(
                CredentialsError::Incomplete,
            )
        },
{
}

/// The entries are kept each in its own place: reading an open wallet asks for the
/// address, the username and the password, and ends, with the wallet closed, with
/// exactly what was found.
pub proof fn law_entries_are_kept_in_their_places(
    handle: i32,
    url: String,
    username: String,
    password: String,
)
    requires
        handle >= 0,
    ensures
        ({
            let start = WalletReading {
                doing: WalletAction::Reach,
                url: None,
                username: None,
                password: None,
                error: None,
            };
            let opening = start.after(WalletInput::Reached(Ok(()))).after(
                WalletInput::Found(true),
            ).after(WalletInput::State(Some(true)));
            let opened = opening.after(WalletInput::Opened(Some(handle)));
            let one = opened.after(WalletInput::Entry(Some(url)));
            let two = one.after(WalletInput::Entry(Some(username)));
            let three = two.after(WalletInput::Entry(Some(password)));
            let done = three.after(WalletInput::Closed);
            &&& opening.doing is Open
            &&& opened.doing == (WalletAction::Read { handle, entry: Entry::Url })
            &&& one.doing == (WalletAction::Read { handle, entry: Entry::Username })
            &&& two.doing == (WalletAction::Read { handle, entry: Entry::Password })
            &&& three.doing == (WalletAction::Close { handle })
            &&& done == (WalletReading {
                doing: WalletAction::Finish,
                url: Some(url),
                username: Some(username),
                password: Some(password),
                error: None,
            })
        }),
{
}

/// Every failure is told: where reading ends or turns to closing the wallet other
/// than with the last entry, an error says what went wrong, and no error that was
/// told is lost.
pub proof fn law_failures_are_told(reading: WalletReading, input: WalletInput, handle: i32)
    requires
        handle < 0,
    ensures
        reading.error is Some ==> reading.failure(input) is Some,
        reading.doing is Reach || reading.doing is FindNetworkWallet || reading.doing is CheckOpen
            || reading.doing is Open ==> (reading.next(input) is Finish ==> reading.failure(input)
            is Some),
        reading.doing matches WalletAction::Read { entry, .. } ==> (input
            == WalletInput::Entry(None) ==> reading.next(input) is Close && reading.failure(input)
            == Some(
            match entry {
                Entry::Url => CredentialsError::UrlUnreadable,
                Entry::Username => CredentialsError::UsernameUnreadable,
                Entry::Password => CredentialsError::PasswordUnreadable,
            },
        )),
        reading.doing is Open ==> reading.failure(WalletInput::Opened(None)) == Some(
            CredentialsError::OpenFailed,
        ) && reading.failure(WalletInput::Opened(Some(handle))) == Some(CredentialsError::Unavailable),
        reading.doing is FindNetworkWallet ==> reading.failure(WalletInput::Found(false)) == Some(
            CredentialsError::NoNetworkWallet,
        ),
{
}

/// The entries are kept under keys of their own.
pub proof fn law_entries_have_keys_of_their_own(a: Entry, b: Entry)
    ensures
        a.key_text() == b.key_text() <==> a == b,
{
    reveal_strlit("url");
    reveal_strlit("username");
    reveal_strlit("password");
    assert("url"@[0] == 'u' && "username"@[0] == 'u' && "password"@[0] == 'p');
    assert("url"@.len() == 3 && "username"@.len() == 8 && "password"@.len() == 8);
}

/// A reading that went well yields the three entries it read, where they can be
/// used, and one that did not yields what went wrong.
pub proof fn law_readings_yield_their_entries(
    reading: WalletReading,
    result: Result<Credentials, CredentialsError>,
    credentials: Credentials,
)
    requires
        reading.yields(result),
        reading.url == Some(credentials.url),
        reading.username == Some(credentials.username),
        reading.password == Some(credentials.password),
    ensures
        reading.error is None && complete(credentials) <==> result == Ok::<
            Credentials,
            CredentialsError,
        >(credentials),
        reading.error matches Some(error) ==> result == Err::<Credentials, CredentialsError>(error),
        reading.error is None && !complete(credentials) ==> result == Err::<
            Credentials,
            CredentialsError,
        >(CredentialsError::Incomplete),
{
}

/// Without an open wallet there is nothing to close: a wallet that cannot be
/// reached, found or opened ends the reading at once, and each step that goes well
/// leads to the next.
pub proof fn law_unopened_wallets_end_the_reading(
    reading: WalletReading,
    error: CredentialsError,
    handle: i32,
)
    ensures
        reading.doing is Reach ==> {
            &&& reading.next(WalletInput::Reached(Err(error))) is Finish
            &&& reading.failure(WalletInput::Reached(Err(error))) == Some(error)
            &&& reading.next(WalletInput::Reached(Ok(()))) is FindNetworkWallet
        },
        reading.doing is FindNetworkWallet ==> {
            &&& reading.next(WalletInput::Found(false)) is Finish
            &&& reading.next(WalletInput::Found(true)) is CheckOpen
        },
        reading.doing is CheckOpen ==> {
            &&& reading.next(WalletInput::State(Some(true))) is Open
            &&& reading.failure(WalletInput::State(Some(false))) == Some(CredentialsError::Locked)
            &&& reading.failure(WalletInput::State(None)) == Some(CredentialsError::StateUnknown)
        },
        reading.doing is Open ==> {
            &&& reading.next(WalletInput::Opened(None)) is Finish
            &&& handle < 0 ==> reading.next(WalletInput::Opened(Some(handle))) is Finish
        },
        forall|input: WalletInput|
            reading.doing is Finish ==> (#[trigger] reading.next(input)) is Finish,
{
}

} // verus!
