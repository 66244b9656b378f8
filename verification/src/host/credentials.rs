//! Finding the access token in a credential file.
//!
//! The token is looked up on every poll rather than kept: it rotates, so a copy
//! taken once goes stale.

use crate::text;
use vstd::prelude::*;

verus! {

/// `serde_json::Value`, a JSON document.
#[verifier::external_type_specification]
#[verifier::external_body]
pub struct ExValue(serde_json::Value);

/// The document a text holds, if it is JSON.
pub uninterp spec fn document_in(text: Seq<char>) -> Option<serde_json::Value>;

/// The member of an object, if the document is an object that has it.
pub uninterp spec fn member_of(document: serde_json::Value, key: Seq<char>) -> Option<
    serde_json::Value,
>;

/// The text of a document that is a string.
pub uninterp spec fn text_of(document: serde_json::Value) -> Option<Seq<char>>;

/// The members of an object in its order, without their keys; none for a
/// document that is no object.
pub uninterp spec fn members_of(document: serde_json::Value) -> Seq<serde_json::Value>;

/// `serde_json::from_str`: the document a text holds, or nothing where the text
/// is not JSON.
#[verifier::external_body]
fn parse_document(text: &str) -> (document: Option<serde_json::Value>)
    ensures
        document == document_in(text@),
{
    serde_json::from_str(text).ok()
}

/// `serde_json::Value::get` with a key: a member of an object.
#[verifier::external_body]
fn member<'a>(document: &'a serde_json::Value, key: &str) -> (found: Option<&'a serde_json::Value>)
    ensures
        found is Some <==> member_of(*document, key@) is Some,
        found matches Some(value) ==> member_of(*document, key@) == Some(*value),
{
    document.get(key)
}

/// `serde_json::Value::as_str`: the text of a string.
#[verifier::external_body]
fn string_text(document: &serde_json::Value) -> (found: Option<&str>)
    ensures
        found is Some <==> text_of(*document) is Some,
        found matches Some(text) ==> text_of(*document) == Some(text@),
{
    document.as_str()
}

/// `serde_json::Value::as_object`: the members of an object, in its order.
#[verifier::external_body]
fn object_members(document: &serde_json::Value) -> (members: Vec<&serde_json::Value>)
    ensures
        members@.len() == members_of(*document).len(),
        forall|i: int| 0 <= i < members@.len() ==> *(#[trigger] members@[i]) == members_of(*document)[i],
{
    match document.as_object() {
        Some(members) => members.values().collect(),
        None => Vec::new(),
    }
}

/// Where the token is looked for in a document.
pub open spec fn token_in(document: serde_json::Value) -> Option<Seq<char>> {
    match member_of(document, "accessToken"@) {
        Some(value) => text_of(value),
        None => None,
    }
}

/// The first of some tokens that is there.
pub open spec fn first_token(tokens: Seq<Option<Seq<char>>>) -> Option<Seq<char>>
    decreases tokens.len(),
{
    if tokens.len() == 0 {
        None
    } else if tokens[0] is Some {
        tokens[0]
    } else {
        first_token(tokens.drop_first())
    }
}

/// The texts of some strings.
pub open spec fn views(strings: Seq<Option<String>>) -> Seq<Option<Seq<char>>> {
    Seq::new(
        strings.len(),
        |i: int|
            match strings[i] {
                Some(string) => Some(string@),
                None => None,
            },
    )
}

/// The tokens nested in the members of a document, member by member.
pub open spec fn nested_tokens(document: serde_json::Value) -> Seq<Option<Seq<char>>> {
    Seq::new(members_of(document).len(), |i: int| token_in(members_of(document)[i]))
}

/// The token of a document: its own, or the first nested in one of its members.
pub open spec fn found_token(document: serde_json::Value) -> Option<Seq<char>> {
    if token_in(document) is Some {
        token_in(document)
    } else {
        first_token(nested_tokens(document))
    }
}

/// Why there is no token.
#[derive(Debug, Clone, Copy, PartialEq, Eq, Structural)]
pub enum CredentialsError {
    NotJson,
    NoToken,
}

/// The token chosen among that of a document and those nested in it.
pub open spec fn chosen(direct: Option<Seq<char>>, nested: Seq<Option<Seq<char>>>) -> Option<
    Seq<char>,
> {
    if direct is Some {
        direct
    } else {
        first_token(nested)
    }
}

/// Choose among the token of a document and those nested in it: its own comes
/// first, then the first nested one.
pub fn choose_token(direct: Option<String>, nested: &Vec<Option<String>>) -> (token: Option<String>)
    ensures
        match token {
            Some(token) => Some(token@) == if direct is Some {
                Some(direct->0@)
            } else {
                first_token(views(nested@))
            },
            None => direct is None && first_token(views(nested@)) is None,
        },
        chosen(
            match direct {
                Some(direct) => Some(direct@),
                None => None,
            },
            views(nested@),
        ) == (match token {
            Some(token) => Some(token@),
            None => None,
        }),
{
    if direct.is_some() {
        return direct;
    }
    let mut i: usize = 0;
    assert(views(nested@).skip(0) =~= views(nested@));
    while i < nested.len()
        invariant
            direct is None,
            i <= nested@.len(),
            first_token(views(nested@)) == first_token(views(nested@).skip(i as int)),
        decreases nested.len() - i,
    {
        assert(views(nested@).skip(i as int).drop_first() =~= views(nested@).skip(i + 1));
        assert(views(nested@).skip(i as int)[0] == views(nested@)[i as int]);
        if let Some(token) = &nested[i] {
            return Some(token.clone());
        }
        i = i + 1;
    }
    None
}

fn token_text(document: &serde_json::Value) -> (token: Option<String>)
    ensures
        match token {
            Some(token) => token_in(*document) == Some(token@),
            None => token_in(*document) is None,
        },
{
    match member(document, "accessToken") {
        Some(value) => match string_text(value) {
            Some(token) => {
                let mut owned = String::new();
                text::append_text(&mut owned, token);
                assert(owned@ =~= token@);
                Some(owned)
            },
            None => None,
        },
        None => None,
    }
}

/// The token of a document.
///
/// The token has been stored both directly and nested under a provider key, so
/// both shapes are accepted.
pub fn access_token(document: &serde_json::Value) -> (token: Option<String>)
    ensures
        match token {
            Some(token) => found_token(*document) == Some(token@),
            None => found_token(*document) is None,
        },
{
    let direct = token_text(document);
    let members = object_members(document);
    let mut nested: Vec<Option<String>> = Vec::new();
    let mut i: usize = 0;
    while i < members.len()
        invariant
            i <= members@.len(),
            members@.len() == members_of(*document).len(),
            forall|k: int|
                0 <= k < members@.len() ==> *(#[trigger] members@[k]) == members_of(*document)[k],
            views(nested@) =~= nested_tokens(*document).take(i as int),
        decreases members.len() - i,
    {
        let ghost before = nested@;
        nested.push(token_text(members[i]));
        assert(views(nested@) =~= views(before).push(token_in(members_of(*document)[i as int])));
        i = i + 1;
    }
    assert(views(nested@) =~= nested_tokens(*document));
    choose_token(direct, &nested)
}

/// The token in the text of a credential file, or why there is none.
pub open spec fn token_of(raw: Seq<char>) -> Result<Seq<char>, CredentialsError> {
    match document_in(raw) {
        None => Err(CredentialsError::NotJson),
        Some(document) => match found_token(document) {
            Some(token) => Ok(token),
            None => Err(CredentialsError::NoToken),
        },
    }
}

/// The token in the text of a credential file.
pub fn read_access_token(raw: &str) -> (result: Result<String, CredentialsError>)
    ensures
        match result {
            Ok(token) => document_in(raw@) is Some && found_token(document_in(raw@)->0) == Some(
                token@,
            ),
            Err(CredentialsError::NotJson) => document_in(raw@) is None,
            Err(CredentialsError::NoToken) => document_in(raw@) is Some && found_token(
                document_in(raw@)->0,
            ) is None,
        },
        match result {
            Ok(token) => token_of(raw@) == Ok::<Seq<char>, CredentialsError>(token@),
            Err(error) => token_of(raw@) == Err::<Seq<char>, CredentialsError>(error),
        },
{
    match parse_document(raw) {
        None => Err(CredentialsError::NotJson),
        Some(document) => match access_token(&document) {
            Some(token) => Ok(token),
            None => Err(CredentialsError::NoToken),
        },
    }
}

/// What is wrong with a credential file, in words.
pub open spec fn message_of(error: CredentialsError, path: Seq<char>, program: Seq<char>) -> Seq<
    char,
> {
    match error {
        CredentialsError::NotJson => "parsing "@ + path,
        CredentialsError::NoToken => "no accessToken in "@ + path + " — is "@ + program
            + " logged in?"@,
    }
}

/// What is wrong with a credential file, in words; `program` is the one that
/// keeps the file.
pub fn credentials_message(error: CredentialsError, path: &str, program: &str) -> (message: String)
    ensures
        message@ == match error {
            CredentialsError::NotJson => "parsing "@ + path@,
            CredentialsError::NoToken => "no accessToken in "@ + path@ + " — is "@ + program@
                + " logged in?"@,
        },
        message@ == message_of(error, path@, program@),
{
    let mut message = String::new();
    match error {
        CredentialsError::NotJson => {
            text::append_text(&mut message, "parsing ");
            text::append_text(&mut message, path);
            assert(message@ =~= "parsing "@ + path@);
        },
        CredentialsError::NoToken => {
            text::append_text(&mut message, "no accessToken in ");
            text::append_text(&mut message, path);
            text::append_text(&mut message, " — is ");
            text::append_text(&mut message, program);
            text::append_text(&mut message, " logged in?");
            assert(message@ =~= "no accessToken in "@ + path@ + " — is "@ + program@
                + " logged in?"@);
        },
    }
    message
}

/// The first token is one of those given, and none that is there is passed
/// over.
pub proof fn law_first_token_is_the_first(tokens: Seq<Option<Seq<char>>>)
    ensures
        match first_token(tokens) {
            Some(token) => exists|i: int|
                0 <= i < tokens.len() && #[trigger] tokens[i] == Some(token) && forall|k: int|
                    0 <= k < i ==> #[trigger] tokens[k] is None,
            None => forall|k: int| 0 <= k < tokens.len() ==> #[trigger] tokens[k] is None,
        },
    decreases tokens.len(),
{
    if tokens.len() > 0 {
        if tokens[0] is Some {
            assert(tokens[0] == Some(tokens[0]->0));
        } else {
            let rest = tokens.drop_first();
            law_first_token_is_the_first(rest);
            assert forall|k: int| 0 < k < tokens.len() implies #[trigger] tokens[k] == rest[k
                - 1] by {}
            if first_token(rest) is Some {
                let i = choose|i: int|
                    0 <= i < rest.len() && #[trigger] rest[i] == Some(first_token(rest)->0)
                        && forall|k: int| 0 <= k < i ==> #[trigger] rest[k] is None;
                assert(tokens[i + 1] == Some(first_token(tokens)->0));
                assert forall|k: int| 0 <= k < i + 1 implies #[trigger] tokens[k] is None by {
                    if k > 0 {
                        assert(rest[k - 1] is None);
                    }
                }
            }
        }
    }
}

/// A document's own token comes first, whatever is nested in it. Without one the
/// token of the first member that has one is taken, and without any there is none.
pub proof fn law_own_tokens_come_first(document: serde_json::Value, member: int)
    ensures
        ({
            let own = match member_of(document, "accessToken"@) {
                Some(value) => text_of(value),
                None => None,
            };
            &&& own is Some ==> found_token(document) == own
            &&& own is None && 0 <= member < members_of(document).len() && token_in(
                members_of(document)[member],
            ) is Some && (forall|i: int|
                0 <= i < member ==> token_in(#[trigger] members_of(document)[i]) is None)
                ==> found_token(document) == token_in(members_of(document)[member])
            &&& own is None && (forall|i: int|
                0 <= i < members_of(document).len() ==> token_in(
                    #[trigger] members_of(document)[i],
                ) is None) ==> found_token(document) is None
        }),
{
    let tokens = nested_tokens(document);
    law_first_token_is_the_first(tokens);
    assert forall|i: int| 0 <= i < tokens.len() implies #[trigger] tokens[i] == token_in(
        members_of(document)[i],
    ) by {}
    if let Some(token) = first_token(tokens) {
        let first = choose|i: int|
            0 <= i < tokens.len() && #[trigger] tokens[i] == Some(token) && forall|k: int|
                0 <= k < i ==> #[trigger] tokens[k] is None;
        assert(token_in(members_of(document)[first]) is Some);
        if 0 <= member < first {
            assert(tokens[member] is None);
        }
    } else if 0 <= member < tokens.len() {
        assert(tokens[member] is None);
    }
}

/// A file gives its token, or the reason for which it has none: it is no document,
/// or the document holds none.
pub proof fn law_files_give_their_token(raw: Seq<char>)
    ensures
        document_in(raw) is None <==> token_of(raw) == Err::<Seq<char>, CredentialsError>(
            CredentialsError::NotJson,
        ),
        document_in(raw) matches Some(document) ==> {
            &&& found_token(document) matches Some(token) ==> token_of(raw) == Ok::<
                Seq<char>,
                CredentialsError,
            >(token)
            &&& found_token(document) is None ==> token_of(raw) == Err::<
                Seq<char>,
                CredentialsError,
            >(CredentialsError::NoToken)
        },
{
}

/// The message names the file, and where the file has no token also the program
/// that keeps it.
pub proof fn law_messages_name_the_file(path: Seq<char>, program: Seq<char>)
    ensures
        message_of(CredentialsError::NotJson, path, program).skip(8) == path,
        ({
            let message = message_of(CredentialsError::NoToken, path, program);
            let named = 18int + path.len();
            &&& message.subrange(18, named) == path
            &&& message.subrange(named + 6, named + 6 + program.len()) == program
        }),
{
    reveal_strlit("parsing ");
    reveal_strlit("no accessToken in ");
    reveal_strlit(" — is ");
    assert(message_of(CredentialsError::NotJson, path, program).skip(8) =~= path);
    let message = message_of(CredentialsError::NoToken, path, program);
    let named = 18int + path.len();
    assert(message.subrange(18, named) =~= path);
    assert(message.subrange(named + 6, named + 6 + program.len()) =~= program);
}

/// The token of the document itself is chosen over any nested one, and otherwise
/// the first of those that is there.
pub proof fn law_direct_tokens_are_chosen(
    token: Seq<char>,
    nested: Seq<Option<Seq<char>>>,
    index: int,
)
    ensures
        chosen(Some(token), nested) == Some(token),
        0 <= index < nested.len() && nested[index] is Some && (forall|i: int|
            0 <= i < index ==> #[trigger] nested[i] is None) ==> chosen(None, nested)
            == nested[index],
        (forall|i: int| 0 <= i < nested.len() ==> #[trigger] nested[i] is None) ==> chosen(
            None,
            nested,
        ) is None,
{
    law_first_token_is_the_first(nested);
    if let Some(found) = first_token(nested) {
        let first = choose|i: int|
            0 <= i < nested.len() && #[trigger] nested[i] == Some(found) && forall|k: int|
                0 <= k < i ==> #[trigger] nested[k] is None;
        if 0 <= index < first {
            assert(nested[index] is None);
        }
    }
}

} // verus!
