use vstd::prelude::*;
use crate::pocket_api::{field, fields_view, PocketRequest};
use crate::text::{decimal, decimal_text, law_trailing_white_space_is_trimmed, trim, trimmed};

verus! {

/// The address at which Pocket is asked to redirect the browser back.
pub open spec fn redirect_uri() -> Seq<char> {
    "pocketapp1234:authorizationFinished"@
}

/// The request for a request token (a code) of the application `key`.
pub fn token_request(key: &str) -> (request: PocketRequest)
    ensures
        request.endpoint@ == "https://getpocket.com/v3/oauth/request"@,
        fields_view(request.fields@) == seq![
            ("consumer_key"@, key@),
            ("redirect_uri"@, redirect_uri()),
        ],
{
    let mut fields: Vec<(String, String)> = Vec::new();
    fields.push(field("consumer_key", key));
    fields.push(field("redirect_uri", "pocketapp1234:authorizationFinished"));
    assert(fields_view(fields@) =~= seq![
        ("consumer_key"@, key@),
        ("redirect_uri"@, redirect_uri()),
    ]);
    PocketRequest { endpoint: "https://getpocket.com/v3/oauth/request".to_string(), fields }
}

/// The request that trades the authorized `code` for an access token.
pub fn access_token_request(key: &str, code: &str) -> (request: PocketRequest)
    ensures
        request.endpoint@ == "https://getpocket.com/v3/oauth/authorize"@,
        fields_view(request.fields@) == seq![("consumer_key"@, key@), ("code"@, code@)],
{
    let mut fields: Vec<(String, String)> = Vec::new();
    fields.push(field("consumer_key", key));
    fields.push(field("code", code));
    assert(fields_view(fields@) =~= seq![("consumer_key"@, key@), ("code"@, code@)]);
    PocketRequest { endpoint: "https://getpocket.com/v3/oauth/authorize".to_string(), fields }
}

/// The local address `127.0.0.1:<port>` that waits for the browser.
pub open spec fn callback_text(port: u16) -> Seq<char> {
    "127.0.0.1:"@ + decimal(port as nat)
}

/// The local address `127.0.0.1:<port>` that waits for the browser.
pub fn callback_address(port: u16) -> (address: String)
    ensures
        address@ == callback_text(port),
        address@ == "127.0.0.1:"@ + decimal(port as nat),
{
    let mut address = "127.0.0.1:".to_string();
    let digits = decimal_text(port as u64);
    address.append(digits.as_str());
    address
}

/// The page on which the user grants the application access, which then
/// sends the browser to the local callback address.
pub open spec fn authorize_text(token: Seq<char>, port: u16) -> Seq<char> {
    "https://getpocket.com/auth/authorize?request_token="@ + token + "&redirect_uri="@
        + "http://"@ + callback_text(port)
}

/// What surrounds a text can be taken off again: equal texts with the same
/// start and the same end have the same middle.
proof fn lemma_same_frame_same_middle(a: Seq<char>, x: Seq<char>, y: Seq<char>, b: Seq<char>)
    requires
        a + x + b == a + y + b,
    ensures
        x == y,
{
    assert((a + x + b).len() == (a + y + b).len());
    assert((a + x + b).len() == a.len() + x.len() + b.len());
    assert((a + y + b).len() == a.len() + y.len() + b.len());
    assert forall|k: int| 0 <= k < x.len() implies x[k] == y[k] by {
        assert((a + x + b)[a.len() + k] == (a + x)[a.len() + k]);
        assert((a + y + b)[a.len() + k] == (a + y)[a.len() + k]);
        assert((a + x)[a.len() + k] == x[k]);
        assert((a + y)[a.len() + k] == y[k]);
    }
    assert(x =~= y);
}

/// The authorization page carries the whole request token: different
/// tokens, of any length, give different pages, and so do different ports.
pub proof fn law_authorize_page_keeps_whole_token(t1: Seq<char>, t2: Seq<char>, port: u16)
    ensures
        authorize_text(t1, port) == authorize_text(t2, port) ==> t1 == t2,
{
    let a = "https://getpocket.com/auth/authorize?request_token="@;
    let b = "&redirect_uri="@ + "http://"@ + callback_text(port);
    assert(authorize_text(t1, port) =~= a + t1 + b);
    assert(authorize_text(t2, port) =~= a + t2 + b);
    if authorize_text(t1, port) == authorize_text(t2, port) {
        lemma_same_frame_same_middle(a, t1, t2, b);
    }
}

/// The page on which the user grants the application access.
pub fn authorize_url(token: &str, port: u16) -> (url: String)
    ensures
        url@ == authorize_text(token@, port),
        url@ == "https://getpocket.com/auth/authorize?request_token="@ + token@ + "&redirect_uri="@
            + "http://"@ + "127.0.0.1:"@ + decimal(port as nat),
{
    let mut url = "https://getpocket.com/auth/authorize?request_token=".to_string();
    url.append(token);
    url.append("&redirect_uri=");
    url.append("http://");
    let callback = callback_address(port);
    url.append(callback.as_str());
    url
}

/// The access token that a token file holds: its text without surrounding
/// white space.
pub fn access_token_from_file(contents: &str) -> (token: String)
    ensures
        token@ == trimmed(contents@),
{
    trim(contents)
}

/// The text that a token file holds for `token`: the token and a line feed.
pub open spec fn token_file_text(token: Seq<char>) -> Seq<char> {
    token.push('\n')
}

/// The text to store in the token file for `token`.
pub fn access_file_contents(token: &str) -> (contents: String)
    ensures
        contents@ == token_file_text(token@),
{
    let mut contents = token.to_string();
    proof {
        reveal_strlit("\n");
    }
    contents.append("\n");
    contents
}

/// Reading back a token file gives the stored token without surrounding
/// white space.
pub proof fn law_token_file_round_trip(token: Seq<char>)
    ensures
        trimmed(token_file_text(token)) == trimmed(token),
{
    law_trailing_white_space_is_trimmed(token, '\n');
}

/// What comes next in obtaining an access token.
#[derive(Clone, Debug)]
pub enum AuthStep {
    /// Read the token file.
    ReadTokenFile,
    /// Ask Pocket for a code.
    RequestCode,
    /// Have the user grant access for the code in the browser.
    Authorize { code: String },
    /// Trade the code for an access token.
    RequestToken { code: String },
    /// Store the access token in the token file.
    SaveToken { token: String },
    /// The access token is at hand.
    Done { token: String },
}

/// What came of a step.
#[derive(Clone, Debug)]
pub enum AuthEvent {
    /// The token file was read: the token that it holds, if it exists.
    FileRead { stored: Option<String> },
    /// Pocket gave a code.
    CodeReceived { code: String },
    /// The user granted access.
    Authorized,
    /// Pocket gave an access token.
    TokenReceived { token: String },
    /// The token file was written.
    TokenSaved,
}

/// The contents of an `AuthStep`.
pub enum AuthStepView {
    ReadTokenFile,
    RequestCode,
    Authorize(Seq<char>),
    RequestToken(Seq<char>),
    SaveToken(Seq<char>),
    Done(Seq<char>),
}

/// The contents of an `AuthEvent`.
pub enum AuthEventView {
    FileRead(Option<Seq<char>>),
    CodeReceived(Seq<char>),
    Authorized,
    TokenReceived(Seq<char>),
    TokenSaved,
}

impl View for AuthStep {
    type V = AuthStepView;

    open spec fn view(&self) -> AuthStepView {
        match self {
            AuthStep::ReadTokenFile => AuthStepView::ReadTokenFile,
            AuthStep::RequestCode => AuthStepView::RequestCode,
            AuthStep::Authorize { code } => AuthStepView::Authorize(code@),
            AuthStep::RequestToken { code } => AuthStepView::RequestToken(code@),
            AuthStep::SaveToken { token } => AuthStepView::SaveToken(token@),
            AuthStep::Done { token } => AuthStepView::Done(token@),
        }
    }
}

impl View for AuthEvent {
    type V = AuthEventView;

    open spec fn view(&self) -> AuthEventView {
        match self {
            AuthEvent::FileRead { stored } => AuthEventView::FileRead(
                match stored {
                    Some(t) => Some(t@),
                    None => None,
                },
            ),
            AuthEvent::CodeReceived { code } => AuthEventView::CodeReceived(code@),
            AuthEvent::Authorized => AuthEventView::Authorized,
            AuthEvent::TokenReceived { token } => AuthEventView::TokenReceived(token@),
            AuthEvent::TokenSaved => AuthEventView::TokenSaved,
        }
    }
}

/// The step after `step` when `event` came of it. A stored token is used as
/// it is; without one, a code is requested, authorized, traded for a token,
/// and the token is stored. An event that does not belong to the step
/// leaves the step as it is.
pub open spec fn auth_next(step: AuthStepView, event: AuthEventView) -> AuthStepView {
    match (step, event) {
        (AuthStepView::ReadTokenFile, AuthEventView::FileRead(Some(token))) => AuthStepView::Done(
            token,
        ),
        (AuthStepView::ReadTokenFile, AuthEventView::FileRead(None)) => AuthStepView::RequestCode,
        (AuthStepView::RequestCode, AuthEventView::CodeReceived(code)) => AuthStepView::Authorize(
            code,
        ),
        (AuthStepView::Authorize(code), AuthEventView::Authorized) => AuthStepView::RequestToken(
            code,
        ),
        (AuthStepView::RequestToken(_), AuthEventView::TokenReceived(token)) => AuthStepView::SaveToken(
            token,
        ),
        (AuthStepView::SaveToken(token), AuthEventView::TokenSaved) => AuthStepView::Done(token),
        _ => step,
    }
}

impl AuthStep {
    /// The first step: look for a stored token.
    pub fn start() -> (step: AuthStep)
        ensures
            step@ == AuthStepView::ReadTokenFile,
    {
        AuthStep::ReadTokenFile
    }

    /// The step that follows this one when `event` came of it.
    pub fn next(self, event: AuthEvent) -> (step: AuthStep)
        ensures
            step@ == auth_next(self@, event@),
    {
        match self {
            AuthStep::ReadTokenFile => match event {
                AuthEvent::FileRead { stored } => match stored {
                    Some(token) => AuthStep::Done { token },
                    None => AuthStep::RequestCode,
                },
                _ => AuthStep::ReadTokenFile,
            },
            AuthStep::RequestCode => match event {
                AuthEvent::CodeReceived { code } => AuthStep::Authorize { code },
                _ => AuthStep::RequestCode,
            },
            AuthStep::Authorize { code } => match event {
                AuthEvent::Authorized => AuthStep::RequestToken { code },
                _ => AuthStep::Authorize { code },
            },
            AuthStep::RequestToken { code } => match event {
                AuthEvent::TokenReceived { token } => AuthStep::SaveToken { token },
                _ => AuthStep::RequestToken { code },
            },
            AuthStep::SaveToken { token } => match event {
                AuthEvent::TokenSaved => AuthStep::Done { token },
                _ => AuthStep::SaveToken { token },
            },
            AuthStep::Done { token } => AuthStep::Done { token },
        }
    }

    /// The access token, once the steps are done.
    pub fn token(&self) -> (token: Option<String>)
        ensures
            match self@ {
                AuthStepView::Done(t) => token is Some && token->0@ == t,
                _ => token is None,
            },
    {
        match self {
            AuthStep::Done { token } => Some(token.clone()),
            _ => None,
        }
    }
}

/// A token in the token file is used as it is, with no request to Pocket.
pub proof fn law_stored_token_is_used(token: Seq<char>)
    ensures
        auth_next(AuthStepView::ReadTokenFile, AuthEventView::FileRead(Some(token)))
            == AuthStepView::Done(token),
{
}

/// Without a stored token, the code that Pocket gives is the one the user
/// authorizes and the one traded for the token; the token that Pocket gives
/// is stored and then used.
pub proof fn law_new_token_flow(code: Seq<char>, token: Seq<char>)
    ensures
        ({
            let s1 = auth_next(AuthStepView::ReadTokenFile, AuthEventView::FileRead(None));
            let s2 = auth_next(s1, AuthEventView::CodeReceived(code));
            let s3 = auth_next(s2, AuthEventView::Authorized);
            let s4 = auth_next(s3, AuthEventView::TokenReceived(token));
            let s5 = auth_next(s4, AuthEventView::TokenSaved);
            &&& s1 == AuthStepView::RequestCode
            &&& s2 == AuthStepView::Authorize(code)
            &&& s3 == AuthStepView::RequestToken(code)
            &&& s4 == AuthStepView::SaveToken(token)
            &&& s5 == AuthStepView::Done(token)
        }),
{
}

/// A token without surrounding white space, once stored, is read back and
/// used as it is on the next start, with no request to Pocket.
pub proof fn law_saved_token_is_used_next_time(token: Seq<char>)
    requires
        trimmed(token) == token,
    ensures
        auth_next(
            AuthStepView::ReadTokenFile,
            AuthEventView::FileRead(Some(trimmed(token_file_text(token)))),
        ) == AuthStepView::Done(token),
{
    law_token_file_round_trip(token);
}

/// Once done, the steps stay done with the same token, whatever comes.
pub proof fn law_done_is_final(token: Seq<char>, event: AuthEventView)
    ensures
        auth_next(AuthStepView::Done(token), event) == AuthStepView::Done(token),
{
}

} // verus!
