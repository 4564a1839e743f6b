//! Google OAuth: the authorization URL, the forms of the token requests,
//! and the reading of what the token endpoint answers.
//!
//! The requests themselves are sent by the caller.

use vstd::prelude::*;
use base64::engine::general_purpose::URL_SAFE_NO_PAD;
use base64::Engine;
use url::Url;
use crate::models::text_of;
use crate::token::TokenGrant;

verus! {

/// The endpoint that the user is sent to for consent.
pub const AUTH_ENDPOINT: &'static str = "https://accounts.google.com/o/oauth2/v2/auth";

/// The endpoint at which codes and refresh tokens are exchanged.
pub const TOKEN_ENDPOINT: &'static str = "https://oauth2.googleapis.com/token";

/// The endpoint that tells who an access token belongs to.
pub const USERINFO_ENDPOINT: &'static str = "https://www.googleapis.com/oauth2/v2/userinfo";

/// The longest base URL, in characters, that is handed to the URL library.
/// The library keeps positions within a URL in 32 bits; a base of this
/// length stays below that even where each character is written as
/// sixteen bytes.
pub const URL_BASE_LIMIT: usize = 0x0800_0000;

/// The scopes that are asked for, separated by blanks.
pub open spec fn scope_text() -> Seq<char> {
    "https://www.googleapis.com/auth/generative-language.retriever"@ + " "@
        + "https://www.googleapis.com/auth/cloud-platform"@ + " "@
        + "https://www.googleapis.com/auth/userinfo.email"@ + " "@
        + "https://www.googleapis.com/auth/userinfo.profile"@
}

/// The scopes that are asked for.
pub fn scopes() -> (list: Vec<&'static str>)
    ensures
        list@.len() == 4,
        list@[0]@ == "https://www.googleapis.com/auth/generative-language.retriever"@,
        list@[1]@ == "https://www.googleapis.com/auth/cloud-platform"@,
        list@[2]@ == "https://www.googleapis.com/auth/userinfo.email"@,
        list@[3]@ == "https://www.googleapis.com/auth/userinfo.profile"@,
{
    let mut list: Vec<&'static str> = Vec::new();
    list.push("https://www.googleapis.com/auth/generative-language.retriever");
    list.push("https://www.googleapis.com/auth/cloud-platform");
    list.push("https://www.googleapis.com/auth/userinfo.email");
    list.push("https://www.googleapis.com/auth/userinfo.profile");
    list
}

/// `parts`, with `sep` between each two.
pub open spec fn joined(parts: Seq<&'static str>, sep: Seq<char>) -> Seq<char>
    decreases parts.len(),
{
    if parts.len() == 0 {
        Seq::empty()
    } else if parts.len() == 1 {
        parts[0]@
    } else {
        joined(parts.drop_last(), sep) + sep + parts.last()@
    }
}

/// Writes `parts` with `sep` between each two.
pub fn join(parts: &Vec<&'static str>, sep: &str) -> (text: String)
    ensures
        text@ == joined(parts@, sep@),
{
    let mut text = String::new();
    let mut i: usize = 0;
    while i < parts.len()
        invariant
            i <= parts@.len(),
            text@ == joined(parts@.take(i as int), sep@),
        decreases parts@.len() - i,
    {
        proof {
            assert(parts@.take(i + 1).drop_last() =~= parts@.take(i as int));
            assert(parts@.take(i + 1).last() == parts@[i as int]);
        }
        if i > 0 {
            text.append(sep);
        }
        text.append(parts[i]);
        proof {
            if i == 0 {
                assert(text@ =~= parts@[0]@);
            }
        }
        i += 1;
    }
    proof {
        assert(parts@.take(parts@.len() as int) =~= parts@);
    }
    text
}

/// The client that this application is registered as.
#[derive(Debug)]
pub struct GoogleOAuth {
    pub client_id: String,
    pub client_secret: String,
    pub redirect_uri: String,
}

impl Default for GoogleOAuth {
    fn default() -> (c: Self)
        ensures
            c.client_id@ == Seq::<char>::empty(),
            c.client_secret@ == Seq::<char>::empty(),
            c.redirect_uri@ == "http://localhost:8095/oauth/callback"@,
    {
        GoogleOAuth {
            client_id: String::new(),
            client_secret: String::new(),
            redirect_uri: String::from_str("http://localhost:8095/oauth/callback"),
        }
    }
}

/// What the token endpoint answers to an exchange.
#[derive(Debug)]
pub struct TokenResponse {
    pub access_token: String,
    pub token_type: String,
    pub expires_in: u64,
    pub refresh_token: Option<String>,
    pub scope: Option<String>,
}

/// Who an access token belongs to.
#[derive(Debug)]
pub struct UserInfo {
    pub email: String,
    pub name: Option<String>,
    pub picture: Option<String>,
}

/// What can go wrong in the OAuth flow.
#[derive(Debug)]
pub enum AuthError {
    RequestFailed(String),
    TokenExchangeFailed(String),
    TokenRefreshFailed(String),
    UserInfoFailed(String),
    ParseFailed(String),
    InvalidState,
    MissingCode,
}

/// The text that an error is shown as.
pub open spec fn message_of(e: AuthError) -> Seq<char> {
    match e {
        AuthError::RequestFailed(why) => "Request failed: "@ + why@,
        AuthError::TokenExchangeFailed(why) => "Token exchange failed: "@ + why@,
        AuthError::TokenRefreshFailed(why) => "Token refresh failed: "@ + why@,
        AuthError::UserInfoFailed(why) => "Failed to get user info: "@ + why@,
        AuthError::ParseFailed(why) => "Failed to parse response: "@ + why@,
        AuthError::InvalidState => "Invalid state parameter"@,
        AuthError::MissingCode => "Missing authorization code"@,
    }
}

impl AuthError {
    /// The text that the error is shown as.
    pub fn message(&self) -> (text: String)
        ensures
            text@ == message_of(*self),
    {
        match self {
            AuthError::RequestFailed(why) => String::from_str("Request failed: ").concat(why.as_str()),
            AuthError::TokenExchangeFailed(why) => String::from_str("Token exchange failed: ").concat(
                why.as_str(),
            ),
            AuthError::TokenRefreshFailed(why) => String::from_str("Token refresh failed: ").concat(
                why.as_str(),
            ),
            AuthError::UserInfoFailed(why) => String::from_str("Failed to get user info: ").concat(
                why.as_str(),
            ),
            AuthError::ParseFailed(why) => String::from_str("Failed to parse response: ").concat(
                why.as_str(),
            ),
            AuthError::InvalidState => String::from_str("Invalid state parameter"),
            AuthError::MissingCode => String::from_str("Missing authorization code"),
        }
    }
}

/// Which of the three requests an answer belongs to.
#[derive(Debug, Clone, Copy, PartialEq, Eq, Structural)]
pub enum Call {
    ExchangeCode,
    RefreshToken,
    UserInfo,
}

/// What came back for a request: the status, as success or not, and the
/// body as text.
#[derive(Debug)]
pub struct Reply {
    pub success: bool,
    pub body: String,
}

/// Whether an answer can be read on: `Ok` after a success status. A request
/// that could not be sent fails with what the transport said; an answer
/// with another status fails as the call that it belongs to, with the
/// answer's body.
pub open spec fn accepted(call: Call, sent: Result<Reply, String>) -> Result<String, AuthError> {
    match sent {
        Err(why) => Err(AuthError::RequestFailed(why)),
        Ok(reply) => if reply.success {
            Ok(reply.body)
        } else {
            match call {
                Call::ExchangeCode => Err(AuthError::TokenExchangeFailed(reply.body)),
                Call::RefreshToken => Err(AuthError::TokenRefreshFailed(reply.body)),
                Call::UserInfo => Err(AuthError::UserInfoFailed(reply.body)),
            }
        },
    }
}

/// Looks at what came back for `call`, and hands out the body of an answer
/// that can be read on.
pub fn check_reply(call: Call, sent: Result<Reply, String>) -> (r: Result<String, AuthError>)
    ensures
        r == accepted(call, sent),
{
    match sent {
        Err(why) => Err(AuthError::RequestFailed(why)),
        Ok(reply) => {
            if reply.success {
                Ok(reply.body)
            } else {
                match call {
                    Call::ExchangeCode => Err(AuthError::TokenExchangeFailed(reply.body)),
                    Call::RefreshToken => Err(AuthError::TokenRefreshFailed(reply.body)),
                    Call::UserInfo => Err(AuthError::UserInfoFailed(reply.body)),
                }
            }
        },
    }
}

/// What a body that was read as a token answer means: the answer, or a
/// parse failure with what the reader said.
pub fn read_token(parsed: Result<TokenResponse, String>) -> (r: Result<TokenResponse, AuthError>)
    ensures
        r == match parsed {
            Ok(t) => Ok::<TokenResponse, AuthError>(t),
            Err(why) => Err::<TokenResponse, AuthError>(AuthError::ParseFailed(why)),
        },
{
    match parsed {
        Ok(t) => Ok(t),
        Err(why) => Err(AuthError::ParseFailed(why)),
    }
}

/// What a body that was read as user info means: the info, or a parse
/// failure with what the reader said.
pub fn read_user_info(parsed: Result<UserInfo, String>) -> (r: Result<UserInfo, AuthError>)
    ensures
        r == match parsed {
            Ok(u) => Ok::<UserInfo, AuthError>(u),
            Err(why) => Err::<UserInfo, AuthError>(AuthError::ParseFailed(why)),
        },
{
    match parsed {
        Ok(u) => Ok(u),
        Err(why) => Err(AuthError::ParseFailed(why)),
    }
}

/// What the router is told of an exchange: the grant of an answer, or the
/// text of the error.
pub fn grant_of(answer: Result<TokenResponse, AuthError>) -> (g: Result<TokenGrant, String>)
    ensures
        match answer {
            Ok(t) => g == Ok::<TokenGrant, String>(
                TokenGrant { access_token: t.access_token, expires_in: t.expires_in },
            ),
            Err(e) => g is Err && g->Err_0@ == message_of(e),
        },
{
    match answer {
        Ok(t) => Ok(TokenGrant { access_token: t.access_token, expires_in: t.expires_in }),
        Err(e) => Err(e.message()),
    }
}

/// One field of a form.
#[derive(Debug)]
pub struct FormField {
    pub name: String,
    pub value: String,
}

/// The field `name` with `value`, as texts.
pub open spec fn field(name: Seq<char>, value: Seq<char>) -> (Seq<char>, Seq<char>) {
    (name, value)
}

/// The fields of a form, as texts.
pub open spec fn form_text(form: Seq<FormField>) -> Seq<(Seq<char>, Seq<char>)> {
    form.map_values(|f: FormField| (f.name@, f.value@))
}

fn form_field(name: &str, value: &str) -> (f: FormField)
    ensures
        f.name@ == name@,
        f.value@ == value@,
{
    FormField { name: String::from_str(name), value: String::from_str(value) }
}

impl GoogleOAuth {
    /// The client with the given credentials and the usual redirect URI.
    pub fn new(client_id: String, client_secret: String) -> (c: Self)
        ensures
            c.client_id == client_id,
            c.client_secret == client_secret,
            c.redirect_uri@ == "http://localhost:8095/oauth/callback"@,
    {
        GoogleOAuth {
            client_id,
            client_secret,
            redirect_uri: String::from_str("http://localhost:8095/oauth/callback"),
        }
    }

    /// The form that exchanges the authorization code `code` for tokens.
    pub fn exchange_code_form(&self, code: &str) -> (form: Vec<FormField>)
        ensures
            form_text(form@) == seq![
                field("client_id"@, self.client_id@),
                field("client_secret"@, self.client_secret@),
                field("code"@, code@),
                field("redirect_uri"@, self.redirect_uri@),
                field("grant_type"@, "authorization_code"@),
            ],
    {
        let mut form: Vec<FormField> = Vec::new();
        form.push(form_field("client_id", self.client_id.as_str()));
        form.push(form_field("client_secret", self.client_secret.as_str()));
        form.push(form_field("code", code));
        form.push(form_field("redirect_uri", self.redirect_uri.as_str()));
        form.push(form_field("grant_type", "authorization_code"));
        proof {
            assert(form_text(form@) =~= seq![
                field("client_id"@, self.client_id@),
                field("client_secret"@, self.client_secret@),
                field("code"@, code@),
                field("redirect_uri"@, self.redirect_uri@),
                field("grant_type"@, "authorization_code"@),
            ]);
        }
        form
    }

    /// The form that exchanges `refresh_token` for a new access token.
    pub fn refresh_token_form(&self, refresh_token: &str) -> (form: Vec<FormField>)
        ensures
            form_text(form@) == seq![
                field("client_id"@, self.client_id@),
                field("client_secret"@, self.client_secret@),
                field("refresh_token"@, refresh_token@),
                field("grant_type"@, "refresh_token"@),
            ],
    {
        let mut form: Vec<FormField> = Vec::new();
        form.push(form_field("client_id", self.client_id.as_str()));
        form.push(form_field("client_secret", self.client_secret.as_str()));
        form.push(form_field("refresh_token", refresh_token));
        form.push(form_field("grant_type", "refresh_token"));
        proof {
            assert(form_text(form@) =~= seq![
                field("client_id"@, self.client_id@),
                field("client_secret"@, self.client_secret@),
                field("refresh_token"@, refresh_token@),
                field("grant_type"@, "refresh_token"@),
            ]);
        }
        form
    }
}

/// The scopes that are asked for, as the one parameter that they are sent
/// in.
pub fn scope_param() -> (text: String)
    ensures
        text@ == scope_text(),
{
    let list = scopes();
    let text = join(&list, " ");
    proof {
        let all = list@;
        let three = all.drop_last();
        let two = three.drop_last();
        let one = two.drop_last();
        assert(one.len() == 1 && one[0] == all[0]);
        assert(two.last() == all[1]);
        assert(three.last() == all[2]);
        assert(all.last() == all[3]);
        assert(joined(one, " "@) == all[0]@);
        assert(joined(two, " "@) == joined(one, " "@) + " "@ + all[1]@);
        assert(joined(three, " "@) == joined(two, " "@) + " "@ + all[2]@);
        assert(joined(all, " "@) == joined(three, " "@) + " "@ + all[3]@);
    }
    text
}

/// The text that the base64 library writes for `bytes` with the URL-safe
/// alphabet and without padding.
pub uninterp spec fn base64_url_nopad(bytes: Seq<u8>) -> Seq<char>;

/// The URL that the URL library writes after it has read `base` and added
/// `pairs`, in their order, to its query; `None` where it cannot read `base`.
pub uninterp spec fn url_with_query(base: Seq<char>, pairs: Seq<(Seq<char>, Seq<char>)>) -> Option<Seq<char>>;

/// Sixteen bytes from the system's random source, by `getrandom::fill`.
/// Nothing is claimed of the bytes; where the source fails they are zero.
#[verifier::external_body]
fn random_bytes() -> (bytes: [u8; 16]) {
    let mut bytes = [0u8; 16];
    getrandom::fill(&mut bytes).ok();
    bytes
}

/// A character of the URL-safe base64 alphabet: a letter, a digit, `-` or
/// `_`.
pub open spec fn url_safe_char(c: char) -> bool {
    ('A' <= c && c <= 'Z') || ('a' <= c && c <= 'z') || ('0' <= c && c <= '9') || c == '-' || c == '_'
}

/// Every character of `text` is of the URL-safe base64 alphabet.
pub open spec fn url_safe(text: Seq<char>) -> bool {
    forall|i: int| 0 <= i < text.len() ==> url_safe_char(#[trigger] text[i])
}

/// `Engine::encode` of the base64 library's `URL_SAFE_NO_PAD` engine. The
/// result is the encoding that the library defines. Sixteen bytes give
/// twenty-two characters, five groups of four and two for the byte left;
/// each is of the engine's alphabet, and no padding is written.
#[verifier::external_body]
fn encode_url_safe(bytes: &[u8; 16]) -> (text: String)
    ensures
        text@ == base64_url_nopad(bytes@),
        text@.len() == 22,
        url_safe(text@),
{
    URL_SAFE_NO_PAD.encode(bytes)
}

/// `Url::parse`, then `extend_pairs` on `query_pairs_mut`, which appends the
/// pairs one by one, then the URL as text. The result is what the URL
/// library makes of it, and `None` where it does not accept `base`. The
/// pairs may be of any length. The base is bounded and without `#`: the
/// library keeps the place of the query, and of a fragment behind it, in
/// 32 bits, and a base without `#` has no fragment.
#[verifier::external_body]
fn append_query(base: &str, pairs: &Vec<FormField>) -> (r: Option<String>)
    requires
        base@.len() <= URL_BASE_LIMIT,
        !base@.contains('#'),
    ensures
        text_of(r) == url_with_query(base@, form_text(pairs@)),
{
    match Url::parse(base) {
        Ok(mut url) => {
            url.query_pairs_mut().extend_pairs(pairs.iter().map(|f| (f.name.as_str(), f.value.as_str())));
            Some(url.to_string())
        },
        Err(_) => None,
    }
}

/// The pairs of the authorization URL's query, in their order.
pub open spec fn auth_pairs(
    client_id: Seq<char>,
    redirect_uri: Seq<char>,
    state: Seq<char>,
) -> Seq<(Seq<char>, Seq<char>)> {
    seq![
        field("client_id"@, client_id),
        field("redirect_uri"@, redirect_uri),
        field("response_type"@, "code"@),
        field("scope"@, scope_text()),
        field("access_type"@, "offline"@),
        field("prompt"@, "consent"@),
        field("state"@, state),
    ]
}

/// The authorization URL for a client, with the state parameter `state`:
/// the consent endpoint with the seven pairs added to its query.
pub open spec fn auth_url(client_id: Seq<char>, redirect_uri: Seq<char>, state: Seq<char>) -> Option<Seq<char>> {
    url_with_query(AUTH_ENDPOINT@, auth_pairs(client_id, redirect_uri, state))
}

/// The consent endpoint is a short text without `#`.
pub proof fn endpoint_is_plain()
    ensures
        AUTH_ENDPOINT@.len() == 44,
        !AUTH_ENDPOINT@.contains('#'),
{
    reveal_strlit("https://accounts.google.com/o/oauth2/v2/auth");
    let s = AUTH_ENDPOINT@;
    assert(s.len() == 44);
    assert forall|i: int| 0 <= i < 44 implies s[i] != '#' by {
    }
}

/// The state parameter that `bytes` are written as.
pub fn state_from(bytes: &[u8; 16]) -> (state: String)
    ensures
        state@ == base64_url_nopad(bytes@),
        state@.len() == 22,
        url_safe(state@),
{
    encode_url_safe(bytes)
}

impl GoogleOAuth {
    /// A fresh state parameter, which guards the flow against forged
    /// redirects: sixteen random bytes in URL-safe base64.
    pub fn generate_state() -> (state: String)
        ensures
            exists|bytes: Seq<u8>| bytes.len() == 16 && state@ == #[trigger] base64_url_nopad(bytes),
            state@.len() == 22,
            url_safe(state@),
    {
        let bytes = random_bytes();
        let state = state_from(&bytes);
        proof {
            assert(bytes@.len() == 16);
            assert(state@ == base64_url_nopad(bytes@));
        }
        state
    }

    /// The pairs of the authorization URL's query for the state parameter
    /// `state`, in their order and before they are encoded.
    pub fn auth_query(&self, state: &str) -> (pairs: Vec<FormField>)
        ensures
            form_text(pairs@) == auth_pairs(self.client_id@, self.redirect_uri@, state@),
    {
        let scope = scope_param();
        let mut pairs: Vec<FormField> = Vec::new();
        pairs.push(form_field("client_id", self.client_id.as_str()));
        pairs.push(form_field("redirect_uri", self.redirect_uri.as_str()));
        pairs.push(form_field("response_type", "code"));
        pairs.push(form_field("scope", scope.as_str()));
        pairs.push(form_field("access_type", "offline"));
        pairs.push(form_field("prompt", "consent"));
        pairs.push(form_field("state", state));
        proof {
            assert(form_text(pairs@) =~= auth_pairs(self.client_id@, self.redirect_uri@, state@));
        }
        pairs
    }

    /// The URL that the user is sent to for consent, for a client and a
    /// state parameter of any length. It is `None` only where the URL
    /// library does not accept the consent endpoint.
    pub fn generate_auth_url(&self, state: &str) -> (url: Option<String>)
        ensures
            text_of(url) == auth_url(self.client_id@, self.redirect_uri@, state@),
    {
        let pairs = self.auth_query(state);
        proof {
            endpoint_is_plain();
        }
        append_query(AUTH_ENDPOINT, &pairs)
    }
}

} // verus!
