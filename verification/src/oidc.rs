use vstd::prelude::*;

use vstd::utf8::encode_utf8;

use crate::encoding::{
    base64_of, base64_url_no_pad_encode, form_query, form_urlencode_pairs, percent_encoded, sha256,
    sha256_digest, url_encode,
};
use crate::error::AppError;
use crate::text::{
    chars_eq, chars_of, has_prefix, has_prefix_chars, pairs_view, push_chars, slice, string_of,
    to_lowercase, trim, trim_chars, trim_end_set, trim_end_set_chars, trim_set, trim_set_chars,
    unicode_lowercase, CharSet,
};

verus! {

/// The settings of the SoulAuth OpenID Connect client.
#[derive(Debug, Clone)]
pub struct SoulAuthOidcConfig {
    pub issuer: String,
    pub client_id: String,
    pub client_secret: String,
    pub redirect_uri: String,
    pub post_logout_redirect_uri: Option<String>,
}

/// The user info returned by the identity provider.
#[derive(Debug, Clone)]
pub struct UserInfo {
    pub sub: Option<String>,
    pub email: Option<String>,
    pub email_verified: Option<bool>,
    pub name: Option<String>,
    pub username: Option<String>,
    pub picture: Option<String>,
    pub avatar_url: Option<String>,
}

/// A checked identity: its subject and its normalized email.
#[derive(Debug, Clone)]
pub struct VerifiedIdentity {
    pub subject: String,
    pub email: String,
}

pub open spec fn endpoint(issuer: Seq<char>, path: Seq<char>) -> Seq<char> {
    trim_end_set(issuer, CharSet::Slash) + path
}

/// The URL of an endpoint of the issuer: the issuer without trailing slashes,
/// then the path.
pub fn oidc_endpoint(issuer: &str, path: &str) -> (r: String)
    ensures
        r@ == endpoint(issuer@, path@),
{
    let mut s = string_of(&trim_end_set_chars(&chars_of(issuer), CharSet::Slash));
    s.append(path);
    s
}

pub open spec fn authorize_pairs(
    config: SoulAuthOidcConfig,
    state: Seq<char>,
    nonce: Seq<char>,
    challenge: Seq<char>,
) -> Seq<(Seq<char>, Seq<char>)> {
    seq![
        ("response_type"@, "code"@),
        ("client_id"@, config.client_id@),
        ("redirect_uri"@, config.redirect_uri@),
        ("scope"@, "openid profile email"@),
        ("state"@, state),
        ("nonce"@, nonce),
        ("code_challenge"@, challenge),
        ("code_challenge_method"@, "S256"@),
    ]
}

/// The authorization URL goes to the browser, so the client secret never
/// stands in it as a parameter: no pair of its query is named `client_secret`
/// (the secret is sent only in the back-channel token exchange, whose form
/// names it).
pub proof fn law_authorize_url_holds_no_client_secret(
    config: SoulAuthOidcConfig,
    state: Seq<char>,
    nonce: Seq<char>,
    challenge: Seq<char>,
)
    ensures
        forall|i: int|
            0 <= i < authorize_pairs(config, state, nonce, challenge).len() ==> #[trigger] authorize_pairs(
                config,
                state,
                nonce,
                challenge,
            )[i].0 != "client_secret"@,
{
    reveal_strlit("client_secret");
    reveal_strlit("response_type");
    reveal_strlit("client_id");
    reveal_strlit("redirect_uri");
    reveal_strlit("scope");
    reveal_strlit("state");
    reveal_strlit("nonce");
    reveal_strlit("code_challenge");
    reveal_strlit("code_challenge_method");
    let p = authorize_pairs(config, state, nonce, challenge);
    assert forall|i: int| 0 <= i < p.len() implies #[trigger] p[i].0 != "client_secret"@ by {
        if i == 0 {
            assert(p[0].0 == "response_type"@);
            assert("response_type"@[0] != "client_secret"@[0]);
        } else if i == 1 {
            assert(p[1].0 == "client_id"@);
        } else if i == 2 {
            assert(p[2].0 == "redirect_uri"@);
        } else if i == 3 {
            assert(p[3].0 == "scope"@);
        } else if i == 4 {
            assert(p[4].0 == "state"@);
        } else if i == 5 {
            assert(p[5].0 == "nonce"@);
        } else if i == 6 {
            assert(p[6].0 == "code_challenge"@);
            assert("code_challenge"@[1] != "client_secret"@[1]);
        } else {
            assert(p[7].0 == "code_challenge_method"@);
        }
    }
}

fn push_pair(v: &mut Vec<(String, String)>, k: &str, val: &str)
    ensures
        pairs_view(final(v)@) == pairs_view(old(v)@).push((k@, val@)),
{
    let ghost before = pairs_view(v@);
    v.push((k.to_string(), val.to_string()));
    assert(pairs_view(v@) =~= before.push((k@, val@)));
}

/// The authorization URL: the issuer's authorize endpoint with the code flow
/// parameters (client, redirect, scope `openid profile email`, state, nonce
/// and the S256 PKCE challenge), form-encoded.
pub fn build_authorize_url(config: &SoulAuthOidcConfig, state: &str, nonce: &str, code_challenge: &str) -> (r: String)
    ensures
        r@ == endpoint(config.issuer@, "/api/oidc/authorize"@) + "?"@ + form_query(
            authorize_pairs(*config, state@, nonce@, code_challenge@),
        ),
{
    let mut pairs: Vec<(String, String)> = Vec::new();
    push_pair(&mut pairs, "response_type", "code");
    push_pair(&mut pairs, "client_id", config.client_id.as_str());
    push_pair(&mut pairs, "redirect_uri", config.redirect_uri.as_str());
    push_pair(&mut pairs, "scope", "openid profile email");
    push_pair(&mut pairs, "state", state);
    push_pair(&mut pairs, "nonce", nonce);
    push_pair(&mut pairs, "code_challenge", code_challenge);
    push_pair(&mut pairs, "code_challenge_method", "S256");
    assert(pairs_view(pairs@) =~= authorize_pairs(*config, state@, nonce@, code_challenge@));
    let params = form_urlencode_pairs(&pairs);
    let mut url = oidc_endpoint(config.issuer.as_str(), "/api/oidc/authorize");
    url.append("?");
    url.append(params.as_str());
    url
}

/// The form of the authorization code exchange at the token endpoint.
pub fn token_request_form(code: &str, config: &SoulAuthOidcConfig, code_verifier: &str) -> (r: Vec<(String, String)>)
    ensures
        pairs_view(r@) == seq![
            ("grant_type"@, "authorization_code"@),
            ("code"@, code@),
            ("redirect_uri"@, config.redirect_uri@),
            ("client_id"@, config.client_id@),
            ("client_secret"@, config.client_secret@),
            ("code_verifier"@, code_verifier@),
        ],
{
    let mut pairs: Vec<(String, String)> = Vec::new();
    push_pair(&mut pairs, "grant_type", "authorization_code");
    push_pair(&mut pairs, "code", code);
    push_pair(&mut pairs, "redirect_uri", config.redirect_uri.as_str());
    push_pair(&mut pairs, "client_id", config.client_id.as_str());
    push_pair(&mut pairs, "client_secret", config.client_secret.as_str());
    push_pair(&mut pairs, "code_verifier", code_verifier);
    pairs
}

/// The PKCE S256 challenge of a verifier: the URL-safe, unpadded base64 of
/// the SHA-256 digest of its UTF-8 bytes.
pub fn pkce_challenge(verifier: &str) -> (r: String)
    ensures
        r@ == base64_of(sha256(encode_utf8(verifier@)), true, false),
{
    let digest = sha256_digest(verifier.as_bytes());
    base64_url_no_pad_encode(digest.as_slice())
}

/// A lowercase hexadecimal digit.
pub open spec fn is_lower_hex(c: char) -> bool {
    ('0' <= c && c <= '9') || ('a' <= c && c <= 'f')
}

/// The hyphenated text of a version 4 UUID: 36 characters, `-` at 8, 13, 18
/// and 23 and lowercase hexadecimal digits elsewhere, the version digit `4` at
/// 14 and a variant digit of `8`, `9`, `a` or `b` at 19.
pub open spec fn uuid_v4_text(s: Seq<char>) -> bool {
    &&& s.len() == 36
    &&& forall|i: int|
        0 <= i < 36 ==> if i == 8 || i == 13 || i == 18 || i == 23 {
            s[i] == '-'
        } else {
            is_lower_hex(#[trigger] s[i])
        }
    &&& s[14] == '4'
    &&& (s[19] == '8' || s[19] == '9' || s[19] == 'a' || s[19] == 'b')
}

/// `uuid::Uuid::new_v4().to_string()`: a random version 4 UUID (version and
/// variant bits set) in its lowercase hyphenated form; which UUID is left open.
#[verifier::external_body]
fn new_uuid_v4() -> (r: String)
    ensures
        uuid_v4_text(r@),
{
    uuid::Uuid::new_v4().to_string()
}

/// A fresh PKCE code verifier: two random version 4 UUIDs joined by `-`.
pub fn generate_code_verifier() -> (r: String)
    ensures
        r@.len() == 73,
        uuid_v4_text(r@.take(36)),
        r@[36] == '-',
        uuid_v4_text(r@.skip(37)),
{
    let a = new_uuid_v4();
    let b = new_uuid_v4();
    let mut s = String::new();
    s.append(a.as_str());
    s.append("-");
    s.append(b.as_str());
    proof {
        reveal_strlit("-");
        assert(s@.take(36) =~= a@);
        assert(s@.skip(37) =~= b@);
    }
    s
}

/// A fresh random id for a new local user: a version 4 UUID.
pub fn new_local_user_id() -> (r: String)
    ensures
        uuid_v4_text(r@),
{
    new_uuid_v4()
}

// ---------------------------------------------------------------------------
// Local users
// ---------------------------------------------------------------------------

/// `str::replace`: every non-overlapping occurrence of `pat`, from the left,
/// replaced by `rep`.
pub open spec fn replace_all(s: Seq<char>, pat: Seq<char>, rep: Seq<char>) -> Seq<char>
    decreases s.len(),
{
    if s.len() == 0 {
        Seq::empty()
    } else if pat.len() > 0 && has_prefix(s, pat) {
        rep + replace_all(s.skip(pat.len() as int), pat, rep)
    } else {
        seq![s[0]] + replace_all(s.drop_first(), pat, rep)
    }
}

fn replace_all_chars(s: &Vec<char>, pat: &Vec<char>, rep: &Vec<char>) -> (r: Vec<char>)
    ensures
        r@ == replace_all(s@, pat@, rep@),
{
    let mut out: Vec<char> = Vec::new();
    let mut cur = slice(s, 0, s.len());
    assert(cur@ =~= s@);
    while cur.len() > 0
        invariant
            out@ + replace_all(cur@, pat@, rep@) == replace_all(s@, pat@, rep@),
        decreases cur@.len(),
    {
        let n = cur.len();
        if pat.len() > 0 && has_prefix_chars(&cur, pat) {
            crate::text::extend_chars(&mut out, rep);
            let next = slice(&cur, pat.len(), n);
            assert(next@ =~= cur@.skip(pat@.len() as int));
            assert(out@ + replace_all(next@, pat@, rep@) =~= replace_all(s@, pat@, rep@));
            cur = next;
        } else {
            let ghost o = out@;
            out.push(cur[0]);
            let next = slice(&cur, 1, n);
            assert(next@ =~= cur@.drop_first());
            assert(out@ + replace_all(next@, pat@, rep@) =~= o + (seq![cur@[0]] + replace_all(
                next@,
                pat@,
                rep@,
            )));
            cur = next;
        }
    }
    assert(out@ + replace_all(cur@, pat@, rep@) =~= out@);
    out
}

/// The bare id of a local user row: its `id` (empty when absent) with every
/// `local_user:` removed and the quotes, brackets and spaces around it taken off.
pub open spec fn local_user_id_spec(id: Option<Seq<char>>) -> Seq<char> {
    let raw = match id {
        Some(i) => i,
        None => Seq::empty(),
    };
    trim_set(replace_all(raw, "local_user:"@, Seq::empty()), CharSet::IdQuotes)
}

/// The bare id of a local user row, given the row's `id` text.
pub fn local_user_id_from_row(id: Option<&str>) -> (r: String)
    ensures
        r@ == local_user_id_spec(match id {
            Some(i) => Some(i@),
            None => None,
        }),
{
    let raw = match id {
        Some(i) => chars_of(i),
        None => Vec::new(),
    };
    let replaced = replace_all_chars(&raw, &chars_of("local_user:"), &Vec::new());
    string_of(&trim_set_chars(&replaced, CharSet::IdQuotes))
}

/// Whether a row's `external_subject` holds a non-blank subject.
pub fn has_external_subject(external_subject: Option<&str>) -> (r: bool)
    ensures
        r == (external_subject is Some && trim(external_subject->0@).len() > 0),
{
    match external_subject {
        Some(s) => trim_chars(&chars_of(s)).len() > 0,
        None => false,
    }
}

pub open spec fn opt_or_empty(o: Option<String>) -> Seq<char> {
    match o {
        Some(s) => s@,
        None => Seq::empty(),
    }
}

/// Checks the identity given by the provider: it must have a non-blank
/// subject, a verified email, and an email that is not blank; the email is
/// kept trimmed and lowercased.
pub fn verify_soulauth_identity(info: &UserInfo) -> (r: Result<VerifiedIdentity, AppError>)
    ensures
        ({
            let sub = opt_or_empty(info.sub);
            let email = unicode_lowercase(trim(opt_or_empty(info.email)));
            if trim(sub).len() == 0 {
                r matches Err(AppError::BadRequest(m)) && m@ == "SoulAuth account has no subject"@
            } else if info.email_verified != Some(true) {
                r matches Err(AppError::BadRequest(m)) && m@
                    == "SoulAuth account email is not verified"@
            } else if trim(opt_or_empty(info.email)).len() == 0 {
                r matches Err(AppError::BadRequest(m)) && m@ == "SoulAuth account has no email"@
            } else {
                r matches Ok(id) && id.subject@ == sub && id.email@ == email && email.len() > 0
            }
        }),
{
    let sub = match &info.sub {
        Some(s) => s.clone(),
        None => String::new(),
    };
    if trim_chars(&chars_of(sub.as_str())).len() == 0 {
        return Err(AppError::BadRequest("SoulAuth account has no subject".to_string()));
    }
    let verified = match info.email_verified {
        Some(b) => b,
        None => false,
    };
    if !verified {
        return Err(AppError::BadRequest("SoulAuth account email is not verified".to_string()));
    }
    let raw_email = match &info.email {
        Some(e) => chars_of(e.as_str()),
        None => Vec::new(),
    };
    let trimmed = string_of(&trim_chars(&raw_email));
    let email = to_lowercase(trimmed.as_str());
    if chars_of(email.as_str()).len() == 0 {
        return Err(AppError::BadRequest("SoulAuth account has no email".to_string()));
    }
    Ok(VerifiedIdentity { subject: sub, email })
}

/// The part of an email before its first `@` (all of it without one).
pub open spec fn email_local_part(email: Seq<char>) -> Seq<char>
    decreases email.len(),
{
    if email.len() == 0 {
        Seq::empty()
    } else if email[0] == '@' {
        Seq::empty()
    } else {
        seq![email[0]] + email_local_part(email.drop_first())
    }
}

fn email_local_part_chars(email: &Vec<char>) -> (r: Vec<char>)
    ensures
        r@ == email_local_part(email@),
{
    let mut i: usize = 0;
    assert(email@.skip(0) =~= email@);
    assert(email@.take(0) + email_local_part(email@) =~= email_local_part(email@));
    while i < email.len() && email[i] != '@'
        invariant
            i <= email.len(),
            forall|j: int| 0 <= j < i ==> email@[j] != '@',
            email_local_part(email@) == email@.take(i as int) + email_local_part(email@.skip(i as int)),
        decreases email.len() - i,
    {
        assert(email@.skip(i as int).drop_first() =~= email@.skip(i + 1));
        assert(email@.take(i + 1) =~= email@.take(i as int).push(email@[i as int]));
        assert(email@.skip(i as int)[0] == email@[i as int]);
        i = i + 1;
    }
    if i < email.len() {
        assert(email@.skip(i as int)[0] == '@');
    } else {
        assert(email@.skip(i as int).len() == 0);
    }
    let r = slice(email, 0, i);
    assert(r@ =~= email@.take(i as int) + email_local_part(email@.skip(i as int)));
    r
}

/// The username and avatar of a new local user: the name, else the username,
/// else the email's local part; the picture, else the avatar URL, else empty.
pub fn new_user_profile(info: &UserInfo, email: &str) -> (r: (String, String))
    ensures
        r.0@ == match info.name {
            Some(n) => n@,
            None => match info.username {
                Some(u) => u@,
                None => email_local_part(email@),
            },
        },
        r.1@ == match info.picture {
            Some(p) => p@,
            None => opt_or_empty(info.avatar_url),
        },
{
    let username = match &info.name {
        Some(n) => n.clone(),
        None => match &info.username {
            Some(u) => u.clone(),
            None => string_of(&email_local_part_chars(&chars_of(email))),
        },
    };
    let avatar = match &info.picture {
        Some(p) => p.clone(),
        None => match &info.avatar_url {
            Some(a) => a.clone(),
            None => String::new(),
        },
    };
    (username, avatar)
}

/// The local user found by email may be linked to the identity only when it
/// is not linked to another one: its bare id, or a conflict.
pub fn link_email_user(row_id: Option<&str>, external_subject: Option<&str>) -> (r: Result<String, AppError>)
    ensures
        match r {
            Ok(id) => !(external_subject is Some && trim(external_subject->0@).len() > 0) && id@
                == local_user_id_spec(match row_id {
                Some(i) => Some(i@),
                None => None,
            }),
            Err(AppError::Conflict(m)) => external_subject is Some && trim(external_subject->0@).len()
                > 0 && m@
                == "A local user with this verified email is already linked to another external identity"@,
            Err(_) => false,
        },
{
    if has_external_subject(external_subject) {
        return Err(
            AppError::Conflict(
                "A local user with this verified email is already linked to another external identity".to_string(),
            ),
        );
    }
    Ok(local_user_id_from_row(row_id))
}

/// The user found by the identity's subject: the bare id of the row found,
/// or none when no row has that subject.
pub open spec fn subject_lookup_user(row_id: Option<Option<Seq<char>>>) -> Option<Seq<char>> {
    match row_id {
        Some(id) => Some(local_user_id_spec(id)),
        None => None,
    }
}

/// After looking a user up by the identity's subject: the bare id of the
/// found row's `id`, or none when no row was found.
pub fn after_subject_lookup(row_id: Option<Option<&str>>) -> (r: Option<String>)
    ensures
        match subject_lookup_user(
            match row_id {
                Some(id) => Some(
                    match id {
                        Some(i) => Some(i@),
                        None => None,
                    },
                ),
                None => None,
            },
        ) {
            Some(k) => r is Some && r->0@ == k,
            None => r is None,
        },
{
    match row_id {
        Some(id) => Some(local_user_id_from_row(id)),
        None => None,
    }
}

/// What to do with the local user once the subject lookup found none.
#[derive(Debug, Clone, PartialEq, Eq)]
pub enum LocalUserAction {
    /// Link this existing user (found by email) to the identity.
    Link(String),
    /// Create a new user.
    Create,
}

/// The local user an identity maps to, as the ids of the rows found.
pub enum LocalUserChoice {
    /// The user that already holds the identity's subject.
    BySubject(Seq<char>),
    /// The user with the same verified email, linked to the identity.
    LinkByEmail(Seq<char>),
    /// A new user.
    CreateNew,
    /// None: the user with that email is linked to another identity.
    Refuse,
}

pub open spec fn opt_str_view(o: Option<&str>) -> Option<Seq<char>> {
    match o {
        Some(s) => Some(s@),
        None => None,
    }
}

/// Whether the row found by email is linked to an identity (a non-blank subject).
pub open spec fn row_linked(row: Option<(Option<Seq<char>>, Option<Seq<char>>)>) -> bool {
    match row {
        Some((_, subject)) => subject is Some && trim(subject->0).len() > 0,
        None => false,
    }
}

/// The `id` of the row found by email.
pub open spec fn row_id(row: Option<(Option<Seq<char>>, Option<Seq<char>>)>) -> Option<Seq<char>> {
    match row {
        Some((id, _)) => id,
        None => None,
    }
}

/// The decision once the verified email was looked up: no row means a new
/// user; a row linked to another identity is refused; any other row is linked.
pub open spec fn email_lookup_decision(row: Option<(Option<Seq<char>>, Option<Seq<char>>)>) -> LocalUserChoice {
    if row is None {
        LocalUserChoice::CreateNew
    } else if row_linked(row) {
        LocalUserChoice::Refuse
    } else {
        LocalUserChoice::LinkByEmail(local_user_id_spec(row_id(row)))
    }
}

/// After looking a user up by the verified email (the row's `id` and
/// `external_subject`): no row means a new user is created; a row linked to
/// another identity is a conflict; any other row is linked by its bare id.
pub fn after_email_lookup(row: Option<(Option<&str>, Option<&str>)>) -> (r: Result<LocalUserAction, AppError>)
    ensures
        match email_lookup_decision(
            match row {
                Some((id, sub)) => Some((opt_str_view(id), opt_str_view(sub))),
                None => None,
            },
        ) {
            LocalUserChoice::CreateNew => r == Ok::<LocalUserAction, AppError>(LocalUserAction::Create),
            LocalUserChoice::LinkByEmail(k) => r matches Ok(LocalUserAction::Link(x)) && x@ == k,
            LocalUserChoice::Refuse => r matches Err(AppError::Conflict(m)) && m@
                == "A local user with this verified email is already linked to another external identity"@,
            LocalUserChoice::BySubject(_) => false,
        },
{
    match row {
        None => Ok(LocalUserAction::Create),
        Some((id, subject)) => match link_email_user(id, subject) {
            Ok(k) => Ok(LocalUserAction::Link(k)),
            Err(e) => Err(e),
        },
    }
}

/// The local user an identity maps to: the user with the identity's subject,
/// else the decision by email.
pub open spec fn local_user_decision(
    subject_row: Option<Option<Seq<char>>>,
    email_row: Option<(Option<Seq<char>>, Option<Seq<char>>)>,
) -> LocalUserChoice {
    match subject_lookup_user(subject_row) {
        Some(k) => LocalUserChoice::BySubject(k),
        None => email_lookup_decision(email_row),
    }
}

/// Identities are mapped by their stable subject first: a user found by the
/// subject is used whatever the email lookup holds; otherwise a user with the
/// same verified email is linked only when it is linked to no identity yet,
/// is refused when it is linked to another, and a new user is created when
/// there is none.
pub proof fn law_subject_first_linking(
    subject_row: Option<Option<Seq<char>>>,
    email_row: Option<(Option<Seq<char>>, Option<Seq<char>>)>,
)
    ensures
        subject_row is Some ==> local_user_decision(subject_row, email_row)
            == LocalUserChoice::BySubject(local_user_id_spec(subject_row->0)),
        subject_row is None && email_row is None ==> local_user_decision(subject_row, email_row)
            == LocalUserChoice::CreateNew,
        (subject_row is None && email_row is Some && !row_linked(email_row)) ==> local_user_decision(
            subject_row,
            email_row,
        ) == LocalUserChoice::LinkByEmail(local_user_id_spec(row_id(email_row))),
        (subject_row is None && row_linked(email_row)) ==> local_user_decision(subject_row, email_row)
            == LocalUserChoice::Refuse,
        local_user_decision(subject_row, email_row) is LinkByEmail ==> !row_linked(email_row),
{
}

// ---------------------------------------------------------------------------
// Callback
// ---------------------------------------------------------------------------

/// The login page URL that reports a provider error.
pub fn login_error_url(error: &str) -> (r: String)
    ensures
        r@ == "/docs/login?error="@ + percent_encoded(encode_utf8(error@)),
{
    let mut s = String::new();
    s.append("/docs/login?error=");
    s.append(url_encode(error).as_str());
    s
}

/// The code and state of a callback; each is required.
pub fn callback_code_and_state(code: Option<String>, state: Option<String>) -> (r: Result<(String, String), AppError>)
    ensures
        code is None ==> (r matches Err(AppError::BadRequest(m)) && m@ == "missing code"@),
        code is Some && state is None ==> (r matches Err(AppError::BadRequest(m)) && m@
            == "missing state"@),
        code is Some && state is Some ==> (r matches Ok(p) && p.0 == code->0 && p.1 == state->0),
{
    match code {
        None => Err(AppError::BadRequest("missing code".to_string())),
        Some(c) => match state {
            None => Err(AppError::BadRequest("missing state".to_string())),
            Some(s) => Ok((c, s)),
        },
    }
}

/// The access token of a token response; a blank or missing one is an error.
pub fn access_token_from(token: Option<String>) -> (r: Result<String, AppError>)
    ensures
        match r {
            Ok(t) => token == Some(t) && trim(t@).len() > 0,
            Err(AppError::Internal(m)) => (token is None || trim(token->0@).len() == 0) && m@
                == "SoulAuth did not return access_token"@,
            Err(_) => false,
        },
{
    match token {
        Some(t) => {
            if trim_chars(&chars_of(t.as_str())).len() > 0 {
                Ok(t)
            } else {
                Err(AppError::Internal("SoulAuth did not return access_token".to_string()))
            }
        },
        None => Err(AppError::Internal("SoulAuth did not return access_token".to_string())),
    }
}

/// Where the browser goes after login: `next` when it is not blank, else the
/// application URL.
pub open spec fn next_target(next: Option<String>, app_url: Seq<char>) -> Seq<char> {
    match next {
        Some(n) => if trim(n@).len() > 0 {
            n@
        } else {
            app_url
        },
        None => app_url,
    }
}

/// The single sign-on URL that hands the token and the next location to the
/// front end, both percent-encoded.
pub fn sso_redirect_url(token: &str, next: Option<String>, app_url: &str) -> (r: String)
    ensures
        r@ == "/sso?token="@ + percent_encoded(encode_utf8(token@)) + "&next="@ + percent_encoded(
            encode_utf8(next_target(next, app_url@)),
        ),
{
    let target = match next {
        Some(n) => {
            if trim_chars(&chars_of(n.as_str())).len() > 0 {
                n
            } else {
                app_url.to_string()
            }
        },
        None => app_url.to_string(),
    };
    let mut s = String::new();
    s.append("/sso?token=");
    s.append(url_encode(token).as_str());
    s.append("&next=");
    s.append(url_encode(target.as_str()).as_str());
    s
}

/// A login state that could not be read back (its signature is wrong or it
/// has expired) ends the login with a bad request.
pub fn require_valid_state<T>(decoded: Option<T>) -> (r: Result<T, AppError>)
    ensures
        match decoded {
            Some(t) => r == Ok::<T, AppError>(t),
            None => r matches Err(AppError::BadRequest(m)) && m@ == "invalid or expired state"@,
        },
{
    match decoded {
        Some(t) => Ok(t),
        None => Err(AppError::BadRequest("invalid or expired state".to_string())),
    }
}

/// A provider call that did not succeed.
#[derive(Debug, Clone, Copy, PartialEq, Eq)]
pub enum ProviderCall {
    /// The exchange of the code for an access token.
    TokenExchange,
    /// The request for the user's profile.
    UserInfo,
}

/// The error a provider answer that is not a success is reported with,
/// carrying the answer's body.
pub fn provider_failure(call: ProviderCall, body: &str) -> (r: AppError)
    ensures
        r matches AppError::BadRequest(m) && m@ == match call {
            ProviderCall::TokenExchange => "SoulAuth token exchange failed: "@,
            ProviderCall::UserInfo => "SoulAuth userinfo failed: "@,
        } + body@,
{
    let mut m = String::new();
    match call {
        ProviderCall::TokenExchange => m.append("SoulAuth token exchange failed: "),
        ProviderCall::UserInfo => m.append("SoulAuth userinfo failed: "),
    }
    m.append(body);
    AppError::BadRequest(m)
}

/// Login through SoulAuth needs its configuration.
pub fn require_oidc_config(config: Option<SoulAuthOidcConfig>) -> (r: Result<SoulAuthOidcConfig, AppError>)
    ensures
        match config {
            Some(c) => r == Ok::<SoulAuthOidcConfig, AppError>(c),
            None => r matches Err(AppError::BadRequest(m)) && m@
                == "SoulAuth OIDC login is not configured"@,
        },
{
    match config {
        Some(c) => Ok(c),
        None => Err(AppError::BadRequest("SoulAuth OIDC login is not configured".to_string())),
    }
}

/// When a login state expires: ten minutes after `now` (in seconds since the epoch).
pub fn oidc_state_expiry(now: i64) -> (r: i64)
    requires
        now + 600 <= i64::MAX,
    ensures
        r == now + 600,
{
    now + 600
}

/// The issue time and the expiry of a session token issued at `now` that
/// lives for `lifetime` seconds.
pub fn session_token_times(now: i64, lifetime: i64) -> (r: (i64, i64))
    requires
        i64::MIN <= now + lifetime <= i64::MAX,
    ensures
        r.0 == now,
        r.1 == now + lifetime,
{
    (now, now + lifetime)
}

} // verus!
