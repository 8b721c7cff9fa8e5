//! Authorization rules and OAuth request building.
use vstd::prelude::*;
use crate::model::Role;
use vstd::string::StringSliceAdditionalSpecFns;
use crate::text::{utf8, push_char, push_str, push_string, str_chars, hex_digit_upper, hex_digit_upper_char};

verus! {

/// Rank of a role: a higher rank may do everything a lower one may.
pub open spec fn role_rank(r: Role) -> int {
    match r {
        Role::Viewer => 0,
        Role::Analyst => 1,
        Role::Admin => 2,
        Role::Owner => 3,
    }
}

/// The least role rank an action needs, or `None` for an unknown action.
pub open spec fn required_rank(action: Seq<char>) -> Option<int> {
    if action == "project:read"@ || action == "analysis:read"@ || action == "report:read"@
        || action == "chat:read"@ {
        Some(0)
    } else if action == "project:write"@ || action == "analysis:write"@ || action
        == "annotation:write"@ || action == "chat:write"@ {
        Some(1)
    } else if action == "org:admin"@ || action == "api_key:manage"@ || action
        == "member:manage"@ {
        Some(2)
    } else if action == "org:delete"@ {
        Some(3)
    } else {
        None
    }
}

/// Whether `role` may perform `action`.
pub open spec fn spec_role_allows(role: Role, action: Seq<char>) -> bool {
    match required_rank(action) {
        Some(k) => role_rank(role) >= k,
        None => false,
    }
}

/// Whether `role` may perform `action`: reads are open to every member,
/// writes need an analyst, administration an admin, deleting the
/// organization its owner; unknown actions are refused.
pub fn role_allows(role: Role, action: &str) -> (r: bool)
    ensures
        r == spec_role_allows(role, action@),
{
    let a = str_chars(action);
    let s = a.as_slice();
    if crate::text::eq_str(s, "project:read") || crate::text::eq_str(s, "analysis:read")
        || crate::text::eq_str(s, "report:read") || crate::text::eq_str(s, "chat:read") {
        true
    } else if crate::text::eq_str(s, "project:write") || crate::text::eq_str(s, "analysis:write")
        || crate::text::eq_str(s, "annotation:write") || crate::text::eq_str(s, "chat:write") {
        match role {
            Role::Owner | Role::Admin | Role::Analyst => true,
            Role::Viewer => false,
        }
    } else if crate::text::eq_str(s, "org:admin") || crate::text::eq_str(s, "api_key:manage")
        || crate::text::eq_str(s, "member:manage") {
        match role {
            Role::Owner | Role::Admin => true,
            _ => false,
        }
    } else if crate::text::eq_str(s, "org:delete") {
        match role {
            Role::Owner => true,
            _ => false,
        }
    } else {
        false
    }
}

/// Permissions only grow with the role: whatever a role may do, every role of
/// at least its rank may do too.
pub proof fn law_role_monotone(lo: Role, hi: Role, action: Seq<char>)
    requires
        role_rank(lo) <= role_rank(hi),
        spec_role_allows(lo, action),
    ensures
        spec_role_allows(hi, action),
{
}

/// Every role may read, and no role may perform an action the rules do not name.
pub proof fn law_reads_open_unknown_closed(role: Role, action: Seq<char>)
    ensures
        spec_role_allows(role, "analysis:read"@),
        required_rank(action) is None ==> !spec_role_allows(role, action),
{
}

// ---------------------------------------------------------------------------
// OAuth
// ---------------------------------------------------------------------------

/// A byte left as it is by URL encoding: `A-Z a-z 0-9 - _ . ~`.
pub open spec fn is_unreserved(b: u8) -> bool {
    (65 <= b && b <= 90) || (97 <= b && b <= 122) || (48 <= b && b <= 57) || b == 45 || b == 95
        || b == 46 || b == 126
}

/// The encoding of one byte: itself when unreserved, else `%XX`.
pub open spec fn encode_byte(b: u8) -> Seq<char> {
    if is_unreserved(b) {
        seq![b as char]
    } else {
        seq!['%', hex_digit_upper(b as int / 16), hex_digit_upper(b as int % 16)]
    }
}

/// Percent-encoding of a byte sequence.
pub open spec fn url_encode(bs: Seq<u8>) -> Seq<char>
    decreases bs.len(),
{
    if bs.len() == 0 {
        seq![]
    } else {
        url_encode(bs.drop_last()) + encode_byte(bs.last())
    }
}

fn unreserved(b: u8) -> (r: bool)
    ensures
        r == is_unreserved(b),
{
    (65 <= b && b <= 90) || (97 <= b && b <= 122) || (48 <= b && b <= 57) || b == 45 || b == 95
        || b == 46 || b == 126
}

/// Percent-encodes the UTF-8 bytes of `s`, leaving `A-Z a-z 0-9 - _ . ~` as they are.
pub fn urlencoding(s: &str) -> (r: String)
    ensures
        r@ == url_encode(utf8(s@)),
{
    let bytes = s.as_bytes();
    let mut out = String::new();
    let mut i: usize = 0;
    while i < bytes.len()
        invariant
            i <= bytes@.len(),
            bytes@ == utf8(s@),
            out@ == url_encode(bytes@.subrange(0, i as int)),
        decreases bytes@.len() - i,
    {
        let b = bytes[i];
        if unreserved(b) {
            push_char(&mut out, b as char);
        } else {
            push_char(&mut out, '%');
            push_char(&mut out, hex_digit_upper_char(b / 16));
            push_char(&mut out, hex_digit_upper_char(b % 16));
        }
        proof {
            let pre = bytes@.subrange(0, i + 1);
            assert(pre.drop_last() =~= bytes@.subrange(0, i as int));
            assert(out@ =~= url_encode(pre));
        }
        i += 1;
    }
    proof {
        assert(bytes@.subrange(0, bytes@.len() as int) =~= bytes@);
    }
    out
}

/// Encoding never shortens a text, and leaves text made only of unreserved
/// bytes exactly as it is.
pub proof fn law_urlencode_identity_and_growth(bs: Seq<u8>)
    ensures
        url_encode(bs).len() >= bs.len(),
        (forall|i: int| 0 <= i < bs.len() ==> is_unreserved(#[trigger] bs[i])) ==> url_encode(bs)
            == bs.map_values(|b: u8| b as char),
    decreases bs.len(),
{
    if bs.len() > 0 {
        law_urlencode_identity_and_growth(bs.drop_last());
        if forall|i: int| 0 <= i < bs.len() ==> is_unreserved(#[trigger] bs[i]) {
            assert(forall|i: int|
                0 <= i < bs.drop_last().len() ==> is_unreserved(#[trigger] bs.drop_last()[i])
                    ==> true);
            assert forall|i: int| 0 <= i < bs.drop_last().len() implies is_unreserved(
                #[trigger] bs.drop_last()[i],
            ) by {
                assert(bs.drop_last()[i] == bs[i]);
            }
            assert(bs.map_values(|b: u8| b as char) =~= bs.drop_last().map_values(|b: u8| b as char)
                + seq![bs.last() as char]);
        }
    } else {
        assert(bs.map_values(|b: u8| b as char) =~= seq![]);
    }
}

/// The settings of one OAuth identity provider.
#[derive(Debug, Clone)]
pub struct OAuthProviderConfig {
    pub provider: String,
    pub client_id: String,
    pub client_secret: String,
    pub redirect_uri: String,
    pub auth_url: String,
    pub token_url: String,
    pub userinfo_url: String,
    pub scopes: Vec<String>,
}

/// The user an identity provider vouched for.
#[derive(Debug, Clone)]
pub struct OAuthUserInfo {
    pub subject: String,
    pub email: String,
    pub name: String,
    pub avatar_url: Option<String>,
    pub provider: String,
}

/// The scopes joined by single spaces.
pub open spec fn join_spaces(v: Seq<Seq<char>>) -> Seq<char>
    decreases v.len(),
{
    if v.len() == 0 {
        seq![]
    } else if v.len() == 1 {
        v[0]
    } else {
        join_spaces(v.drop_last()) + seq![' '] + v.last()
    }
}

/// The authorization URL a browser is sent to.
pub open spec fn spec_authorize_url(
    auth_url: Seq<char>,
    client_id: Seq<u8>,
    redirect_uri: Seq<u8>,
    scopes: Seq<u8>,
    state: Seq<u8>,
) -> Seq<char> {
    auth_url + "?client_id="@ + url_encode(client_id) + "&redirect_uri="@ + url_encode(redirect_uri)
        + "&response_type=code&scope="@ + url_encode(scopes) + "&state="@ + url_encode(state)
}

fn join_scopes(v: &Vec<String>) -> (r: String)
    ensures
        r@ == join_spaces(crate::text::strings_view(v@)),
{
    let mut out = String::new();
    let mut i: usize = 0;
    while i < v.len()
        invariant
            i <= v@.len(),
            out@ == join_spaces(crate::text::strings_view(v@.subrange(0, i as int))),
        decreases v@.len() - i,
    {
        if i > 0 {
            push_char(&mut out, ' ');
        }
        push_string(&mut out, &v[i]);
        proof {
            let pre = crate::text::strings_view(v@.subrange(0, i + 1));
            assert(pre.drop_last() =~= crate::text::strings_view(v@.subrange(0, i as int)));
            assert(pre.last() == v@[i as int]@);
            if i == 0 {
                assert(pre.len() == 1);
            }
        }
        i += 1;
    }
    proof {
        assert(v@.subrange(0, v@.len() as int) =~= v@);
    }
    out
}

impl OAuthProviderConfig {
    /// The URL that starts an authorization-code flow with `state`.
    pub fn authorize_url(&self, state: &str) -> (r: String)
        ensures
            r@ == spec_authorize_url(
                self.auth_url@,
                utf8(self.client_id@),
                utf8(self.redirect_uri@),
                utf8(join_spaces(crate::text::strings_view(self.scopes@))),
                utf8(state@),
            ),
    {
        let mut out = self.auth_url.clone();
        push_str(&mut out, "?client_id=");
        let a = urlencoding(self.client_id.as_str());
        push_string(&mut out, &a);
        push_str(&mut out, "&redirect_uri=");
        let b = urlencoding(self.redirect_uri.as_str());
        push_string(&mut out, &b);
        push_str(&mut out, "&response_type=code&scope=");
        let joined = join_scopes(&self.scopes);
        let c = urlencoding(joined.as_str());
        push_string(&mut out, &c);
        push_str(&mut out, "&state=");
        let d = urlencoding(state);
        push_string(&mut out, &d);
        out
    }
}

// ---------------------------------------------------------------------------
// Sessions
// ---------------------------------------------------------------------------

/// The claims a session token carries.
#[derive(Debug, Clone)]
pub struct Claims {
    pub sub: String,
    pub email: String,
    pub org_id: String,
    pub role: Role,
    /// Expiry and issue time, in seconds since the Unix epoch.
    pub exp: i64,
    pub iat: i64,
    pub iss: String,
}

/// The claims of a token issued at `now` for a user, valid `ttl_hours`.
pub fn claims_at(user_id: &str, email: &str, org_id: &str, role: Role, now: i64, ttl_hours: i64, issuer: &str) -> (c: Claims)
    requires
        i64::MIN <= ttl_hours * 3600 <= i64::MAX,
        i64::MIN <= now + ttl_hours * 3600 <= i64::MAX,
    ensures
        c.sub@ == user_id@,
        c.email@ == email@,
        c.org_id@ == org_id@,
        c.role == role,
        c.iat == now,
        c.exp == now + ttl_hours * 3600,
        c.iss@ == issuer@,
{
    Claims {
        sub: crate::text::owned(user_id),
        email: crate::text::owned(email),
        org_id: crate::text::owned(org_id),
        role,
        exp: now + ttl_hours * 3600,
        iat: now,
        iss: crate::text::owned(issuer),
    }
}

// ---------------------------------------------------------------------------
// Passwords
// ---------------------------------------------------------------------------

/// What Argon2 verification says of a password against a PHC hash string:
/// `None` where the string does not parse as a password hash.
pub uninterp spec fn argon2_verifies(password: Seq<u8>, hash: Seq<char>) -> Option<bool>;

/// Why a password could not be hashed or checked.
#[derive(Debug, Clone)]
pub struct AuthError {
    pub message: String,
}

/// Hashes the password with Argon2 (default parameters) and a fresh random
/// salt (`SaltString::generate` with `OsRng`, `PasswordHasher::hash_password`).
/// Trusted: a hash it returns verifies the same password, as the
/// `password-hash` documentation shows of `hash_password` and
/// `verify_password`; the hash itself depends on the salt and is not named.
#[verifier::external_body]
fn argon2_hash(password: &str) -> (r: Result<String, String>)
    ensures
        r matches Ok(h) ==> argon2_verifies(utf8(password@), h@) == Some(true),
{
    let salt = argon2::password_hash::SaltString::generate(&mut rand::rngs::OsRng);
    let a = argon2::Argon2::default();
    match <argon2::Argon2 as argon2::password_hash::PasswordHasher>::hash_password(&a, password.as_bytes(), &salt) {
        Ok(h) => Ok(h.to_string()),
        Err(e) => Err(e.to_string()),
    }
}

/// Parses the PHC string (`PasswordHash::new`) and checks the password with
/// Argon2 (`PasswordVerifier::verify_password`). Trusted: the result is the
/// named verdict; an error exactly where the string does not parse.
#[verifier::external_body]
fn argon2_verify(password: &str, hash: &str) -> (r: Result<bool, String>)
    ensures
        match argon2_verifies(utf8(password@), hash@) {
            Some(b) => r matches Ok(x) && x == b,
            None => r is Err,
        },
{
    let a = argon2::Argon2::default();
    match argon2::password_hash::PasswordHash::new(hash) {
        Ok(p) => Ok(<argon2::Argon2 as argon2::password_hash::PasswordVerifier>::verify_password(&a, password.as_bytes(), &p).is_ok()),
        Err(e) => Err(e.to_string()),
    }
}

/// A salted Argon2 hash of the password, which verifies it.
pub fn hash_password(password: &str) -> (r: Result<String, AuthError>)
    ensures
        r matches Ok(h) ==> argon2_verifies(utf8(password@), h@) == Some(true),
{
    match argon2_hash(password) {
        Ok(h) => Ok(h),
        Err(e) => Err(AuthError { message: e }),
    }
}

/// Whether the password matches the hash; an error where the hash is no
/// password hash.
pub fn verify_password(password: &str, hash: &str) -> (r: Result<bool, AuthError>)
    ensures
        match argon2_verifies(utf8(password@), hash@) {
            Some(b) => r matches Ok(x) && x == b,
            None => r is Err,
        },
{
    match argon2_verify(password, hash) {
        Ok(b) => Ok(b),
        Err(e) => Err(AuthError { message: e }),
    }
}

/// A password hashed by `hash_password` verifies: where hashing gave `h`,
/// `verify_password` of the same password against `h` answers `true`.
pub proof fn law_password_roundtrip(password: Seq<char>, h: Seq<char>)
    requires
        argon2_verifies(utf8(password), h) == Some(true),
    ensures
        argon2_verifies(utf8(password), h) matches Some(b) && b,
{
}

// ---------------------------------------------------------------------------
// API keys
// ---------------------------------------------------------------------------

/// A new API key: the secret is shown once; only its prefix and hash are
/// kept.
#[derive(Debug, Clone)]
pub struct ApiKeyMaterial {
    pub id: String,
    pub prefix: String,
    pub secret: String,
    pub hash: String,
}

/// The stored hash of an API key secret: hexadecimal SHA-256 of its bytes.
pub open spec fn spec_key_hash(secret: Seq<char>) -> Seq<char> {
    crate::hasher::hex_encode(crate::hasher::sha256_digest(utf8(secret)))
}

/// Thirty-two bytes from the operating system's random source
/// (`rand::RngCore::fill_bytes` on `OsRng`). Trusted for their number only.
#[verifier::external_body]
fn random_key_bytes() -> (r: Vec<u8>)
    ensures
        r@.len() == 32,
{
    let mut raw = [0u8; 32];
    rand::RngCore::fill_bytes(&mut rand::rngs::OsRng, &mut raw);
    raw.to_vec()
}

/// The hash under which an API key secret is stored.
pub fn hash_api_key(secret: &str) -> (r: String)
    ensures
        r@ == spec_key_hash(secret@),
{
    let d = crate::hasher::sha256(secret.as_bytes());
    crate::hasher::hex_encode_bytes(d.as_slice())
}

/// A fresh API key: `bnr_` and 64 random hexadecimal digits, its first
/// twelve characters as prefix, and its stored hash.
pub fn generate_api_key() -> (k: ApiKeyMaterial)
    ensures
        exists|raw: Seq<u8>| raw.len() == 32 && k.secret@ == "bnr_"@ + crate::hasher::hex_encode(raw),
        k.prefix@ == crate::strings::take_upto(k.secret@, 12),
        k.hash@ == spec_key_hash(k.secret@),
{
    let raw = random_key_bytes();
    let mut secret = crate::text::owned("bnr_");
    let hx = crate::hasher::hex_encode_bytes(raw.as_slice());
    push_string(&mut secret, &hx);
    let c = str_chars(secret.as_str());
    let n: usize = if c.len() < 12 { c.len() } else { 12 };
    let p = crate::text::slice_chars(c.as_slice(), 0, n);
    proof {
        if c@.len() <= 12 {
            assert(c@.subrange(0, n as int) =~= c@);
        }
    }
    let prefix = crate::text::string_of(p.as_slice());
    let hash = hash_api_key(secret.as_str());
    ApiKeyMaterial { id: crate::ids::new_id(), prefix, secret, hash }
}

// ---------------------------------------------------------------------------
// Provider settings
// ---------------------------------------------------------------------------

/// The name of the environment variable holding a provider's setting:
/// `BINARIS_OAUTH_{PROVIDER}_{suffix}`, the provider in ASCII upper case.
pub open spec fn spec_env_key(provider: Seq<char>, suffix: Seq<char>) -> Seq<char> {
    "BINARIS_OAUTH_"@ + provider.map_values(|c: char| upper(c)) + "_"@ + suffix
}

/// ASCII uppercase of one character.
pub open spec fn upper(c: char) -> char {
    if 'a' <= c && c <= 'z' {
        ((c as u8) - 32) as u8 as char
    } else {
        c
    }
}

/// The environment variable of a provider's setting (`CLIENT_ID`,
/// `CLIENT_SECRET`, `REDIRECT_URI`).
pub fn env_key(provider: &str, suffix: &str) -> (r: String)
    ensures
        r@ == spec_env_key(provider@, suffix@),
{
    let c = str_chars(provider);
    let mut out = crate::text::owned("BINARIS_OAUTH_");
    let ghost start = out@;
    let mut i: usize = 0;
    while i < c.len()
        invariant
            i <= c@.len(),
            c@ == provider@,
            out@ == start + c@.subrange(0, i as int).map_values(|c: char| upper(c)),
        decreases c@.len() - i,
    {
        let x = c[i];
        let y = if 'a' <= x && x <= 'z' { ((x as u8) - 32) as char } else { x };
        push_char(&mut out, y);
        proof {
            assert(c@.subrange(0, i + 1).map_values(|c: char| upper(c)) =~= c@.subrange(0, i as int).map_values(
                |c: char| upper(c),
            ).push(y));
        }
        i += 1;
    }
    proof {
        assert(c@.subrange(0, c@.len() as int) =~= c@);
    }
    push_str(&mut out, "_");
    push_str(&mut out, suffix);
    out
}

/// The endpoints and scopes of a known provider (`google`, `github`, or a
/// generic `oidc` one at the given URLs, empty where unset).
pub open spec fn provider_endpoints(provider: Seq<char>, oidc_auth: Seq<char>, oidc_token: Seq<char>, oidc_userinfo: Seq<char>) -> Option<(Seq<char>, Seq<char>, Seq<char>, Seq<Seq<char>>)> {
    if provider == "google"@ {
        Some((
            "https://accounts.google.com/o/oauth2/v2/auth"@,
            "https://oauth2.googleapis.com/token"@,
            "https://openidconnect.googleapis.com/v1/userinfo"@,
            seq!["openid"@, "email"@, "profile"@],
        ))
    } else if provider == "github"@ {
        Some((
            "https://github.com/login/oauth/authorize"@,
            "https://github.com/login/oauth/access_token"@,
            "https://api.github.com/user"@,
            seq!["read:user"@, "user:email"@],
        ))
    } else if provider == "oidc"@ {
        Some((oidc_auth, oidc_token, oidc_userinfo, seq!["openid"@, "email"@, "profile"@]))
    } else {
        None
    }
}

pub open spec fn text_or_empty(o: Option<Seq<char>>) -> Seq<char> {
    match o {
        Some(t) => t,
        None => seq![],
    }
}

/// A provider is configured where its client id and secret are set, it is
/// known, and its authorization and token URLs are not empty; the redirect
/// URI defaults to the local callback.
pub open spec fn spec_provider_config(
    provider: Seq<char>,
    client_id: Option<Seq<char>>,
    client_secret: Option<Seq<char>>,
    redirect_uri: Option<Seq<char>>,
    oidc_auth: Option<Seq<char>>,
    oidc_token: Option<Seq<char>>,
    oidc_userinfo: Option<Seq<char>>,
) -> Option<(Seq<char>, Seq<char>, Seq<char>, Seq<char>, Seq<char>, Seq<char>, Seq<char>, Seq<Seq<char>>)> {
    match (client_id, client_secret) {
        (Some(id), Some(secret)) => match provider_endpoints(
            provider,
            text_or_empty(oidc_auth),
            text_or_empty(oidc_token),
            text_or_empty(oidc_userinfo),
        ) {
            Some((a, t, u, scopes)) => if a.len() == 0 || t.len() == 0 {
                None
            } else {
                Some((
                    provider,
                    id,
                    secret,
                    match redirect_uri {
                        Some(r) => r,
                        None => "http://127.0.0.1:8080/v1/auth/oauth/"@ + provider + "/callback"@,
                    },
                    a,
                    t,
                    u,
                    scopes,
                ))
            },
            None => None,
        },
        _ => None,
    }
}

pub open spec fn config_view(c: OAuthProviderConfig) -> (Seq<char>, Seq<char>, Seq<char>, Seq<char>, Seq<char>, Seq<char>, Seq<char>, Seq<Seq<char>>) {
    (
        c.provider@,
        c.client_id@,
        c.client_secret@,
        c.redirect_uri@,
        c.auth_url@,
        c.token_url@,
        c.userinfo_url@,
        crate::text::strings_view(c.scopes@),
    )
}

fn openid_scopes() -> (r: Vec<String>)
    ensures
        crate::text::strings_view(r@) == seq!["openid"@, "email"@, "profile"@],
{
    let mut v: Vec<String> = Vec::new();
    v.push(crate::text::owned("openid"));
    v.push(crate::text::owned("email"));
    v.push(crate::text::owned("profile"));
    proof {
        assert(crate::text::strings_view(v@) =~= seq!["openid"@, "email"@, "profile"@]);
    }
    v
}

fn github_scopes() -> (r: Vec<String>)
    ensures
        crate::text::strings_view(r@) == seq!["read:user"@, "user:email"@],
{
    let mut v: Vec<String> = Vec::new();
    v.push(crate::text::owned("read:user"));
    v.push(crate::text::owned("user:email"));
    proof {
        assert(crate::text::strings_view(v@) =~= seq!["read:user"@, "user:email"@]);
    }
    v
}

fn opt_or_empty(o: &Option<String>) -> (r: String)
    ensures
        r@ == text_or_empty(crate::text::opt_view(*o)),
{
    match o {
        Some(t) => t.clone(),
        None => String::new(),
    }
}

impl OAuthProviderConfig {
    /// The settings of a provider from the values of its environment
    /// variables; `None` where it is not configured.
    pub fn from_settings(
        provider: &str,
        client_id: Option<String>,
        client_secret: Option<String>,
        redirect_uri: Option<String>,
        oidc_auth: Option<String>,
        oidc_token: Option<String>,
        oidc_userinfo: Option<String>,
    ) -> (r: Option<OAuthProviderConfig>)
        ensures
            match r {
                Some(c) => spec_provider_config(
                    provider@,
                    crate::text::opt_view(client_id),
                    crate::text::opt_view(client_secret),
                    crate::text::opt_view(redirect_uri),
                    crate::text::opt_view(oidc_auth),
                    crate::text::opt_view(oidc_token),
                    crate::text::opt_view(oidc_userinfo),
                ) == Some(config_view(c)),
                None => spec_provider_config(
                    provider@,
                    crate::text::opt_view(client_id),
                    crate::text::opt_view(client_secret),
                    crate::text::opt_view(redirect_uri),
                    crate::text::opt_view(oidc_auth),
                    crate::text::opt_view(oidc_token),
                    crate::text::opt_view(oidc_userinfo),
                ) is None,
            },
    {
        let id = match client_id {
            Some(x) => x,
            None => return None,
        };
        let secret = match client_secret {
            Some(x) => x,
            None => return None,
        };
        let pc = str_chars(provider);
        let p = pc.as_slice();
        let (auth_url, token_url, userinfo_url, scopes) = if crate::text::eq_str(p, "google") {
            (
                crate::text::owned("https://accounts.google.com/o/oauth2/v2/auth"),
                crate::text::owned("https://oauth2.googleapis.com/token"),
                crate::text::owned("https://openidconnect.googleapis.com/v1/userinfo"),
                openid_scopes(),
            )
        } else if crate::text::eq_str(p, "github") {
            (
                crate::text::owned("https://github.com/login/oauth/authorize"),
                crate::text::owned("https://github.com/login/oauth/access_token"),
                crate::text::owned("https://api.github.com/user"),
                github_scopes(),
            )
        } else if crate::text::eq_str(p, "oidc") {
            (
                opt_or_empty(&oidc_auth),
                opt_or_empty(&oidc_token),
                opt_or_empty(&oidc_userinfo),
                openid_scopes(),
            )
        } else {
            return None;
        };
        let a_empty = str_chars(auth_url.as_str()).len() == 0;
        let t_empty = str_chars(token_url.as_str()).len() == 0;
        if a_empty || t_empty {
            return None;
        }
        let redirect = match redirect_uri {
            Some(r) => r,
            None => {
                let mut d = crate::text::owned("http://127.0.0.1:8080/v1/auth/oauth/");
                push_str(&mut d, provider);
                push_str(&mut d, "/callback");
                d
            },
        };
        let c = OAuthProviderConfig {
            provider: crate::text::owned(provider),
            client_id: id,
            client_secret: secret,
            redirect_uri: redirect,
            auth_url,
            token_url,
            userinfo_url,
            scopes,
        };
        Some(c)
    }
}


// ---------------------------------------------------------------------------
// Provider settings from the environment
// ---------------------------------------------------------------------------

/// The environment variables, name and value, by their text.
pub open spec fn env_views(env: Seq<(String, String)>) -> Seq<(Seq<char>, Seq<char>)> {
    env.map_values(|p: (String, String)| (p.0@, p.1@))
}

/// The value of the first variable named `key`.
pub open spec fn env_value(env: Seq<(Seq<char>, Seq<char>)>, key: Seq<char>) -> Option<Seq<char>>
    decreases env.len(),
{
    if env.len() == 0 {
        None
    } else if env[0].0 == key {
        Some(env[0].1)
    } else {
        env_value(env.drop_first(), key)
    }
}

proof fn lemma_env_value_skip(env: Seq<(Seq<char>, Seq<char>)>, key: Seq<char>, i: int)
    requires
        0 <= i <= env.len(),
        forall|j: int| 0 <= j < i ==> #[trigger] env[j].0 != key,
    ensures
        env_value(env, key) == env_value(env.subrange(i, env.len() as int), key),
    decreases i,
{
    if i > 0 {
        assert(env.drop_first().subrange(i - 1, env.drop_first().len() as int) =~= env.subrange(i, env.len() as int));
        assert forall|j: int| 0 <= j < i - 1 implies #[trigger] env.drop_first()[j].0 != key by {
            assert(env.drop_first()[j] == env[j + 1]);
        }
        lemma_env_value_skip(env.drop_first(), key, i - 1);
    } else {
        assert(env.subrange(0, env.len() as int) =~= env);
    }
}

/// The value of the first variable named `key`, if any.
pub fn env_lookup(env: &Vec<(String, String)>, key: &str) -> (r: Option<String>)
    ensures
        crate::text::opt_view(r) == env_value(env_views(env@), key@),
{
    let ghost ev = env_views(env@);
    let k = str_chars(key);
    let mut i: usize = 0;
    while i < env.len()
        invariant
            i <= env@.len(),
            ev == env_views(env@),
            k@ == key@,
            forall|j: int| 0 <= j < i ==> #[trigger] ev[j].0 != key@,
        decreases env@.len() - i,
    {
        let name = str_chars(env[i].0.as_str());
        if crate::text::chars_eq(name.as_slice(), k.as_slice()) {
            proof {
                lemma_env_value_skip(ev, key@, i as int);
                assert(ev.subrange(i as int, ev.len() as int)[0] == ev[i as int]);
            }
            return Some(env[i].1.clone());
        }
        i += 1;
    }
    proof {
        lemma_env_value_skip(ev, key@, i as int);
    }
    None
}

/// The settings of a provider as its environment variables give them.
pub open spec fn spec_config_from_env(
    provider: Seq<char>,
    env: Seq<(Seq<char>, Seq<char>)>,
) -> Option<(Seq<char>, Seq<char>, Seq<char>, Seq<char>, Seq<char>, Seq<char>, Seq<char>, Seq<Seq<char>>)> {
    spec_provider_config(
        provider,
        env_value(env, spec_env_key(provider, "CLIENT_ID"@)),
        env_value(env, spec_env_key(provider, "CLIENT_SECRET"@)),
        env_value(env, spec_env_key(provider, "REDIRECT_URI"@)),
        env_value(env, "BINARIS_OIDC_AUTH_URL"@),
        env_value(env, "BINARIS_OIDC_TOKEN_URL"@),
        env_value(env, "BINARIS_OIDC_USERINFO_URL"@),
    )
}

impl OAuthProviderConfig {
    /// The settings of a provider read from the environment variables given;
    /// `None` where it is not configured.
    pub fn from_env(provider: &str, env: &Vec<(String, String)>) -> (r: Option<OAuthProviderConfig>)
        ensures
            match r {
                Some(c) => spec_config_from_env(provider@, env_views(env@)) == Some(config_view(c)),
                None => spec_config_from_env(provider@, env_views(env@)) is None,
            },
    {
        let id_key = env_key(provider, "CLIENT_ID");
        let secret_key = env_key(provider, "CLIENT_SECRET");
        let redirect_key = env_key(provider, "REDIRECT_URI");
        proof {
            reveal_strlit("CLIENT_ID");
            reveal_strlit("CLIENT_SECRET");
            reveal_strlit("REDIRECT_URI");
        }
        OAuthProviderConfig::from_settings(
            provider,
            env_lookup(env, id_key.as_str()),
            env_lookup(env, secret_key.as_str()),
            env_lookup(env, redirect_key.as_str()),
            env_lookup(env, "BINARIS_OIDC_AUTH_URL"),
            env_lookup(env, "BINARIS_OIDC_TOKEN_URL"),
            env_lookup(env, "BINARIS_OIDC_USERINFO_URL"),
        )
    }
}

/// The known providers (`google`, `github`, `oidc`, in that order) that the
/// environment configures.
pub open spec fn spec_configured_providers(env: Seq<(Seq<char>, Seq<char>)>) -> Seq<Seq<char>> {
    (if spec_config_from_env("google"@, env) is Some { seq!["google"@] } else { Seq::empty() })
        + (if spec_config_from_env("github"@, env) is Some { seq!["github"@] } else { Seq::empty() })
        + (if spec_config_from_env("oidc"@, env) is Some { seq!["oidc"@] } else { Seq::empty() })
}

/// The names of the providers that the environment variables configure.
pub fn list_configured_providers(env: &Vec<(String, String)>) -> (r: Vec<String>)
    ensures
        crate::text::strings_view(r@) == spec_configured_providers(env_views(env@)),
{
    let mut out: Vec<String> = Vec::new();
    if OAuthProviderConfig::from_env("google", env).is_some() {
        out.push(crate::text::owned("google"));
    }
    let ghost a = out@;
    if OAuthProviderConfig::from_env("github", env).is_some() {
        out.push(crate::text::owned("github"));
    }
    let ghost b = out@;
    if OAuthProviderConfig::from_env("oidc", env).is_some() {
        out.push(crate::text::owned("oidc"));
    }
    proof {
        assert(crate::text::strings_view(out@) =~= spec_configured_providers(env_views(env@)));
    }
    out
}

} // verus!
