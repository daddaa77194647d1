use vstd::prelude::*;
use sha2::Digest;
use vstd::string::StringSliceAdditionalSpecFns;
use crate::acl::{Principal, Role};
use crate::catalog::Timestamp;
use crate::chars::{chars_eq, chars_of, string_of};
use crate::paths::{last_char_before, last_char_pos, lemma_last_char_bounds, slice_chars};

verus! {

/// What an API token's text starts with.
pub open spec fn api_token_prefix() -> Seq<char> {
    seq!['s', 'm', 'k', '_']
}

/// The SHA-256 digest of `data`.
pub uninterp spec fn sha256(data: Seq<u8>) -> Seq<u8>;

/// Calls `sha2::Sha256::digest`. Claimed: the result is `sha256(data)`, 32 bytes long,
/// as SHA-256 digests are.
#[verifier::external_body]
fn sha256_digest(data: &[u8]) -> (r: Vec<u8>)
    ensures
        r@ == sha256(data@),
        r@.len() == 32,
{
    sha2::Sha256::digest(data).to_vec()
}

/// The lower-case hex digit for `d`.
pub open spec fn hex_digit(d: int) -> char {
    if d < 10 {
        ((d + 48) as u32) as char
    } else {
        ((d + 87) as u32) as char
    }
}

/// Each byte of `bytes` as two lower-case hex digits.
pub open spec fn hex_spec(bytes: Seq<u8>) -> Seq<char>
    decreases bytes.len(),
{
    if bytes.len() == 0 {
        Seq::empty()
    } else {
        let b = bytes.last() as int;
        hex_spec(bytes.drop_last()) + seq![hex_digit(b / 16), hex_digit(b % 16)]
    }
}

fn hex_char(d: u8) -> (c: char)
    requires
        d < 16,
    ensures
        c == hex_digit(d as int),
{
    if d < 10 {
        (d + 48) as char
    } else {
        (d + 87) as char
    }
}

/// What is stored of an API token: the hex SHA-256 of its text.
pub fn hash_api_token(token: &str) -> (r: String)
    ensures
        r@ == hex_spec(sha256(token.spec_bytes())),
        r@.len() == 64,
{
    let digest = sha256_digest(token.as_bytes());
    let mut out: Vec<char> = Vec::new();
    let mut i: usize = 0;
    while i < digest.len()
        invariant
            i <= digest.len(),
            out@ == hex_spec(digest@.take(i as int)),
            out@.len() == 2 * i,
        decreases digest.len() - i,
    {
        let b = digest[i];
        proof {
            assert(digest@.take(i + 1).drop_last() =~= digest@.take(i as int));
        }
        out.push(hex_char(b / 16));
        out.push(hex_char(b % 16));
        i += 1;
    }
    assert(digest@.take(digest.len() as int) =~= digest@);
    string_of(&out)
}

/// Whether a bearer token is an API token rather than a signed session token.
pub fn is_api_token(token: &str) -> (r: bool)
    ensures
        r == (token@.len() >= 4 && token@.subrange(0, 4) == api_token_prefix()),
{
    let v = chars_of(token);
    if v.len() < 4 {
        return false;
    }
    let head = slice_chars(&v, 0, 4);
    let prefix = vec!['s', 'm', 'k', '_'];
    assert(prefix@ =~= api_token_prefix());
    chars_eq(&head, &prefix)
}

/// What follows the last `.` of a signed token: its signature.
pub open spec fn signature_spec(token: Seq<char>) -> Seq<char> {
    token.subrange(last_char_before(token, token.len() as int, '.') + 1, token.len() as int)
}

/// The signature part of a signed token.
pub fn signature_of(token: &str) -> (r: String)
    ensures
        r@ == signature_spec(token@),
{
    let v = chars_of(token);
    proof {
        lemma_last_char_bounds(v@, v@.len() as int, '.');
    }
    let tail = match last_char_pos(&v, '.') {
        Some(i) => {
            assert(i < v.len());
            slice_chars(&v, i + 1, v.len())
        },
        None => slice_chars(&v, 0, v.len()),
    };
    string_of(&tail)
}

/// The claim a role is written as in a token.
pub open spec fn role_claim(role: Role) -> Seq<char> {
    match role {
        Role::Admin => seq!['a', 'd', 'm', 'i', 'n'],
        Role::User => seq!['u', 's', 'e', 'r'],
        Role::Player => seq!['p', 'l', 'a', 'y', 'e', 'r'],
        Role::Automation => seq!['a', 'u', 't', 'o', 'm', 'a', 't', 'i', 'o', 'n'],
    }
}

/// The claim for a role.
pub fn role_to_claim(role: Role) -> (r: String)
    ensures
        r@ == role_claim(role),
{
    let v: Vec<char> = match role {
        Role::Admin => vec!['a', 'd', 'm', 'i', 'n'],
        Role::User => vec!['u', 's', 'e', 'r'],
        Role::Player => vec!['p', 'l', 'a', 'y', 'e', 'r'],
        Role::Automation => vec!['a', 'u', 't', 'o', 'm', 'a', 't', 'i', 'o', 'n'],
    };
    assert(v@ =~= role_claim(role));
    string_of(&v)
}

/// The role a claim names; any other claim makes the token invalid.
pub fn role_from_claim(value: &str) -> (r: Option<Role>)
    ensures
        match r {
            Some(role) => role_claim(role) == value@,
            None => forall|role: Role| role_claim(role) != value@,
        },
{
    let v = chars_of(value);
    let admin = vec!['a', 'd', 'm', 'i', 'n'];
    let user = vec!['u', 's', 'e', 'r'];
    let player = vec!['p', 'l', 'a', 'y', 'e', 'r'];
    let automation = vec!['a', 'u', 't', 'o', 'm', 'a', 't', 'i', 'o', 'n'];
    assert(admin@ =~= role_claim(Role::Admin) && user@ =~= role_claim(Role::User));
    assert(player@ =~= role_claim(Role::Player) && automation@ =~= role_claim(Role::Automation));
    if chars_eq(&v, &admin) {
        Some(Role::Admin)
    } else if chars_eq(&v, &user) {
        Some(Role::User)
    } else if chars_eq(&v, &player) {
        Some(Role::Player)
    } else if chars_eq(&v, &automation) {
        Some(Role::Automation)
    } else {
        proof {
            assert forall|role: Role| role_claim(role) != value@ by {
                match role {
                    Role::Admin => {},
                    Role::User => {},
                    Role::Player => {},
                    Role::Automation => {},
                }
            }
        }
        None
    }
}

/// Reading back the claim of any role gives that role.
pub proof fn law_role_claims_round_trip(role: Role, other: Role)
    ensures
        role_claim(role) == role_claim(other) ==> role == other,
{
    if role != other {
        match (role, other) {
            (Role::Admin, Role::User) => assert(role_claim(role)[1] != role_claim(other)[1]),
            (Role::User, Role::Admin) => assert(role_claim(role)[1] != role_claim(other)[1]),
            (Role::Admin, Role::Automation) => assert(role_claim(role)[1] != role_claim(other)[1]),
            (Role::Automation, Role::Admin) => assert(role_claim(role)[1] != role_claim(other)[1]),
            _ => assert(role_claim(role).len() != role_claim(other).len() || role_claim(role)[0] != role_claim(other)[0]),
        }
    }
}


/// Why an authentication request failed.
#[derive(Debug, Clone, PartialEq, Eq)]
pub enum AuthError {
    InvalidCredentials,
    InvalidToken,
    TokenExpired,
    UnknownLinkCode,
    Repository(String),
}

/// What a signed session token claims.
#[derive(Debug, Clone, PartialEq, Eq)]
pub struct Claims {
    pub sub: String,
    pub rol: String,
    pub aud: String,
    pub typ: String,
    pub exp: i64,
    pub jti: Option<String>,
}

/// Why a signed token did not decode: it expired, or it is otherwise not valid.
#[derive(Debug, Clone, Copy, PartialEq, Eq, Structural)]
pub enum DecodeFailure {
    Expired,
    Invalid,
}

/// The claims of a decoded token, if it is of the expected type: an expired token is
/// reported as expired, any other failure, or a token of another type, as invalid.
pub fn checked_claims(decoded: Result<Claims, DecodeFailure>, expected_typ: &str) -> (r: Result<Claims, AuthError>)
    ensures
        match decoded {
            Err(DecodeFailure::Expired) => r == Err::<Claims, AuthError>(AuthError::TokenExpired),
            Err(DecodeFailure::Invalid) => r == Err::<Claims, AuthError>(AuthError::InvalidToken),
            Ok(c) => if c.typ@ == expected_typ@ {
                r == Ok::<Claims, AuthError>(c)
            } else {
                r == Err::<Claims, AuthError>(AuthError::InvalidToken)
            },
        },
{
    match decoded {
        Err(DecodeFailure::Expired) => Err(AuthError::TokenExpired),
        Err(DecodeFailure::Invalid) => Err(AuthError::InvalidToken),
        Ok(c) => {
            if crate::chars::str_eq(c.typ.as_str(), expected_typ) {
                Ok(c)
            } else {
                Err(AuthError::InvalidToken)
            }
        },
    }
}

/// The caller an access token names; a role claim that names no role makes the token
/// invalid.
pub fn principal_of(claims: &Claims) -> (r: Result<Principal, AuthError>)
    ensures
        match r {
            Ok(p) => p.user == claims.sub && role_claim(p.role) == claims.rol@,
            Err(e) => e == AuthError::InvalidToken && forall|role: Role| role_claim(role) != claims.rol@,
        },
{
    match role_from_claim(claims.rol.as_str()) {
        Some(role) => Ok(Principal { user: claims.sub.clone(), role }),
        None => Err(AuthError::InvalidToken),
    }
}

/// The session a refresh token belongs to; a token without one is invalid.
pub fn session_of(claims: &Claims) -> (r: Result<String, AuthError>)
    ensures
        match claims.jti {
            Some(j) => r == Ok::<String, AuthError>(j),
            None => r == Err::<String, AuthError>(AuthError::InvalidToken),
        },
{
    match &claims.jti {
        Some(j) => Ok(j.clone()),
        None => Err(AuthError::InvalidToken),
    }
}

/// How long a link code lives unless told otherwise, in seconds.
pub const LINK_CODE_TTL_SECS: i64 = 900;

/// Calls `jiff::Timestamp::from_second`. Claimed: the instant is given when the second
/// lies within the timestamp range, and an error's text otherwise, as the crate
/// documents.
#[verifier::external_body]
fn timestamp_from_second(second: i64) -> (r: Result<Timestamp, String>)
    ensures
        match r {
            Ok(t) => t.nanosecond == second * 1_000_000_000
                && crate::debounce::instant_in_range(second * 1_000_000_000),
            Err(_) => !(-377705023201 <= second && second <= 253402207200),
        },
{
    match jiff::Timestamp::from_second(second) {
        Ok(t) => Ok(Timestamp { nanosecond: t.as_nanosecond() }),
        Err(e) => Err(e.to_string()),
    }
}

/// When a link code made at `now_second` expires: `ttl` seconds later (15 minutes
/// unless told), or a backend error when that instant lies outside the timestamp range.
pub fn link_code_expiry(now_second: i64, ttl: Option<i64>) -> (r: Result<Timestamp, AuthError>)
    requires
        i64::MIN <= now_second + match ttl {
            Some(t) => t,
            None => LINK_CODE_TTL_SECS,
        } <= i64::MAX,
    ensures
        ({
            let end = now_second + match ttl {
                Some(t) => t,
                None => LINK_CODE_TTL_SECS,
            };
            match r {
                Ok(t) => t.nanosecond == end * 1_000_000_000 && -377705023201 <= end <= 253402207200,
                Err(e) => e is Repository && !(-377705023201 <= end <= 253402207200),
            }
        }),
{
    let span = match ttl {
        Some(t) => t,
        None => LINK_CODE_TTL_SECS,
    };
    match timestamp_from_second(now_second + span) {
        Ok(t) => Ok(t),
        Err(msg) => Err(AuthError::Repository(msg)),
    }
}

/// Whether a refresh token is the one stored for its session: a rotated-out token's
/// signature no longer matches.
pub fn refresh_is_current(stored_signature: &str, token: &str) -> (r: bool)
    ensures
        r == (stored_signature@ == signature_spec(token@)),
{
    let sig = signature_of(token);
    crate::chars::str_eq(stored_signature, sig.as_str())
}

/// The caller a bearer token names. An API token (one starting `smk_`) names a player,
/// the owner of the stored token whose hash it has (`api_owner`, nothing where none is
/// stored); any other token is a signed access token, as `decoded` gives it.
pub open spec fn authentication_spec(token: Seq<char>, api_owner: Option<String>, decoded: Result<Claims, DecodeFailure>) -> Result<Principal, AuthError> {
    if token.len() >= 4 && token.subrange(0, 4) == api_token_prefix() {
        match api_owner {
            Some(user) => Ok(Principal { user, role: Role::Player }),
            None => Err(AuthError::InvalidToken),
        }
    } else {
        match decoded {
            Err(DecodeFailure::Expired) => Err(AuthError::TokenExpired),
            Err(DecodeFailure::Invalid) => Err(AuthError::InvalidToken),
            Ok(c) => if c.typ@ != "access"@ {
                Err(AuthError::InvalidToken)
            } else if exists|role: Role| role_claim(role) == c.rol@ {
                Ok(Principal { user: c.sub, role: choose|role: Role| role_claim(role) == c.rol@ })
            } else {
                Err(AuthError::InvalidToken)
            },
        }
    }
}

/// Who a bearer token authenticates.
pub fn authentication(token: &str, api_owner: Option<String>, decoded: Result<Claims, DecodeFailure>) -> (r: Result<Principal, AuthError>)
    ensures
        r == authentication_spec(token@, api_owner, decoded),
{
    if is_api_token(token) {
        return match api_owner {
            Some(user) => Ok(Principal { user, role: Role::Player }),
            None => Err(AuthError::InvalidToken),
        };
    }
    let claims = checked_claims(decoded, "access");
    proof {
        reveal_strlit("access");
    }
    match claims {
        Ok(c) => {
            let r = principal_of(&c);
            proof {
                if r is Ok {
                    law_role_claims_round_trip(r->Ok_0.role, choose|role: Role| role_claim(role) == c.rol@);
                }
            }
            r
        },
        Err(e) => Err(e),
    }
}

/// What a refresh grants: the user and role of a refresh token whose session is still
/// stored (`stored_signature`) with this token's signature and whose role claim names a
/// role; any other refresh token is invalid.
pub fn refresh_grant(claims: &Claims, stored_signature: Option<&str>, token: &str) -> (r: Result<(String, Role), AuthError>)
    ensures
        match r {
            Ok((user, role)) => stored_signature matches Some(sig) && sig@ == signature_spec(token@)
                && user == claims.sub && role_claim(role) == claims.rol@,
            Err(e) => e == AuthError::InvalidToken && !(stored_signature matches Some(sig) && sig@ == signature_spec(token@)
                && exists|role: Role| role_claim(role) == claims.rol@),
        },
{
    let current = match stored_signature {
        Some(sig) => refresh_is_current(sig, token),
        None => false,
    };
    if !current {
        return Err(AuthError::InvalidToken);
    }
    match role_from_claim(claims.rol.as_str()) {
        Some(role) => Ok((claims.sub.clone(), role)),
        None => Err(AuthError::InvalidToken),
    }
}

/// A device bound to an account through a link code.
#[derive(Debug, Clone, PartialEq, Eq)]
pub struct Device {
    pub id: String,
    pub user: String,
    pub name: String,
    pub platform: String,
    pub last_seen: Option<Timestamp>,
}

/// A stored API token: only the hash of its text is kept.
#[derive(Debug, Clone, PartialEq, Eq)]
pub struct ApiToken {
    pub id: String,
    pub user: String,
    pub device: String,
    pub token_hash: String,
    pub created_at: Timestamp,
}

/// A code that binds a device to an account once redeemed.
#[derive(Debug, Clone, PartialEq, Eq)]
pub struct PendingLink {
    pub code: String,
    pub user: String,
    pub role: Role,
    pub expires_at: Timestamp,
}

/// A new link code: for the named user, else for the caller; it always grants a player.
pub fn pending_link(code: String, caller: &Principal, user: Option<String>, expires_at: Timestamp) -> (r: PendingLink)
    ensures
        r.code == code,
        r.user == match user { Some(u) => u, None => caller.user },
        r.role == Role::Player,
        r.expires_at == expires_at,
{
    PendingLink {
        code,
        user: match user {
            Some(u) => u,
            None => caller.user.clone(),
        },
        role: Role::Player,
        expires_at,
    }
}

/// The text of a new API token: the prefix, then `secret`.
pub open spec fn api_token_text(secret: Seq<char>) -> Seq<char> {
    api_token_prefix() + secret
}

/// What redeeming a link code of `user` at `now` stores and hands out: a device with the
/// registration's name and platform, last seen now; an API token bound to that device
/// whose stored hash is that of the token's text; and that text.
pub fn redeemed(
    user: &str,
    name: String,
    platform: String,
    device_id: String,
    token_id: String,
    secret: &str,
    now: Timestamp,
) -> (r: (Device, ApiToken, String))
    ensures
        r.0 == (Device { id: device_id, user: r.0.user, name, platform, last_seen: Some(now) }),
        r.0.user@ == user@,
        r.1 == (ApiToken { id: token_id, user: r.1.user, device: device_id, token_hash: r.1.token_hash, created_at: now }),
        r.1.user@ == user@,
        r.2@ == api_token_text(secret@),
        r.1.token_hash@ == hex_spec(sha256(vstd::utf8::encode_utf8(r.2@))),
{
    let mut text = chars_of("smk_");
    proof {
        reveal_strlit("smk_");
    }
    crate::fmt::extend(&mut text, &chars_of(secret));
    assert(text@ =~= api_token_text(secret@));
    let token = string_of(&text);
    let hash = hash_api_token(token.as_str());
    let device = Device {
        id: device_id.clone(),
        user: user.to_owned(),
        name,
        platform,
        last_seen: Some(now),
    };
    let stored = ApiToken {
        id: token_id,
        user: user.to_owned(),
        device: device_id,
        token_hash: hash,
        created_at: now,
    };
    (device, stored, token)
}

/// The ids of the tokens bound to `device`, in their order.
pub open spec fn device_token_ids(tokens: Seq<ApiToken>, device: Seq<char>) -> Seq<Seq<char>>
    decreases tokens.len(),
{
    if tokens.len() == 0 {
        Seq::empty()
    } else {
        let rest = device_token_ids(tokens.drop_last(), device);
        if tokens.last().device@ == device {
            rest.push(tokens.last().id@)
        } else {
            rest
        }
    }
}

/// Whether one of the rows has the id.
pub open spec fn has_row_id(ids: Seq<Seq<char>>, id: Seq<char>) -> bool {
    exists|k: int| 0 <= k < ids.len() && ids[k] == id
}

/// What revoking a device of a user does: nothing when the user has no such device;
/// else every API token of the user bound to it is revoked, then the device deleted.
/// Gives the ids of the tokens to revoke, or nothing where the device is not the user's.
pub fn device_revocation(devices: &[Device], tokens: &[ApiToken], device: &str) -> (r: Option<Vec<String>>)
    ensures
        match r {
            None => !has_row_id(devices@.map_values(|d: Device| d.id@), device@),
            Some(ids) => has_row_id(devices@.map_values(|d: Device| d.id@), device@)
                && ids@.map_values(|s: String| s@) == device_token_ids(tokens@, device@),
        },
{
    let owned = owns_device(devices, device);
    if !owned {
        return None;
    }
    let mut out: Vec<String> = Vec::new();
    let mut j: usize = 0;
    while j < tokens.len()
        invariant
            j <= tokens.len(),
            out@.map_values(|s: String| s@) == device_token_ids(tokens@.subrange(0, j as int), device@),
        decreases tokens.len() - j,
    {
        assert(tokens@.subrange(0, j + 1).drop_last() =~= tokens@.subrange(0, j as int));
        if crate::chars::str_eq(tokens[j].device.as_str(), device) {
            out.push(tokens[j].id.clone());
            assert(out@.map_values(|s: String| s@) =~= device_token_ids(tokens@.subrange(0, j as int), device@).push(tokens@[j as int].id@));
        }
        j = j + 1;
    }
    assert(tokens@.subrange(0, tokens.len() as int) =~= tokens@);
    Some(out)
}

fn owns_device(devices: &[Device], device: &str) -> (r: bool)
    ensures
        r == has_row_id(devices@.map_values(|d: Device| d.id@), device@),
{
    let mut i: usize = 0;
    while i < devices.len()
        invariant
            i <= devices.len(),
            forall|k: int| 0 <= k < i ==> devices@[k].id@ != device@,
        decreases devices.len() - i,
    {
        if crate::chars::str_eq(devices[i].id.as_str(), device) {
            assert(devices@.map_values(|d: Device| d.id@)[i as int] == device@);
            return true;
        }
        i = i + 1;
    }
    false
}

/// Whether the user's tokens include the one to revoke; a token of someone else is left
/// alone.
pub fn owns_token(tokens: &[ApiToken], token: &str) -> (r: bool)
    ensures
        r == has_row_id(tokens@.map_values(|t: ApiToken| t.id@), token@),
{
    let mut i: usize = 0;
    while i < tokens.len()
        invariant
            i <= tokens.len(),
            forall|k: int| 0 <= k < i ==> tokens@[k].id@ != token@,
        decreases tokens.len() - i,
    {
        if crate::chars::str_eq(tokens[i].id.as_str(), token) {
            assert(tokens@.map_values(|t: ApiToken| t.id@)[i as int] == token@);
            return true;
        }
        i = i + 1;
    }
    false
}

/// Whether one of `tokens` bound to `device` has the id `id`.
pub open spec fn token_of_device(tokens: Seq<ApiToken>, device: Seq<char>, id: Seq<char>) -> bool {
    exists|i: int| 0 <= i < tokens.len() && (#[trigger] tokens[i]).device@ == device && tokens[i].id@ == id
}

/// Revoking a device revokes exactly its tokens: every token id listed is that of a token
/// bound to the device, and every token bound to the device is listed.
pub proof fn law_device_revocation_takes_exactly_its_tokens(tokens: Seq<ApiToken>, device: Seq<char>)
    ensures
        forall|k: int| 0 <= k < device_token_ids(tokens, device).len()
            ==> token_of_device(tokens, device, #[trigger] device_token_ids(tokens, device)[k]),
        forall|i: int| 0 <= i < tokens.len() && (#[trigger] tokens[i]).device@ == device
            ==> has_row_id(device_token_ids(tokens, device), tokens[i].id@),
    decreases tokens.len(),
{
    if tokens.len() > 0 {
        let pre = tokens.drop_last();
        law_device_revocation_takes_exactly_its_tokens(pre, device);
        let ids = device_token_ids(tokens, device);
        let pre_ids = device_token_ids(pre, device);
        assert forall|k: int| 0 <= k < ids.len() implies token_of_device(tokens, device, #[trigger] ids[k]) by {
            if k < pre_ids.len() {
                assert(ids[k] == pre_ids[k]);
                assert(token_of_device(pre, device, pre_ids[k]));
                let i = choose|i: int| 0 <= i < pre.len() && (#[trigger] pre[i]).device@ == device && pre[i].id@ == pre_ids[k];
                assert(tokens[i] == pre[i]);
            } else {
                let last = tokens.len() - 1;
                assert(tokens[last] == tokens.last());
            }
        }
        assert forall|i: int| 0 <= i < tokens.len() && (#[trigger] tokens[i]).device@ == device
            implies has_row_id(ids, tokens[i].id@) by {
            if i < tokens.len() - 1 {
                assert(pre[i] == tokens[i]);
                let k = choose|k: int| 0 <= k < pre_ids.len() && pre_ids[k] == pre[i].id@;
                assert(ids[k] == pre_ids[k]);
            } else {
                assert(ids[ids.len() - 1] == tokens[i].id@);
            }
        }
    }
}

/// The authentication service over a user store and a token store, with the signer of
/// session tokens and the lifetimes, in seconds, of access and refresh tokens.
pub struct DefaultAuthService<U, T, K> {
    users: U,
    tokens: T,
    codec: K,
    access_ttl_secs: i64,
    refresh_ttl_secs: i64,
}

impl<U, T, K> DefaultAuthService<U, T, K> {
    pub closed spec fn parts(&self) -> (U, T, K) {
        (self.users, self.tokens, self.codec)
    }

    pub closed spec fn ttls(&self) -> (i64, i64) {
        (self.access_ttl_secs, self.refresh_ttl_secs)
    }

    pub fn new(users: U, tokens: T, codec: K, access_ttl_secs: i64, refresh_ttl_secs: i64) -> (r: Self)
        ensures
            r.parts() == (users, tokens, codec),
            r.ttls() == (access_ttl_secs, refresh_ttl_secs),
    {
        DefaultAuthService { users, tokens, codec, access_ttl_secs, refresh_ttl_secs }
    }

    pub fn users(&self) -> (r: &U)
        ensures
            *r == self.parts().0,
    {
        &self.users
    }

    pub fn tokens(&self) -> (r: &T)
        ensures
            *r == self.parts().1,
    {
        &self.tokens
    }

    pub fn codec(&self) -> (r: &K)
        ensures
            *r == self.parts().2,
    {
        &self.codec
    }

    /// When the access and the refresh token of a pair issued at `now_second` expire.
    pub fn expiries(&self, now_second: i64) -> (r: (i64, i64))
        requires
            i64::MIN <= now_second + self.ttls().0 <= i64::MAX,
            i64::MIN <= now_second + self.ttls().1 <= i64::MAX,
        ensures
            r.0 == now_second + self.ttls().0,
            r.1 == now_second + self.ttls().1,
    {
        (now_second + self.access_ttl_secs, now_second + self.refresh_ttl_secs)
    }

    /// The stored session of a refresh token issued at `now_second` and expiring at
    /// `refresh_exp`: its id, user and signature, and both instants; a backend error when
    /// either instant lies outside the timestamp range.
    pub fn session_record(&self, jti: String, user: String, token: &str, now_second: i64, refresh_exp: i64) -> (r: Result<AuthSession, AuthError>)
        ensures
            match r {
                Ok(s) => s.id == jti && s.user == user && s.refresh_token_hash@ == signature_spec(token@)
                    && s.issued_at.nanosecond == now_second * 1_000_000_000
                    && s.expires_at.nanosecond == refresh_exp * 1_000_000_000,
                Err(e) => e is Repository && !(-377705023201 <= now_second <= 253402207200 && -377705023201 <= refresh_exp <= 253402207200),
            },
    {
        let issued_at = match timestamp_from_second(now_second) {
            Ok(t) => t,
            Err(msg) => return Err(AuthError::Repository(msg)),
        };
        let expires_at = match timestamp_from_second(refresh_exp) {
            Ok(t) => t,
            Err(msg) => return Err(AuthError::Repository(msg)),
        };
        Ok(AuthSession { id: jti, user, refresh_token_hash: signature_of(token), issued_at, expires_at })
    }
}

/// A stored refresh session: only the signature of the refresh token is kept.
#[derive(Debug, Clone, PartialEq, Eq)]
pub struct AuthSession {
    pub id: String,
    pub user: String,
    pub refresh_token_hash: String,
    pub issued_at: Timestamp,
    pub expires_at: Timestamp,
}

/// What a granted refresh does: revoke the session the old refresh token belonged to,
/// then issue a new pair to `user` with `role`, which starts a new session.
#[derive(Debug, Clone, PartialEq, Eq)]
pub struct Rotation {
    pub revoke: String,
    pub user: String,
    pub role: Role,
}

/// Whether a refresh with `token`, whose checked claims are `claims` and whose session
/// was looked up as `stored`, is refused: it names no session, its session is not
/// stored, the stored signature is not this token's, or its role claim names no role.
pub open spec fn rotation_refused(claims: Claims, stored: Option<AuthSession>, token: Seq<char>) -> bool {
    ||| claims.jti is None
    ||| !(stored matches Some(s) && s.refresh_token_hash@ == signature_spec(token))
    ||| forall|role: Role| role_claim(role) != claims.rol@
}

/// The rotation a refresh makes: refused (as an invalid token) in the cases of
/// [`rotation_refused`]; else the old session is revoked and a new pair goes to the
/// token's user with its role. Revoking the old session is what makes a refresh token
/// good for one refresh only (see [`law_a_refresh_token_is_single_use`]).
pub fn refresh_rotation(claims: &Claims, stored: Option<&AuthSession>, token: &str) -> (r: Result<Rotation, AuthError>)
    ensures
        (r is Err) == rotation_refused(*claims, match stored { Some(s) => Some(*s), None => None }, token@),
        r matches Err(e) ==> e == AuthError::InvalidToken,
        r matches Ok(rot) ==> claims.jti == Some(rot.revoke) && rot.user == claims.sub && role_claim(rot.role) == claims.rol@,
{
    let jti = session_of(claims)?;
    let sig = match stored {
        Some(s) => s.refresh_token_hash.as_str(),
        None => return Err(AuthError::InvalidToken),
    };
    match refresh_grant(claims, Some(sig), token) {
        Ok((user, role)) => Ok(Rotation { revoke: jti, user, role }),
        Err(e) => Err(e),
    }
}

/// The session stored under id `id`, the first of `store` with it.
pub open spec fn session_at(store: Seq<AuthSession>, id: Seq<char>) -> Option<AuthSession>
    decreases store.len(),
{
    if store.len() == 0 {
        None
    } else if store[0].id@ == id {
        Some(store[0])
    } else {
        session_at(store.drop_first(), id)
    }
}

/// The sessions left after the one with id `id` is revoked.
pub open spec fn revoke_session(store: Seq<AuthSession>, id: Seq<char>) -> Seq<AuthSession>
    decreases store.len(),
{
    if store.len() == 0 {
        Seq::empty()
    } else if store[0].id@ == id {
        revoke_session(store.drop_first(), id)
    } else {
        seq![store[0]] + revoke_session(store.drop_first(), id)
    }
}

proof fn lemma_revoked_is_gone(store: Seq<AuthSession>, id: Seq<char>)
    ensures
        session_at(revoke_session(store, id), id) is None,
    decreases store.len(),
{
    if store.len() > 0 {
        lemma_revoked_is_gone(store.drop_first(), id);
        let rest = revoke_session(store.drop_first(), id);
        if store[0].id@ != id {
            assert((seq![store[0]] + rest).drop_first() =~= rest);
        }
    }
}

/// A refresh token is good for one refresh only: once a refresh has revoked its session,
/// the session is no longer stored, so a second refresh with the same token (whatever
/// its claims) is refused.
pub proof fn law_a_refresh_token_is_single_use(store: Seq<AuthSession>, claims: Claims, token: Seq<char>, rot: Rotation)
    requires
        claims.jti == Some(rot.revoke),
    ensures
        rotation_refused(claims, session_at(revoke_session(store, rot.revoke@), rot.revoke@), token),
{
    lemma_revoked_is_gone(store, rot.revoke@);
}
} // verus!
