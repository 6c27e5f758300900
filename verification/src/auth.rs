//! Authentication: request bodies, identity records, and the signed-token
//! codec shared by access and refresh tokens.
use vstd::prelude::*;
use vstd::string::*;
use crate::Validate;

pub mod handlers;
pub mod hashing;
pub mod repo;
pub mod validators;

verus! {

/// Signup request body: credentials plus a confirmation of the password.
pub struct SignUp {
    pub username: String,
    pub password: String,
    pub password_check: String,
}

impl Validate for SignUp {
    open spec fn valid(&self) -> bool {
        &&& validators::valid_username(self.username@)
        &&& validators::valid_password(self.password@)
        &&& self.password@ == self.password_check@
    }

    fn validate(&self) -> (r: bool) {
        validators::is_valid_username(self.username.as_str())
            && validators::is_valid_password(self.password.as_str()) && self.password
            == self.password_check
    }
}

/// Signin request body.
pub struct SignIn {
    pub username: String,
    pub password: String,
}

impl Validate for SignIn {
    open spec fn valid(&self) -> bool {
        &&& validators::valid_username(self.username@)
        &&& validators::valid_password(self.password@)
    }

    fn validate(&self) -> (r: bool) {
        validators::is_valid_username(self.username.as_str())
            && validators::is_valid_password(self.password.as_str())
    }
}

/// A stored identity record. The password field holds the opaque stored
/// hash, never the plaintext.
pub struct User {
    pub id: u128,
    pub username: String,
    pub password: String,
    pub created_at: u64,
}

/// The projection of a `User` that is safe to embed in tokens and
/// responses; it never carries the password hash.
pub struct AuthenticatedUser {
    pub id: u128,
    pub username: String,
    pub created_at: u64,
}

impl AuthenticatedUser {
    /// Project a stored record onto its token-safe part.
    pub fn from_user(user: &User) -> (r: AuthenticatedUser)
        ensures
            r.id == user.id,
            r.username@ == user.username@,
            r.created_at == user.created_at,
    {
        AuthenticatedUser {
            id: user.id,
            username: user.username.clone(),
            created_at: user.created_at,
        }
    }

    /// Clone the projection.
    pub fn duplicate(&self) -> (r: AuthenticatedUser)
        ensures
            r.id == self.id,
            r.username@ == self.username@,
            r.created_at == self.created_at,
    {
        AuthenticatedUser {
            id: self.id,
            username: self.username.clone(),
            created_at: self.created_at,
        }
    }
}

/// A bearer access token as returned to the client.
pub struct AccessToken {
    pub token: String,
}

/// The compact signed token that the codec produces for an identity, an
/// absolute expiry instant, a per-mint nonce and a signing secret; a
/// function of those arguments alone. Given meaning by `jwt_encode`
/// below. The nonce makes every mint distinguishable, so rotation can
/// never hand back the very value it replaces.
pub uninterp spec fn token_of(
    id: u128,
    username: Seq<char>,
    created_at: u64,
    exp: u64,
    nonce: u64,
    secret: Seq<u8>,
) -> Seq<char>;

/// Relies on jsonwebtoken::encode with the default HS256 header: the token
/// is a function of the claims and the secret alone; HMAC signing of a
/// JSON object cannot fail; distinct claims are embedded injectively, so
/// under one secret they yield distinct tokens.
#[verifier::external_body]
fn jwt_encode(
    user_id: u128,
    username: &String,
    created_at: u64,
    exp: u64,
    nonce: u64,
    secret: &[u8],
) -> (r: String)
    ensures
        r@ == token_of(user_id, username@, created_at, exp, nonce, secret@),
        forall|id2: u128, un2: Seq<char>, ca2: u64, exp2: u64, n2: u64|
            token_of(id2, un2, ca2, exp2, n2, secret@) == r@ ==> id2 == user_id && un2
                == username@ && ca2 == created_at && exp2 == exp && n2 == nonce,
{
    let mut user = serde_json::Map::new();
    user.insert("id".into(), user_id.to_string().into());
    user.insert("username".into(), username.clone().into());
    user.insert("createdAt".into(), created_at.into());
    let mut claims = serde_json::Map::new();
    claims.insert("user".into(), serde_json::Value::Object(user));
    claims.insert("exp".into(), exp.into());
    claims.insert("jti".into(), nonce.into());
    jsonwebtoken::encode(
        &jsonwebtoken::Header::default(),
        &serde_json::Value::Object(claims),
        &jsonwebtoken::EncodingKey::from_secret(secret),
    ).unwrap()
}

/// Whether the decoder's raw result is exactly the given claims.
pub open spec fn decoded_to(
    r: Option<(u128, String, u64, u64, u64)>,
    id: u128,
    un: Seq<char>,
    ca: u64,
    exp: u64,
    nonce: u64,
) -> bool {
    r matches Some(c) && c.0 == id && c.1@ == un && c.2 == ca && c.3 == exp && c.4 == nonce
}

/// Relies on jsonwebtoken::decode with HS256, signature checking on and
/// expiry checking left to the caller: a token produced by `jwt_encode`
/// under the same secret decodes to exactly the claims that were encoded.
#[verifier::external_body]
fn jwt_decode(token: &String, secret: &[u8]) -> (r: Option<(u128, String, u64, u64, u64)>)
    ensures
        forall|id: u128, un: Seq<char>, ca: u64, exp: u64, nonce: u64|
            token@ == #[trigger] token_of(id, un, ca, exp, nonce, secret@) ==> decoded_to(
                r,
                id,
                un,
                ca,
                exp,
                nonce,
            ),
{
    let mut validation = jsonwebtoken::Validation::new(jsonwebtoken::Algorithm::HS256);
    validation.validate_exp = false;
    let key = jsonwebtoken::DecodingKey::from_secret(secret);
    let data = match jsonwebtoken::decode::<serde_json::Value>(token, &key, &validation) {
        Ok(d) => d,
        Err(_) => return None,
    };
    let user = data.claims.get("user")?;
    let id = user.get("id")?.as_str()?.parse::<u128>().ok()?;
    let username = user.get("username")?.as_str()?.to_string();
    let created_at = user.get("createdAt")?.as_u64()?;
    let exp = data.claims.get("exp")?.as_u64()?;
    let nonce = data.claims.get("jti")?.as_u64()?;
    Some((id, username, created_at, exp, nonce))
}

/// An ephemeral, unpersisted signed assertion: an identity plus an
/// absolute expiry instant. Access and refresh tokens share this shape and
/// differ only in secret and lifetime.
pub struct Claims {
    pub user: AuthenticatedUser,
    pub exp: u64,
    pub nonce: u64,
}

impl Claims {
    /// Encode the claims into a compact token, HS256-signed with
    /// `secret`; distinct claims give distinct tokens under one secret.
    pub fn encode(&self, secret: &[u8]) -> (r: String)
        ensures
            r@ == token_of(
                self.user.id,
                self.user.username@,
                self.user.created_at,
                self.exp,
                self.nonce,
                secret@,
            ),
            forall|id2: u128, un2: Seq<char>, ca2: u64, exp2: u64, n2: u64|
                token_of(id2, un2, ca2, exp2, n2, secret@) == r@ ==> id2 == self.user.id && un2
                    == self.user.username@ && ca2 == self.user.created_at && exp2 == self.exp
                    && n2 == self.nonce,
    {
        jwt_encode(
            self.user.id,
            &self.user.username,
            self.user.created_at,
            self.exp,
            self.nonce,
            secret,
        )
    }

    /// Decode and verify a token: any token that `encode` produced under
    /// the same secret comes back exactly if its expiry still lies in the
    /// future; malformed structure, a bad signature or an elapsed expiry
    /// yield nothing, indistinguishably.
    pub fn decode(token: &String, secret: &[u8], now: u64) -> (r: Option<Claims>)
        ensures
            r matches Some(c) ==> c.exp > now,
            forall|id: u128, un: Seq<char>, ca: u64, exp: u64, nonce: u64|
                token@ == #[trigger] token_of(id, un, ca, exp, nonce, secret@) ==> (if exp > now {
                    r matches Some(c) && c.user.id == id && c.user.username@ == un
                        && c.user.created_at == ca && c.exp == exp && c.nonce == nonce
                } else {
                    r is None
                }),
    {
        match jwt_decode(token, secret) {
            None => None,
            Some(decoded) => {
                let (id, username, created_at, exp, nonce) = decoded;
                if exp > now {
                    Some(
                        Claims { user: AuthenticatedUser { id, username, created_at }, exp, nonce },
                    )
                } else {
                    None
                }
            },
        }
    }
}

/// Two mints that differ in expiry or in nonce yield distinct token
/// strings for one identity and secret: the claims embed injectively.
pub fn distinct_claims_distinct_token(
    user: &AuthenticatedUser,
    exp1: u64,
    exp2: u64,
    nonce1: u64,
    nonce2: u64,
    secret: &[u8],
) -> (pair: (String, String))
    requires
        exp1 != exp2 || nonce1 != nonce2,
    ensures
        pair.0@ == token_of(user.id, user.username@, user.created_at, exp1, nonce1, secret@),
        pair.1@ == token_of(user.id, user.username@, user.created_at, exp2, nonce2, secret@),
        pair.0@ != pair.1@,
{
    let t1 = jwt_encode(user.id, &user.username, user.created_at, exp1, nonce1, secret);
    let t2 = jwt_encode(user.id, &user.username, user.created_at, exp2, nonce2, secret);
    (t1, t2)
}

/// Case-insensitive comparison of `c` against a lowercase ASCII letter.
pub open spec fn eq_insensitive(c: char, lower: char) -> bool {
    c == lower || c as u32 + 32 == lower as u32
}

/// The six characters spell "bearer", case-insensitively.
pub open spec fn bearer_scheme(s: Seq<char>) -> bool {
    &&& s.len() == 6
    &&& eq_insensitive(s[0], 'b')
    &&& eq_insensitive(s[1], 'e')
    &&& eq_insensitive(s[2], 'a')
    &&& eq_insensitive(s[3], 'r')
    &&& eq_insensitive(s[4], 'e')
    &&& eq_insensitive(s[5], 'r')
}

/// The first space of the header sits at position `k`.
pub open spec fn first_space_at(h: Seq<char>, k: int) -> bool {
    &&& 0 <= k < h.len()
    &&& h[k] == ' '
    &&& forall|j: int| 0 <= j < k ==> h[j] != ' '
}

/// A well-formed bearer header: exactly two space-separated parts, the
/// first a case-insensitive "Bearer".
pub open spec fn bearer_header(h: Seq<char>) -> bool {
    first_space_at(h, 6) && bearer_scheme(h.take(6))
}

/// Split a bearer header into scheme and token; yields the token exactly
/// when the header is well-formed.
pub fn parse_bearer(header: &str) -> (r: Option<String>)
    ensures
        bearer_header(header@) ==> (r matches Some(t) && t@ == header@.skip(7)),
        !bearer_header(header@) ==> r is None,
{
    let n = header.unicode_len();
    let mut k: usize = 0;
    while k < n
        invariant
            n == header@.len(),
            k <= n,
            forall|j: int| 0 <= j < k ==> header@[j] != ' ',
        decreases n - k,
    {
        if header.get_char(k) == ' ' {
            if k != 6 {
                return None;
            }
            let c0 = header.get_char(0);
            let c1 = header.get_char(1);
            let c2 = header.get_char(2);
            let c3 = header.get_char(3);
            let c4 = header.get_char(4);
            let c5 = header.get_char(5);
            let scheme_ok = (c0 == 'b' || c0 == 'B') && (c1 == 'e' || c1 == 'E') && (c2 == 'a'
                || c2 == 'A') && (c3 == 'r' || c3 == 'R') && (c4 == 'e' || c4 == 'E') && (c5 == 'r'
                || c5 == 'R');
            if !scheme_ok {
                return None;
            }
            let token = header.substring_char(7, n);
            proof {
                assert(header@.subrange(7, n as int) =~= header@.skip(7));
            }
            return Some(token.to_owned());
        }
        k += 1;
    }
    None
}

/// The explicit middleware step: decode the bearer header into the
/// identity it asserts, forwarding (yielding nothing) on absence or any
/// defect, so that routes may choose whether to require it.
pub fn authenticate(header: Option<&String>, access_secret: &[u8], now: u64) -> (r: Option<
    AuthenticatedUser>)
    ensures
        header is None ==> r is None,
        header matches Some(h) && !bearer_header(h@) ==> r is None,
        r is Some ==> (header matches Some(h) && bearer_header(h@)),
        forall|id: u128, un: Seq<char>, ca: u64, exp: u64, nonce: u64|
            (header matches Some(h) && bearer_header(h@) && h@.skip(7) == #[trigger] token_of(
                id,
                un,
                ca,
                exp,
                nonce,
                access_secret@,
            )) ==> (if exp > now {
                r matches Some(u) && u.id == id && u.username@ == un && u.created_at == ca
            } else {
                r is None
            }),
{
    let h = match header {
        None => return None,
        Some(h) => h,
    };
    let token = match parse_bearer(h.as_str()) {
        None => return None,
        Some(t) => t,
    };
    match Claims::decode(&token, access_secret, now) {
        None => None,
        Some(c) => Some(c.user),
    }
}

} // verus!
