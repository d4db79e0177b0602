//! Session identifiers, secrets and the text form of a session token.
//!
//! A token is the 8-byte big-endian id followed by the secret's bytes, in
//! URL-safe base64 without padding.

use vstd::prelude::*;

verus! {

/// Number of bytes in a freshly generated session secret (256 bits).
pub const SECRET_SIZE: usize = 32;

/// Number of bytes in the binary form of a token.
pub const TOKEN_SIZE: usize = 40;

/// A session identifier, allocated by a datastore.
#[derive(Clone, Copy, Debug, PartialEq, Eq, Hash, Structural)]
pub struct SessionId(pub u64);

/// The random secret of a session.
pub struct SessionSecret(pub Vec<u8>);

impl View for SessionSecret {
    type V = Seq<u8>;

    open spec fn view(&self) -> Seq<u8> {
        self.0@
    }
}

/// The stored record of a session: its secret and when it was created, in
/// nanoseconds since the Unix epoch.
pub struct SessionData {
    pub secret: SessionSecret,
    pub created: u128,
}

impl View for SessionData {
    type V = (Seq<u8>, u128);

    open spec fn view(&self) -> (Seq<u8>, u128) {
        (self.secret@, self.created)
    }
}

impl SessionData {
    /// A copy of the record.
    pub fn copy(&self) -> (r: SessionData)
        ensures
            r@ == self@,
    {
        SessionData { secret: self.secret.copy(), created: self.created }
    }
}

/// What a client presents: the id of a session and its secret.
pub struct SessionToken {
    pub id: SessionId,
    pub secret: SessionSecret,
}

/// Why a text is not a session token.
#[derive(Debug)]
pub enum DecodeSessionTokenError {
    /// The text is not URL-safe unpadded base64.
    Base64Error(base64ct::Error),
    /// The decoded bytes do not have the length of a token.
    InvalidLength,
}

#[verifier::external_type_specification]
#[verifier::external_body]
pub struct ExBase64Error(base64ct::Error);

/// The eight bytes of `n`, most significant first.
pub open spec fn u64_be(n: u64) -> Seq<u8> {
    seq![
        (n >> 56u64) as u8,
        (n >> 48u64) as u8,
        (n >> 40u64) as u8,
        (n >> 32u64) as u8,
        (n >> 24u64) as u8,
        (n >> 16u64) as u8,
        (n >> 8u64) as u8,
        n as u8,
    ]
}

/// The number whose big-endian bytes are the first eight of `b`.
pub open spec fn be_u64(b: Seq<u8>) -> u64
    recommends
        b.len() >= 8,
{
    (b[0] as u64) << 56u64 | (b[1] as u64) << 48u64 | (b[2] as u64) << 40u64 | (b[3] as u64)
        << 32u64 | (b[4] as u64) << 24u64 | (b[5] as u64) << 16u64 | (b[6] as u64) << 8u64 | (
    b[7] as u64)
}

/// The binary form of a token.
pub open spec fn token_bytes(id: u64, secret: Seq<u8>) -> Seq<u8> {
    u64_be(id) + secret
}

/// The token that a byte string holds, if it has a token's length.
pub open spec fn token_of_bytes(b: Seq<u8>) -> Option<(u64, Seq<u8>)> {
    if b.len() == TOKEN_SIZE {
        Some((be_u64(b), b.subrange(8, TOKEN_SIZE as int)))
    } else {
        None
    }
}

/// Reading back the bytes of a number gives the number.
pub proof fn lemma_be_u64_of_u64_be(n: u64)
    ensures
        be_u64(u64_be(n)) == n,
{
    let b = u64_be(n);
    assert(b[0] == (n >> 56u64) as u8);
    assert(b[7] == n as u8);
    let b0 = (n >> 56u64) as u8;
    let b1 = (n >> 48u64) as u8;
    let b2 = (n >> 40u64) as u8;
    let b3 = (n >> 32u64) as u8;
    let b4 = (n >> 24u64) as u8;
    let b5 = (n >> 16u64) as u8;
    let b6 = (n >> 8u64) as u8;
    let b7 = n as u8;
    assert((b0 as u64) << 56u64 | (b1 as u64) << 48u64 | (b2 as u64) << 40u64 | (b3 as u64)
        << 32u64 | (b4 as u64) << 24u64 | (b5 as u64) << 16u64 | (b6 as u64) << 8u64 | (b7 as u64)
        == n) by (bit_vector)
        requires
            b0 == (n >> 56u64) as u8,
            b1 == (n >> 48u64) as u8,
            b2 == (n >> 40u64) as u8,
            b3 == (n >> 32u64) as u8,
            b4 == (n >> 24u64) as u8,
            b5 == (n >> 16u64) as u8,
            b6 == (n >> 8u64) as u8,
            b7 == n as u8,
    ;
}

/// A token read back from its binary form is the token.
pub proof fn lemma_token_bytes_round_trip(id: u64, secret: Seq<u8>)
    requires
        secret.len() == SECRET_SIZE,
    ensures
        token_of_bytes(token_bytes(id, secret)) == Some((id, secret)),
{
    let b = token_bytes(id, secret);
    lemma_be_u64_of_u64_be(id);
    assert(b.subrange(0, 8) =~= u64_be(id));
    assert(b.subrange(8, TOKEN_SIZE as int) =~= secret);
    assert(be_u64(b) == be_u64(u64_be(id)));
}


/// The URL-safe, unpadded base64 text of a byte string.
pub uninterp spec fn b64url_of(b: Seq<u8>) -> Seq<char>;

/// Whether a character is one of URL-safe base64's: a letter, a digit, `-`
/// or `_`.
pub open spec fn is_b64url_char(c: char) -> bool {
    ('A' <= c <= 'Z') || ('a' <= c <= 'z') || ('0' <= c <= '9') || c == '-' || c == '_'
}

/// The bytes that a text is the base64 form of, if it is the form of any.
pub open spec fn b64url_bytes(s: Seq<char>) -> Option<Seq<u8>> {
    if exists|b: Seq<u8>| b64url_of(b) == s {
        Some(choose|b: Seq<u8>| b64url_of(b) == s)
    } else {
        None
    }
}

/// The token that a text stands for: its base64 bytes, read as a token.
pub open spec fn token_of_text(s: Seq<char>) -> Option<(u64, Seq<u8>)> {
    match b64url_bytes(s) {
        Some(b) => token_of_bytes(b),
        None => None,
    }
}

/// The text form of a token.
pub open spec fn token_text(id: u64, secret: Seq<u8>) -> Seq<char> {
    b64url_of(token_bytes(id, secret))
}

/// Relies on base64ct's `Base64UrlUnpadded::encode_string`, which panics only
/// when four times the input length overflows. The text uses the URL-safe
/// alphabet only (no padding). No other bytes have the same text:
/// `decode_vec` gives these bytes back.
#[verifier::external_body]
fn b64url_encode(b: &[u8]) -> (r: String)
    requires
        b@.len() * 4 <= usize::MAX,
    ensures
        r@ == b64url_of(b@),
        forall|c: Seq<u8>| #[trigger] b64url_of(c) == r@ ==> c == b@,
        forall|i: int| 0 <= i < r@.len() ==> is_b64url_char(#[trigger] r@[i]),
{
    <base64ct::Base64UrlUnpadded as base64ct::Encoding>::encode_string(b)
}

/// Relies on base64ct's `Base64UrlUnpadded::decode_vec`: it accepts exactly
/// the texts that `encode_string` produces (the last block is checked to be
/// canonical) and returns the bytes that were encoded.
#[verifier::external_body]
fn b64url_decode(s: &str) -> (r: Result<Vec<u8>, base64ct::Error>)
    ensures
        forall|b: Seq<u8>| #[trigger] b64url_of(b) == s@ <==> (r is Ok && r->Ok_0@ == b),
{
    <base64ct::Base64UrlUnpadded as base64ct::Encoding>::decode_vec(s)
}

/// Relies on subtle's `ConstantTimeEq` for slices: true exactly when the
/// slices have the same length and the same bytes, in time that does not
/// depend on where they differ.
#[verifier::external_body]
fn ct_eq_bytes(a: &[u8], b: &[u8]) -> (r: bool)
    ensures
        r == (a@ == b@),
{
    subtle::ConstantTimeEq::ct_eq(a, b).into()
}

/// Relies on rand's `ThreadRng::fill_bytes` (a cryptographically secure
/// generator): it overwrites the bytes and keeps the length. It panics only
/// when the operating system's random source fails.
#[verifier::external_body]
fn fill_random(buf: &mut Vec<u8>)
    ensures
        final(buf)@.len() == old(buf)@.len(),
{
    rand::RngCore::fill_bytes(&mut rand::thread_rng(), buf.as_mut_slice())
}

/// Compares two byte strings in constant time; true exactly when they are
/// equal.
pub fn ct_eq(a: &[u8], b: &[u8]) -> (r: bool)
    ensures
        r == (a@ == b@),
{
    ct_eq_bytes(a, b)
}

/// Compares two strings in constant time, byte by byte; true exactly when
/// they are equal.
pub fn verify_password(a: &str, b: &str) -> (r: bool)
    ensures
        r == (a@ == b@),
{
    let r = ct_eq_bytes(a.as_bytes(), b.as_bytes());
    proof {
        vstd::utf8::encode_utf8_decode_utf8(a@);
        vstd::utf8::encode_utf8_decode_utf8(b@);
    }
    r
}

/// Appends the big-endian bytes of `n`.
pub(crate) fn push_u64_be(out: &mut Vec<u8>, n: u64)
    ensures
        final(out)@ == old(out)@ + u64_be(n),
{
    out.push((n >> 56u64) as u8);
    out.push((n >> 48u64) as u8);
    out.push((n >> 40u64) as u8);
    out.push((n >> 32u64) as u8);
    out.push((n >> 24u64) as u8);
    out.push((n >> 16u64) as u8);
    out.push((n >> 8u64) as u8);
    out.push(n as u8);
    assert(final(out)@ =~= old(out)@ + u64_be(n));
}

/// Reads the first eight bytes as a big-endian number.
pub(crate) fn read_u64_be(b: &[u8]) -> (r: u64)
    requires
        b@.len() >= 8,
    ensures
        r == be_u64(b@),
{
    (b[0] as u64) << 56u64 | (b[1] as u64) << 48u64 | (b[2] as u64) << 40u64 | (b[3] as u64)
        << 32u64 | (b[4] as u64) << 24u64 | (b[5] as u64) << 16u64 | (b[6] as u64) << 8u64 | (
    b[7] as u64)
}

impl SessionSecret {
    /// A fresh secret of `SECRET_SIZE` random bytes.
    pub fn generate() -> (r: SessionSecret)
        ensures
            r@.len() == SECRET_SIZE,
    {
        let mut buf: Vec<u8> = Vec::new();
        let mut i: usize = 0;
        while i < SECRET_SIZE
            invariant
                i <= SECRET_SIZE,
                buf@.len() == i,
            decreases SECRET_SIZE - i,
        {
            buf.push(0u8);
            i = i + 1;
        }
        fill_random(&mut buf);
        SessionSecret(buf)
    }

    /// Whether two secrets are equal, compared in constant time.
    pub fn verify(&self, other: &SessionSecret) -> (r: bool)
        ensures
            r == (self@ == other@),
    {
        ct_eq(self.0.as_slice(), other.0.as_slice())
    }

    /// A copy of the secret.
    pub fn copy(&self) -> (r: SessionSecret)
        ensures
            r@ == self@,
    {
        let mut v: Vec<u8> = Vec::new();
        let mut i: usize = 0;
        while i < self.0.len()
            invariant
                i <= self.0@.len(),
                v@ == self.0@.subrange(0, i as int),
            decreases self.0@.len() - i,
        {
            v.push(self.0[i]);
            i = i + 1;
            assert(v@ =~= self.0@.subrange(0, i as int));
        }
        assert(v@ =~= self.0@);
        SessionSecret(v)
    }
}

impl SessionToken {
    /// The binary form: the id's eight big-endian bytes, then the secret.
    pub fn to_bytes(&self) -> (r: Vec<u8>)
        ensures
            r@ == token_bytes(self.id.0, self.secret@),
    {
        let mut out: Vec<u8> = Vec::new();
        push_u64_be(&mut out, self.id.0);
        let mut i: usize = 0;
        while i < self.secret.0.len()
            invariant
                i <= self.secret@.len(),
                out@ == u64_be(self.id.0) + self.secret@.subrange(0, i as int),
            decreases self.secret@.len() - i,
        {
            out.push(self.secret.0[i]);
            i = i + 1;
            assert(out@ =~= u64_be(self.id.0) + self.secret@.subrange(0, i as int));
        }
        assert(self.secret@.subrange(0, i as int) =~= self.secret@);
        out
    }

    /// Reads a token from its binary form; `None` unless the length is
    /// `TOKEN_SIZE`.
    pub fn from_bytes(b: &[u8]) -> (r: Option<SessionToken>)
        ensures
            match token_of_bytes(b@) {
                Some((id, secret)) => r is Some && r->Some_0.id.0 == id && r->Some_0.secret@
                    == secret,
                None => r is None,
            },
    {
        if b.len() != TOKEN_SIZE {
            return None;
        }
        let id = read_u64_be(b);
        let mut secret: Vec<u8> = Vec::new();
        let mut i: usize = 8;
        while i < TOKEN_SIZE
            invariant
                8 <= i <= TOKEN_SIZE,
                b@.len() == TOKEN_SIZE,
                secret@ == b@.subrange(8, i as int),
            decreases TOKEN_SIZE - i,
        {
            secret.push(b[i]);
            i = i + 1;
            assert(secret@ =~= b@.subrange(8, i as int));
        }
        Some(SessionToken { id: SessionId(id), secret: SessionSecret(secret) })
    }

    /// The text form of the token: its binary form in URL-safe base64
    /// without padding.
    pub fn encode(&self) -> (r: String)
        requires
            (self.secret@.len() + 8) * 4 <= usize::MAX,
        ensures
            r@ == token_text(self.id.0, self.secret@),
            forall|i: int| 0 <= i < r@.len() ==> is_b64url_char(#[trigger] r@[i]),
            self.secret@.len() == SECRET_SIZE ==> token_of_text(r@) == Some(
                (self.id.0, self.secret@),
            ),
    {
        let bytes = self.to_bytes();
        let r = b64url_encode(bytes.as_slice());
        proof {
            assert(b64url_bytes(r@) == Some(bytes@));
            if self.secret@.len() == SECRET_SIZE {
                lemma_token_bytes_round_trip(self.id.0, self.secret@);
            }
        }
        r
    }

    /// Reads a token from its text form. Fails when the text is not base64,
    /// or when the bytes do not have a token's length.
    pub fn decode(s: &str) -> (r: Result<SessionToken, DecodeSessionTokenError>)
        ensures
            match token_of_text(s@) {
                Some((id, secret)) => r is Ok && r->Ok_0.id.0 == id && r->Ok_0.secret@ == secret,
                None => r is Err,
            },
            r is Err ==> (r->Err_0 is InvalidLength <==> b64url_bytes(s@) is Some),
    {
        match b64url_decode(s) {
            Err(e) => {
                assert(b64url_bytes(s@) is None);
                Err(DecodeSessionTokenError::Base64Error(e))
            },
            Ok(bytes) => {
                assert(b64url_of(bytes@) == s@);
                assert(b64url_bytes(s@) == Some(bytes@));
                match SessionToken::from_bytes(bytes.as_slice()) {
                    Some(t) => Ok(t),
                    None => Err(DecodeSessionTokenError::InvalidLength),
                }
            },
        }
    }
}

} // verus!
