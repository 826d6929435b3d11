//! The opaque session token: a high-entropy bearer string, minted from fresh
//! random bytes and printable-encoded.

use rand::Rng;
use vstd::prelude::*;

verus! {

/// How many random bytes a fresh token is minted from.
pub const TOKEN_RANDOM_BYTES: usize = 60;

/// How many characters the minted token has: four for every three random
/// bytes, by the encoding's padding rule.
pub const TOKEN_CHARS: usize = 80;

/// Relies on `rand::thread_rng` and `Rng::fill` to fill the buffer with
/// random bytes; the bytes depend on the generator's state, so nothing is
/// assumed of them beyond their count.
#[verifier::external_body]
fn random_bytes(count: usize) -> (r: Vec<u8>)
    ensures
        r@.len() == count,
{
    let mut buf = vec![0u8; count];
    rand::thread_rng().fill(&mut buf[..]);
    buf
}

/// The standard base64 encoding, with padding, of a byte sequence; a
/// function of the bytes alone.
pub uninterp spec fn base64_of(bytes: Seq<u8>) -> Seq<char>;

/// Relies on `base64::encode`: the standard alphabet with padding, four
/// output characters for every whole or partial group of three input bytes,
/// depending on the bytes alone. It panics when the output size would
/// overflow `usize`; the bound on the input length keeps that out.
#[verifier::external_body]
fn base64_encode(bytes: &Vec<u8>) -> (r: String)
    requires
        bytes@.len() <= usize::MAX / 4,
    ensures
        r@ == base64_of(bytes@),
        r@.len() == ((bytes@.len() + 2) / 3) * 4,
{
    base64::encode(&bytes[..])
}

/// Mint a fresh token: the printable encoding of `TOKEN_RANDOM_BYTES` fresh
/// random bytes. Distinctness from earlier tokens is probabilistic, by the
/// entropy drawn, not proved.
pub fn generate_token() -> (t: Token)
    ensures
        t@.len() == TOKEN_CHARS,
{
    let bytes = random_bytes(TOKEN_RANDOM_BYTES);
    let text = base64_encode(&bytes);
    Token::new(text)
}

/// An opaque bearer credential identifying an active session. Its value is
/// the printable encoding of fresh random bytes; the library treats it as an
/// opaque string.
#[derive(Debug)]
pub struct Token {
    inner: String,
}

impl View for Token {
    type V = Seq<char>;

    closed spec fn view(&self) -> Seq<char> {
        self.inner@
    }
}

impl Token {
    /// Wrap a string as a token.
    pub fn new(inner: String) -> (t: Token)
        ensures
            t@ == inner@,
    {
        Token { inner }
    }

    /// The token's textual value.
    pub fn into_inner(self) -> (r: String)
        ensures
            r@ == self@,
    {
        self.inner
    }

    /// The token's textual value, borrowed.
    pub fn as_inner(&self) -> (r: &String)
        ensures
            r@ == self@,
    {
        &self.inner
    }

    /// Whether two tokens carry the same value.
    pub fn same_as(&self, other: &Token) -> (r: bool)
        ensures
            r == (self@ == other@),
    {
        self.inner == other.inner
    }
}

impl Clone for Token {
    fn clone(&self) -> (t: Token)
        ensures
            t@ == self@,
    {
        Token { inner: self.inner.clone() }
    }
}

} // verus!
