//! Access tokens.
//!
//! Every event carries two credentials: a shareable `public` token and a
//! secret `moderator` token.  A token is ASCII text: a one-byte tier
//! prefix, the hex-encoded creation counter of the event, and two
//! hex-encoded random words.  The counter segment makes tokens of
//! different events provably distinct; the prefix keeps the two tiers of
//! one event apart; the random words make a token unguessable.
//! Comparison runs in constant time over the whole buffer so that a
//! mismatch reveals nothing about where the buffers differ.

use vstd::prelude::*;

verus! {

/// First byte of every public token.
pub const PUBLIC_PREFIX: u8 = 112;

/// First byte of every moderator token.
pub const MODERATOR_PREFIX: u8 = 109;

/// Bytes in a complete token: prefix plus three hex-encoded words.
pub const TOKEN_LEN: usize = 49;

/// Hex digit `k` (big-endian, `0 <= k < 16`) of a word.
pub open spec fn nibble_of(x: u64, k: int) -> u64
    recommends
        0 <= k < 16,
{
    (x >> ((4 * (15 - k)) as u64)) & 0xf
}

/// The ASCII hex character for a value below sixteen.
pub open spec fn hex_digit(d: u64) -> u8
    recommends
        d < 16,
{
    if d < 10 {
        (48 + d) as u8
    } else {
        (87 + d) as u8
    }
}

/// Big-endian, lower-case hex encoding of a word: sixteen ASCII bytes.
pub open spec fn hex64(x: u64) -> Seq<u8> {
    Seq::new(16, |k: int| hex_digit(nibble_of(x, k)))
}

/// Every nibble is below sixteen.
proof fn lemma_nibble_bound(x: u64, k: int)
    requires
        0 <= k < 16,
    ensures
        nibble_of(x, k) < 16,
{
    let s: u64 = (4 * (15 - k)) as u64;
    assert((x >> s) & 0xf < 16) by (bit_vector);
}

/// Distinct values below sixteen get distinct hex characters.
proof fn lemma_hex_digit_injective(a: u64, b: u64)
    requires
        a < 16,
        b < 16,
        hex_digit(a) == hex_digit(b),
    ensures
        a == b,
{
    assert(48 + a <= 255);
    assert(87 + b <= 255);
    if a < 10 && b >= 10 {
        assert(((48 + a) as u8) < 97);
        assert(((87 + b) as u8) >= 97);
    }
    if a >= 10 && b < 10 {
        assert(((48 + b) as u8) < 97);
        assert(((87 + a) as u8) >= 97);
    }
}

/// Hex encoding is injective: equal encodings come from equal words.
pub proof fn lemma_hex64_injective(x: u64, y: u64)
    requires
        hex64(x) == hex64(y),
    ensures
        x == y,
{
    assert forall|k: int| 0 <= k < 16 implies nibble_of(x, k) == nibble_of(y, k) by {
        assert(hex64(x)[k] == hex64(y)[k]);
        assert(hex64(x)[k] == hex_digit(nibble_of(x, k)));
        assert(hex64(y)[k] == hex_digit(nibble_of(y, k)));
        lemma_nibble_bound(x, k);
        lemma_nibble_bound(y, k);
        lemma_hex_digit_injective(nibble_of(x, k), nibble_of(y, k));
    }
    assert(nibble_of(x, 0) == nibble_of(y, 0) && nibble_of(x, 1) == nibble_of(y, 1) && nibble_of(
        x,
        2,
    ) == nibble_of(y, 2) && nibble_of(x, 3) == nibble_of(y, 3) && nibble_of(x, 4) == nibble_of(
        y,
        4,
    ) && nibble_of(x, 5) == nibble_of(y, 5) && nibble_of(x, 6) == nibble_of(y, 6) && nibble_of(
        x,
        7,
    ) == nibble_of(y, 7) && nibble_of(x, 8) == nibble_of(y, 8) && nibble_of(x, 9) == nibble_of(
        y,
        9,
    ) && nibble_of(x, 10) == nibble_of(y, 10) && nibble_of(x, 11) == nibble_of(y, 11) && nibble_of(
        x,
        12,
    ) == nibble_of(y, 12) && nibble_of(x, 13) == nibble_of(y, 13) && nibble_of(x, 14) == nibble_of(
        y,
        14,
    ) && nibble_of(x, 15) == nibble_of(y, 15));
    assert(((x >> 60u64) & 0xf == (y >> 60u64) & 0xf && (x >> 56u64) & 0xf == (y >> 56u64) & 0xf
        && (x >> 52u64) & 0xf == (y >> 52u64) & 0xf && (x >> 48u64) & 0xf == (y >> 48u64) & 0xf
        && (x >> 44u64) & 0xf == (y >> 44u64) & 0xf && (x >> 40u64) & 0xf == (y >> 40u64) & 0xf
        && (x >> 36u64) & 0xf == (y >> 36u64) & 0xf && (x >> 32u64) & 0xf == (y >> 32u64) & 0xf
        && (x >> 28u64) & 0xf == (y >> 28u64) & 0xf && (x >> 24u64) & 0xf == (y >> 24u64) & 0xf
        && (x >> 20u64) & 0xf == (y >> 20u64) & 0xf && (x >> 16u64) & 0xf == (y >> 16u64) & 0xf
        && (x >> 12u64) & 0xf == (y >> 12u64) & 0xf && (x >> 8u64) & 0xf == (y >> 8u64) & 0xf
        && (x >> 4u64) & 0xf == (y >> 4u64) & 0xf && (x >> 0u64) & 0xf == (y >> 0u64) & 0xf) ==> x
        == y) by (bit_vector);
}

/// Appends the hex encoding of `x` to `out`.
pub fn push_hex(out: &mut Vec<u8>, x: u64)
    ensures
        final(out)@ == old(out)@ + hex64(x),
{
    let ghost start = out@;
    let mut i: usize = 0;
    while i < 16
        invariant
            i <= 16,
            out@ == start + hex64(x).take(i as int),
        decreases 16 - i,
    {
        let sh: u64 = (4 * (15 - i)) as u64;
        let d: u64 = (x >> sh) & 0xf;
        proof {
            assert(d == nibble_of(x, i as int));
            lemma_nibble_bound(x, i as int);
        }
        let b: u8 = if d < 10 {
            (48 + d) as u8
        } else {
            (87 + d) as u8
        };
        assert(b == hex_digit(d));
        out.push(b);
        proof {
            assert(hex64(x).take(i as int + 1) =~= hex64(x).take(i as int).push(
                hex_digit(nibble_of(x, i as int)),
            ));
        }
        i = i + 1;
    }
    proof {
        assert(hex64(x).take(16) =~= hex64(x));
    }
}

/// An event credential: opaque ASCII bytes, compared in constant time.
pub struct Token {
    pub bytes: Vec<u8>,
}

impl View for Token {
    type V = Seq<u8>;

    open spec fn view(&self) -> Seq<u8> {
        self.bytes@
    }
}

/// The full byte layout of a token.
pub open spec fn token_bytes(prefix: u8, counter: u64, r1: u64, r2: u64) -> Seq<u8> {
    seq![prefix] + hex64(counter) + hex64(r1) + hex64(r2)
}

/// The shape every stored token has: its tier prefix and the hex-encoded
/// creation counter of its event.  The random segment stays unstated.
pub open spec fn shaped_token(t: Seq<u8>, prefix: u8, counter: u64) -> bool {
    &&& t.len() == TOKEN_LEN
    &&& t[0] == prefix
    &&& t.subrange(1, 17) == hex64(counter)
}

/// Tokens with different tier prefixes differ.
pub proof fn lemma_distinct_prefix(a: Seq<u8>, b: Seq<u8>, pa: u8, pb: u8, ca: u64, cb: u64)
    requires
        shaped_token(a, pa, ca),
        shaped_token(b, pb, cb),
        pa != pb,
    ensures
        a != b,
{
    assert(a[0] != b[0]);
}

/// Tokens minted under different counters differ, whatever the prefixes
/// and random segments hold.
pub proof fn lemma_distinct_counter(a: Seq<u8>, b: Seq<u8>, pa: u8, pb: u8, ca: u64, cb: u64)
    requires
        shaped_token(a, pa, ca),
        shaped_token(b, pb, cb),
        ca != cb,
    ensures
        a != b,
{
    if a == b {
        assert(a.subrange(1, 17) == b.subrange(1, 17));
        lemma_hex64_injective(ca, cb);
    }
}

/// Builds the token with the given segments.
fn make_token(prefix: u8, counter: u64, r1: u64, r2: u64) -> (t: Token)
    ensures
        t@ == token_bytes(prefix, counter, r1, r2),
        shaped_token(t@, prefix, counter),
{
    let mut bytes: Vec<u8> = Vec::new();
    bytes.push(prefix);
    push_hex(&mut bytes, counter);
    push_hex(&mut bytes, r1);
    push_hex(&mut bytes, r2);
    let t = Token { bytes };
    proof {
        assert(t@ =~= token_bytes(prefix, counter, r1, r2));
        assert(t@.subrange(1, 17) =~= hex64(counter));
    }
    t
}

/// Relies on rand::random: one word from the thread-local, cryptographically
/// secure generator.  Nothing is promised of the value.
#[verifier::external_body]
pub(crate) fn random_u64() -> u64 {
    rand::random()
}

/// Mints the credential pair of a new event: a public and a moderator
/// token over the same creation counter, each with its own fresh random
/// segment.  The two always differ.
pub fn fresh_token_pair(counter: u64) -> (pair: (Token, Token))
    ensures
        shaped_token(pair.0@, PUBLIC_PREFIX, counter),
        shaped_token(pair.1@, MODERATOR_PREFIX, counter),
        pair.0@ != pair.1@,
{
    let public = make_token(PUBLIC_PREFIX, counter, random_u64(), random_u64());
    let moderator = make_token(MODERATOR_PREFIX, counter, random_u64(), random_u64());
    proof {
        lemma_distinct_prefix(
            public@,
            moderator@,
            PUBLIC_PREFIX,
            MODERATOR_PREFIX,
            counter,
            counter,
        );
    }
    (public, moderator)
}

impl Token {
    /// An identical copy.
    pub fn duplicate(&self) -> (t: Token)
        ensures
            t@ == self@,
    {
        let bytes = self.bytes.clone();
        proof {
            assert(bytes@ =~= self.bytes@);
        }
        Token { bytes }
    }

    /// The raw bytes, for transport layers that print or parse tokens.
    pub fn as_bytes(&self) -> (b: &Vec<u8>)
        ensures
            b@ == self@,
    {
        &self.bytes
    }

    /// Rebuilds a token from transported bytes.
    pub fn from_bytes(bytes: Vec<u8>) -> (t: Token)
        ensures
            t@ == bytes@,
    {
        Token { bytes }
    }

    /// Compares two tokens in constant time over the whole buffer:
    /// the running time depends only on the lengths, never on where
    /// the contents differ.
    pub fn matches(&self, other: &Token) -> (r: bool)
        ensures
            r == (self@ == other@),
    {
        constant_time_eq(&self.bytes, &other.bytes)
    }
}

/// Byte-buffer equality without early exit on a content mismatch.
pub fn constant_time_eq(a: &Vec<u8>, b: &Vec<u8>) -> (r: bool)
    ensures
        r == (a@ == b@),
{
    if a.len() != b.len() {
        return false;
    }
    let mut diff: u8 = 0;
    let mut i: usize = 0;
    while i < a.len()
        invariant
            i <= a.len(),
            a@.len() == b@.len(),
            (diff == 0) <==> (forall|j: int| 0 <= j < i ==> a@[j] == b@[j]),
        decreases a.len() - i,
    {
        let d: u8 = a[i] ^ b[i];
        proof {
            let x: u8 = a@[i as int];
            let y: u8 = b@[i as int];
            assert((x ^ y == 0) <==> x == y) by (bit_vector);
            let acc: u8 = diff;
            assert((acc | d == 0) <==> (acc == 0 && d == 0)) by (bit_vector);
        }
        diff = diff | d;
        i = i + 1;
    }
    if diff == 0 {
        proof {
            assert(a@ =~= b@);
        }
        true
    } else {
        false
    }
}

} // verus!
