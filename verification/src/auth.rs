//! Credential digest helper: a password is identified by a fixed-width
//! lowercase-hex digest, recomputed wherever a comparison is needed and
//! never stored.

use vstd::prelude::*;
use sha2::Digest;

verus! {

/// The SHA-224 digest of the UTF-8 bytes of a text, as the sha2 crate
/// computes it: a pure function of the characters alone.
pub uninterp spec fn sha224_of(s: Seq<char>) -> Seq<u8>;

/// Relies on sha2's `Sha224` (through `Digest::digest`) applied to the
/// UTF-8 bytes of `s`: the digest depends on the characters alone and
/// is always 28 bytes long.
#[verifier::external_body]
fn sha224_digest(s: &str) -> (r: Vec<u8>)
    ensures
        r@ == sha224_of(s@),
        r@.len() == 28,
{
    sha2::Sha224::digest(s.as_bytes()).to_vec()
}

/// Relies on `String::push`: appends exactly one character.
#[verifier::external_body]
fn push_char(s: &mut String, c: char)
    ensures
        final(s)@ == old(s)@ + seq![c],
{
    s.push(c);
}

/// The sixteen lowercase hex digits, in value order.
pub open spec fn spec_hex_digits() -> Seq<char> {
    seq!['0', '1', '2', '3', '4', '5', '6', '7', '8', '9', 'a', 'b', 'c', 'd', 'e', 'f']
}

/// Whether `c` is a lowercase hex digit.
pub open spec fn is_lower_hex_char(c: char) -> bool {
    exists|j: int| 0 <= j < 16 && c == spec_hex_digits()[j]
}

/// Lowercase-hex encoding of a byte string: two digits per byte, high
/// nibble first.
pub open spec fn spec_to_hex(data: Seq<u8>) -> Seq<char>
    decreases data.len(),
{
    if data.len() == 0 {
        seq![]
    } else {
        seq![
            spec_hex_digits()[data.first() as int / 16],
            spec_hex_digits()[data.first() as int % 16],
        ] + spec_to_hex(data.drop_first())
    }
}

/// A hex encoding is twice as long as its input and holds lowercase
/// hex digits only.
pub proof fn lemma_to_hex_props(data: Seq<u8>)
    ensures
        spec_to_hex(data).len() == 2 * data.len(),
        forall|i: int|
            0 <= i < spec_to_hex(data).len() ==> is_lower_hex_char(spec_to_hex(data)[i]),
    decreases data.len(),
{
    if data.len() == 0 {
    } else {
        let hi = data.first() as int / 16;
        let lo = data.first() as int % 16;
        assert(0 <= hi < 16 && 0 <= lo < 16);
        assert(is_lower_hex_char(spec_hex_digits()[hi]));
        assert(is_lower_hex_char(spec_hex_digits()[lo]));
        lemma_to_hex_props(data.drop_first());
    }
}

/// Lowercase-hex encoding of `data`.
pub fn to_hex(data: &Vec<u8>) -> (r: String)
    ensures
        r@ == spec_to_hex(data@),
{
    let n = data.len();
    let mut out = String::new();
    assert(data@.skip(0) == data@);
    let mut i: usize = 0;
    while i < n
        invariant
            n == data@.len(),
            0 <= i <= n,
            spec_to_hex(data@) =~= out@ + spec_to_hex(data@.skip(i as int)),
        decreases n - i,
    {
        let byte = data[i];
        let hi = byte / 16;
        let lo = byte % 16;
        push_char(&mut out, hex_digit(hi));
        push_char(&mut out, hex_digit(lo));
        assert(data@.skip(i as int).first() == data@[i as int]);
        assert(data@.skip(i as int).drop_first() == data@.skip(i as int + 1));
        i += 1;
    }
    assert(data@.skip(n as int) =~= Seq::<u8>::empty());
    out
}

/// The lowercase hex digit of a nibble.
fn hex_digit(n: u8) -> (c: char)
    requires
        n < 16,
    ensures
        c == spec_hex_digits()[n as int],
{
    match n {
        0 => '0',
        1 => '1',
        2 => '2',
        3 => '3',
        4 => '4',
        5 => '5',
        6 => '6',
        7 => '7',
        8 => '8',
        9 => '9',
        10 => 'a',
        11 => 'b',
        12 => 'c',
        13 => 'd',
        14 => 'e',
        _ => 'f',
    }
}

/// The credential digest of a password: lowercase hex of its SHA-224.
pub open spec fn spec_password_hash(s: Seq<char>) -> Seq<char> {
    spec_to_hex(sha224_of(s))
}

/// Deterministic credential digest: always 56 lowercase hex characters,
/// and a function of the password alone, so equal passwords always
/// yield equal digests.
pub fn password_to_hash(s: &str) -> (r: String)
    ensures
        r@ == spec_password_hash(s@),
        r@.len() == 56,
        forall|i: int| 0 <= i < r@.len() ==> is_lower_hex_char(r@[i]),
{
    let digest = sha224_digest(s);
    let r = to_hex(&digest);
    proof {
        lemma_to_hex_props(digest@);
    }
    r
}

/// Hash determinism: the digest is a mathematical function of the
/// password, so two equal passwords have equal digests.
pub proof fn lemma_hash_deterministic(a: Seq<char>, b: Seq<char>)
    requires
        a == b,
    ensures
        spec_password_hash(a) == spec_password_hash(b),
{
}

} // verus!
