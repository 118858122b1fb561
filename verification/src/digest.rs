//! Short-path derivation.
//!
//! The short path of a destination is the lowercase hexadecimal encoding of
//! the SHA-512 digest of the destination string: deterministic, fixed-length,
//! and safe to embed in a URL segment without escaping.

use vstd::prelude::*;

use crypto::digest::Digest;

verus! {

/// The SHA-512 digest of the UTF-8 encoding of a character sequence, as a
/// sequence of 64 bytes. The digest is a fixed function of the input alone.
pub uninterp spec fn sha512_of(input: Seq<char>) -> Seq<u8>;

/// Relies on `crypto::sha2::Sha512` through `crypto::digest::Digest`:
/// `input_str` feeds the UTF-8 bytes of `s` into the hash, `result` writes the
/// digest, whose size is 512 bits (64 bytes) for `Sha512`; the digest depends
/// on the input characters alone.
#[verifier::external_body]
fn sha512_raw(s: &str) -> (r: Vec<u8>)
    ensures
        r@ == sha512_of(s@),
        r@.len() == 64,
{
    let mut hasher = crypto::sha2::Sha512::new();
    hasher.input_str(s);
    let mut out: Vec<u8> = vec![0u8; 64];
    hasher.result(&mut out);
    out
}

/// Relies on `String::push`: appends the character to the end of the string.
#[verifier::external_body]
fn push_char(s: &mut String, c: char)
    ensures
        final(s)@ == old(s)@.push(c),
{
    s.push(c);
}

/// The lowercase hexadecimal digit for a value below sixteen.
pub open spec fn hex_char_of(n: int) -> char {
    if n == 0 {
        '0'
    } else if n == 1 {
        '1'
    } else if n == 2 {
        '2'
    } else if n == 3 {
        '3'
    } else if n == 4 {
        '4'
    } else if n == 5 {
        '5'
    } else if n == 6 {
        '6'
    } else if n == 7 {
        '7'
    } else if n == 8 {
        '8'
    } else if n == 9 {
        '9'
    } else if n == 10 {
        'a'
    } else if n == 11 {
        'b'
    } else if n == 12 {
        'c'
    } else if n == 13 {
        'd'
    } else if n == 14 {
        'e'
    } else {
        'f'
    }
}

/// The character is a lowercase hexadecimal digit.
pub open spec fn is_hex_lower(c: char) -> bool {
    ||| c == '0'
    ||| c == '1'
    ||| c == '2'
    ||| c == '3'
    ||| c == '4'
    ||| c == '5'
    ||| c == '6'
    ||| c == '7'
    ||| c == '8'
    ||| c == '9'
    ||| c == 'a'
    ||| c == 'b'
    ||| c == 'c'
    ||| c == 'd'
    ||| c == 'e'
    ||| c == 'f'
}

/// The lowercase hexadecimal encoding of a byte sequence: two digits per
/// byte, high nibble first.
pub open spec fn hex_of(bytes: Seq<u8>) -> Seq<char>
    decreases bytes.len(),
{
    if bytes.len() == 0 {
        Seq::empty()
    } else {
        seq![
            hex_char_of(bytes.first() as int / 16),
            hex_char_of(bytes.first() as int % 16),
        ] + hex_of(bytes.drop_first())
    }
}

/// The short path derived from a destination: the lowercase hexadecimal
/// SHA-512 digest of the destination string.
pub open spec fn path_of(destination: Seq<char>) -> Seq<char> {
    hex_of(sha512_of(destination))
}

/// Every digit `hex_char_of` yields is a lowercase hexadecimal digit.
proof fn lemma_hex_char_of_is_hex(n: int)
    ensures
        is_hex_lower(hex_char_of(n)),
{
}

/// The hexadecimal encoding has two characters per byte, all of them
/// lowercase hexadecimal digits.
pub proof fn lemma_hex_of_shape(bytes: Seq<u8>)
    ensures
        hex_of(bytes).len() == 2 * bytes.len(),
        forall|i: int| 0 <= i < hex_of(bytes).len() ==> is_hex_lower(#[trigger] hex_of(bytes)[i]),
    decreases bytes.len(),
{
    if bytes.len() > 0 {
        lemma_hex_of_shape(bytes.drop_first());
        assert forall|i: int| 0 <= i < hex_of(bytes).len() implies is_hex_lower(
            #[trigger] hex_of(bytes)[i],
        ) by {
            if i == 0 {
                lemma_hex_char_of_is_hex(bytes.first() as int / 16);
            } else if i == 1 {
                lemma_hex_char_of_is_hex(bytes.first() as int % 16);
            } else {
                assert(hex_of(bytes)[i] == hex_of(bytes.drop_first())[i - 2]);
            }
        }
    }
}

/// The exec counterpart of `hex_char_of`.
fn hex_char_exec(n: u8) -> (c: char)
    requires
        n < 16,
    ensures
        c == hex_char_of(n as int),
{
    if n == 0 {
        '0'
    } else if n == 1 {
        '1'
    } else if n == 2 {
        '2'
    } else if n == 3 {
        '3'
    } else if n == 4 {
        '4'
    } else if n == 5 {
        '5'
    } else if n == 6 {
        '6'
    } else if n == 7 {
        '7'
    } else if n == 8 {
        '8'
    } else if n == 9 {
        '9'
    } else if n == 10 {
        'a'
    } else if n == 11 {
        'b'
    } else if n == 12 {
        'c'
    } else if n == 13 {
        'd'
    } else if n == 14 {
        'e'
    } else {
        'f'
    }
}

/// Encode a byte vector as lowercase hexadecimal.
fn hex_lower(bytes: &Vec<u8>) -> (r: String)
    ensures
        r@ == hex_of(bytes@),
{
    let mut r = String::new();
    let n = bytes.len();
    proof {
        assert(bytes@.skip(0) =~= bytes@);
    }
    let mut i: usize = 0;
    while i < n
        invariant
            n == bytes@.len(),
            i <= n,
            hex_of(bytes@) =~= r@ + hex_of(bytes@.skip(i as int)),
        decreases n - i,
    {
        let b = bytes[i];
        let c1 = hex_char_exec(b / 16);
        let c2 = hex_char_exec(b % 16);
        proof {
            assert(bytes@.skip(i as int).first() == bytes@[i as int]);
            assert(bytes@.skip(i as int).drop_first() =~= bytes@.skip(i as int + 1));
        }
        push_char(&mut r, c1);
        push_char(&mut r, c2);
        i = i + 1;
    }
    proof {
        assert(bytes@.skip(n as int) =~= Seq::<u8>::empty());
        assert(r@ =~= hex_of(bytes@));
    }
    r
}

/// Derive the short path for a destination: the lowercase hexadecimal SHA-512
/// digest of the destination string — 128 characters, every one of them a
/// lowercase hexadecimal digit, so the path needs no escaping in a URL.
pub fn digest_path(destination: &str) -> (r: String)
    ensures
        r@ == path_of(destination@),
        r@.len() == 128,
        forall|i: int| 0 <= i < r@.len() ==> is_hex_lower(#[trigger] r@[i]),
{
    let raw = sha512_raw(destination);
    proof {
        lemma_hex_of_shape(sha512_of(destination@));
    }
    hex_lower(&raw)
}

/// Determinism: equal destinations always derive the same short path.
pub proof fn lemma_digest_deterministic(d1: Seq<char>, d2: Seq<char>)
    requires
        d1 == d2,
    ensures
        path_of(d1) == path_of(d2),
{
}

} // verus!
