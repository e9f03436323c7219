//! Lyrics already fetched, kept on disk so the same song works offline.
//!
//! One file per recording, holding the LRC exactly as the service sent it.
//! Here is how that file is named; reading and writing it is done outside the
//! library.

use vstd::prelude::*;

use crate::text::{chars_of, decimal, decimal_chars, extend, lowercase, string_of, trim, trimmed, unicode_lowercase};

verus! {

/// FNV-1a's starting value, 64 bits.
pub const FNV_OFFSET: u64 = 0xcbf2_9ce4_8422_2325;

/// FNV-1a's multiplier, 64 bits.
pub const FNV_PRIME: u64 = 0x100_0000_01b3;

/// FNV-1a, 64 bits, of `bytes`: each byte folded in with an exclusive or,
/// then a multiplication that wraps.
pub open spec fn fnv1a(bytes: Seq<u8>) -> u64 {
    fnv_from(FNV_OFFSET, bytes)
}

/// FNV-1a's steps over `bytes`, from the running value `h`.
pub open spec fn fnv_from(h: u64, bytes: Seq<u8>) -> u64
    decreases bytes.len(),
{
    if bytes.len() == 0 {
        h
    } else {
        vstd::wrapping::u64_specs::wrapping_mul(fnv_from(h, bytes.drop_last()) ^ (bytes.last() as u64), FNV_PRIME)
    }
}

proof fn lemma_fnv_concat(h: u64, a: Seq<u8>, b: Seq<u8>)
    ensures
        fnv_from(h, a + b) == fnv_from(fnv_from(h, a), b),
    decreases b.len(),
{
    if b.len() == 0 {
        assert(a + b =~= a);
    } else {
        lemma_fnv_concat(h, a, b.drop_last());
        assert((a + b).drop_last() =~= a + b.drop_last());
        assert((a + b).last() == b.last());
    }
}

/// The bytes that are hashed into a recording's name: artist and title,
/// trimmed and in lower case, and the length in whole seconds when known,
/// each apart from the next by a zero byte.
pub open spec fn key_bytes(artist: Seq<char>, title: Seq<char>, length_secs: Option<u64>) -> Seq<u8> {
    let base = vstd::utf8::encode_utf8(unicode_lowercase(trim(artist))) + seq![0u8]
        + vstd::utf8::encode_utf8(unicode_lowercase(trim(title)));
    match length_secs {
        Some(n) => base + seq![0u8] + vstd::utf8::encode_utf8(decimal(n as nat)),
        None => base,
    }
}

/// The digit that stands for `d` in lower-case hexadecimal.
pub open spec fn hex_char(d: int) -> char {
    if d < 10 {
        (('0' as u32) + d) as char
    } else {
        (('a' as u32) + d - 10) as char
    }
}

/// The last `k` hexadecimal digits of `n`, zeros in front.
pub open spec fn hex_digits(n: nat, k: nat) -> Seq<char>
    decreases k,
{
    if k == 0 {
        Seq::empty()
    } else {
        hex_digits(n / 16, (k - 1) as nat).push(hex_char((n % 16) as int))
    }
}

/// The file name: the hash as sixteen hexadecimal digits, then `.lrc`.
pub open spec fn key_name(artist: Seq<char>, title: Seq<char>, length_secs: Option<u64>) -> Seq<char> {
    hex_digits(fnv1a(key_bytes(artist, title, length_secs)) as nat, 16) + ".lrc"@
}

fn fold_in(hash: u64, bytes: &[u8]) -> (r: u64)
    ensures
        r == fnv_from(hash, bytes@),
{
    let mut h = hash;
    let mut i: usize = 0;
    while i < bytes.len()
        invariant
            i <= bytes@.len(),
            h == fnv_from(hash, bytes@.take(i as int)),
        decreases bytes@.len() - i,
    {
        proof {
            assert(bytes@.take(i + 1).drop_last() =~= bytes@.take(i as int));
        }
        h = (h ^ (bytes[i] as u64)).wrapping_mul(FNV_PRIME);
        i = i + 1;
    }
    assert(bytes@.take(bytes@.len() as int) =~= bytes@);
    h
}

fn hex(n: u64, k: usize) -> (r: Vec<char>)
    ensures
        r@ == hex_digits(n as nat, k as nat),
    decreases k,
{
    if k == 0 {
        Vec::new()
    } else {
        let mut v = hex(n / 16, k - 1);
        let d = n % 16;
        let c = if d < 10 {
            char_of_digit(d)
        } else {
            char_of_letter(d - 10)
        };
        v.push(c);
        v
    }
}

fn char_of_digit(d: u64) -> (c: char)
    requires
        d < 10,
    ensures
        c == hex_char(d as int),
{
    let v = decimal_chars(d);
    assert(v@.len() == 1);
    v[0]
}

fn char_of_letter(d: u64) -> (c: char)
    requires
        d < 6,
    ensures
        c == hex_char(d + 10),
{
    if d == 0 {
        'a'
    } else if d == 1 {
        'b'
    } else if d == 2 {
        'c'
    } else if d == 3 {
        'd'
    } else if d == 4 {
        'e'
    } else {
        'f'
    }
}

/// Names the file for a recording.
///
/// The length is part of the name on purpose: a live version and the album
/// one share artist and title, and they are not the same lyrics. FNV-1a
/// rather than the standard hasher, which may change between releases.
pub fn key(artist: &str, title: &str, length_secs: Option<u64>) -> (r: String)
    ensures
        r@ == key_name(artist@, title@, length_secs),
{
    let a = string_of(lowercase(trimmed(chars_of(artist).as_slice()).as_slice()).as_slice());
    let t = string_of(lowercase(trimmed(chars_of(title).as_slice()).as_slice()).as_slice());
    let zero: [u8; 1] = [0u8];
    let ab = a.as_str().as_bytes();
    let tb = t.as_str().as_bytes();
    let mut h = fold_in(FNV_OFFSET, ab);
    let ghost acc = ab@;
    h = fold_in(h, zero.as_slice());
    proof {
        lemma_fnv_concat(FNV_OFFSET, acc, zero@);
        acc = acc + zero@;
    }
    h = fold_in(h, tb);
    proof {
        lemma_fnv_concat(FNV_OFFSET, acc, tb@);
        acc = acc + tb@;
    }
    match length_secs {
        Some(n) => {
            h = fold_in(h, zero.as_slice());
            proof {
                lemma_fnv_concat(FNV_OFFSET, acc, zero@);
                acc = acc + zero@;
            }
            let d = string_of(decimal_chars(n).as_slice());
            let db = d.as_str().as_bytes();
            h = fold_in(h, db);
            proof {
                lemma_fnv_concat(FNV_OFFSET, acc, db@);
                acc = acc + db@;
            }
        },
        None => {},
    }
    assert(acc =~= key_bytes(artist@, title@, length_secs));
    assert(h == fnv1a(acc));
    let mut out = hex(h, 16);
    extend(&mut out, chars_of(".lrc").as_slice());
    string_of(out.as_slice())
}

/// Spelling is not a different recording: the same artist and title, up to
/// the whitespace around them and their case, with the same length, get the
/// same file.
pub proof fn law_the_same_recording_gets_the_same_name(
    artist1: Seq<char>,
    artist2: Seq<char>,
    title1: Seq<char>,
    title2: Seq<char>,
    length_secs: Option<u64>,
)
    requires
        unicode_lowercase(trim(artist1)) == unicode_lowercase(trim(artist2)),
        unicode_lowercase(trim(title1)) == unicode_lowercase(trim(title2)),
    ensures
        key_name(artist1, title1, length_secs) == key_name(artist2, title2, length_secs),
{
    assert(key_bytes(artist1, title1, length_secs) == key_bytes(artist2, title2, length_secs));
}

/// The title is always part of what is hashed, length or no length: the
/// bytes of a recording start with its trimmed, lower-cased artist, a zero
/// byte and its trimmed, lower-cased title, and without a length that is all
/// of them.
pub proof fn law_the_title_is_always_hashed(artist: Seq<char>, title: Seq<char>, length_secs: Option<u64>)
    ensures
        ({
            let head = vstd::utf8::encode_utf8(unicode_lowercase(trim(artist))) + seq![0u8]
                + vstd::utf8::encode_utf8(unicode_lowercase(trim(title)));
            &&& key_bytes(artist, title, length_secs).len() >= head.len()
            &&& key_bytes(artist, title, length_secs).subrange(0, head.len() as int) == head
            &&& length_secs is None ==> key_bytes(artist, title, length_secs) == head
        }),
{
    let head = vstd::utf8::encode_utf8(unicode_lowercase(trim(artist))) + seq![0u8]
        + vstd::utf8::encode_utf8(unicode_lowercase(trim(title)));
    assert(key_bytes(artist, title, length_secs).subrange(0, head.len() as int) =~= head);
}

proof fn lemma_decimal_nonempty(n: nat)
    ensures
        decimal(n).len() >= 1,
{
}

proof fn lemma_encode_nonempty(c: Seq<char>)
    requires
        c.len() >= 1,
    ensures
        vstd::utf8::encode_utf8(c).len() >= 1,
{
    assert(vstd::utf8::encode_scalar(c[0] as u32).len() >= 1);
}

/// A known length is part of what is hashed too: it adds a zero byte and at
/// least one digit after the title.
pub proof fn law_a_known_length_is_hashed(artist: Seq<char>, title: Seq<char>, length_secs: u64)
    ensures
        key_bytes(artist, title, Some(length_secs)).len() > key_bytes(artist, title, None).len() + 1,
        key_bytes(artist, title, Some(length_secs)).subrange(
            0,
            key_bytes(artist, title, None).len() as int,
        ) == key_bytes(artist, title, None),
        key_bytes(artist, title, Some(length_secs))[key_bytes(artist, title, None).len() as int] == 0u8,
{
    let base = key_bytes(artist, title, None);
    let d = decimal(length_secs as nat);
    lemma_decimal_nonempty(length_secs as nat);
    lemma_encode_nonempty(d);
    assert(key_bytes(artist, title, Some(length_secs)).subrange(0, base.len() as int) =~= base);
}

} // verus!
