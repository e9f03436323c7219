//! Noticing that a newer release exists.
//!
//! Nothing is ever installed here. Someone who installed with `install.sh` has
//! no package manager to tell them, so the program looks once a day and says
//! so in the preferences window. Upgrading stays something they ask for.

use vstd::prelude::*;

use crate::text::{
    chars_of, parse_u64, parse_u64_chars, pieces_view, split_char, split_chars, string_of,
    strip_leading, strip_leading_chars, trim, trimmed,
};

verus! {

/// A version's parts, each read as a number and `0` where it is not one.
pub open spec fn version_parts(version: Seq<char>) -> Seq<u64> {
    split_char(version, '.').map_values(
        |part: Seq<char>| match parse_u64(trim(part)) {
            Some(v) => v,
            None => 0u64,
        },
    )
}

/// `a` comes before `b`, part by part, the shorter first when one is the start
/// of the other: how a `Vec<u64>` is ordered.
pub open spec fn parts_before(a: Seq<u64>, b: Seq<u64>) -> bool
    decreases a.len(),
{
    if a.len() == 0 {
        b.len() > 0
    } else if b.len() == 0 {
        false
    } else if a[0] != b[0] {
        a[0] < b[0]
    } else {
        parts_before(a.drop_first(), b.drop_first())
    }
}

fn parts(version: &str) -> (r: Vec<u64>)
    ensures
        r@ == version_parts(version@),
{
    let pieces = split_chars(chars_of(version).as_slice(), '.');
    let ghost ps = pieces_view(pieces@);
    let mut out: Vec<u64> = Vec::new();
    let mut i: usize = 0;
    while i < pieces.len()
        invariant
            i <= pieces@.len(),
            ps == pieces_view(pieces@),
            ps == split_char(version@, '.'),
            out@ == ps.take(i as int).map_values(
                |part: Seq<char>| match parse_u64(trim(part)) {
                    Some(v) => v,
                    None => 0u64,
                },
            ),
        decreases pieces@.len() - i,
    {
        assert(ps[i as int] == pieces@[i as int]@);
        let v = match parse_u64_chars(trimmed(pieces[i].as_slice()).as_slice()) {
            Some(v) => v,
            None => 0,
        };
        out.push(v);
        i = i + 1;
        assert(out@ =~= ps.take(i as int).map_values(
            |part: Seq<char>| match parse_u64(trim(part)) {
                Some(v) => v,
                None => 0u64,
            },
        ));
    }
    assert(ps.take(pieces@.len() as int) =~= ps);
    out
}

fn before(a: &[u64], b: &[u64]) -> (r: bool)
    ensures
        r == parts_before(a@, b@),
{
    let mut i: usize = 0;
    assert(a@.skip(0) =~= a@);
    assert(b@.skip(0) =~= b@);
    while i < a.len() && i < b.len() && a[i] == b[i]
        invariant
            i <= a@.len(),
            i <= b@.len(),
            parts_before(a@, b@) == parts_before(a@.skip(i as int), b@.skip(i as int)),
        decreases a@.len() - i,
    {
        proof {
            assert(a@.skip(i as int).drop_first() =~= a@.skip(i + 1));
            assert(b@.skip(i as int).drop_first() =~= b@.skip(i + 1));
        }
        i = i + 1;
    }
    proof {
        if i < a@.len() {
            assert(a@.skip(i as int)[0] == a@[i as int]);
        }
        if i < b@.len() {
            assert(b@.skip(i as int)[0] == b@[i as int]);
        }
    }
    if i == a.len() {
        i < b.len()
    } else if i == b.len() {
        false
    } else {
        a[i] < b[i]
    }
}

/// Whether `latest` is a later version than `running`.
pub fn newer(latest: &str, running: &str) -> (r: bool)
    ensures
        r == parts_before(version_parts(running@), version_parts(latest@)),
{
    let l = parts(latest);
    let r = parts(running);
    before(r.as_slice(), l.as_slice())
}

/// No version is newer than itself.
pub proof fn law_a_version_is_not_newer_than_itself(v: Seq<char>)
    ensures
        !parts_before(version_parts(v), version_parts(v)),
{
    lemma_parts_before_irreflexive(version_parts(v));
}

proof fn lemma_parts_before_irreflexive(a: Seq<u64>)
    ensures
        !parts_before(a, a),
    decreases a.len(),
{
    if a.len() > 0 {
        lemma_parts_before_irreflexive(a.drop_first());
    }
}

/// Of two versions, at most one is newer than the other.
pub proof fn law_newer_goes_one_way(a: Seq<char>, b: Seq<char>)
    ensures
        !(parts_before(version_parts(a), version_parts(b)) && parts_before(
            version_parts(b),
            version_parts(a),
        )),
{
    lemma_parts_before_asymmetric(version_parts(a), version_parts(b));
}

proof fn lemma_parts_before_asymmetric(a: Seq<u64>, b: Seq<u64>)
    ensures
        !(parts_before(a, b) && parts_before(b, a)),
    decreases a.len(),
{
    if a.len() > 0 && b.len() > 0 && a[0] == b[0] {
        lemma_parts_before_asymmetric(a.drop_first(), b.drop_first());
    }
}

/// Where the latest release is announced.
pub const RELEASES: &'static str = "https://api.github.com/repos/Julio0Cesar/lyricslens/releases/latest";

/// How long to leave it before looking again, in seconds. A program that sits
/// open all day has no business asking more often than this.
pub const EVERY_SECS: u64 = 86400;

/// What is known of the file that records the last look.
#[derive(Debug, Clone, Copy, PartialEq, Eq, Structural)]
pub enum Stamp {
    /// There is nowhere to keep it: no home directory.
    Nowhere,
    /// It is not there, or its time cannot be read: never asked.
    Missing,
    /// Written this many whole seconds ago, or `None` when the clock says it
    /// was written in the future.
    Age(Option<u64>),
}

/// Whether it is time to ask again.
pub fn due(stamp: Stamp) -> (r: bool)
    ensures
        r == match stamp {
            Stamp::Nowhere => false,
            Stamp::Missing => true,
            Stamp::Age(Some(s)) => s >= EVERY_SECS,
            Stamp::Age(None) => false,
        },
{
    match stamp {
        Stamp::Nowhere => false,
        Stamp::Missing => true,
        Stamp::Age(Some(s)) => s >= EVERY_SECS,
        Stamp::Age(None) => false,
    }
}

/// The release a tag names, when it is newer than `running`: the tag with its
/// leading `v`s taken off.
pub fn newer_release(tag: &str, running: &str) -> (r: Option<String>)
    ensures
        ({
            let latest = strip_leading(tag@, 'v');
            if parts_before(version_parts(running@), version_parts(latest)) {
                r matches Some(v) && v@ == latest
            } else {
                r is None
            }
        }),
{
    let latest = string_of(strip_leading_chars(chars_of(tag).as_slice(), 'v').as_slice());
    if newer(latest.as_str(), running) {
        Some(latest)
    } else {
        None
    }
}

} // verus!
