//! Finding the players on the session bus: which names are players, in what
//! order, which one to follow, and what to call it. Asking the bus is done
//! outside the library.

use vstd::prelude::*;

use crate::text::{
    chars_of, contains, contains_chars, index_of, index_of_char, less_than, slice_vec, starts_with, starts_with_chars,
    string_of, text_lt, lemma_text_lt_irreflexive, lemma_text_lt_total, lemma_text_lt_transitive,
};

verus! {

/// Every MPRIS player owns a bus name starting with this.
pub const PREFIX: &'static str = "org.mpris.MediaPlayer2.";

pub open spec fn names_view(v: Seq<String>) -> Seq<Seq<char>> {
    v.map_values(|s: String| s@)
}

/// In the order of `String`, with nothing out of place.
pub open spec fn sorted(s: Seq<Seq<char>>) -> bool {
    forall|i: int, j: int| 0 <= i < j < s.len() ==> !text_lt(s[j], s[i])
}

/// The players among the names on the bus, in the bus's order.
pub open spec fn players_of(names: Seq<Seq<char>>) -> Seq<Seq<char>> {
    names.filter(|n: Seq<char>| starts_with(n, PREFIX@))
}

/// Bus names of every running player, sorted so the pick is reproducible
/// when nothing is playing: the same names as on the bus, each as often.
pub fn list(names: &[String]) -> (r: Vec<String>)
    ensures
        sorted(names_view(r@)),
        names_view(r@).to_multiset() == players_of(names_view(names@)).to_multiset(),
{
    let prefix = chars_of(PREFIX);
    let ghost all = names_view(names@);
    let ghost p = |n: Seq<char>| starts_with(n, PREFIX@);
    let mut out: Vec<String> = Vec::new();
    let mut i: usize = 0;
    proof {
        reveal(Seq::filter);
        assert(all.take(0).filter(p) =~= Seq::<Seq<char>>::empty());
        assert(names_view(out@) =~= Seq::<Seq<char>>::empty());
    }
    while i < names.len()
        invariant
            i <= names@.len(),
            prefix@ == PREFIX@,
            all == names_view(names@),
            p == (|n: Seq<char>| starts_with(n, PREFIX@)),
            sorted(names_view(out@)),
            names_view(out@).to_multiset() == all.take(i as int).filter(p).to_multiset(),
        decreases names@.len() - i,
    {
        proof {
            assert(all.take(i + 1).drop_last() =~= all.take(i as int));
            assert(all.take(i + 1).last() == names@[i as int]@);
            reveal(Seq::filter);
        }
        let n = chars_of(names[i].as_str());
        if starts_with_chars(n.as_slice(), prefix.as_slice()) {
            insert_sorted(&mut out, string_of(n.as_slice()));
            proof {
                assert(all.take(i + 1).filter(p) == all.take(i as int).filter(p).push(names@[i as int]@));
                vstd::seq_lib::to_multiset_build(all.take(i as int).filter(p), names@[i as int]@);
            }
        } else {
            assert(all.take(i + 1).filter(p) == all.take(i as int).filter(p));
        }
        i = i + 1;
    }
    assert(all.take(names@.len() as int) =~= all);
    out
}

/// Puts `x` in after every name not later than it.
fn insert_sorted(v: &mut Vec<String>, x: String)
    requires
        sorted(names_view(old(v)@)),
    ensures
        sorted(names_view(final(v)@)),
        names_view(final(v)@).to_multiset() == names_view(old(v)@).to_multiset().insert(x@),
{
    let xc = chars_of(x.as_str());
    let mut k: usize = 0;
    while k < v.len() && !less_than(xc.as_slice(), chars_of(v[k].as_str()).as_slice())
        invariant
            k <= v@.len(),
            xc@ == x@,
            v@ == old(v)@,
            forall|j: int| 0 <= j < k ==> !text_lt(x@, (#[trigger] v@[j])@),
        decreases v@.len() - k,
    {
        k = k + 1;
    }
    let ghost before = names_view(v@);
    proof {
        assert forall|j: int| k <= j < before.len() implies text_lt(x@, #[trigger] before[j]) by {
            if k < before.len() {
                assert(text_lt(x@, before[k as int]));
                if j > k {
                    lemma_text_lt_total(before[k as int], before[j]);
                    if text_lt(before[j], before[k as int]) {
                    } else if before[k as int] == before[j] {
                    } else {
                        lemma_text_lt_transitive(x@, before[k as int], before[j]);
                    }
                }
            }
        }
    }
    v.insert(k, x);
    proof {
        let after = names_view(v@);
        assert(after =~= before.insert(k as int, x@));
        assert forall|a: int, b: int| 0 <= a < b < after.len() implies !text_lt(after[b], after[a]) by {
            if a < k && b == k {
                assert(!text_lt(x@, before[a]));
            } else if a == k && b > k {
                assert(text_lt(x@, before[b - 1]));
                if text_lt(before[b - 1], x@) {
                    lemma_text_lt_transitive(x@, before[b - 1], x@);
                    lemma_text_lt_irreflexive(x@);
                }
            } else if a < k && b > k {
                assert(after[a] == before[a] && after[b] == before[b - 1]);
            } else if b < k {
                assert(after[a] == before[a] && after[b] == before[b]);
            } else {
                assert(after[a] == before[a - 1] && after[b] == before[b - 1]);
            }
        }
        vstd::seq_lib::to_multiset_insert(before, k as int, x@);
    }
}

/// Which of the sorted players to follow, given whether each answered
/// `Playing`.
pub fn pick(players: &[String], playing: &[bool]) -> (r: Option<usize>)
    requires
        players@.len() == playing@.len(),
    ensures
        match r {
            Some(k) => k < players@.len() && ((playing@[k as int] && forall|j: int| 0 <= j < k ==> !playing@[j])
                || (k == 0 && forall|j: int| 0 <= j < playing@.len() ==> !playing@[j])),
            None => players@.len() == 0,
        },
{
    let mut i: usize = 0;
    while i < playing.len()
        invariant
            i <= playing@.len(),
            players@.len() == playing@.len(),
            forall|j: int| 0 <= j < i ==> !playing@[j],
        decreases playing@.len() - i,
    {
        if playing[i] {
            return Some(i);
        }
        i = i + 1;
    }
    if players.len() > 0 {
        Some(0)
    } else {
        None
    }
}

/// `org.mpris.MediaPlayer2.firefox.instance_1_1` shortened to `firefox`: past
/// the prefix when there is one, up to the first dot.
pub open spec fn short_of(name: Seq<char>) -> Seq<char> {
    let rest = if starts_with(name, PREFIX@) {
        name.skip(PREFIX@.len() as int)
    } else {
        name
    };
    match index_of(rest, '.') {
        Some(k) => rest.take(k),
        None => rest,
    }
}

pub fn short_name(name: &str) -> (r: String)
    ensures
        r@ == short_of(name@),
{
    let s = chars_of(name);
    let p = chars_of(PREFIX);
    let rest = if starts_with_chars(s.as_slice(), p.as_slice()) {
        let r = slice_vec(s.as_slice(), p.len(), s.len());
        assert(r@ =~= s@.skip(PREFIX@.len() as int));
        r
    } else {
        s
    };
    match index_of_char(rest.as_slice(), '.', 0) {
        Some(k) => {
            proof {
                crate::text::lemma_index_of_from(rest@, '.', 0);
            }
            let r = slice_vec(rest.as_slice(), 0, k);
            assert(r@ =~= rest@.take(k as int));
            string_of(r.as_slice())
        },
        None => string_of(rest.as_slice()),
    }
}

/// The first player whose bus name holds `wanted`: the settings name a player
/// by part of its bus name, for when more than one is running.
pub fn preferred(players: &[String], wanted: &str) -> (r: Option<usize>)
    ensures
        match r {
            Some(k) => k < players@.len() && contains(players@[k as int]@, wanted@) && forall|j: int|
                0 <= j < k ==> !contains(#[trigger] players@[j]@, wanted@),
            None => forall|j: int| 0 <= j < players@.len() ==> !contains(#[trigger] players@[j]@, wanted@),
        },
{
    let w = chars_of(wanted);
    let mut i: usize = 0;
    while i < players.len()
        invariant
            i <= players@.len(),
            w@ == wanted@,
            forall|j: int| 0 <= j < i ==> !contains(#[trigger] players@[j]@, wanted@),
        decreases players@.len() - i,
    {
        if contains_chars(chars_of(players[i].as_str()).as_slice(), w.as_slice()) {
            return Some(i);
        }
        i = i + 1;
    }
    None
}

} // verus!
