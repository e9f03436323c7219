//! Settings: what the user chose, kept as TOML the user can read and edit.
//!
//! Reading and writing the file is done outside the library; here is what the
//! settings hold and the rules for the correction kept per player.

use vstd::prelude::*;

use crate::text::same_text;

verus! {

/// The settings, without the file.
#[derive(Debug)]
pub struct Settings {
    /// Part of a player's bus name, when more than one is running.
    player: Option<String>,
    /// How far above the bottom of the screen the line sits, in pixels.
    bottom_margin: i32,
    font_size: u32,
    /// Manual correction per player, in milliseconds. Positive means the
    /// lyrics run early and have to wait. No player appears twice, and none
    /// with a zero correction.
    offsets: Vec<(String, i64)>,
}

/// The corrections as a map from a player's bus name.
pub open spec fn offsets_map(v: Seq<(String, i64)>) -> Map<Seq<char>, i64>
    decreases v.len(),
{
    if v.len() == 0 {
        Map::empty()
    } else {
        offsets_map(v.drop_last()).insert(v.last().0@, v.last().1)
    }
}

/// No player twice, and no zero correction kept.
pub open spec fn offsets_ok(v: Seq<(String, i64)>) -> bool {
    &&& forall|i: int, j: int| 0 <= i < j < v.len() ==> v[i].0@ != v[j].0@
    &&& forall|i: int| 0 <= i < v.len() ==> v[i].1 != 0
}

proof fn lemma_offsets_map(v: Seq<(String, i64)>)
    requires
        offsets_ok(v),
    ensures
        forall|k: Seq<char>| #[trigger] offsets_map(v).contains_key(k) <==> exists|i: int| 0 <= i < v.len() && v[i].0@ == k,
        forall|i: int| 0 <= i < v.len() ==> #[trigger] offsets_map(v)[v[i].0@] == v[i].1,
    decreases v.len(),
{
    if v.len() > 0 {
        let d = v.drop_last();
        assert(offsets_ok(d)) by {
            assert forall|i: int, j: int| 0 <= i < j < d.len() implies d[i].0@ != d[j].0@ by {
                assert(d[i] == v[i] && d[j] == v[j]);
            }
            assert forall|i: int| 0 <= i < d.len() implies d[i].1 != 0 by {
                assert(d[i] == v[i]);
            }
        }
        lemma_offsets_map(d);
        assert forall|k: Seq<char>| #[trigger] offsets_map(v).contains_key(k) implies exists|i: int|
            0 <= i < v.len() && v[i].0@ == k by {
            if k != v.last().0@ {
                assert(offsets_map(d).contains_key(k));
                let i = choose|i: int| 0 <= i < d.len() && d[i].0@ == k;
                assert(d[i] == v[i]);
            } else {
                assert(v[v.len() - 1].0@ == k);
            }
        }
        assert forall|k: Seq<char>| (exists|i: int| 0 <= i < v.len() && v[i].0@ == k) implies #[trigger] offsets_map(
            v,
        ).contains_key(k) by {
            let i = choose|i: int| 0 <= i < v.len() && v[i].0@ == k;
            if i < v.len() - 1 {
                assert(d[i] == v[i]);
                assert(offsets_map(d).contains_key(k));
            }
        }
        assert forall|i: int| 0 <= i < v.len() implies #[trigger] offsets_map(v)[v[i].0@] == v[i].1 by {
            if i < v.len() - 1 {
                assert(d[i] == v[i]);
                assert(v[i].0@ != v.last().0@);
                assert(offsets_map(d)[d[i].0@] == d[i].1);
            }
        }
    }
}

impl Settings {
    #[verifier::type_invariant]
    spec fn well_formed(self) -> bool {
        offsets_ok(self.offsets@)
    }

    /// The corrections, as a map from a player's bus name.
    pub closed spec fn offsets(&self) -> Map<Seq<char>, i64> {
        offsets_map(self.offsets@)
    }

    pub closed spec fn player_view(&self) -> Option<String> {
        self.player
    }

    pub closed spec fn margin_view(&self) -> i32 {
        self.bottom_margin
    }

    pub closed spec fn font_view(&self) -> u32 {
        self.font_size
    }

    /// Part of a player's bus name, when more than one is running.
    pub fn player(&self) -> (r: &Option<String>)
        ensures
            *r == self.player_view(),
    {
        &self.player
    }

    /// How far above the bottom of the screen the line sits, in pixels.
    pub fn bottom_margin(&self) -> (r: i32)
        ensures
            r == self.margin_view(),
    {
        self.bottom_margin
    }

    pub fn font_size(&self) -> (r: u32)
        ensures
            r == self.font_view(),
    {
        self.font_size
    }

    pub fn set_player(&mut self, player: Option<String>)
        ensures
            final(self).player_view() == player,
            final(self).margin_view() == old(self).margin_view(),
            final(self).font_view() == old(self).font_view(),
            final(self).offsets() == old(self).offsets(),
    {
        proof {
            use_type_invariant(&*self);
        }
        self.player = player;
    }

    pub fn set_bottom_margin(&mut self, bottom_margin: i32)
        ensures
            final(self).player_view() == old(self).player_view(),
            final(self).margin_view() == bottom_margin,
            final(self).font_view() == old(self).font_view(),
            final(self).offsets() == old(self).offsets(),
    {
        proof {
            use_type_invariant(&*self);
        }
        self.bottom_margin = bottom_margin;
    }

    pub fn set_font_size(&mut self, font_size: u32)
        ensures
            final(self).player_view() == old(self).player_view(),
            final(self).margin_view() == old(self).margin_view(),
            final(self).font_view() == font_size,
            final(self).offsets() == old(self).offsets(),
    {
        proof {
            use_type_invariant(&*self);
        }
        self.font_size = font_size;
    }

    /// The corrections, as the file keeps them.
    pub fn offsets_list(&self) -> (r: &Vec<(String, i64)>)
        ensures
            offsets_map(r@) == self.offsets(),
            offsets_ok(r@),
    {
        proof {
            use_type_invariant(self);
        }
        &self.offsets
    }

    /// The settings with these corrections; a zero one, or a player given
    /// again, is left out as `set_offset_ms` would leave it.
    pub fn with_offsets(player: Option<String>, bottom_margin: i32, font_size: u32, offsets: Vec<(String, i64)>) -> (r: Self)
        ensures
            r.player_view() == player,
            r.margin_view() == bottom_margin,
            r.font_view() == font_size,
            forall|k: Seq<char>| #[trigger] r.offsets().contains_key(k) ==> exists|i: int| 0 <= i < offsets@.len() && offsets@[i].0@ == k,
    {
        let mut s = Settings { player, bottom_margin, font_size, offsets: Vec::new() };
        assert(s.offsets() =~= Map::empty());
        let mut i: usize = 0;
        while i < offsets.len()
            invariant
                i <= offsets@.len(),
                s.player_view() == player,
                s.margin_view() == bottom_margin,
                s.font_view() == font_size,
                forall|k: Seq<char>| #[trigger] s.offsets().contains_key(k) ==> exists|j: int| 0 <= j < i && offsets@[j].0@ == k,
            decreases offsets@.len() - i,
        {
            let ghost before = s.offsets();
            s.set_offset_ms(offsets[i].0.as_str(), offsets[i].1);
            assert forall|k: Seq<char>| #[trigger] s.offsets().contains_key(k) implies exists|j: int| 0 <= j < i + 1 && offsets@[j].0@ == k by {
                if k != offsets@[i as int].0@ {
                    assert(before.contains_key(k));
                    let j = choose|j: int| 0 <= j < i && offsets@[j].0@ == k;
                } else {
                    assert(offsets@[i as int].0@ == k);
                }
            }
            i = i + 1;
        }
        s
    }

    /// The correction for one player, by its bus name; none is zero.
    pub fn offset_ms(&self, player: &str) -> (r: i64)
        ensures
            r == if self.offsets().contains_key(player@) {
                self.offsets()[player@]
            } else {
                0
            },
    {
        proof {
            use_type_invariant(self);
            lemma_offsets_map(self.offsets@);
        }
        let mut i: usize = 0;
        while i < self.offsets.len()
            invariant
                i <= self.offsets@.len(),
                offsets_ok(self.offsets@),
                forall|j: int| 0 <= j < i ==> self.offsets@[j].0@ != player@,
            decreases self.offsets@.len() - i,
        {
            if same_text(self.offsets[i].0.as_str(), player) {
                proof {
                    lemma_offsets_map(self.offsets@);
                }
                return self.offsets[i].1;
            }
            i = i + 1;
        }
        proof {
            lemma_offsets_map(self.offsets@);
        }
        0
    }

    /// Sets the correction for one player. Zero removes it: a correction of
    /// nothing is not stored.
    pub fn set_offset_ms(&mut self, player: &str, offset_ms: i64)
        ensures
            final(self).player_view() == old(self).player_view(),
            final(self).margin_view() == old(self).margin_view(),
            final(self).font_view() == old(self).font_view(),
            final(self).offsets() == if offset_ms == 0 {
                old(self).offsets().remove(player@)
            } else {
                old(self).offsets().insert(player@, offset_ms)
            },
    {
        proof {
            use_type_invariant(&*self);
            lemma_offsets_map(self.offsets@);
        }
        let mut list: Vec<(String, i64)> = Vec::new();
        std::mem::swap(&mut list, &mut self.offsets);
        let ghost old_list = list@;
        let mut i: usize = 0;
        while i < list.len() && !same_text(list[i].0.as_str(), player)
            invariant
                i <= list@.len(),
                list@ == old_list,
                forall|j: int| 0 <= j < i ==> list@[j].0@ != player@,
            decreases list@.len() - i,
        {
            i = i + 1;
        }
        if i < list.len() {
            if offset_ms == 0 {
                list.remove(i);
            } else {
                list.set(i, (String::from_str(player), offset_ms));
            }
        } else if offset_ms != 0 {
            list.push((String::from_str(player), offset_ms));
        }
        proof {
            let n = list@;
            assert(offsets_ok(n)) by {
                assert forall|a: int, b: int| 0 <= a < b < n.len() implies n[a].0@ != n[b].0@ by {
                    if i < old_list.len() && offset_ms == 0 {
                        let a0 = if a < i { a } else { a + 1 };
                        let b0 = if b < i { b } else { b + 1 };
                        assert(n[a] == old_list[a0] && n[b] == old_list[b0]);
                    } else if i < old_list.len() {
                        if a != i && b != i {
                            assert(n[a] == old_list[a] && n[b] == old_list[b]);
                        } else if a == i {
                            assert(n[b] == old_list[b]);
                        } else {
                            assert(n[a] == old_list[a]);
                        }
                    } else {
                        if b < old_list.len() {
                            assert(n[a] == old_list[a] && n[b] == old_list[b]);
                        } else {
                            assert(n[a] == old_list[a]);
                        }
                    }
                }
                assert forall|a: int| 0 <= a < n.len() implies n[a].1 != 0 by {
                    if i < old_list.len() && offset_ms == 0 {
                        let a0 = if a < i { a } else { a + 1 };
                        assert(n[a] == old_list[a0]);
                    } else if i < old_list.len() {
                        if a != i {
                            assert(n[a] == old_list[a]);
                        }
                    } else if a < old_list.len() {
                        assert(n[a] == old_list[a]);
                    }
                }
            }
            lemma_offsets_map(n);
            let want = if offset_ms == 0 {
                offsets_map(old_list).remove(player@)
            } else {
                offsets_map(old_list).insert(player@, offset_ms)
            };
            assert forall|k: Seq<char>| #[trigger] offsets_map(n).contains_key(k) <==> want.contains_key(k) by {
                if offsets_map(n).contains_key(k) {
                    let a = choose|a: int| 0 <= a < n.len() && n[a].0@ == k;
                    if i < old_list.len() && offset_ms == 0 {
                        let a0 = if a < i { a } else { a + 1 };
                        assert(n[a] == old_list[a0]);
                    } else if i < old_list.len() && a != i {
                        assert(n[a] == old_list[a]);
                    } else if i == old_list.len() && a < old_list.len() {
                        assert(n[a] == old_list[a]);
                    }
                }
                if want.contains_key(k) && k != player@ {
                    let a = choose|a: int| 0 <= a < old_list.len() && old_list[a].0@ == k;
                    if i < old_list.len() && offset_ms == 0 {
                        if a < i {
                            assert(n[a] == old_list[a]);
                        } else {
                            assert(a != i);
                            assert(n[a - 1] == old_list[a]);
                        }
                    } else {
                        assert(n[a] == old_list[a]);
                    }
                }
                if want.contains_key(k) && k == player@ {
                    if i < old_list.len() {
                        assert(n[i as int].0@ == k);
                    } else {
                        assert(n[n.len() - 1].0@ == k);
                    }
                }
            }
            assert forall|k: Seq<char>| #[trigger] offsets_map(n).contains_key(k) implies offsets_map(n)[k] == want[k] by {
                let a = choose|a: int| 0 <= a < n.len() && n[a].0@ == k;
                assert(offsets_map(n)[n[a].0@] == n[a].1);
                if i < old_list.len() && offset_ms == 0 {
                    let a0 = if a < i { a } else { a + 1 };
                    assert(n[a] == old_list[a0]);
                    assert(offsets_map(old_list)[old_list[a0].0@] == old_list[a0].1);
                } else if i < old_list.len() && a != i {
                    assert(n[a] == old_list[a]);
                    assert(offsets_map(old_list)[old_list[a].0@] == old_list[a].1);
                } else if i == old_list.len() && a < old_list.len() {
                    assert(n[a] == old_list[a]);
                    assert(offsets_map(old_list)[old_list[a].0@] == old_list[a].1);
                }
            }
            assert(offsets_map(n) =~= want);
        }
        self.offsets = list;
    }
}

impl Clone for Settings {
    fn clone(&self) -> (r: Self)
        ensures
            r.player_view() == self.player_view(),
            r.margin_view() == self.margin_view(),
            r.font_view() == self.font_view(),
            r.offsets() == self.offsets(),
    {
        proof {
            use_type_invariant(self);
        }
        let mut offsets: Vec<(String, i64)> = Vec::new();
        let mut i: usize = 0;
        while i < self.offsets.len()
            invariant
                i <= self.offsets@.len(),
                offsets@.len() == i,
                forall|j: int| 0 <= j < i ==> (#[trigger] offsets@[j]).0@ == self.offsets@[j].0@
                    && offsets@[j].1 == self.offsets@[j].1,
            decreases self.offsets@.len() - i,
        {
            offsets.push((self.offsets[i].0.clone(), self.offsets[i].1));
            i = i + 1;
        }
        proof {
            assert(offsets_ok(offsets@)) by {
                assert forall|a: int, b: int| 0 <= a < b < offsets@.len() implies offsets@[a].0@ != offsets@[b].0@ by {
                    assert(offsets@[a].0@ == self.offsets@[a].0@);
                    assert(offsets@[b].0@ == self.offsets@[b].0@);
                }
                assert forall|a: int| 0 <= a < offsets@.len() implies offsets@[a].1 != 0 by {
                    assert(offsets@[a].1 == self.offsets@[a].1);
                }
            }
            lemma_same_offsets(offsets@, self.offsets@);
        }
        let player = match &self.player {
            Some(p) => Some(p.clone()),
            None => None,
        };
        Settings { player, bottom_margin: self.bottom_margin, font_size: self.font_size, offsets }
    }
}

proof fn lemma_same_offsets(a: Seq<(String, i64)>, b: Seq<(String, i64)>)
    requires
        a.len() == b.len(),
        forall|j: int| 0 <= j < a.len() ==> (#[trigger] a[j]).0@ == b[j].0@ && a[j].1 == b[j].1,
    ensures
        offsets_map(a) == offsets_map(b),
    decreases a.len(),
{
    if a.len() > 0 {
        assert forall|j: int| 0 <= j < a.drop_last().len() implies (#[trigger] a.drop_last()[j]).0@ == b.drop_last()[j].0@
            && a.drop_last()[j].1 == b.drop_last()[j].1 by {
            assert(a.drop_last()[j] == a[j]);
            assert(b.drop_last()[j] == b[j]);
        }
        lemma_same_offsets(a.drop_last(), b.drop_last());
    }
}

impl Default for Settings {
    fn default() -> (r: Self)
        ensures
            r.player_view() is None,
            r.margin_view() == 100,
            r.font_view() == 30,
            r.offsets() == Map::<Seq<char>, i64>::empty(),
    {
        let r = Settings { player: None, bottom_margin: 100, font_size: 30, offsets: Vec::new() };
        assert(r.offsets() =~= Map::empty());
        r
    }
}

/// Reading back what was set: the correction just set for a player is the one
/// asked for, and a zero one is not kept.
pub proof fn law_an_offset_reads_back(before: Map<Seq<char>, i64>, player: Seq<char>, offset_ms: i64)
    ensures
        ({
            let after = if offset_ms == 0 {
                before.remove(player)
            } else {
                before.insert(player, offset_ms)
            };
            (if after.contains_key(player) {
                after[player]
            } else {
                0
            }) == offset_ms
        }),
{
}

} // verus!
