//! The key-mapping table: which chord each trigger (a keyboard key, named by
//! its character) plays.
use vstd::prelude::*;
use crate::pitch::ChordId;
use crate::scale::{Scale, diatonic_chord_at, diatonic_chords};

verus! {

/// Position of `k` among the default triggers Z X C V B N M, which play the
/// seven diatonic chords in scale-degree order; -1 for any other key.
pub open spec fn default_trigger_index(k: char) -> int {
    if k == 'Z' { 0 }
    else if k == 'X' { 1 }
    else if k == 'C' { 2 }
    else if k == 'V' { 3 }
    else if k == 'B' { 4 }
    else if k == 'N' { 5 }
    else if k == 'M' { 6 }
    else { -1 }
}

/// The default mapping of `scale`: each default trigger plays the diatonic
/// chord of its degree, and no other key is mapped.
pub open spec fn default_mapping(scale: Scale) -> Map<char, ChordId> {
    Map::new(
        |k: char| default_trigger_index(k) >= 0,
        |k: char| {
            let d = diatonic_chord_at(scale, default_trigger_index(k) as nat);
            ChordId { root: d.root, quality: d.quality }
        },
    )
}

/// A table from trigger to chord identity.
pub struct KeyMappings {
    entries: Vec<(char, ChordId)>,
}

impl KeyMappings {
    /// Keys are unique and every chord is well formed.
    pub closed spec fn wf(&self) -> bool {
        &&& forall|i: int, j: int|
            0 <= i < self.entries@.len() && 0 <= j < self.entries@.len()
                && #[trigger] self.entries@[i].0 == #[trigger] self.entries@[j].0 ==> i == j
        &&& forall|i: int| 0 <= i < self.entries@.len() ==> (#[trigger] self.entries@[i]).1.wf()
    }

    spec fn has_key(&self, k: char) -> bool {
        exists|i: int| 0 <= i < self.entries@.len() && #[trigger] self.entries@[i].0 == k
    }

    spec fn value_of(&self, k: char) -> ChordId {
        self.entries@[choose|i: int| 0 <= i < self.entries@.len() && #[trigger] self.entries@[i].0 == k].1
    }

    /// The table as a map from trigger to chord.
    pub closed spec fn view(&self) -> Map<char, ChordId> {
        Map::new(|k: char| self.has_key(k), |k: char| self.value_of(k))
    }

    proof fn lemma_entry(&self, i: int)
        requires
            self.wf(),
            0 <= i < self.entries@.len(),
        ensures
            self.view().contains_key(self.entries@[i].0),
            self.view()[self.entries@[i].0] == self.entries@[i].1,
    {
        let k = self.entries@[i].0;
        assert(self.has_key(k));
        let j = choose|j: int| 0 <= j < self.entries@.len() && #[trigger] self.entries@[j].0 == k;
        assert(self.entries@[j].0 == self.entries@[i].0);
    }

    /// Every chord of a well-formed table is well formed.
    pub proof fn lemma_values_wf(&self)
        requires
            self.wf(),
        ensures
            forall|k: char| #[trigger] self.view().contains_key(k) ==> self.view()[k].wf(),
    {
        assert forall|k: char| #[trigger] self.view().contains_key(k) implies self.view()[k].wf() by {
            let i = choose|i: int| 0 <= i < self.entries@.len() && #[trigger] self.entries@[i].0 == k;
            self.lemma_entry(i);
        }
    }

    /// A table that maps no trigger.
    pub fn new() -> (r: KeyMappings)
        ensures
            r.wf(),
            r.view() == Map::<char, ChordId>::empty(),
    {
        let r = KeyMappings { entries: Vec::new() };
        assert(r.view() =~= Map::<char, ChordId>::empty());
        r
    }

    /// The chord that `k` plays, if it is mapped.
    pub fn get(&self, k: char) -> (r: Option<ChordId>)
        requires
            self.wf(),
        ensures
            r == if self.view().contains_key(k) { Some(self.view()[k]) } else { None::<ChordId> },
    {
        let mut i: usize = 0;
        while i < self.entries.len()
            invariant
                self.wf(),
                i <= self.entries@.len(),
                forall|j: int| 0 <= j < i ==> (#[trigger] self.entries@[j]).0 != k,
            decreases self.entries@.len() - i,
        {
            if self.entries[i].0 == k {
                proof { self.lemma_entry(i as int); }
                return Some(self.entries[i].1);
            }
            i = i + 1;
        }
        None
    }

    /// Maps `k` to `chord`, replacing what `k` played before.
    pub fn set(&mut self, k: char, chord: ChordId)
        requires
            old(self).wf(),
            chord.wf(),
        ensures
            final(self).wf(),
            final(self).view() == old(self).view().insert(k, chord),
    {
        let ghost pre = *self;
        let mut i: usize = 0;
        while i < self.entries.len()
            invariant
                *self == pre,
                pre == *old(self),
                pre.wf(),
                chord.wf(),
                i <= self.entries@.len(),
                forall|j: int| 0 <= j < i ==> (#[trigger] self.entries@[j]).0 != k,
            decreases self.entries@.len() - i,
        {
            if self.entries[i].0 == k {
                self.entries.set(i, (k, chord));
                proof {
                    assert forall|j: int| 0 <= j < self.entries@.len() implies
                        (#[trigger] self.entries@[j]).0 == pre.entries@[j].0 by {}
                    assert(self.wf());
                    assert forall|c: char| #[trigger] self.view().contains_key(c)
                        <==> pre.view().insert(k, chord).contains_key(c) by {
                        if pre.has_key(c) {
                            let j = choose|j: int| 0 <= j < pre.entries@.len() && #[trigger] pre.entries@[j].0 == c;
                            assert(self.entries@[j].0 == c);
                        }
                        if c == k {
                            assert(self.entries@[i as int].0 == c);
                        }
                    }
                    assert forall|c: char| #[trigger] self.view().contains_key(c) implies
                        self.view()[c] == pre.view().insert(k, chord)[c] by {
                        let j = choose|j: int| 0 <= j < self.entries@.len() && #[trigger] self.entries@[j].0 == c;
                        self.lemma_entry(j);
                        if j != i {
                            pre.lemma_entry(j);
                        }
                    }
                    assert(self.view() =~= pre.view().insert(k, chord));
                }
                return;
            }
            i = i + 1;
        }
        self.entries.push((k, chord));
        proof {
            let n = pre.entries@.len() as int;
            assert(self.entries@[n].0 == k);
            assert forall|j: int| 0 <= j < n implies (#[trigger] self.entries@[j]) == pre.entries@[j] by {}
            assert(self.wf());
            assert forall|c: char| #[trigger] self.view().contains_key(c)
                <==> pre.view().insert(k, chord).contains_key(c) by {
                if pre.has_key(c) {
                    let j = choose|j: int| 0 <= j < pre.entries@.len() && #[trigger] pre.entries@[j].0 == c;
                    assert(self.entries@[j].0 == c);
                }
                if self.has_key(c) && c != k {
                    let j = choose|j: int| 0 <= j < self.entries@.len() && #[trigger] self.entries@[j].0 == c;
                    assert(pre.entries@[j].0 == c);
                }
            }
            assert forall|c: char| #[trigger] self.view().contains_key(c) implies
                self.view()[c] == pre.view().insert(k, chord)[c] by {
                let j = choose|j: int| 0 <= j < self.entries@.len() && #[trigger] self.entries@[j].0 == c;
                self.lemma_entry(j);
                if j != n {
                    pre.lemma_entry(j);
                }
            }
            assert(self.view() =~= pre.view().insert(k, chord));
        }
    }

    /// The default mapping of `scale`: the default triggers Z X C V B N M play
    /// the scale's diatonic chords in degree order.
    pub fn default_for(scale: Scale) -> (r: KeyMappings)
        requires
            scale.wf(),
        ensures
            r.wf(),
            r.view() == default_mapping(scale),
    {
        let diatonics = diatonic_chords(scale);
        let mut r = KeyMappings::new();
        r.set('Z', diatonics[0].chord());
        r.set('X', diatonics[1].chord());
        r.set('C', diatonics[2].chord());
        r.set('V', diatonics[3].chord());
        r.set('B', diatonics[4].chord());
        r.set('N', diatonics[5].chord());
        r.set('M', diatonics[6].chord());
        assert(r.view() =~= default_mapping(scale));
        r
    }
}

} // verus!
