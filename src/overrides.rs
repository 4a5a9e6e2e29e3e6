//! The override store: at most one pinned toolchain per exact directory.
use vstd::prelude::*;
use crate::text::{same_text, sort_texts, sorted, texts};

verus! {

/// One directory pin: the directory, the toolchain it forces, and why.
pub struct Override {
    pub directory: String,
    pub toolchain: String,
    pub reason: String,
}

/// Directory pins, keyed by the exact directory text.
pub struct OverrideStore {
    entries: Vec<Override>,
}

/// What a directory is pinned to: the toolchain name and the reason.
pub type Pin = (Seq<char>, Seq<char>);

pub open spec fn pin_of(o: Override) -> Pin {
    (o.toolchain@, o.reason@)
}

impl OverrideStore {
    pub closed spec fn entries(&self) -> Seq<Override> {
        self.entries@
    }

    /// No directory is pinned twice.
    pub open spec fn wf(&self) -> bool {
        forall|i: int, j: int|
            0 <= i < self.entries().len() && 0 <= j < self.entries().len() && i != j
                ==> #[trigger] self.entries()[i].directory@ != #[trigger] self.entries()[j].directory@
    }

    /// The pins, as a map from directory to toolchain and reason.
    pub open spec fn view(&self) -> Map<Seq<char>, Pin> {
        Map::new(
            |d: Seq<char>| exists|i: int| 0 <= i < self.entries().len() && #[trigger] self.entries()[i].directory@ == d,
            |d: Seq<char>|
                pin_of(
                    self.entries()[choose|i: int|
                        0 <= i < self.entries().len() && #[trigger] self.entries()[i].directory@ == d],
                ),
        )
    }

    proof fn lemma_entry(&self, i: int)
        requires
            self.wf(),
            0 <= i < self.entries().len(),
        ensures
            self.view().contains_key(self.entries()[i].directory@),
            self.view()[self.entries()[i].directory@] == pin_of(self.entries()[i]),
    {
        let d = self.entries()[i].directory@;
        assert(self.view().dom().contains(d));
        let k = choose|k: int| 0 <= k < self.entries().len() && #[trigger] self.entries()[k].directory@ == d;
        assert(k == i);
    }

    /// A store with no pins.
    pub fn new() -> (r: OverrideStore)
        ensures
            r.wf(),
            r.view() == Map::<Seq<char>, Pin>::empty(),
    {
        let r = OverrideStore { entries: Vec::new() };
        assert(r.view() =~= Map::<Seq<char>, Pin>::empty());
        r
    }

    /// Position of the pin for `directory`, if there is one.
    fn position(&self, directory: &str) -> (r: Option<usize>)
        ensures
            match r {
                Some(i) => i < self.entries().len() && self.entries()[i as int].directory@ == directory@,
                None => forall|i: int| 0 <= i < self.entries().len() ==> #[trigger] self.entries()[i].directory@ != directory@,
            },
    {
        let mut i: usize = 0;
        while i < self.entries.len()
            invariant
                i <= self.entries@.len(),
                forall|j: int| 0 <= j < i ==> #[trigger] self.entries@[j].directory@ != directory@,
            decreases self.entries@.len() - i,
        {
            if same_text(self.entries[i].directory.as_str(), directory) {
                return Some(i);
            }
            i = i + 1;
        }
        None
    }

    /// The toolchain and reason pinned to exactly `directory`, if any.
    pub fn find(&self, directory: &str) -> (r: Option<(String, String)>)
        requires
            self.wf(),
        ensures
            match r {
                Some((t, why)) => self.view().contains_key(directory@) && self.view()[directory@] == (t@, why@),
                None => !self.view().contains_key(directory@),
            },
    {
        match self.position(directory) {
            Some(i) => {
                proof { self.lemma_entry(i as int); }
                let e = &self.entries[i];
                Some((e.toolchain.clone(), e.reason.clone()))
            },
            None => None,
        }
    }

    /// Pins `directory` to `toolchain`, replacing any earlier pin of that directory.
    pub fn set(&mut self, directory: String, toolchain: String, reason: String)
        requires
            old(self).wf(),
        ensures
            final(self).wf(),
            final(self).view() == old(self).view().insert(directory@, (toolchain@, reason@)),
    {
        let ghost d = directory@;
        let ghost p: Pin = (toolchain@, reason@);
        let ghost before = self.view();
        let pos = self.position(directory.as_str());
        let entry = Override { directory, toolchain, reason };
        match pos {
            Some(i) => {
                self.entries.set(i, entry);
            },
            None => {
                self.entries.push(entry);
            },
        }
        proof {
            let es = self.entries();
            let idx: int = match pos { Some(i) => i as int, None => es.len() - 1 };
            assert(es[idx].directory@ == d && pin_of(es[idx]) == p);
            assert forall|i: int| 0 <= i < es.len() && i != idx implies
                #[trigger] es[i] == old(self).entries()[i] && es[i].directory@ != d by {}
            self.lemma_entry(idx);
            assert forall|k: Seq<char>| self.view().contains_key(k) <==> before.insert(d, p).contains_key(k) by {
                if k != d && before.contains_key(k) {
                    let j = choose|j: int| 0 <= j < old(self).entries().len() && #[trigger] old(self).entries()[j].directory@ == k;
                    assert(es[j].directory@ == k);
                }
                if k != d && self.view().contains_key(k) {
                    let j = choose|j: int| 0 <= j < es.len() && #[trigger] es[j].directory@ == k;
                    assert(old(self).entries()[j].directory@ == k);
                }
            }
            assert forall|k: Seq<char>| #[trigger] self.view().contains_key(k) && k != d implies self.view()[k] == before[k] by {
                let j = choose|j: int| 0 <= j < es.len() && #[trigger] es[j].directory@ == k;
                self.lemma_entry(j);
                old(self).lemma_entry(j);
            }
            assert(self.view() =~= before.insert(d, p));
        }
    }

    /// Takes away the pin of `directory`; a directory with no pin is left as it is.
    /// Returns whether a pin was there.
    pub fn remove(&mut self, directory: &str) -> (r: bool)
        requires
            old(self).wf(),
        ensures
            final(self).wf(),
            r == old(self).view().contains_key(directory@),
            final(self).view() == old(self).view().remove(directory@),
    {
        let ghost before = self.view();
        match self.position(directory) {
            Some(i) => {
                proof { self.lemma_entry(i as int); }
                self.entries.remove(i);
                proof {
                    let es = self.entries();
                    let o = old(self).entries();
                    assert forall|j: int| 0 <= j < es.len() implies #[trigger] es[j] == o[if j < i { j } else { j + 1 }] by {}
                    assert forall|a: int, b: int| 0 <= a < es.len() && 0 <= b < es.len() && a != b implies
                        #[trigger] es[a].directory@ != #[trigger] es[b].directory@ by {
                        assert(es[a] == o[if a < i { a } else { a + 1 }]);
                        assert(es[b] == o[if b < i { b } else { b + 1 }]);
                    }
                    assert forall|k: Seq<char>| self.view().contains_key(k) <==> before.remove(directory@).contains_key(k) by {
                        if k != directory@ && before.contains_key(k) {
                            let j = choose|j: int| 0 <= j < o.len() && #[trigger] o[j].directory@ == k;
                            let jj = if j < i { j } else { j - 1 };
                            assert(es[jj] == o[j]);
                        }
                        if self.view().contains_key(k) {
                            let j = choose|j: int| 0 <= j < es.len() && #[trigger] es[j].directory@ == k;
                            assert(es[j] == o[if j < i { j } else { j + 1 }]);
                        }
                    }
                    assert forall|k: Seq<char>| #[trigger] self.view().contains_key(k) implies self.view()[k] == before[k] by {
                        let j = choose|j: int| 0 <= j < es.len() && #[trigger] es[j].directory@ == k;
                        self.lemma_entry(j);
                        old(self).lemma_entry(if j < i { j } else { j + 1 });
                    }
                    assert(self.view() =~= before.remove(directory@));
                }
                true
            },
            None => {
                assert(self.view() =~= before.remove(directory@));
                false
            },
        }
    }

    /// The pinned directories, in lexicographic order.
    pub fn list(&self) -> (r: Vec<String>)
        requires
            self.wf(),
        ensures
            sorted(texts(r@)),
            texts(r@).no_duplicates(),
            r@.len() == self.view().dom().len(),
            forall|d: Seq<char>| self.view().contains_key(d) <==> texts(r@).contains(d),
    {
        let mut dirs: Vec<String> = Vec::new();
        let mut i: usize = 0;
        while i < self.entries.len()
            invariant
                i <= self.entries@.len(),
                dirs@.len() == i,
                forall|j: int| 0 <= j < i ==> #[trigger] dirs@[j]@ == self.entries@[j].directory@,
            decreases self.entries@.len() - i,
        {
            dirs.push(self.entries[i].directory.clone());
            i = i + 1;
        }
        let ghost ds = texts(dirs@);
        assert(ds =~= self.entries@.map_values(|o: Override| o.directory@));
        let r = sort_texts(dirs);
        proof {
            let rs = texts(r@);
            assert forall|d: Seq<char>| self.view().contains_key(d) <==> rs.contains(d) by {
                vstd::seq_lib::to_multiset_contains(rs, d);
                vstd::seq_lib::to_multiset_contains(ds, d);
                if self.view().contains_key(d) {
                    let j = choose|j: int| 0 <= j < self.entries().len() && #[trigger] self.entries()[j].directory@ == d;
                    assert(ds[j] == d);
                }
                if rs.contains(d) {
                    assert(ds.contains(d));
                    let j = choose|j: int| 0 <= j < ds.len() && ds[j] == d;
                    assert(self.entries()[j].directory@ == d);
                }
            }
            assert(ds.no_duplicates()) by {
                assert forall|a: int, b: int| 0 <= a < ds.len() && 0 <= b < ds.len() && a != b implies ds[a] != ds[b] by {
                    assert(self.entries()[a].directory@ != self.entries()[b].directory@);
                }
            }
            ds.lemma_multiset_has_no_duplicates();
            rs.lemma_multiset_has_no_duplicates_conv();
            rs.unique_seq_to_set();
            assert(self.view().dom() =~= rs.to_set());
        }
        r
    }
}

} // verus!
