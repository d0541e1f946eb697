//! A set of texts.

use vstd::prelude::*;
use crate::text::same_text;

verus! {

/// A set of texts.
pub struct TextSet {
    items: Vec<String>,
}

impl TextSet {
    /// The texts of the set.
    pub closed spec fn view(&self) -> Set<Seq<char>> {
        Set::new(|t: Seq<char>| exists|i: int| 0 <= i < self.items@.len() && self.items@[i]@ == t)
    }

    /// The empty set.
    pub fn new() -> (r: TextSet)
        ensures
            r.view() == Set::<Seq<char>>::empty(),
    {
        let r = TextSet { items: Vec::new() };
        assert(r.view() =~= Set::<Seq<char>>::empty());
        r
    }

    /// Whether a text is in the set.
    pub fn contains(&self, t: &str) -> (r: bool)
        ensures
            r == self.view().contains(t@),
    {
        let mut i: usize = 0;
        while i < self.items.len()
            invariant
                i <= self.items@.len(),
                forall|k: int| 0 <= k < i ==> (#[trigger] self.items@[k])@ != t@,
            decreases self.items.len() - i,
        {
            if same_text(self.items[i].as_str(), t) {
                return true;
            }
            i = i + 1;
        }
        false
    }

    /// Puts a text into the set; whether it was not there before.
    pub fn insert(&mut self, t: String) -> (r: bool)
        ensures
            final(self).view() == old(self).view().insert(t@),
            r == !old(self).view().contains(t@),
    {
        let ghost before = self.view();
        if self.contains(t.as_str()) {
            assert(before.insert(t@) =~= before);
            return false;
        }
        let ghost items = self.items@;
        self.items.push(t);
        assert forall|x: Seq<char>| self.view().contains(x) <==> before.insert(t@).contains(x) by {
            if before.contains(x) {
                let i = choose|i: int| 0 <= i < items.len() && items[i]@ == x;
                assert(self.items@[i]@ == x);
            }
            assert(self.items@[items.len() as int]@ == t@);
            if self.view().contains(x) && x != t@ {
                let i = choose|i: int| 0 <= i < self.items@.len() && self.items@[i]@ == x;
                assert(items[i]@ == x);
            }
        }
        assert(self.view() =~= before.insert(t@));
        true
    }

    /// Takes a text out of the set, if it is there.
    pub fn remove(&mut self, t: &str)
        ensures
            final(self).view() == old(self).view().remove(t@),
    {
        let ghost before = self.view();
        let ghost old_items = self.items@;
        let mut source: Vec<String> = Vec::new();
        std::mem::swap(&mut source, &mut self.items);
        let mut kept: Vec<String> = Vec::new();
        for s in it: source
            invariant
                it.seq() == old_items,
                forall|k: int|
                    0 <= k < it.index() && (#[trigger] old_items[k])@ != t@ ==> exists|j: int|
                        0 <= j < kept@.len() && (#[trigger] kept@[j])@ == old_items[k]@,
                forall|j: int|
                    0 <= j < kept@.len() ==> (#[trigger] kept@[j])@ != t@ && exists|k: int|
                        0 <= k < old_items.len() && (#[trigger] old_items[k])@ == kept@[j]@,
        {
            let ghost n = it.index() as int;
            if !same_text(s.as_str(), t) {
                let ghost before_push = kept@;
                kept.push(s);
                proof {
                    assert(kept@[before_push.len() as int]@ == old_items[n]@);
                    assert forall|k: int| 0 <= k < n + 1 && (#[trigger] old_items[k])@
                        != t@ implies exists|j: int|
                        0 <= j < kept@.len() && (#[trigger] kept@[j])@ == old_items[k]@ by {
                        if k < n {
                            let j = choose|j: int|
                                0 <= j < before_push.len() && (#[trigger] before_push[j])@
                                    == old_items[k]@;
                            assert(kept@[j]@ == old_items[k]@);
                        }
                    }
                }
            }
        }
        self.items = kept;
        assert forall|x: Seq<char>| self.view().contains(x) <==> before.remove(t@).contains(x) by {
            if before.contains(x) && x != t@ {
                let k = choose|k: int| 0 <= k < old_items.len() && old_items[k]@ == x;
                let j = choose|j: int| 0 <= j < self.items@.len() && (#[trigger] self.items@[j])@ == old_items[k]@;
                assert(self.items@[j]@ == x);
            }
            if self.view().contains(x) {
                let j = choose|j: int| 0 <= j < self.items@.len() && self.items@[j]@ == x;
                let k = choose|k: int| 0 <= k < old_items.len() && (#[trigger] old_items[k])@ == self.items@[j]@;
                assert(old_items[k]@ == x);
            }
        }
        assert(self.view() =~= before.remove(t@));
    }
}

} // verus!
