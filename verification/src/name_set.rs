//! Finite sets of names, kept as lists so that they can be walked and copied.

use vstd::prelude::*;

verus! {

/// A finite set of names.
#[derive(Debug)]
pub struct NameSet {
    pub names: Vec<String>,
}

/// Whether `name` is the text of one of the strings in `names`.
pub open spec fn holds_name(names: Seq<String>, name: Seq<char>) -> bool {
    exists|i: int| 0 <= i < names.len() && #[trigger] names[i]@ == name
}

/// The names among the first `i + 1` strings are the text of the string at
/// `i` and the names among the first `i`.
pub proof fn lemma_holds_one_more(names: Seq<String>, i: int)
    requires
        0 <= i < names.len(),
    ensures
        forall|s: Seq<char>|
            holds_name(names.take(i + 1), s) <==> (s == names[i]@ || holds_name(names.take(i), s)),
{
    let seen = names.take(i);
    let seen_after = names.take(i + 1);
    assert forall|s: Seq<char>|
        holds_name(seen_after, s) <==> (s == names[i]@ || holds_name(seen, s)) by {
        if holds_name(seen, s) {
            let k = choose|k: int| 0 <= k < seen.len() && #[trigger] seen[k]@ == s;
            assert(seen_after[k]@ == s);
        }
        if s == names[i]@ {
            assert(seen_after[i]@ == s);
        }
        if holds_name(seen_after, s) {
            let k = choose|k: int| 0 <= k < seen_after.len() && #[trigger] seen_after[k]@ == s;
            if k < i {
                assert(seen[k]@ == s);
            }
        }
    }
}

impl NameSet {
    /// The set of names, each as its text.
    pub open spec fn view(&self) -> Set<Seq<char>> {
        Set::new(|name: Seq<char>| holds_name(self.names@, name))
    }

    /// The empty set.
    pub fn new() -> (r: NameSet)
        ensures
            r@ == Set::<Seq<char>>::empty(),
    {
        let r = NameSet { names: Vec::new() };
        assert(r@ =~= Set::<Seq<char>>::empty());
        r
    }

    /// Whether `name` is in the set.
    pub fn contains(&self, name: &String) -> (r: bool)
        ensures
            r == self@.contains(name@),
    {
        let mut i: usize = 0;
        while i < self.names.len()
            invariant
                i <= self.names@.len(),
                forall|k: int| 0 <= k < i ==> (#[trigger] self.names@[k])@ != name@,
            decreases self.names@.len() - i,
        {
            if self.names[i] == *name {
                return true;
            }
            i += 1;
        }
        false
    }

    /// Adds `name` to the set.
    pub fn insert(&mut self, name: String)
        ensures
            final(self)@ == old(self)@.insert(name@),
    {
        if !self.contains(&name) {
            let ghost before = self.names@;
            self.names.push(name);
            assert forall|s: Seq<char>| holds_name(self.names@, s) <==> (s == name@ || holds_name(
                before,
                s,
            )) by {
                if holds_name(before, s) {
                    let i = choose|i: int| 0 <= i < before.len() && #[trigger] before[i]@ == s;
                    assert(self.names@[i]@ == s);
                }
                if s == name@ {
                    assert(self.names@[before.len() as int]@ == s);
                }
            }
            assert(self@ =~= old(self)@.insert(name@));
        } else {
            assert(self@ =~= old(self)@.insert(name@));
        }
    }

    /// Takes `name` out of the set.
    pub fn remove(&mut self, name: &String)
        ensures
            final(self)@ == old(self)@.remove(name@),
    {
        let mut kept: Vec<String> = Vec::new();
        let mut i: usize = 0;
        while i < self.names.len()
            invariant
                i <= self.names@.len(),
                self.names@ == old(self).names@,
                forall|s: Seq<char>|
                    #![trigger holds_name(kept@, s)]
                    holds_name(kept@, s) <==> (s != name@ && holds_name(
                        self.names@.take(i as int),
                        s,
                    )),
            decreases self.names@.len() - i,
        {
            let ghost kept_before = kept@;
            let ghost seen = self.names@.take(i as int);
            let ghost seen_after = self.names@.take(i + 1);
            let ghost cur = self.names@[i as int]@;
            if self.names[i] != *name {
                kept.push(self.names[i].clone());
            }
            proof {
                lemma_holds_one_more(self.names@, i as int);
                assert forall|s: Seq<char>|
                    #![trigger holds_name(kept@, s)]
                    holds_name(kept@, s) <==> (s != name@ && holds_name(seen_after, s)) by {
                    assert(holds_name(kept_before, s) <==> (s != name@ && holds_name(seen, s)));
                    if holds_name(kept_before, s) {
                        let k = choose|k: int|
                            0 <= k < kept_before.len() && #[trigger] kept_before[k]@ == s;
                        assert(kept@[k]@ == s);
                    }
                    if s == cur && cur != name@ {
                        assert(kept@[kept_before.len() as int]@ == s);
                    }
                    if holds_name(kept@, s) {
                        let k = choose|k: int| 0 <= k < kept@.len() && #[trigger] kept@[k]@ == s;
                        if k < kept_before.len() {
                            assert(kept_before[k]@ == s);
                        }
                    }
                }
            }
            i += 1;
        }
        assert(self.names@.take(i as int) == self.names@);
        self.names = kept;
        assert(self@ =~= old(self)@.remove(name@));
    }

    /// Takes every name of `other` out of the set.
    pub fn remove_all(&mut self, other: &NameSet)
        ensures
            final(self)@ == old(self)@.difference(other@),
    {
        let mut i: usize = 0;
        while i < other.names.len()
            invariant
                i <= other.names@.len(),
                forall|s: Seq<char>|
                    self@.contains(s) <==> (old(self)@.contains(s) && !holds_name(
                        other.names@.take(i as int),
                        s,
                    )),
            decreases other.names@.len() - i,
        {
            let ghost seen = other.names@.take(i as int);
            let ghost seen_after = other.names@.take(i + 1);
            let ghost cur = other.names@[i as int]@;
            self.remove(&other.names[i]);
            proof {
                lemma_holds_one_more(other.names@, i as int);
            }
            i += 1;
        }
        assert(other.names@.take(i as int) == other.names@);
        assert(self@ =~= old(self)@.difference(other@));
    }

    /// Adds every name of `other` to the set.
    pub fn insert_all(&mut self, other: &NameSet)
        ensures
            final(self)@ == old(self)@.union(other@),
    {
        let mut i: usize = 0;
        while i < other.names.len()
            invariant
                i <= other.names@.len(),
                forall|s: Seq<char>|
                    self@.contains(s) <==> (old(self)@.contains(s) || holds_name(
                        other.names@.take(i as int),
                        s,
                    )),
            decreases other.names@.len() - i,
        {
            proof {
                lemma_holds_one_more(other.names@, i as int);
            }
            self.insert(other.names[i].clone());
            i += 1;
        }
        assert(other.names@.take(i as int) == other.names@);
        assert(self@ =~= old(self)@.union(other@));
    }

    /// A copy of the set.
    pub fn copy(&self) -> (r: NameSet)
        ensures
            r@ == self@,
    {
        let names = crate::text::clone_strings(&self.names);
        let r = NameSet { names };
        assert forall|s: Seq<char>| holds_name(r.names@, s) <==> holds_name(self.names@, s) by {
            if holds_name(r.names@, s) {
                let k = choose|k: int| 0 <= k < r.names@.len() && #[trigger] r.names@[k]@ == s;
                assert(self.names@[k]@ == s);
            }
            if holds_name(self.names@, s) {
                let k = choose|k: int|
                    0 <= k < self.names@.len() && #[trigger] self.names@[k]@ == s;
                assert(r.names@[k]@ == s);
            }
        }
        assert(r@ =~= self@);
        r
    }
}

} // verus!
