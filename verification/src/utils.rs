//! The set of open windows, and the helper that opens or closes one.

use vstd::prelude::*;

verus! {

/// A set of texts (the titles of the open windows).
pub struct StringSet {
    items: Vec<String>,
}

impl View for StringSet {
    type V = Set<Seq<char>>;

    closed spec fn view(&self) -> Set<Seq<char>> {
        Set::new(|s: Seq<char>| exists|i: int| 0 <= i < self.items@.len() && self.items@[i]@ == s)
    }
}

impl StringSet {
    /// No text is held twice.
    pub closed spec fn wf(self) -> bool {
        forall|i: int, j: int|
            0 <= i < self.items@.len() && 0 <= j < self.items@.len() && i != j ==> self.items@[i]@
                != self.items@[j]@
    }

    /// Number of texts.
    pub closed spec fn spec_len(self) -> nat {
        self.items@.len()
    }

    /// The empty set.
    pub fn new() -> (r: Self)
        ensures
            r.wf(),
            r@ == Set::<Seq<char>>::empty(),
            r.spec_len() == 0,
    {
        let r = StringSet { items: Vec::new() };
        assert(r@ =~= Set::<Seq<char>>::empty());
        r
    }

    /// Position of `key`, if held.
    fn position(&self, key: &str) -> (r: Option<usize>)
        ensures
            match r {
                Some(i) => i < self.items@.len() && self.items@[i as int]@ == key@,
                None => forall|i: int| 0 <= i < self.items@.len() ==> self.items@[i]@ != key@,
            },
    {
        let k = String::from_str(key);
        let n = self.items.len();
        let mut i: usize = 0;
        while i < n
            invariant
                n == self.items@.len(),
                i <= n,
                k@ == key@,
                forall|j: int| 0 <= j < i ==> self.items@[j]@ != key@,
            decreases n - i,
        {
            if self.items[i] == k {
                return Some(i);
            }
            i = i + 1;
        }
        None
    }

    /// Whether `key` is held.
    pub fn contains(&self, key: &str) -> (r: bool)
        ensures
            r == self@.contains(key@),
    {
        match self.position(key) {
            Some(i) => {
                assert(self@.contains(key@));
                true
            },
            None => false,
        }
    }

    /// Adds `key`; returns whether it was missing.
    pub fn insert(&mut self, key: String) -> (r: bool)
        requires
            old(self).wf(),
        ensures
            final(self).wf(),
            final(self)@ == old(self)@.insert(key@),
            r == !old(self)@.contains(key@),
            final(self).spec_len() == old(self).spec_len() + if r { 1int } else { 0int },
    {
        match self.position(key.as_str()) {
            Some(i) => {
                assert(self@.contains(key@));
                assert(self@.insert(key@) =~= self@);
                false
            },
            None => {
                let ghost before = *self;
                assert(!before@.contains(key@));
                self.items.push(key);
                assert(self@ =~= before@.insert(key@)) by {
                    assert forall|s: Seq<char>| #[trigger] self@.contains(s) <==> before@.insert(key@).contains(s) by {
                        if self@.contains(s) {
                            let i = choose|i: int| 0 <= i < self.items@.len() && self.items@[i]@ == s;
                            if i < before.items@.len() {
                                assert(before.items@[i]@ == s);
                            }
                        }
                        if before@.contains(s) {
                            let i = choose|i: int| 0 <= i < before.items@.len() && before.items@[i]@ == s;
                            assert(self.items@[i]@ == s);
                        }
                        if s == key@ {
                            assert(self.items@[before.items@.len() as int]@ == s);
                        }
                    }
                }
                true
            },
        }
    }

    /// Removes `key`; returns whether it was held.
    pub fn remove(&mut self, key: &str) -> (r: bool)
        requires
            old(self).wf(),
        ensures
            final(self).wf(),
            final(self)@ == old(self)@.remove(key@),
            r == old(self)@.contains(key@),
            final(self).spec_len() == old(self).spec_len() - if r { 1int } else { 0int },
    {
        match self.position(key) {
            Some(i) => {
                let ghost before = *self;
                self.items.remove(i);
                assert(self@ =~= before@.remove(key@)) by {
                    assert forall|s: Seq<char>| #[trigger] self@.contains(s) <==> before@.remove(key@).contains(s) by {
                        if self@.contains(s) {
                            let j = choose|j: int| 0 <= j < self.items@.len() && self.items@[j]@ == s;
                            if j < i {
                                assert(before.items@[j]@ == s);
                                assert(j != i);
                            } else {
                                assert(before.items@[j + 1]@ == s);
                            }
                        }
                        if before@.contains(s) && s != key@ {
                            let j = choose|j: int| 0 <= j < before.items@.len() && before.items@[j]@ == s;
                            assert(j != i);
                            if j < i {
                                assert(self.items@[j]@ == s);
                            } else {
                                assert(self.items@[j - 1]@ == s);
                            }
                        }
                    }
                }
                assert(before@.contains(key@));
                true
            },
            None => {
                assert(!self@.contains(key@));
                assert(self@.remove(key@) =~= self@);
                false
            },
        }
    }

    /// Number of texts.
    pub fn len(&self) -> (r: usize)
        requires
            self.wf(),
        ensures
            r == self.spec_len(),
    {
        self.items.len()
    }
}

/// Opens (`is_open`) or closes the window `key` in the set of open windows.
pub fn set_open(open: &mut StringSet, key: &'static str, is_open: bool)
    requires
        old(open).wf(),
    ensures
        final(open).wf(),
        final(open)@ == if is_open { old(open)@.insert(key@) } else { old(open)@.remove(key@) },
{
    if is_open {
        if !open.contains(key) {
            open.insert(String::from_str(key));
        } else {
            assert(open@.insert(key@) =~= open@);
        }
    } else {
        open.remove(key);
    }
}

} // verus!
