//! A model of the content-addressed blob store.
//!
//! The real store is an external key-value service; the registry core only
//! needs put-with-replace semantics, which this model captures exactly so
//! that the upload steps of the publish pipeline and the index synchronizer
//! can be reasoned about and exercised end to end.

use vstd::prelude::*;

verus! {

/// The blob store: replacing puts over string keys.
pub struct BlobStore {
    pub objects: Vec<(String, Vec<u8>)>,
}

impl View for BlobStore {
    type V = Map<Seq<char>, Seq<u8>>;

    open spec fn view(&self) -> Map<Seq<char>, Seq<u8>> {
        Map::new(
            |k: Seq<char>|
                exists|i: int| 0 <= i < self.objects@.len() && (#[trigger] self.objects@[i]).0@ == k,
            |k: Seq<char>|
                {
                    let i = choose|i: int|
                        0 <= i < self.objects@.len() && (#[trigger] self.objects@[i]).0@ == k;
                    self.objects@[i].1@
                },
        )
    }
}

impl BlobStore {
    /// Pairwise distinctness of the stored keys.
    pub open spec fn wf(self) -> bool {
        forall|i: int, j: int|
            0 <= i < j < self.objects@.len() ==> (#[trigger] self.objects@[i]).0@ != (
            #[trigger] self.objects@[j]).0@
    }

    /// An empty store.
    pub fn new() -> (r: BlobStore)
        ensures
            r.wf(),
            r@ == Map::<Seq<char>, Seq<u8>>::empty(),
    {
        let r = BlobStore { objects: Vec::new() };
        proof {
            assert(r@ =~= Map::<Seq<char>, Seq<u8>>::empty());
        }
        r
    }

    /// Stores the bytes under the key, replacing what was there: the put is
    /// idempotent, so retrying an upload is safe.
    pub fn put(&mut self, key: String, bytes: Vec<u8>)
        requires
            old(self).wf(),
        ensures
            final(self).wf(),
            final(self)@ == old(self)@.insert(key@, bytes@),
    {
        let n = self.objects.len();
        let mut i: usize = 0;
        while i < n
            invariant
                self.wf(),
                *self == *old(self),
                n == self.objects@.len(),
                i <= n,
                forall|j: int| 0 <= j < i ==> (#[trigger] self.objects@[j]).0@ != key@,
            decreases n - i,
        {
            if self.objects[i].0 == key {
                self.objects.set(i, (key, bytes));
                proof {
                    assert forall|p: int, q: int|
                        0 <= p < q < self.objects@.len() implies (#[trigger] self.objects@[p]).0@
                        != (#[trigger] self.objects@[q]).0@ by {
                        assert(old(self).objects@[p].0@ != old(self).objects@[q].0@);
                    }
                    assert(self@ =~= old(self)@.insert(key@, bytes@)) by {
                        assert forall|k: Seq<char>| #![auto] self@.dom().contains(k)
                            == old(self)@.insert(key@, bytes@).dom().contains(k) by {
                            if k == key@ {
                                assert(self.objects@[i as int].0@ == k);
                            } else {
                                if exists|p: int|
                                    0 <= p < old(self).objects@.len() && (
                                    #[trigger] old(self).objects@[p]).0@ == k {
                                    let p = choose|p: int|
                                        0 <= p < old(self).objects@.len() && (
                                        #[trigger] old(self).objects@[p]).0@ == k;
                                    assert(self.objects@[p].0@ == k);
                                } else if exists|p: int|
                                    0 <= p < self.objects@.len() && (
                                    #[trigger] self.objects@[p]).0@ == k {
                                    let p = choose|p: int|
                                        0 <= p < self.objects@.len() && (
                                        #[trigger] self.objects@[p]).0@ == k;
                                    assert(old(self).objects@[p].0@ == k);
                                }
                            }
                        }
                        assert forall|k: Seq<char>| #![auto] self@.dom().contains(k) implies self@[k] == old(self)@.insert(key@, bytes@)[k] by {
                            let p = choose|p: int|
                                0 <= p < self.objects@.len() && (#[trigger] self.objects@[p]).0@
                                    == k;
                            if k == key@ {
                                assert(self.objects@[i as int].0@ == k);
                                assert(p == i as int);
                            } else {
                                assert(p != i as int);
                                assert(old(self).objects@[p].0@ == k);
                                let q = choose|q: int|
                                    0 <= q < old(self).objects@.len() && (
                                    #[trigger] old(self).objects@[q]).0@ == k;
                                assert(q == p);
                            }
                        }
                    }
                }
                return ;
            }
            i = i + 1;
        }
        self.objects.push((key, bytes));
        proof {
            let m = self.objects@.len() - 1;
            assert(self.objects@[m].0@ == key@);
            assert forall|p: int, q: int|
                0 <= p < q < self.objects@.len() implies (#[trigger] self.objects@[p]).0@ != (
                #[trigger] self.objects@[q]).0@ by {
                if q == m {
                    assert(self.objects@[p] == old(self).objects@[p]);
                } else {
                    assert(old(self).objects@[p].0@ != old(self).objects@[q].0@);
                }
            }
            assert(self@ =~= old(self)@.insert(key@, bytes@)) by {
                assert forall|k: Seq<char>| #![auto] self@.dom().contains(k) == old(
                    self,
                )@.insert(key@, bytes@).dom().contains(k) by {
                    if k == key@ {
                        assert(self.objects@[m].0@ == k);
                    } else {
                        if exists|p: int|
                            0 <= p < old(self).objects@.len() && (#[trigger] old(
                                self,
                            ).objects@[p]).0@ == k {
                            let p = choose|p: int|
                                0 <= p < old(self).objects@.len() && (#[trigger] old(
                                    self,
                                ).objects@[p]).0@ == k;
                            assert(self.objects@[p].0@ == k);
                        } else if exists|p: int|
                            0 <= p < self.objects@.len() && (#[trigger] self.objects@[p]).0@
                                == k {
                            let p = choose|p: int|
                                0 <= p < self.objects@.len() && (#[trigger] self.objects@[p]).0@
                                    == k;
                            assert(p != m);
                            assert(old(self).objects@[p].0@ == k);
                        }
                    }
                }
                assert forall|k: Seq<char>| #![auto] self@.dom().contains(k) implies self@[k] == old(self)@.insert(key@, bytes@)[k] by {
                    let p = choose|p: int|
                        0 <= p < self.objects@.len() && (#[trigger] self.objects@[p]).0@ == k;
                    if k == key@ {
                        assert(p == m);
                    } else {
                        assert(p != m);
                        assert(old(self).objects@[p].0@ == k);
                        let q = choose|q: int|
                            0 <= q < old(self).objects@.len() && (#[trigger] old(
                                self,
                            ).objects@[q]).0@ == k;
                        assert(q == p);
                    }
                }
            }
        }
    }

    /// The stored keys, in insertion order.
    pub fn keys(&self) -> (r: Vec<String>)
        ensures
            r@.len() == self.objects@.len(),
            forall|i: int| 0 <= i < r@.len() ==> (#[trigger] r@[i])@ == self.objects@[i].0@,
    {
        let n = self.objects.len();
        let mut r: Vec<String> = Vec::new();
        let mut i: usize = 0;
        while i < n
            invariant
                n == self.objects@.len(),
                i <= n,
                r@.len() == i,
                forall|j: int| 0 <= j < i ==> (#[trigger] r@[j])@ == self.objects@[j].0@,
            decreases n - i,
        {
            r.push(self.objects[i].0.clone());
            i = i + 1;
        }
        r
    }

    /// Looks the key up.
    pub fn get(&self, key: &str) -> (r: Option<&Vec<u8>>)
        requires
            self.wf(),
        ensures
            match r {
                Some(b) => self@.dom().contains(key@) && self@[key@] == b@,
                None => !self@.dom().contains(key@),
            },
    {
        let key_s = String::from_str(key);
        let n = self.objects.len();
        let mut i: usize = 0;
        while i < n
            invariant
                self.wf(),
                key_s@ == key@,
                n == self.objects@.len(),
                i <= n,
                forall|j: int| 0 <= j < i ==> (#[trigger] self.objects@[j]).0@ != key@,
            decreases n - i,
        {
            if self.objects[i].0 == key_s {
                proof {
                    assert(self.objects@[i as int].0@ == key@);
                    let p = choose|p: int|
                        0 <= p < self.objects@.len() && (#[trigger] self.objects@[p]).0@ == key@;
                    if p < i as int {
                        assert(self.objects@[p].0@ != self.objects@[i as int].0@);
                    } else if p > i as int {
                        assert(self.objects@[i as int].0@ != self.objects@[p].0@);
                    }
                }
                return Some(&self.objects[i].1);
            }
            i = i + 1;
        }
        assert(!self@.dom().contains(key@));
        None
    }
}

} // verus!
