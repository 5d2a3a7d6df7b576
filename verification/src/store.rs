use vstd::prelude::*;

use crate::state::{CollectionInfo, CollectionInfoView, PendingInstantiation, PendingInstantiationView};

verus! {

/// One catalog row: a collection record together with the (creator, name)
/// key it is stored under.
pub struct CollectionEntry {
    pub creator: String,
    pub name: String,
    pub info: CollectionInfo,
}

impl CollectionEntry {
    pub open spec fn key(self) -> (Seq<char>, Seq<char>) {
        (self.creator@, self.name@)
    }
}

/// The durable catalog of collections, keyed by (creator identity,
/// collection name). Its mathematical value is the map from keys to
/// collection records; rows with duplicate keys never exist.
pub struct CollectionStore {
    entries: Vec<CollectionEntry>,
}

impl View for CollectionStore {
    type V = Map<(Seq<char>, Seq<char>), CollectionInfoView>;

    closed spec fn view(&self) -> Map<(Seq<char>, Seq<char>), CollectionInfoView> {
        Map::new(
            |k: (Seq<char>, Seq<char>)| exists|i: int| self.has_key_at(k, i),
            |k: (Seq<char>, Seq<char>)| self.entries@[self.index_of(k)].info@,
        )
    }
}

impl CollectionStore {
    spec fn has_key_at(self, k: (Seq<char>, Seq<char>), i: int) -> bool {
        0 <= i < self.entries@.len() && self.entries@[i].key() == k
    }

    spec fn index_of(self, k: (Seq<char>, Seq<char>)) -> int {
        choose|i: int| self.has_key_at(k, i)
    }

    /// No two rows share a key, so the catalog really is a map.
    pub closed spec fn wf(self) -> bool {
        forall|i: int, j: int|
            0 <= i < j < self.entries@.len() ==> (#[trigger] self.entries@[i].key()) != (
            #[trigger] self.entries@[j].key())
    }

    proof fn lemma_index_unique(self, k: (Seq<char>, Seq<char>), i: int)
        requires
            self.wf(),
            self.has_key_at(k, i),
        ensures
            self.index_of(k) == i,
            self@.contains_key(k),
            self@[k] == self.entries@[i].info@,
    {
        assert(exists|j: int| self.has_key_at(k, j));
        let j = self.index_of(k);
        assert(self.has_key_at(k, j));
        if i < j {
            assert(self.entries@[i].key() != self.entries@[j].key());
        } else if j < i {
            assert(self.entries@[j].key() != self.entries@[i].key());
        }
    }

    /// An empty catalog.
    pub fn new() -> (s: Self)
        ensures
            s.wf(),
            s@ == Map::<(Seq<char>, Seq<char>), CollectionInfoView>::empty(),
    {
        let s = CollectionStore { entries: Vec::new() };
        proof {
            assert(s@.dom() =~= Set::<(Seq<char>, Seq<char>)>::empty());
            assert(s@ =~= Map::<(Seq<char>, Seq<char>), CollectionInfoView>::empty());
        }
        s
    }

    fn find(&self, creator: &String, name: &String) -> (r: Option<usize>)
        ensures
            match r {
                Some(i) => self.has_key_at((creator@, name@), i as int),
                None => forall|j: int|
                    0 <= j < self.entries@.len() ==> (#[trigger] self.entries@[j].key()) != (
                    creator@, name@),
            },
    {
        let n: usize = self.entries.len();
        let mut i: usize = 0;
        while i < n
            invariant
                n == self.entries@.len(),
                i <= n,
                forall|j: int|
                    0 <= j < i ==> (#[trigger] self.entries@[j].key()) != (creator@, name@),
            decreases n - i,
        {
            let e = &self.entries[i];
            if e.creator == *creator && e.name == *name {
                return Some(i);
            }
            i = i + 1;
        }
        None
    }

    /// Looks up the record stored under (creator, name), if any.
    pub fn get(&self, creator: &String, name: &String) -> (r: Option<&CollectionInfo>)
        requires
            self.wf(),
        ensures
            match r {
                Some(info) => self@.contains_key((creator@, name@)) && info@ == self@[(
                    creator@,
                    name@,
                )],
                None => !self@.contains_key((creator@, name@)),
            },
    {
        let ghost k = (creator@, name@);
        match self.find(creator, name) {
            Some(i) => {
                proof {
                    self.lemma_index_unique(k, i as int);
                }
                Some(&self.entries[i].info)
            },
            None => {
                proof {
                    if self@.contains_key(k) {
                        let j = choose|j: int| self.has_key_at(k, j);
                        assert(self.has_key_at(k, j));
                    }
                }
                None
            },
        }
    }

    proof fn lemma_view_after_update(pre: Self, post: Self, i: int, v: CollectionInfoView)
        requires
            pre.wf(),
            0 <= i < pre.entries@.len(),
            post.entries@.len() == pre.entries@.len(),
            post.entries@[i].key() == pre.entries@[i].key(),
            post.entries@[i].info@ == v,
            forall|j: int| 0 <= j < pre.entries@.len() && j != i ==> post.entries@[j] == pre.entries@[j],
        ensures
            post.wf(),
            post@ == pre@.insert(pre.entries@[i].key(), v),
    {
        let k = pre.entries@[i].key();
        assert forall|j: int| 0 <= j < post.entries@.len() implies #[trigger] post.entries@[j].key()
            == pre.entries@[j].key() by {
            if j != i {
                assert(post.entries@[j] == pre.entries@[j]);
            }
        }
        assert forall|a: int, b: int| 0 <= a < b < post.entries@.len() implies (
        #[trigger] post.entries@[a].key()) != (#[trigger] post.entries@[b].key()) by {
            assert(pre.entries@[a].key() != pre.entries@[b].key());
        }
        let target = pre@.insert(k, v);
        assert forall|k2: (Seq<char>, Seq<char>)| post@.dom().contains(k2)
            <==> target.dom().contains(k2) by {
            if exists|j: int| post.has_key_at(k2, j) {
                let j = choose|j: int| post.has_key_at(k2, j);
                assert(pre.has_key_at(k2, j));
                pre.lemma_index_unique(k2, j);
            }
            if exists|j: int| pre.has_key_at(k2, j) {
                let j = choose|j: int| pre.has_key_at(k2, j);
                assert(post.has_key_at(k2, j));
            }
            if k2 == k {
                assert(pre.has_key_at(k2, i));
            }
        }
        assert forall|k2: (Seq<char>, Seq<char>)| post@.dom().contains(k2) implies post@[k2]
            == target[k2] by {
            let j = choose|j: int| post.has_key_at(k2, j);
            assert(post.has_key_at(k2, j));
            post.lemma_index_unique(k2, j);
            if k2 == k {
                assert(post.has_key_at(k, i));
                post.lemma_index_unique(k, i);
                assert(post@[k2] == v);
            } else {
                assert(j != i);
                assert(pre.has_key_at(k2, j));
                pre.lemma_index_unique(k2, j);
                assert(post.entries@[j] == pre.entries@[j]);
            }
        }
        assert(post@ =~= target);
    }

    proof fn lemma_view_after_push(pre: Self, post: Self, v: CollectionInfoView)
        requires
            pre.wf(),
            post.entries@.len() == pre.entries@.len() + 1,
            forall|j: int|
                0 <= j < pre.entries@.len() ==> (#[trigger] pre.entries@[j].key())
                    != post.entries@[pre.entries@.len() as int].key(),
            post.entries@[pre.entries@.len() as int].info@ == v,
            forall|j: int| 0 <= j < pre.entries@.len() ==> post.entries@[j] == pre.entries@[j],
        ensures
            post.wf(),
            post@ == pre@.insert(post.entries@[pre.entries@.len() as int].key(), v),
    {
        let n: int = pre.entries@.len() as int;
        let k = post.entries@[n].key();
        assert forall|j: int| 0 <= j < n implies #[trigger] post.entries@[j].key()
            == pre.entries@[j].key() by {
            assert(post.entries@[j] == pre.entries@[j]);
        }
        assert forall|a: int, b: int| 0 <= a < b < post.entries@.len() implies (
        #[trigger] post.entries@[a].key()) != (#[trigger] post.entries@[b].key()) by {
            if b < n {
                assert(pre.entries@[a].key() != pre.entries@[b].key());
            } else {
                assert(b == n);
                assert(pre.entries@[a].key() != post.entries@[n].key());
            }
        }
        let target = pre@.insert(k, v);
        assert forall|k2: (Seq<char>, Seq<char>)| post@.dom().contains(k2)
            <==> target.dom().contains(k2) by {
            if exists|j: int| post.has_key_at(k2, j) {
                let j = choose|j: int| post.has_key_at(k2, j);
                assert(post.has_key_at(k2, j));
                if j < n {
                    assert(pre.has_key_at(k2, j));
                    pre.lemma_index_unique(k2, j);
                } else {
                    assert(k2 == k);
                }
            }
            if exists|j: int| pre.has_key_at(k2, j) {
                let j = choose|j: int| pre.has_key_at(k2, j);
                assert(pre.has_key_at(k2, j));
                assert(post.has_key_at(k2, j));
            }
            if k2 == k {
                assert(post.has_key_at(k2, n));
            }
        }
        assert forall|k2: (Seq<char>, Seq<char>)| post@.dom().contains(k2) implies post@[k2]
            == target[k2] by {
            let j = choose|j: int| post.has_key_at(k2, j);
            assert(post.has_key_at(k2, j));
            post.lemma_index_unique(k2, j);
            if k2 == k {
                assert(post.has_key_at(k, n));
                post.lemma_index_unique(k, n);
                assert(post@[k2] == v);
            } else {
                assert(j != n);
                assert(pre.has_key_at(k2, j));
                pre.lemma_index_unique(k2, j);
                assert(post.entries@[j] == pre.entries@[j]);
            }
        }
        assert(post@ =~= target);
    }

    /// The catalog's rows, for callers that need to walk every collection;
    /// each row's key holds its record in the catalog's mathematical value.
    pub fn rows(&self) -> (r: &Vec<CollectionEntry>)
        requires
            self.wf(),
        ensures
            forall|i: int|
                0 <= i < r@.len() ==> self@.contains_key((#[trigger] r@[i]).key())
                    && self@[r@[i].key()] == r@[i].info@,
    {
        proof {
            assert forall|i: int| 0 <= i < self.entries@.len() implies self@.contains_key(
                (#[trigger] self.entries@[i]).key(),
            ) && self@[self.entries@[i].key()] == self.entries@[i].info@ by {
                self.lemma_index_unique(self.entries@[i].key(), i);
            }
        }
        &self.entries
    }

    /// Writes `info` under (creator, name), replacing any existing record:
    /// exactly the map insertion on the catalog's mathematical value.
    pub fn save(&mut self, creator: String, name: String, info: CollectionInfo)
        requires
            old(self).wf(),
        ensures
            final(self).wf(),
            final(self)@ == old(self)@.insert((creator@, name@), info@),
    {
        let ghost k = (creator@, name@);
        match self.find(&creator, &name) {
            Some(i) => {
                let ghost pre = *self;
                self.entries[i] = CollectionEntry { creator, name, info };
                proof {
                    assert(self.entries@[i as int].key() == pre.entries@[i as int].key());
                    Self::lemma_view_after_update(pre, *self, i as int, info@);
                }
            },
            None => {
                let ghost pre = *self;
                self.entries.push(CollectionEntry { creator, name, info });
                proof {
                    Self::lemma_view_after_push(pre, *self, info@);
                }
            },
        }
    }
}

/// One in-flight creation request together with the correlation token it is
/// stored under.
pub struct PendingEntry {
    pub id: u64,
    pub pending: PendingInstantiation,
}

impl PendingEntry {
    pub open spec fn key(self) -> nat {
        self.id as nat
    }
}

/// The durable table of in-flight creation requests, keyed by correlation
/// token. Its mathematical value is the map from tokens to pending requests;
/// rows with duplicate tokens never exist.
pub struct PendingStore {
    entries: Vec<PendingEntry>,
}

impl View for PendingStore {
    type V = Map<nat, PendingInstantiationView>;

    closed spec fn view(&self) -> Map<nat, PendingInstantiationView> {
        Map::new(
            |k: nat| exists|i: int| self.has_key_at(k, i),
            |k: nat| self.entries@[self.index_of(k)].pending@,
        )
    }
}

impl PendingStore {
    spec fn has_key_at(self, k: nat, i: int) -> bool {
        0 <= i < self.entries@.len() && self.entries@[i].key() == k
    }

    spec fn index_of(self, k: nat) -> int {
        choose|i: int| self.has_key_at(k, i)
    }

    /// No two rows share a token, so the table really is a map.
    pub closed spec fn wf(self) -> bool {
        forall|i: int, j: int|
            0 <= i < j < self.entries@.len() ==> (#[trigger] self.entries@[i].key()) != (
            #[trigger] self.entries@[j].key())
    }

    proof fn lemma_index_unique(self, k: nat, i: int)
        requires
            self.wf(),
            self.has_key_at(k, i),
        ensures
            self.index_of(k) == i,
            self@.contains_key(k),
            self@[k] == self.entries@[i].pending@,
    {
        assert(exists|j: int| self.has_key_at(k, j));
        let j = self.index_of(k);
        assert(self.has_key_at(k, j));
        if i < j {
            assert(self.entries@[i].key() != self.entries@[j].key());
        } else if j < i {
            assert(self.entries@[j].key() != self.entries@[i].key());
        }
    }

    /// An empty table.
    pub fn new() -> (s: Self)
        ensures
            s.wf(),
            s@ == Map::<nat, PendingInstantiationView>::empty(),
    {
        let s = PendingStore { entries: Vec::new() };
        proof {
            assert(s@.dom() =~= Set::<nat>::empty());
            assert(s@ =~= Map::<nat, PendingInstantiationView>::empty());
        }
        s
    }

    fn find(&self, id: u64) -> (r: Option<usize>)
        ensures
            match r {
                Some(i) => self.has_key_at(id as nat, i as int),
                None => forall|j: int|
                    0 <= j < self.entries@.len() ==> (#[trigger] self.entries@[j].key()) != id as nat,
            },
    {
        let n: usize = self.entries.len();
        let mut i: usize = 0;
        while i < n
            invariant
                n == self.entries@.len(),
                i <= n,
                forall|j: int| 0 <= j < i ==> (#[trigger] self.entries@[j].key()) != id as nat,
            decreases n - i,
        {
            if self.entries[i].id == id {
                return Some(i);
            }
            i = i + 1;
        }
        None
    }

    /// Looks up the pending request stored under the given token, if any.
    pub fn get(&self, id: u64) -> (r: Option<&PendingInstantiation>)
        requires
            self.wf(),
        ensures
            match r {
                Some(pending) => self@.contains_key(id as nat) && pending@ == self@[id as nat],
                None => !self@.contains_key(id as nat),
            },
    {
        let ghost k = id as nat;
        match self.find(id) {
            Some(i) => {
                proof {
                    self.lemma_index_unique(k, i as int);
                }
                Some(&self.entries[i].pending)
            },
            None => {
                proof {
                    if self@.contains_key(k) {
                        let j = choose|j: int| self.has_key_at(k, j);
                        assert(self.has_key_at(k, j));
                    }
                }
                None
            },
        }
    }

    proof fn lemma_view_after_push(pre: Self, post: Self, v: PendingInstantiationView)
        requires
            pre.wf(),
            post.entries@.len() == pre.entries@.len() + 1,
            forall|j: int|
                0 <= j < pre.entries@.len() ==> (#[trigger] pre.entries@[j].key())
                    != post.entries@[pre.entries@.len() as int].key(),
            post.entries@[pre.entries@.len() as int].pending@ == v,
            forall|j: int| 0 <= j < pre.entries@.len() ==> post.entries@[j] == pre.entries@[j],
        ensures
            post.wf(),
            post@ == pre@.insert(post.entries@[pre.entries@.len() as int].key(), v),
    {
        let n: int = pre.entries@.len() as int;
        let k = post.entries@[n].key();
        assert forall|j: int| 0 <= j < n implies #[trigger] post.entries@[j].key()
            == pre.entries@[j].key() by {
            assert(post.entries@[j] == pre.entries@[j]);
        }
        assert forall|a: int, b: int| 0 <= a < b < post.entries@.len() implies (
        #[trigger] post.entries@[a].key()) != (#[trigger] post.entries@[b].key()) by {
            if b < n {
                assert(pre.entries@[a].key() != pre.entries@[b].key());
            } else {
                assert(b == n);
                assert(pre.entries@[a].key() != post.entries@[n].key());
            }
        }
        let target = pre@.insert(k, v);
        assert forall|k2: nat| post@.dom().contains(k2) <==> target.dom().contains(k2) by {
            if exists|j: int| post.has_key_at(k2, j) {
                let j = choose|j: int| post.has_key_at(k2, j);
                assert(post.has_key_at(k2, j));
                if j < n {
                    assert(pre.has_key_at(k2, j));
                    pre.lemma_index_unique(k2, j);
                } else {
                    assert(k2 == k);
                }
            }
            if exists|j: int| pre.has_key_at(k2, j) {
                let j = choose|j: int| pre.has_key_at(k2, j);
                assert(pre.has_key_at(k2, j));
                assert(post.has_key_at(k2, j));
            }
            if k2 == k {
                assert(post.has_key_at(k2, n));
            }
        }
        assert forall|k2: nat| post@.dom().contains(k2) implies post@[k2] == target[k2] by {
            let j = choose|j: int| post.has_key_at(k2, j);
            assert(post.has_key_at(k2, j));
            post.lemma_index_unique(k2, j);
            if k2 == k {
                assert(post.has_key_at(k, n));
                post.lemma_index_unique(k, n);
                assert(post@[k2] == v);
            } else {
                assert(j != n);
                assert(pre.has_key_at(k2, j));
                pre.lemma_index_unique(k2, j);
                assert(post.entries@[j] == pre.entries@[j]);
            }
        }
        assert(post@ =~= target);
    }

    /// The table's rows, for callers that need to walk every in-flight
    /// request; each row's token holds its request in the table's
    /// mathematical value.
    pub fn rows(&self) -> (r: &Vec<PendingEntry>)
        requires
            self.wf(),
        ensures
            forall|i: int|
                0 <= i < r@.len() ==> self@.contains_key((#[trigger] r@[i]).key())
                    && self@[r@[i].key()] == r@[i].pending@,
    {
        proof {
            assert forall|i: int| 0 <= i < self.entries@.len() implies self@.contains_key(
                (#[trigger] self.entries@[i]).key(),
            ) && self@[self.entries@[i].key()] == self.entries@[i].pending@ by {
                self.lemma_index_unique(self.entries@[i].key(), i);
            }
        }
        &self.entries
    }

    /// Stores `pending` under the given token, replacing any existing row:
    /// exactly the map insertion on the table's mathematical value.
    pub fn save(&mut self, id: u64, pending: PendingInstantiation)
        requires
            old(self).wf(),
        ensures
            final(self).wf(),
            final(self)@ == old(self)@.insert(id as nat, pending@),
    {
        let ghost k = id as nat;
        match self.find(id) {
            Some(i) => {
                let ghost pre = *self;
                self.entries[i] = PendingEntry { id, pending };
                proof {
                    assert forall|j: int| 0 <= j < self.entries@.len()
                        implies #[trigger] self.entries@[j].key() == pre.entries@[j].key() by {
                        if j != i as int {
                            assert(self.entries@[j] == pre.entries@[j]);
                        }
                    }
                    assert forall|a: int, b: int| 0 <= a < b < self.entries@.len() implies (
                    #[trigger] self.entries@[a].key()) != (#[trigger] self.entries@[b].key()) by {
                        assert(pre.entries@[a].key() != pre.entries@[b].key());
                    }
                    let target = pre@.insert(k, pending@);
                    assert forall|k2: nat| self@.dom().contains(k2) <==> target.dom().contains(k2) by {
                        if exists|j: int| self.has_key_at(k2, j) {
                            let j = choose|j: int| self.has_key_at(k2, j);
                            assert(pre.has_key_at(k2, j));
                            pre.lemma_index_unique(k2, j);
                        }
                        if exists|j: int| pre.has_key_at(k2, j) {
                            let j = choose|j: int| pre.has_key_at(k2, j);
                            assert(self.has_key_at(k2, j));
                        }
                        if k2 == k {
                            assert(pre.has_key_at(k2, i as int));
                        }
                    }
                    assert forall|k2: nat| self@.dom().contains(k2) implies self@[k2] == target[k2] by {
                        let j = choose|j: int| self.has_key_at(k2, j);
                        assert(self.has_key_at(k2, j));
                        self.lemma_index_unique(k2, j);
                        if k2 == k {
                            assert(self.has_key_at(k, i as int));
                            self.lemma_index_unique(k, i as int);
                        } else {
                            assert(j != i as int);
                            assert(pre.has_key_at(k2, j));
                            pre.lemma_index_unique(k2, j);
                            assert(self.entries@[j] == pre.entries@[j]);
                        }
                    }
                    assert(self@ =~= target);
                }
            },
            None => {
                let ghost pre = *self;
                self.entries.push(PendingEntry { id, pending });
                proof {
                    Self::lemma_view_after_push(pre, *self, pending@);
                }
            },
        }
    }

    /// Deletes the row stored under the given token, if any: exactly the map
    /// removal on the table's mathematical value.
    pub fn remove(&mut self, id: u64)
        requires
            old(self).wf(),
        ensures
            final(self).wf(),
            final(self)@ == old(self)@.remove(id as nat),
    {
        let ghost k = id as nat;
        match self.find(id) {
            Some(i) => {
                let ghost pre = *self;
                self.entries.remove(i);
                proof {
                    Self::lemma_view_after_remove(pre, *self, i as int);
                }
            },
            None => {
                proof {
                    assert forall|k2: nat| self@.dom().contains(k2)
                        <==> self@.remove(k).dom().contains(k2) by {
                        if k2 == k {
                            if exists|j: int| self.has_key_at(k2, j) {
                                let j = choose|j: int| self.has_key_at(k2, j);
                                assert(self.has_key_at(k2, j));
                            }
                        }
                    }
                    assert(self@ =~= self@.remove(k));
                }
            },
        }
    }

    proof fn lemma_view_after_remove(pre: Self, post: Self, i: int)
        requires
            pre.wf(),
            0 <= i < pre.entries@.len(),
            post.entries@ == pre.entries@.remove(i),
        ensures
            post.wf(),
            post@ == pre@.remove(pre.entries@[i].key()),
    {
        let n: int = pre.entries@.len() as int;
        let k = pre.entries@[i].key();
        assert forall|j: int| 0 <= j < n - 1 implies #[trigger] post.entries@[j].key() == (
        if j < i {
            pre.entries@[j].key()
        } else {
            pre.entries@[j + 1].key()
        }) by {
            if j < i {
                assert(post.entries@[j] == pre.entries@[j]);
            } else {
                assert(post.entries@[j] == pre.entries@[j + 1]);
            }
        }
        assert forall|a: int, b: int| 0 <= a < b < post.entries@.len() implies (
        #[trigger] post.entries@[a].key()) != (#[trigger] post.entries@[b].key()) by {
            let a2 = if a < i { a } else { a + 1 };
            let b2 = if b < i { b } else { b + 1 };
            assert(pre.entries@[a2].key() != pre.entries@[b2].key());
        }
        let target = pre@.remove(k);
        assert forall|k2: nat| post@.dom().contains(k2) <==> target.dom().contains(k2) by {
            if exists|j: int| post.has_key_at(k2, j) {
                let j = choose|j: int| post.has_key_at(k2, j);
                assert(post.has_key_at(k2, j));
                let j2 = if j < i { j } else { j + 1 };
                assert(pre.has_key_at(k2, j2));
                pre.lemma_index_unique(k2, j2);
                if k2 == k {
                    pre.lemma_index_unique(k, i);
                    assert(j2 == i);
                    assert(false);
                }
            }
            if pre@.dom().contains(k2) && k2 != k {
                let j = choose|j: int| pre.has_key_at(k2, j);
                assert(pre.has_key_at(k2, j));
                assert(j != i);
                let j2 = if j < i { j } else { j - 1 };
                assert(post.has_key_at(k2, j2));
            }
        }
        assert forall|k2: nat| post@.dom().contains(k2) implies post@[k2] == target[k2] by {
            let j = choose|j: int| post.has_key_at(k2, j);
            assert(post.has_key_at(k2, j));
            post.lemma_index_unique(k2, j);
            let j2 = if j < i { j } else { j + 1 };
            assert(pre.has_key_at(k2, j2));
            pre.lemma_index_unique(k2, j2);
            if j < i {
                assert(post.entries@[j] == pre.entries@[j]);
            } else {
                assert(post.entries@[j] == pre.entries@[j + 1]);
            }
        }
        assert(post@ =~= target);
    }
}

} // verus!
