//! The ownership store: which user owns which channel set, at most one
//! set per user.
use vstd::prelude::*;

verus! {

/// The durable proof that a user owns one channel set.
#[derive(Clone, Debug)]
pub struct OwnershipRecord {
    pub owner: u64,
    /// The markdown-escaped game name.
    pub display_name: String,
    /// The category that anchors the set; deleting it removes the rest.
    pub category_id: u64,
}

impl OwnershipRecord {
    /// What the store keeps for the record's owner: name and category.
    pub open spec fn entry(&self) -> (Seq<char>, u64) {
        (self.display_name@, self.category_id)
    }

    /// A copy with the same owner, name and category.
    pub fn duplicate(&self) -> (r: OwnershipRecord)
        ensures
            r.owner == self.owner,
            r.entry() == self.entry(),
    {
        OwnershipRecord {
            owner: self.owner,
            display_name: self.display_name.clone(),
            category_id: self.category_id,
        }
    }
}

/// How often `u` occurs in `owners`.
pub open spec fn occurrences(owners: Seq<u64>, u: u64) -> nat
    decreases owners.len(),
{
    if owners.len() == 0 {
        0
    } else {
        occurrences(owners.drop_last(), u) + if owners.last() == u {
            1nat
        } else {
            0nat
        }
    }
}

/// Maps each owner to the name and category of the set they own.
pub struct OwnershipStore {
    records: Vec<OwnershipRecord>,
    contents: Ghost<Map<u64, (Seq<char>, u64)>>,
}

impl View for OwnershipStore {
    type V = Map<u64, (Seq<char>, u64)>;

    closed spec fn view(&self) -> Map<u64, (Seq<char>, u64)> {
        self.contents@
    }
}

impl OwnershipStore {
    /// The owners of the stored records, in storage order.
    pub closed spec fn owners(&self) -> Seq<u64> {
        self.records@.map_values(|r: OwnershipRecord| r.owner)
    }

    /// No owner has two records, and the records are exactly the map.
    pub closed spec fn wf(&self) -> bool {
        &&& forall|i: int, j: int|
            0 <= i < j < self.records@.len() ==> #[trigger] self.records@[i].owner
                != #[trigger] self.records@[j].owner
        &&& forall|i: int|
            0 <= i < self.records@.len() ==> self.contents@.contains_key(
                #[trigger] self.records@[i].owner,
            ) && self.contents@[self.records@[i].owner] == self.records@[i].entry()
        &&& forall|u: u64|
            #[trigger] self.contents@.contains_key(u) ==> exists|i: int|
                0 <= i < self.records@.len() && #[trigger] self.records@[i].owner == u
    }

    /// An empty store.
    pub fn new() -> (s: OwnershipStore)
        ensures
            s.wf(),
            s@ == Map::<u64, (Seq<char>, u64)>::empty(),
    {
        OwnershipStore { records: Vec::new(), contents: Ghost(Map::empty()) }
    }

    /// Number of users that own a set.
    pub fn len(&self) -> (n: usize)
        requires
            self.wf(),
        ensures
            n == self@.len(),
    {
        proof {
            self.lemma_domain_is_owners();
        }
        self.records.len()
    }

    proof fn lemma_domain_is_owners(&self)
        requires
            self.wf(),
        ensures
            self@.dom() == self.owners().to_set(),
            self.owners().no_duplicates(),
            self@.dom().finite(),
            self@.len() == self.records@.len(),
    {
        let os = self.owners();
        assert(self@.dom() =~= os.to_set()) by {
            assert forall|u: u64| self@.dom().contains(u) implies os.to_set().contains(u) by {
                let i = choose|i: int| 0 <= i < self.records@.len() && #[trigger] self.records@[i].owner == u;
                assert(os[i] == u);
            }
            assert forall|u: u64| os.to_set().contains(u) implies self@.dom().contains(u) by {
                let i = choose|i: int| 0 <= i < os.len() && os[i] == u;
                assert(self.records@[i].owner == u);
            }
        }
        assert forall|i: int, j: int| 0 <= i < os.len() && 0 <= j < os.len() && i != j implies os[i] != os[j] by {
            if i < j {
                assert(self.records@[i].owner != self.records@[j].owner);
            } else {
                assert(self.records@[j].owner != self.records@[i].owner);
            }
        }
        os.unique_seq_to_set();
    }

    /// Where `owner`'s record is stored, if anywhere.
    fn position(&self, owner: u64) -> (r: Option<usize>)
        requires
            self.wf(),
        ensures
            r is None <==> !self@.contains_key(owner),
            r matches Some(i) ==> i < self.records@.len() && self.records@[i as int].owner == owner,
    {
        let mut i: usize = 0;
        while i < self.records.len()
            invariant
                self.wf(),
                i <= self.records@.len(),
                forall|k: int| 0 <= k < i ==> #[trigger] self.records@[k].owner != owner,
            decreases self.records@.len() - i,
        {
            if self.records[i].owner == owner {
                assert(self.contents@.contains_key(self.records@[i as int].owner));
                return Some(i);
            }
            i = i + 1;
        }
        None
    }

    /// The record of `owner`, if they own a set.
    pub fn get(&self, owner: u64) -> (r: Option<&OwnershipRecord>)
        requires
            self.wf(),
        ensures
            r is Some <==> self@.contains_key(owner),
            r matches Some(rec) ==> rec.owner == owner && rec.entry() == self@[owner],
    {
        match self.position(owner) {
            Some(i) => Some(&self.records[i]),
            None => None,
        }
    }

    /// Whether `owner` owns a set.
    pub fn owns(&self, owner: u64) -> (r: bool)
        requires
            self.wf(),
        ensures
            r == self@.contains_key(owner),
    {
        self.position(owner).is_some()
    }

    /// Records a set for `owner` unless they already own one; compare and
    /// insert in one step, so two sets can never be recorded for one user.
    pub fn insert_if_absent(&mut self, owner: u64, display_name: String, category_id: u64) -> (r:
        bool)
        requires
            old(self).wf(),
        ensures
            final(self).wf(),
            r == !old(self)@.contains_key(owner),
            r ==> final(self)@ == old(self)@.insert(owner, (display_name@, category_id)),
            !r ==> final(self)@ == old(self)@,
    {
        if self.owns(owner) {
            return false;
        }
        let rec = OwnershipRecord { owner, display_name, category_id };
        let ghost e = rec.entry();
        self.records.push(rec);
        self.contents = Ghost(self.contents@.insert(owner, e));
        proof {
            let n = self.records@.len() - 1;
            assert forall|u: u64| #[trigger] self.contents@.contains_key(u) implies exists|i: int|
                0 <= i < self.records@.len() && #[trigger] self.records@[i].owner == u by {
                if u == owner {
                    assert(self.records@[n].owner == u);
                } else {
                    assert(old(self).contents@.contains_key(u));
                    let i = choose|i: int|
                        0 <= i < old(self).records@.len() && #[trigger] old(self).records@[i].owner
                            == u;
                    assert(self.records@[i] == old(self).records@[i]);
                }
            }
            assert forall|i: int|
                0 <= i < self.records@.len() implies self.contents@.contains_key(
                #[trigger] self.records@[i].owner,
            ) && self.contents@[self.records@[i].owner] == self.records@[i].entry() by {
                if i < n {
                    assert(self.records@[i] == old(self).records@[i]);
                    assert(old(self).contents@.contains_key(old(self).records@[i].owner));
                }
            }
        }
        true
    }

    /// Forgets the set of `owner`; the store is unchanged if they own none.
    pub fn remove(&mut self, owner: u64) -> (r: Option<OwnershipRecord>)
        requires
            old(self).wf(),
        ensures
            final(self).wf(),
            final(self)@ == old(self)@.remove(owner),
            r is Some <==> old(self)@.contains_key(owner),
            r matches Some(rec) ==> rec.owner == owner && rec.entry() == old(self)@[owner],
    {
        match self.position(owner) {
            None => {
                assert(self@ =~= old(self)@.remove(owner));
                None
            },
            Some(p) => {
                let rec = self.records.remove(p);
                self.contents = Ghost(self.contents@.remove(owner));
                proof {
                    let o = old(self).records@;
                    let s = self.records@;
                    assert forall|i: int| 0 <= i < s.len() implies (if i < p {
                        s[i] == o[i]
                    } else {
                        s[i] == o[i + 1]
                    }) by {}
                    assert forall|i: int, j: int|
                        0 <= i < j < s.len() implies #[trigger] s[i].owner != #[trigger] s[j].owner by {
                        let oi = if i < p { i } else { i + 1 };
                        let oj = if j < p { j } else { j + 1 };
                        assert(o[oi].owner != o[oj].owner);
                    }
                    assert forall|i: int|
                        0 <= i < s.len() implies self.contents@.contains_key(#[trigger] s[i].owner)
                        && self.contents@[s[i].owner] == s[i].entry() by {
                        let oi = if i < p { i } else { i + 1 };
                        assert(s[i] == o[oi]);
                        if oi < p {
                            assert(o[oi].owner != o[p as int].owner);
                        } else {
                            assert(o[p as int].owner != o[oi].owner);
                        }
                        assert(old(self).contents@.contains_key(o[oi].owner));
                    }
                    assert forall|u: u64| #[trigger] self.contents@.contains_key(u) implies exists|i: int|
                        0 <= i < s.len() && #[trigger] s[i].owner == u by {
                        let k = choose|k: int| 0 <= k < o.len() && #[trigger] o[k].owner == u;
                        assert(k != p);
                        if k < p {
                            assert(s[k].owner == u);
                        } else {
                            assert(s[k - 1].owner == u);
                        }
                    }
                }
                Some(rec)
            },
        }
    }

    /// Every stored record, for saving the store.
    pub fn records(&self) -> (r: Vec<OwnershipRecord>)
        requires
            self.wf(),
        ensures
            r@.len() == self@.len(),
            forall|i: int|
                0 <= i < r@.len() ==> self@.contains_key(#[trigger] r@[i].owner) && self@[r@[i].owner]
                    == r@[i].entry(),
            forall|u: u64|
                self@.contains_key(u) ==> exists|i: int| 0 <= i < r@.len() && #[trigger] r@[i].owner == u,
    {
        proof {
            self.lemma_domain_is_owners();
        }
        let mut out: Vec<OwnershipRecord> = Vec::new();
        let mut i: usize = 0;
        while i < self.records.len()
            invariant
                self.wf(),
                i <= self.records@.len(),
                out@.len() == i,
                forall|k: int|
                    0 <= k < i ==> (#[trigger] out@[k]).owner == self.records@[k].owner && out@[k].entry()
                        == self.records@[k].entry(),
            decreases self.records@.len() - i,
        {
            out.push(self.records[i].duplicate());
            i = i + 1;
        }
        proof {
            assert forall|u: u64| self@.contains_key(u) implies exists|i: int|
                0 <= i < out@.len() && #[trigger] out@[i].owner == u by {
                let k = choose|k: int| 0 <= k < self.records@.len() && #[trigger] self.records@[k].owner == u;
                assert(out@[k].owner == u);
            }
        }
        out
    }

    /// At most one record of any user is ever stored.
    pub proof fn lemma_at_most_one_record(&self, u: u64)
        requires
            self.wf(),
        ensures
            occurrences(self.owners(), u) <= 1,
            occurrences(self.owners(), u) == 1 <==> self@.contains_key(u),
    {
        let os = self.owners();
        assert forall|i: int, j: int| 0 <= i < j < os.len() implies os[i] != os[j] by {
            assert(self.records@[i].owner != self.records@[j].owner);
        }
        lemma_occurrences_unique(os, u);
        if self@.contains_key(u) {
            let i = choose|i: int| 0 <= i < self.records@.len() && #[trigger] self.records@[i].owner == u;
            assert(os[i] == u);
        } else {
            assert forall|i: int| 0 <= i < os.len() implies os[i] != u by {
                assert(self.records@[i].owner == os[i]);
            }
        }
    }
}

proof fn lemma_occurrences_unique(s: Seq<u64>, u: u64)
    requires
        forall|i: int, j: int| 0 <= i < j < s.len() ==> s[i] != s[j],
    ensures
        occurrences(s, u) <= 1,
        occurrences(s, u) == 1 <==> exists|i: int| 0 <= i < s.len() && s[i] == u,
    decreases s.len(),
{
    if s.len() > 0 {
        let p = s.drop_last();
        assert forall|i: int, j: int| 0 <= i < j < p.len() implies p[i] != p[j] by {
            assert(p[i] == s[i] && p[j] == s[j]);
        }
        lemma_occurrences_unique(p, u);
        if s.last() == u {
            assert forall|i: int| 0 <= i < p.len() implies p[i] != u by {
                assert(s[i] != s[s.len() - 1]);
            }
            assert(s[s.len() - 1] == u);
        } else {
            if exists|i: int| 0 <= i < s.len() && s[i] == u {
                let i = choose|i: int| 0 <= i < s.len() && s[i] == u;
                assert(p[i] == u);
            }
            if exists|i: int| 0 <= i < p.len() && p[i] == u {
                let i = choose|i: int| 0 <= i < p.len() && p[i] == u;
                assert(s[i] == u);
            }
        }
    }
}

} // verus!
