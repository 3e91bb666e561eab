//! The subscription registry: per-kind mappings from subscription identifier
//! to owning connection, the per-connection identifier lists, and the
//! process-wide identifier allocator.
use vstd::prelude::*;
use std::collections::HashMap;
use crate::methods::SubscriptionKind;

verus! {

broadcast use vstd::std_specs::hash::group_hash_axioms;

/// The subscription identifiers a single connection owns, one list per kind.
#[derive(Debug)]
pub struct ConnLists {
    pub runtime_version: Vec<u64>,
    pub all_heads: Vec<u64>,
    pub new_heads: Vec<u64>,
    pub finalized_heads: Vec<u64>,
    pub storage: Vec<u64>,
}

impl ConnLists {
    /// The identifiers this connection owns for one kind.
    pub open spec fn list(self, k: SubscriptionKind) -> Seq<u64> {
        match k {
            SubscriptionKind::RuntimeVersion => self.runtime_version@,
            SubscriptionKind::AllHeads => self.all_heads@,
            SubscriptionKind::NewHeads => self.new_heads@,
            SubscriptionKind::FinalizedHeads => self.finalized_heads@,
            SubscriptionKind::Storage => self.storage@,
        }
    }

    /// Fresh per-connection state: every list empty.
    pub fn new() -> (r: ConnLists)
        ensures
            forall|k: SubscriptionKind| (#[trigger] r.list(k)).len() == 0,
    {
        ConnLists {
            runtime_version: Vec::new(),
            all_heads: Vec::new(),
            new_heads: Vec::new(),
            finalized_heads: Vec::new(),
            storage: Vec::new(),
        }
    }

    /// Appends a freshly allocated identifier to one kind's list.
    pub fn push_id(&mut self, k: SubscriptionKind, id: u64)
        ensures
            final(self).list(k) == old(self).list(k).push(id),
            forall|k2: SubscriptionKind| k2 != k ==> #[trigger] final(self).list(k2) == old(
                self,
            ).list(k2),
    {
        match k {
            SubscriptionKind::RuntimeVersion => self.runtime_version.push(id),
            SubscriptionKind::AllHeads => self.all_heads.push(id),
            SubscriptionKind::NewHeads => self.new_heads.push(id),
            SubscriptionKind::FinalizedHeads => self.finalized_heads.push(id),
            SubscriptionKind::Storage => self.storage.push(id),
        }
    }
}

/// The mapping for one kind after a connection closes: entries for the given
/// identifiers whose recorded owner is the closing connection are gone;
/// every other entry is kept, an owner mismatch being skipped rather than
/// propagated.
pub open spec fn retired(m: Map<u64, u64>, ids: Seq<u64>, conn: u64) -> Map<u64, u64> {
    Map::<u64, u64>::new(
        |id: u64| m.contains_key(id) && !(ids.contains(id) && m[id] == conn),
        |id: u64| m[id],
    )
}

/// Removes from `m` each identifier of `ids` whose recorded owner is `conn`.
fn remove_owned(m: &mut HashMap<u64, u64>, ids: &Vec<u64>, conn: u64)
    ensures
        final(m)@ == retired(old(m)@, ids@, conn),
{
    let ghost m0 = old(m)@;
    let n = ids.len();
    let mut i: usize = 0;
    proof {
        assert(m@ =~= retired(m0, ids@.take(0), conn));
    }
    while i < n
        invariant
            n == ids.len(),
            i <= n,
            m@ == retired(m0, ids@.take(i as int), conn),
        decreases n - i,
    {
        let id = ids[i];
        let owned = match m.get(&id) {
            Some(c) => *c == conn,
            None => false,
        };
        if owned {
            m.remove(&id);
        }
        proof {
            assert forall|x: u64| #[trigger] ids@.take(i as int + 1).contains(x) implies ids@.take(
                i as int,
            ).contains(x) || x == ids@[i as int] by {
                let j = choose|j: int|
                    #![trigger ids@.take(i as int + 1)[j]]
                    0 <= j < ids@.take(i as int + 1).len() && ids@.take(i as int + 1)[j] == x;
                if j < i as int {
                    assert(ids@.take(i as int)[j] == x);
                }
            }
            assert forall|x: u64|
                ids@.take(i as int).contains(x) || x == ids@[i as int] implies #[trigger] ids@.take(
                i as int + 1,
            ).contains(x) by {
                if ids@.take(i as int).contains(x) {
                    let j = choose|j: int|
                        #![trigger ids@.take(i as int)[j]]
                        0 <= j < ids@.take(i as int).len() && ids@.take(i as int)[j] == x;
                    assert(ids@.take(i as int + 1)[j] == x);
                } else {
                    assert(ids@.take(i as int + 1)[i as int] == x);
                }
            }
            assert(m@ =~= retired(m0, ids@.take(i as int + 1), conn));
        }
        i = i + 1;
    }
    proof {
        assert(ids@.take(n as int) =~= ids@);
    }
}

/// Per-kind mapping from subscription identifier to owning connection,
/// together with the monotonically increasing identifier allocator.
#[derive(Debug)]
pub struct Registry {
    pub next_id: u64,
    pub runtime_version: HashMap<u64, u64>,
    pub all_heads: HashMap<u64, u64>,
    pub new_heads: HashMap<u64, u64>,
    pub finalized_heads: HashMap<u64, u64>,
    pub storage: HashMap<u64, u64>,
}

impl Registry {
    /// The mapping for one kind, as a mathematical map.
    pub open spec fn kind_map(self, k: SubscriptionKind) -> Map<u64, u64> {
        match k {
            SubscriptionKind::RuntimeVersion => self.runtime_version@,
            SubscriptionKind::AllHeads => self.all_heads@,
            SubscriptionKind::NewHeads => self.new_heads@,
            SubscriptionKind::FinalizedHeads => self.finalized_heads@,
            SubscriptionKind::Storage => self.storage@,
        }
    }

    /// Every registered identifier was handed out before the counter's
    /// current value; a fresh identifier is therefore in no mapping.
    pub open spec fn wf(self) -> bool {
        forall|k: SubscriptionKind, id: u64|
            #[trigger] self.kind_map(k).contains_key(id) ==> id < self.next_id
    }

    /// An empty registry, allocator at zero.
    pub fn new() -> (r: Registry)
        ensures
            r.next_id == 0,
            forall|k: SubscriptionKind| #[trigger] r.kind_map(k) == Map::<u64, u64>::empty(),
            r.wf(),
    {
        Registry {
            next_id: 0,
            runtime_version: HashMap::new(),
            all_heads: HashMap::new(),
            new_heads: HashMap::new(),
            finalized_heads: HashMap::new(),
            storage: HashMap::new(),
        }
    }

    /// The recorded owner of a subscription, if the kind's mapping has it.
    pub fn owner_of(&self, k: SubscriptionKind, id: u64) -> (r: Option<u64>)
        ensures
            r matches Some(c) ==> self.kind_map(k).contains_key(id) && self.kind_map(k)[id] == c,
            r is None ==> !self.kind_map(k).contains_key(id),
    {
        let found = match k {
            SubscriptionKind::RuntimeVersion => self.runtime_version.get(&id),
            SubscriptionKind::AllHeads => self.all_heads.get(&id),
            SubscriptionKind::NewHeads => self.new_heads.get(&id),
            SubscriptionKind::FinalizedHeads => self.finalized_heads.get(&id),
            SubscriptionKind::Storage => self.storage.get(&id),
        };
        match found {
            Some(c) => Some(*c),
            None => None,
        }
    }

    /// Hands out the next identifier and advances the allocator.
    pub fn allocate_id(&mut self) -> (id: u64)
        requires
            old(self).next_id < u64::MAX,
        ensures
            id == old(self).next_id,
            final(self).next_id == old(self).next_id + 1,
            forall|k: SubscriptionKind| #[trigger] final(self).kind_map(k) == old(self).kind_map(
                k,
            ),
    {
        let id = self.next_id;
        self.next_id = self.next_id + 1;
        id
    }

    /// Inserts a subscription into its kind's mapping.
    pub fn register(&mut self, k: SubscriptionKind, id: u64, conn: u64)
        requires
            !old(self).kind_map(k).contains_key(id),
        ensures
            final(self).next_id == old(self).next_id,
            final(self).kind_map(k) == old(self).kind_map(k).insert(id, conn),
            forall|k2: SubscriptionKind| k2 != k ==> #[trigger] final(self).kind_map(k2) == old(
                self,
            ).kind_map(k2),
    {
        match k {
            SubscriptionKind::RuntimeVersion => {
                self.runtime_version.insert(id, conn);
            },
            SubscriptionKind::AllHeads => {
                self.all_heads.insert(id, conn);
            },
            SubscriptionKind::NewHeads => {
                self.new_heads.insert(id, conn);
            },
            SubscriptionKind::FinalizedHeads => {
                self.finalized_heads.insert(id, conn);
            },
            SubscriptionKind::Storage => {
                self.storage.insert(id, conn);
            },
        }
    }

    /// Removes every identifier the closing connection reports owning from
    /// the corresponding kind's mapping, skipping any entry whose recorded
    /// owner differs.
    pub fn retire_connection(&mut self, conn: u64, lists: &ConnLists)
        ensures
            final(self).next_id == old(self).next_id,
            forall|k: SubscriptionKind| #[trigger] final(self).kind_map(k) == retired(
                old(self).kind_map(k),
                lists.list(k),
                conn,
            ),
            old(self).wf() ==> final(self).wf(),
    {
        remove_owned(&mut self.runtime_version, &lists.runtime_version, conn);
        remove_owned(&mut self.all_heads, &lists.all_heads, conn);
        remove_owned(&mut self.new_heads, &lists.new_heads, conn);
        remove_owned(&mut self.finalized_heads, &lists.finalized_heads, conn);
        remove_owned(&mut self.storage, &lists.storage, conn);
        proof {
            if old(self).wf() {
                assert forall|k: SubscriptionKind, id: u64| #[trigger] self.kind_map(
                    k,
                ).contains_key(id) implies id < self.next_id by {
                    assert(old(self).kind_map(k).contains_key(id));
                }
            }
        }
    }
}

} // verus!
