//! A table of transactions, found by connection, transaction id and client.
use std::collections::HashMap;
use vstd::prelude::*;

verus! {

broadcast use vstd::std_specs::hash::group_hash_axioms;

/// The identity of a transaction: connection incarnation, transaction id, client.
pub type TransactionKey = (u64, u32, Seq<char>);

/// The identity of a transaction.
pub struct TransactionId {
    pub connection_incarnation: u64,
    pub xid: u32,
    pub client_addr: String,
}

impl View for TransactionId {
    type V = TransactionKey;

    open spec fn view(&self) -> TransactionKey {
        (self.connection_incarnation, self.xid, self.client_addr@)
    }
}

/// How far a transaction is. Times are in nanoseconds.
#[derive(Clone, Copy, Debug, PartialEq, Eq, Structural)]
pub enum TransactionState {
    InProgress,
    Completed(u128),
}

// --------------------------------------------------------------------- clients

/// The clients that share a connection incarnation and a transaction id.
struct Clients {
    items: Vec<(String, TransactionState)>,
    model: Ghost<Map<Seq<char>, TransactionState>>,
}

impl View for Clients {
    type V = Map<Seq<char>, TransactionState>;

    closed spec fn view(&self) -> Map<Seq<char>, TransactionState> {
        self.model@
    }
}

/// Each item is in the model.
spec fn items_modelled(
    items: Seq<(String, TransactionState)>,
    model: Map<Seq<char>, TransactionState>,
) -> bool {
    forall|i: int|
        #![trigger items[i]]
        0 <= i < items.len() ==> model.contains_key(items[i].0@) && model[items[i].0@] == items[i].1
}

/// No client is listed twice.
spec fn items_distinct(items: Seq<(String, TransactionState)>) -> bool {
    forall|i: int, j: int|
        #![trigger items[i], items[j]]
        0 <= i < items.len() && 0 <= j < items.len() && i != j ==> items[i].0@ != items[j].0@
}

/// Each client of the model is listed.
spec fn model_listed(
    items: Seq<(String, TransactionState)>,
    model: Map<Seq<char>, TransactionState>,
) -> bool {
    forall|name: Seq<char>| #[trigger] model.contains_key(name) ==> listed_at(items, name)
}

spec fn listed_at(items: Seq<(String, TransactionState)>, name: Seq<char>) -> bool {
    exists|i: int| #![trigger items[i]] 0 <= i < items.len() && items[i].0@ == name
}

impl Clients {
    #[verifier::type_invariant]
    spec fn valid(self) -> bool {
        &&& items_modelled(self.items@, self.model@)
        &&& items_distinct(self.items@)
        &&& model_listed(self.items@, self.model@)
    }

    fn new() -> (r: Clients)
        ensures
            r@ == Map::<Seq<char>, TransactionState>::empty(),
    {
        Clients { items: Vec::new(), model: Ghost(Map::empty()) }
    }

    fn is_empty(&self) -> (r: bool)
        ensures
            r <==> self@ == Map::<Seq<char>, TransactionState>::empty(),
    {
        proof {
            use_type_invariant(self);
            assert(self.items@.len() == 0 ==> self@ =~= Map::empty());
            assert(self.items@.len() > 0 ==> self@.contains_key(self.items@[0].0@));
        }
        self.items.len() == 0
    }

    fn find(&self, name: &String) -> (r: Option<usize>)
        ensures
            match r {
                Some(i) => i < self.items@.len() && self.items@[i as int].0@ == name@,
                None => !self@.contains_key(name@),
            },
    {
        proof {
            use_type_invariant(self);
        }
        let mut i: usize = 0;
        while i < self.items.len()
            invariant
                i <= self.items@.len(),
                forall|j: int|
                    #![trigger self.items@[j]]
                    0 <= j < i ==> self.items@[j].0@ != name@,
            decreases self.items@.len() - i,
        {
            if self.items[i].0 == *name {
                return Some(i);
            }
            i = i + 1;
        }
        None
    }

    fn get(&self, name: &String) -> (r: Option<TransactionState>)
        ensures
            r == (if self@.contains_key(name@) {
                Some(self@[name@])
            } else {
                None
            }),
    {
        proof {
            use_type_invariant(self);
        }
        match self.find(name) {
            Some(i) => Some(self.items[i].1),
            None => None,
        }
    }

    fn with(self, name: String, state: TransactionState) -> (r: Clients)
        ensures
            r@ == self@.insert(name@, state),
    {
        proof {
            use_type_invariant(&self);
        }
        let found = self.find(&name);
        let Clients { items, model } = self;
        let mut items = items;
        let ghost before = items@;
        let ghost after = model@.insert(name@, state);
        match found {
            Some(k) => {
                items.set(k, (name, state));
                proof {
                    assert(items@ == before.update(k as int, (name, state)));
                    assert forall|n: Seq<char>| #[trigger] after.contains_key(n) implies listed_at(
                        items@,
                        n,
                    ) by {
                        if n == name@ {
                            assert(items@[k as int].0@ == n);
                        } else {
                            assert(model@.contains_key(n));
                            let i = choose|i: int|
                                #![trigger before[i]]
                                0 <= i < before.len() && before[i].0@ == n;
                            assert(items@[i].0@ == n);
                        }
                    }
                }
            },
            None => {
                items.push((name, state));
                proof {
                    assert(items@ == before.push((name, state)));
                    assert forall|n: Seq<char>| #[trigger] after.contains_key(n) implies listed_at(
                        items@,
                        n,
                    ) by {
                        if n == name@ {
                            assert(items@[before.len() as int].0@ == n);
                        } else {
                            assert(model@.contains_key(n));
                            let i = choose|i: int|
                                #![trigger before[i]]
                                0 <= i < before.len() && before[i].0@ == n;
                            assert(items@[i].0@ == n);
                        }
                    }
                }
            },
        }
        assert(items_modelled(items@, after));
        assert(items_distinct(items@));
        Clients { items, model: Ghost(after) }
    }

    fn without(self, name: &String) -> (r: Clients)
        ensures
            r@ == self@.remove(name@),
    {
        proof {
            use_type_invariant(&self);
        }
        let found = self.find(name);
        let Clients { items, model } = self;
        let mut items = items;
        let ghost before = items@;
        match found {
            Some(k) => {
                items.remove(k);
                let ghost after = model@.remove(name@);
                proof {
                    assert forall|i: int| 0 <= i < items@.len() implies #[trigger] items@[i]
                        == before[if i < k { i } else { i + 1 }] by {}
                    assert(items_modelled(items@, after));
                    assert forall|n: Seq<char>| #[trigger] after.contains_key(n) implies listed_at(
                        items@,
                        n,
                    ) by {
                        assert(model@.contains_key(n));
                        let i = choose|i: int|
                            #![trigger before[i]]
                            0 <= i < before.len() && before[i].0@ == n;
                        assert(items@[if i < k { i } else { i - 1 }].0@ == n);
                    }
                }
                Clients { items, model: Ghost(after) }
            },
            None => {
                assert(model@.remove(name@) =~= model@);
                Clients { items, model }
            },
        }
    }
}

// ----------------------------------------------------------------------- table

/// The number under which a connection incarnation and a transaction id are kept.
spec fn slot(key: TransactionKey) -> u128 {
    (key.0 * 0x1_0000_0000 + key.1) as u128
}

fn to_slot(id: &TransactionId) -> (r: u128)
    ensures
        r == slot(id@),
{
    (id.connection_incarnation as u128) * 0x1_0000_0000 + id.xid as u128
}

/// The transactions that are kept.
pub struct TransactionTable {
    slots: HashMap<u128, Clients>,
    count: usize,
    model: Ghost<Map<TransactionKey, TransactionState>>,
}

impl View for TransactionTable {
    type V = Map<TransactionKey, TransactionState>;

    closed spec fn view(&self) -> Map<TransactionKey, TransactionState> {
        self.model@
    }
}

/// What the slots hold of a transaction.
spec fn kept(slots: Map<u128, Clients>, key: TransactionKey) -> Option<TransactionState> {
    if slots.contains_key(slot(key)) && slots[slot(key)]@.contains_key(key.2) {
        Some(slots[slot(key)]@[key.2])
    } else {
        None
    }
}

/// The slots hold what the model says.
spec fn agrees(
    slots: Map<u128, Clients>,
    model: Map<TransactionKey, TransactionState>,
) -> bool {
    forall|key: TransactionKey| #[trigger]
        kept(slots, key) == (if model.contains_key(key) {
            Some(model[key])
        } else {
            None
        })
}

/// Two identities share a slot only if they differ in the client alone.
proof fn lemma_slot(a: TransactionKey, b: TransactionKey)
    ensures
        slot(a) == slot(b) ==> a.0 == b.0 && a.1 == b.1,
{
    assert(slot(a) == a.0 * 0x1_0000_0000 + a.1);
    assert(slot(b) == b.0 * 0x1_0000_0000 + b.1);
}

impl TransactionTable {
    #[verifier::type_invariant]
    spec fn valid(self) -> bool {
        &&& agrees(self.slots@, self.model@)
        &&& self.model@.dom().finite()
        &&& self.count == self.model@.dom().len()
    }

    pub fn new() -> (r: TransactionTable)
        ensures
            r@ == Map::<TransactionKey, TransactionState>::empty(),
    {
        TransactionTable { slots: HashMap::new(), count: 0, model: Ghost(Map::empty()) }
    }

    pub fn len(&self) -> (n: usize)
        ensures
            n == self@.dom().len(),
            self@.dom().finite(),
    {
        proof {
            use_type_invariant(self);
        }
        self.count
    }

    pub fn get(&self, id: &TransactionId) -> (r: Option<TransactionState>)
        ensures
            r == (if self@.contains_key(id@) {
                Some(self@[id@])
            } else {
                None
            }),
    {
        proof {
            use_type_invariant(self);
            assert(kept(self.slots@, id@) == kept(self.slots@, id@));
        }
        match self.slots.get(&to_slot(id)) {
            Some(clients) => clients.get(&id.client_addr),
            None => None,
        }
    }

    /// Keeps a transaction in a state, in place of what was kept of it.
    pub fn insert(&mut self, id: &TransactionId, state: TransactionState)
        requires
            old(self)@.dom().len() < usize::MAX || old(self)@.contains_key(id@),
        ensures
            final(self)@ == old(self)@.insert(id@, state),
    {
        proof {
            use_type_invariant(&*self);
            assert(kept(self.slots@, id@) == kept(self.slots@, id@));
        }
        let known = self.get(id).is_some();
        let mut table = TransactionTable::new();
        std::mem::swap(self, &mut table);
        proof {
            use_type_invariant(&table);
        }
        let TransactionTable { slots, count, model } = table;
        let mut slots = slots;
        let ghost before = slots@;
        let s: u128 = to_slot(id);
        let clients = match slots.remove(&s) {
            Some(clients) => clients,
            None => Clients::new(),
        };
        let clients = clients.with(id.client_addr.clone(), state);
        slots.insert(s, clients);
        let ghost after = model@.insert(id@, state);
        proof {
            assert forall|key: TransactionKey| #[trigger] kept(slots@, key) == (
            if after.contains_key(key) {
                Some(after[key])
            } else {
                None
            }) by {
                lemma_slot(key, id@);
                assert(kept(before, key) == kept(before, key));
            }
        }
        let count: usize = if known {
            count
        } else {
            count + 1
        };
        *self = TransactionTable { slots, count, model: Ghost(after) };
    }

    /// Forgets a transaction.
    pub fn remove(&mut self, id: &TransactionId)
        ensures
            final(self)@ == old(self)@.remove(id@),
    {
        proof {
            use_type_invariant(&*self);
        }
        let known = self.get(id).is_some();
        if !known {
            assert(self@.remove(id@) =~= self@);
            return ;
        }
        let mut table = TransactionTable::new();
        std::mem::swap(self, &mut table);
        proof {
            use_type_invariant(&table);
        }
        let TransactionTable { slots, count, model } = table;
        let mut slots = slots;
        let ghost before = slots@;
        assert(kept(before, id@) is Some);
        let s: u128 = to_slot(id);
        let clients = match slots.remove(&s) {
            Some(clients) => clients,
            None => Clients::new(),
        };
        let clients = clients.without(&id.client_addr);
        let ghost left = clients@;
        if !clients.is_empty() {
            slots.insert(s, clients);
        }
        let ghost after = model@.remove(id@);
        proof {
            assert forall|key: TransactionKey| #[trigger] kept(slots@, key) == (
            if after.contains_key(key) {
                Some(after[key])
            } else {
                None
            }) by {
                lemma_slot(key, id@);
                assert(slot(key) == s ==> (left.contains_key(key.2) <==> before[s]@.contains_key(
                    key.2,
                ) && key.2 != id@.2));
                assert(kept(before, key) == kept(before, key));
            }
        }
        *self = TransactionTable { slots, count: count - 1, model: Ghost(after) };
    }
}

} // verus!
