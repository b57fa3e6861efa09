//! The result aggregator: the addresses that were confirmed as contracts, each held once.

use vstd::hash_map::StringHashMap;
use vstd::prelude::*;

verus! {

/// The texts of a sequence of strings.
pub open spec fn texts(strings: Seq<String>) -> Seq<Seq<char>> {
    strings.map_values(|s: String| s@)
}

/// The addresses confirmed as contracts. Each address is a key and is held once, however
/// often it is reported; with it goes a flag that is kept for data on the contract and is
/// `false` for every address so far. Nothing is ever removed.
pub struct ContractSet {
    flags: StringHashMap<bool>,
    order: Vec<String>,
}

impl View for ContractSet {
    type V = Map<Seq<char>, bool>;

    closed spec fn view(&self) -> Map<Seq<char>, bool> {
        self.flags@
    }
}

impl ContractSet {
    #[verifier::type_invariant]
    spec fn well_formed(self) -> bool {
        &&& texts(self.order@).no_duplicates()
        &&& texts(self.order@).to_set() =~= self.flags@.dom()
    }

    /// The empty set.
    pub fn new() -> (set: Self)
        ensures
            set@ == Map::<Seq<char>, bool>::empty(),
    {
        ContractSet { flags: StringHashMap::new(), order: Vec::new() }
    }

    /// Whether `address` has been confirmed as a contract.
    pub fn contains(&self, address: &str) -> (held: bool)
        ensures
            held == self@.contains_key(address@),
    {
        self.flags.contains_key(address)
    }

    /// The flag that goes with `address`, if the address is held.
    pub fn get(&self, address: &str) -> (flag: Option<bool>)
        ensures
            flag == if self@.contains_key(address@) {
                Some(self@[address@])
            } else {
                None
            },
    {
        match self.flags.get(address) {
            Some(flag) => Some(*flag),
            None => None,
        }
    }

    /// Records `address` as a contract. Recording an address that is already held changes
    /// nothing.
    pub fn insert(&mut self, address: String)
        ensures
            final(self)@ == old(self)@.insert(address@, false),
    {
        proof {
            use_type_invariant(&*self);
        }
        let mut taken = ContractSet::new();
        std::mem::swap(&mut taken, self);
        let ContractSet { flags, order } = taken;
        let mut flags = flags;
        let mut order = order;
        let ghost before = texts(order@);
        if !flags.contains_key(address.as_str()) {
            order.push(address.clone());
            assert(texts(order@) =~= before.push(address@));
            assert(texts(order@).to_set() =~= before.to_set().insert(address@)) by {
                assert forall|a: Seq<char>|
                    before.to_set().insert(address@).contains(a) implies texts(
                    order@,
                ).contains(a) by {
                    if a == address@ {
                        assert(texts(order@)[before.len() as int] == a);
                    } else {
                        let i = choose|i: int| 0 <= i < before.len() && before[i] == a;
                        assert(texts(order@)[i] == a);
                    }
                }
            }
        }
        flags.insert(address, false);
        *self = ContractSet { flags, order };
    }

    /// The number of addresses held.
    pub fn len(&self) -> (n: usize)
        ensures
            self@.dom().finite(),
            n == self@.dom().len(),
    {
        proof {
            use_type_invariant(&*self);
            texts(self.order@).unique_seq_to_set();
        }
        self.order.len()
    }

    /// Every address held, each once. The order is that in which the addresses were first
    /// recorded; callers should not rely on it.
    pub fn all(&self) -> (addresses: Vec<String>)
        ensures
            texts(addresses@).no_duplicates(),
            texts(addresses@).to_set() == self@.dom(),
    {
        proof {
            use_type_invariant(&*self);
        }
        let mut addresses: Vec<String> = Vec::new();
        let mut i: usize = 0;
        while i < self.order.len()
            invariant
                i <= self.order.len(),
                addresses@.len() == i,
                forall|j: int| 0 <= j < i ==> addresses@[j]@ == self.order@[j]@,
            decreases self.order.len() - i,
        {
            addresses.push(self.order[i].clone());
            i = i + 1;
        }
        assert(texts(addresses@) =~= texts(self.order@));
        addresses
    }
}

/// The contract set after `address` has been recorded `times` times in `contracts`.
pub open spec fn recorded(contracts: Map<Seq<char>, bool>, address: Seq<char>, times: nat) -> Map<
    Seq<char>,
    bool,
>
    decreases times,
{
    if times == 0 {
        contracts
    } else {
        recorded(contracts, address, (times - 1) as nat).insert(address, false)
    }
}

/// Recording is idempotent: however often an address is recorded, the set is the one that
/// recording it once gives, and holds the address once. The set grows by one address if it
/// did not hold the address before, and not at all if it did.
pub proof fn lemma_recording_is_idempotent(
    contracts: Map<Seq<char>, bool>,
    address: Seq<char>,
    times: nat,
)
    requires
        times >= 1,
    ensures
        recorded(contracts, address, times) == contracts.insert(address, false),
        recorded(contracts, address, times).dom() == contracts.dom().insert(address),
        contracts.dom().finite() ==> recorded(contracts, address, times).dom().len()
            == if contracts.contains_key(address) {
            contracts.dom().len()
        } else {
            contracts.dom().len() + 1
        },
    decreases times,
{
    if times > 1 {
        lemma_recording_is_idempotent(contracts, address, (times - 1) as nat);
    } else {
        assert(recorded(contracts, address, 0) == contracts);
    }
}

} // verus!
