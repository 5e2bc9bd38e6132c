//! Identifiers of aggregators and their order.
use vstd::prelude::*;

verus! {

/// An account address.
#[derive(Clone, Copy, Debug, PartialEq, Eq, PartialOrd, Ord)]
pub struct AccountAddress(pub [u8; 32]);

/// Identifies a table in storage.
#[derive(Clone, Copy, Debug, PartialEq, Eq, PartialOrd, Ord)]
pub struct TableHandle(pub AccountAddress);

/// The key of an aggregator within its table.
#[derive(Clone, Copy, Debug, PartialEq, Eq, PartialOrd, Ord)]
pub struct AggregatorHandle(pub AccountAddress);

/// The key of an item in storage: an item of a table.
#[derive(Debug, PartialEq, Eq)]
pub struct StateKey {
    pub handle: TableHandle,
    pub key: Vec<u8>,
}

impl View for StateKey {
    type V = (TableHandle, Seq<u8>);

    open spec fn view(&self) -> (TableHandle, Seq<u8>) {
        (self.handle, self.key@)
    }
}

/// Uniquely identifies each aggregator instance in storage.
#[derive(Clone, Copy, Debug, PartialEq, Eq, PartialOrd, Ord)]
pub enum AggregatorID {
    /// An aggregator which is an item of a table.
    Legacy {
        /// Shared by all aggregators which one factory has created.
        handle: TableHandle,
        /// Unique for each aggregator of the table.
        key: AggregatorHandle,
    },
    /// An aggregator which lives in place, under an identifier which is unique
    /// per block.
    Ephemeral(u64),
}

/// How two values are ordered.
#[derive(Clone, Copy, Debug, PartialEq, Eq, Structural)]
pub enum Relation {
    Before,
    Same,
    After,
}

/// Whether the bytes of `a` come before those of `b`: they differ, and at the
/// first place where they do, `a` has the smaller byte.
pub open spec fn bytes_before(a: Seq<u8>, b: Seq<u8>) -> bool {
    exists|i: int| first_smaller(a, b, i)
}

/// Whether `a` and `b` agree up to place `i`, where `a` has the smaller byte.
pub open spec fn first_smaller(a: Seq<u8>, b: Seq<u8>, i: int) -> bool {
    &&& 0 <= i < a.len()
    &&& i < b.len()
    &&& forall|j: int| 0 <= j < i ==> #[trigger] a[j] == b[j]
    &&& a[i] < b[i]
}

impl AccountAddress {
    /// Whether this address comes before `other`, byte by byte.
    pub open spec fn before(self, other: AccountAddress) -> bool {
        bytes_before(self.0@, other.0@)
    }

    /// Compares two addresses byte by byte.
    fn relate(&self, other: &AccountAddress) -> (relation: Relation)
        ensures
            match relation {
                Relation::Before => self.before(*other),
                Relation::Same => *self == *other,
                Relation::After => other.before(*self),
            },
    {
        let mut i: usize = 0;
        while i < 32
            invariant
                i <= 32,
                forall|j: int| 0 <= j < i ==> #[trigger] self.0@[j] == other.0@[j],
            decreases 32 - i,
        {
            if self.0[i] < other.0[i] {
                assert(first_smaller(self.0@, other.0@, i as int));
                return Relation::Before;
            }
            if other.0[i] < self.0[i] {
                assert(first_smaller(other.0@, self.0@, i as int));
                return Relation::After;
            }
            i += 1;
        }
        assert(self.0 =~= other.0);
        Relation::Same
    }

    /// The bytes of the address.
    pub fn to_vec(&self) -> (bytes: Vec<u8>)
        ensures
            bytes@ == self.0@,
    {
        let mut bytes: Vec<u8> = Vec::new();
        let mut i: usize = 0;
        while i < 32
            invariant
                i <= 32,
                bytes@ == self.0@.take(i as int),
            decreases 32 - i,
        {
            bytes.push(self.0[i]);
            i += 1;
        }
        assert(self.0@.take(32) == self.0@);
        bytes
    }
}

impl AggregatorID {
    /// Whether this identifier comes before `other`: those of table items come
    /// first, by table and then by key; the others follow, by number.
    pub open spec fn before(self, other: AggregatorID) -> bool {
        match (self, other) {
            (
                AggregatorID::Legacy { handle: h1, key: k1 },
                AggregatorID::Legacy { handle: h2, key: k2 },
            ) => h1.0.before(h2.0) || (h1 == h2 && k1.0.before(k2.0)),
            (AggregatorID::Legacy { .. }, AggregatorID::Ephemeral(_)) => true,
            (AggregatorID::Ephemeral(_), AggregatorID::Legacy { .. }) => false,
            (AggregatorID::Ephemeral(n1), AggregatorID::Ephemeral(n2)) => n1 < n2,
        }
    }

    /// The table and the bytes of the key under which the aggregator is found
    /// in storage, if it is an item of a table.
    pub open spec fn storage_key(self) -> Option<(TableHandle, Seq<u8>)> {
        match self {
            AggregatorID::Legacy { handle, key } => Some((handle, key.0.0@)),
            AggregatorID::Ephemeral(_) => None,
        }
    }

    /// Returns the identifier of an aggregator which is an item of a table.
    pub fn legacy(handle: TableHandle, key: AggregatorHandle) -> (id: AggregatorID)
        ensures
            id == (AggregatorID::Legacy { handle, key }),
    {
        AggregatorID::Legacy { handle, key }
    }

    /// Returns the identifier of an aggregator which lives in place.
    pub fn ephemeral(id: u64) -> (result: AggregatorID)
        ensures
            result == AggregatorID::Ephemeral(id),
    {
        AggregatorID::Ephemeral(id)
    }

    /// Returns the key under which the aggregator is found in storage, if it
    /// is an item of a table.
    pub fn as_state_key(&self) -> (state_key: Option<StateKey>)
        ensures
            match state_key {
                Some(found) => self.storage_key() == Some(found@),
                None => self.storage_key() is None,
            },
            match *self {
                AggregatorID::Legacy { handle, key } => state_key matches Some(found)
                    && found.handle == handle && found.key@ == key.0.0@,
                AggregatorID::Ephemeral(_) => state_key is None,
            },
    {
        match self {
            AggregatorID::Legacy { handle, key } => Some(
                StateKey { handle: *handle, key: key.0.to_vec() },
            ),
            AggregatorID::Ephemeral(_) => None,
        }
    }

    /// Compares two identifiers.
    pub fn relate(&self, other: &AggregatorID) -> (relation: Relation)
        ensures
            match relation {
                Relation::Before => self.before(*other),
                Relation::Same => *self == *other,
                Relation::After => other.before(*self),
            },
    {
        match (self, other) {
            (
                AggregatorID::Legacy { handle: h1, key: k1 },
                AggregatorID::Legacy { handle: h2, key: k2 },
            ) => match h1.0.relate(&h2.0) {
                Relation::Before => Relation::Before,
                Relation::After => Relation::After,
                Relation::Same => k1.0.relate(&k2.0),
            },
            (AggregatorID::Legacy { .. }, AggregatorID::Ephemeral(_)) => Relation::Before,
            (AggregatorID::Ephemeral(_), AggregatorID::Legacy { .. }) => Relation::After,
            (AggregatorID::Ephemeral(n1), AggregatorID::Ephemeral(n2)) => if *n1 < *n2 {
                Relation::Before
            } else if *n1 == *n2 {
                Relation::Same
            } else {
                Relation::After
            },
        }
    }
}

/// Of two different sequences of one length, exactly one comes before the
/// other; a sequence does not come before itself.
proof fn lemma_bytes_order(a: Seq<u8>, b: Seq<u8>)
    requires
        a.len() == b.len(),
    ensures
        bytes_before(a, b) || bytes_before(b, a) || a == b,
        !(bytes_before(a, b) && bytes_before(b, a)),
        !bytes_before(a, a),
{
    if bytes_before(a, b) && bytes_before(b, a) {
        let i = choose|i: int| first_smaller(a, b, i);
        let j = choose|j: int| first_smaller(b, a, j);
        if i < j {
            assert(b[i] == a[i]);
        } else if j < i {
            assert(a[j] == b[j]);
        }
    }
    if a != b {
        lemma_first_difference(a, b, 0);
        let i = choose|i: int| first_smaller(a, b, i) || first_smaller(b, a, i);
        assert(first_smaller(a, b, i) || first_smaller(b, a, i));
    }
}

/// Two different sequences of one length have a first place where they differ.
proof fn lemma_first_difference(a: Seq<u8>, b: Seq<u8>, from: int)
    requires
        a.len() == b.len(),
        a != b,
        0 <= from <= a.len(),
        forall|j: int| 0 <= j < from ==> #[trigger] a[j] == b[j],
    ensures
        exists|i: int| first_smaller(a, b, i) || first_smaller(b, a, i),
    decreases a.len() - from,
{
    if from == a.len() {
        assert(a =~= b);
    } else if a[from] < b[from] {
        assert(first_smaller(a, b, from));
    } else if b[from] < a[from] {
        assert(first_smaller(b, a, from));
    } else {
        lemma_first_difference(a, b, from + 1);
    }
}

/// What comes before `b` comes before all that comes after `b`.
proof fn lemma_bytes_transitive(a: Seq<u8>, b: Seq<u8>, c: Seq<u8>)
    requires
        a.len() == b.len() == c.len(),
        bytes_before(a, b),
        bytes_before(b, c),
    ensures
        bytes_before(a, c),
{
    let i = choose|i: int| first_smaller(a, b, i);
    let j = choose|j: int| first_smaller(b, c, j);
    if i <= j {
        assert forall|k: int| 0 <= k < i implies #[trigger] a[k] == c[k] by {
            assert(b[k] == c[k]);
        }
        if i < j {
            assert(b[i] == c[i]);
        }
        assert(first_smaller(a, c, i));
    } else {
        assert forall|k: int| 0 <= k < j implies #[trigger] a[k] == c[k] by {
            assert(b[k] == c[k]);
        }
        assert(a[j] == b[j]);
        assert(first_smaller(a, c, j));
    }
}

/// Of two identifiers, exactly one holds: the first comes before the second,
/// they are the same, or the second comes before the first.
pub proof fn law_id_order_total(a: AggregatorID, b: AggregatorID)
    ensures
        a.before(b) || a == b || b.before(a),
        !(a.before(b) && b.before(a)),
        a == b ==> !a.before(b),
{
    match (a, b) {
        (
            AggregatorID::Legacy { handle: h1, key: k1 },
            AggregatorID::Legacy { handle: h2, key: k2 },
        ) => {
            lemma_bytes_order(h1.0.0@, h2.0.0@);
            lemma_bytes_order(k1.0.0@, k2.0.0@);
            assert(h1.0.0@ == h2.0.0@ ==> h1.0.0 =~= h2.0.0);
            assert(k1.0.0@ == k2.0.0@ ==> k1.0.0 =~= k2.0.0);
        },
        _ => {},
    }
}

/// The order of identifiers is transitive.
pub proof fn law_id_order_transitive(a: AggregatorID, b: AggregatorID, c: AggregatorID)
    requires
        a.before(b),
        b.before(c),
    ensures
        a.before(c),
{
    match (a, b, c) {
        (
            AggregatorID::Legacy { handle: h1, key: k1 },
            AggregatorID::Legacy { handle: h2, key: k2 },
            AggregatorID::Legacy { handle: h3, key: k3 },
        ) => {
            if h1.0.before(h2.0) && h2.0.before(h3.0) {
                lemma_bytes_transitive(h1.0.0@, h2.0.0@, h3.0.0@);
            }
            if k1.0.before(k2.0) && k2.0.before(k3.0) {
                lemma_bytes_transitive(k1.0.0@, k2.0.0@, k3.0.0@);
            }
        },
        _ => {},
    }
}

/// Identifiers are ordered as their parts are: table items come before all
/// others; of table items, the first byte in which the tables differ decides,
/// and if they do not, the first in which the keys do; of the others, the
/// number decides.
pub proof fn law_id_order_is_lexicographic(
    t1: [u8; 32],
    k1: [u8; 32],
    t2: [u8; 32],
    k2: [u8; 32],
    n1: u64,
    n2: u64,
    i: int,
)
    requires
        0 <= i < 32,
    ensures
        ({
            let a = AggregatorID::Legacy {
                handle: TableHandle(AccountAddress(t1)),
                key: AggregatorHandle(AccountAddress(k1)),
            };
            let b = AggregatorID::Legacy {
                handle: TableHandle(AccountAddress(t2)),
                key: AggregatorHandle(AccountAddress(k2)),
            };
            &&& (forall|j: int| 0 <= j < i ==> #[trigger] t1@[j] == t2@[j]) && t1@[i] < t2@[i]
                ==> a.before(b)
            &&& t1 == t2 && (forall|j: int| 0 <= j < i ==> #[trigger] k1@[j] == k2@[j]) && k1@[i]
                < k2@[i] ==> a.before(b)
            &&& a.before(AggregatorID::Ephemeral(n1))
            &&& !AggregatorID::Ephemeral(n1).before(a)
            &&& AggregatorID::Ephemeral(n1).before(AggregatorID::Ephemeral(n2)) <==> n1 < n2
        }),
{
    if (forall|j: int| 0 <= j < i ==> #[trigger] t1@[j] == t2@[j]) && t1@[i] < t2@[i] {
        assert(first_smaller(t1@, t2@, i));
    }
    if (forall|j: int| 0 <= j < i ==> #[trigger] k1@[j] == k2@[j]) && k1@[i] < k2@[i] {
        assert(first_smaller(k1@, k2@, i));
    }
}

/// An aggregator which is an item of a table is found under the table and the
/// bytes of its key; any other is not found in storage.
pub proof fn law_state_key_is_table_and_key(table: TableHandle, key: AggregatorHandle, n: u64)
    ensures
        (AggregatorID::Legacy { handle: table, key }).storage_key() matches Some(found) && found.0
            == table && found.1 == key.0.0@,
        AggregatorID::Ephemeral(n).storage_key() is None,
{
}

/// Two aggregators which are found in storage under one key are the same one.
pub proof fn law_state_key_is_unique(a: AggregatorID, b: AggregatorID)
    requires
        a.storage_key() is Some,
        a.storage_key() == b.storage_key(),
    ensures
        a == b,
{
    match (a, b) {
        (AggregatorID::Legacy { key: k1, .. }, AggregatorID::Legacy { key: k2, .. }) => {
            assert forall|i: int| 0 <= i < 32 implies k1.0.0[i] == k2.0.0[i] by {
                assert(k1.0.0@[i] == k2.0.0@[i]);
            }
            assert(k1.0.0 =~= k2.0.0);
        },
        _ => {},
    }
}

} // verus!
