//! The store of global variables: an open-addressing hash table from names
//! to values, probed linearly, with tombstones left by deletions.

use vstd::prelude::*;
use vstd::utf8::*;
use crate::value::{text_eq, Value, ValueView};

verus! {

/// The seed of the FNV-1a hash.
pub const FNV_OFFSET: u32 = 2166136261;

/// The factor of the FNV-1a hash.
pub const FNV_PRIME: u32 = 16777619;

/// The number of slots of a fresh table.
pub const INITIAL_CAPACITY: usize = 8;

/// FNV-1a over bytes: for each byte, xor it in, then multiply modulo 2^32.
pub open spec fn fnv1a(bytes: Seq<u8>) -> u32
    decreases bytes.len(),
{
    if bytes.len() == 0 {
        FNV_OFFSET
    } else {
        (fnv1a(bytes.drop_last()) ^ (bytes.last() as u32)).wrapping_mul(FNV_PRIME)
    }
}

/// The slot at which the search for a name starts, in a table of `capacity`
/// slots.
pub open spec fn home_slot(name: Seq<char>, capacity: int) -> int {
    (fnv1a(encode_utf8(name)) as int) % capacity
}

/// The slot reached `step` slots after `home`, wrapping round at `capacity`.
pub open spec fn probe(home: int, step: int, capacity: int) -> int {
    if home + step < capacity {
        home + step
    } else {
        home + step - capacity
    }
}

/// The number of steps that lead from `home` to `slot`.
pub open spec fn probe_distance(home: int, slot: int, capacity: int) -> int {
    if slot >= home {
        slot - home
    } else {
        slot + capacity - home
    }
}

/// Whether a table that holds `used` slots out of `capacity` must grow.
pub open spec fn overloaded(used: nat, capacity: nat) -> bool {
    4 * used >= 3 * capacity
}

/// The mathematical model of a table: what it binds, and how full it is.
pub ghost struct TableView {
    /// The names that are bound, each with its value.
    pub entries: Map<Seq<char>, ValueView>,
    /// The number of slots that hold a name or a tombstone.
    pub used: nat,
    /// The number of slots.
    pub capacity: nat,
}

impl TableView {
    /// The value bound to `name`, if there is one.
    pub open spec fn get(self, name: Seq<char>) -> Option<ValueView> {
        if self.entries.contains_key(name) {
            Some(self.entries[name])
        } else {
            None
        }
    }

    /// The table after `name` is bound to `value`. A new name claims a slot;
    /// a table that is then overloaded doubles its capacity and keeps only
    /// the slots of its live names.
    pub open spec fn set(self, name: Seq<char>, value: ValueView) -> TableView {
        let entries = self.entries.insert(name, value);
        let claimed = if self.entries.contains_key(name) {
            self.used
        } else {
            self.used + 1
        };
        if overloaded(claimed, self.capacity) {
            TableView { entries, used: entries.dom().len(), capacity: 2 * self.capacity }
        } else {
            TableView { entries, used: claimed, capacity: self.capacity }
        }
    }

    /// The table after `name` is unbound: its slot stays in use, as a
    /// tombstone.
    pub open spec fn delete(self, name: Seq<char>) -> TableView {
        TableView { entries: self.entries.remove(name), ..self }
    }

    /// Whether the capacity can be doubled.
    pub open spec fn can_grow(self) -> bool {
        2 * self.capacity <= usize::MAX
    }
}

/// A name reads back the value that was last set for it.
pub proof fn law_get_after_set(t: TableView, name: Seq<char>, value: ValueView)
    ensures
        t.set(name, value).get(name) == Some(value),
{
}

/// A deleted name is not found.
pub proof fn law_get_after_delete(t: TableView, name: Seq<char>)
    ensures
        t.delete(name).get(name) == None::<ValueView>,
{
}

/// A name that was deleted can be set again, and then reads back the new
/// value.
pub proof fn law_set_after_delete(t: TableView, name: Seq<char>, value: ValueView)
    ensures
        t.delete(name).set(name, value).get(name) == Some(value),
{
}

/// Setting or deleting one name changes what no other name reads, whatever
/// slots the two compete for.
pub proof fn law_other_names_keep(t: TableView, name: Seq<char>, value: ValueView, other: Seq<char>)
    requires
        other != name,
    ensures
        t.set(name, value).get(other) == t.get(other),
        t.delete(name).get(other) == t.get(other),
        t.delete(name).set(name, value).get(other) == t.get(other),
{
}

/// Why a deletion failed.
#[derive(Debug, Clone, Copy, PartialEq, Eq, Structural)]
pub enum TableError {
    /// No slot of the table has ever been used.
    TableEmpty,
    /// The table holds no such name.
    KeyNotFound,
}

/// One slot of the table.
pub enum Entry {
    /// Never used: a search that reaches it ends.
    Empty,
    /// Held a name that was deleted: a search passes over it.
    Tomb,
    Full(String, Value),
}

/// The table. `size` counts the slots that are not `Empty`.
pub struct SymTable {
    table: Vec<Entry>,
    size: usize,
}

pub closed spec fn slot_holds(t: Seq<Entry>, i: int, name: Seq<char>) -> bool {
    &&& 0 <= i < t.len()
    &&& t[i] is Full
    &&& t[i]->Full_0@ == name
}

pub closed spec fn unique_names(t: Seq<Entry>) -> bool {
    forall|i: int, j: int|
        0 <= i < t.len() && 0 <= j < t.len() && i != j && t[i] is Full && t[j] is Full
            ==> (#[trigger] t[i])->Full_0@ != (#[trigger] t[j])->Full_0@
}

/// No `Empty` slot lies strictly between a name's home slot and its own.
pub closed spec fn chain_intact(t: Seq<Entry>, i: int) -> bool {
    t[i] is Full ==> {
        let home = home_slot(t[i]->Full_0@, t.len() as int);
        forall|d: int|
            0 <= d < probe_distance(home, i, t.len() as int) ==> !(t[#[trigger] probe(
                home,
                d,
                t.len() as int,
            )] is Empty)
    }
}

pub closed spec fn chains_intact(t: Seq<Entry>) -> bool {
    forall|i: int| 0 <= i < t.len() ==> #[trigger] chain_intact(t, i)
}

pub closed spec fn used_slots(t: Seq<Entry>) -> nat
    decreases t.len(),
{
    if t.len() == 0 {
        0
    } else {
        used_slots(t.drop_last()) + if t.last() is Empty {
            0nat
        } else {
            1nat
        }
    }
}

pub closed spec fn slot_of(t: Seq<Entry>, name: Seq<char>) -> int {
    choose|i: int| slot_holds(t, i, name)
}

/// The names of the `Full` slots, each with its value.
pub closed spec fn entries_map(t: Seq<Entry>) -> Map<Seq<char>, ValueView> {
    Map::new(
        |name: Seq<char>| exists|i: int| slot_holds(t, i, name),
        |name: Seq<char>| t[slot_of(t, name)]->Full_1@,
    )
}

pub closed spec fn table_ok(t: Seq<Entry>) -> bool {
    &&& t.len() >= 4
    &&& used_slots(t) < t.len()
    &&& unique_names(t)
    &&& chains_intact(t)
}

proof fn lemma_has_empty(t: Seq<Entry>)
    requires
        used_slots(t) < t.len(),
    ensures
        exists|i: int| 0 <= i < t.len() && t[i] is Empty,
    decreases t.len(),
{
    if t.len() > 0 {
        if t.last() is Empty {
            assert(t[t.len() - 1] is Empty);
        } else {
            lemma_has_empty(t.drop_last());
            let i = choose|i: int| 0 <= i < t.drop_last().len() && t.drop_last()[i] is Empty;
            assert(t[i] is Empty);
        }
    }
}

proof fn lemma_used_none(t: Seq<Entry>)
    requires
        used_slots(t) == 0,
    ensures
        forall|i: int| 0 <= i < t.len() ==> t[i] is Empty,
    decreases t.len(),
{
    if t.len() > 0 {
        lemma_used_none(t.drop_last());
        assert forall|i: int| 0 <= i < t.len() implies t[i] is Empty by {
            if i < t.len() - 1 {
                assert(t.drop_last()[i] is Empty);
            }
        }
    }
}

proof fn lemma_used_all_empty(t: Seq<Entry>)
    requires
        forall|i: int| 0 <= i < t.len() ==> t[i] is Empty,
    ensures
        used_slots(t) == 0,
    decreases t.len(),
{
    if t.len() > 0 {
        assert forall|i: int| 0 <= i < t.drop_last().len() implies t.drop_last()[i] is Empty by {
            assert(t[i] is Empty);
        }
        lemma_used_all_empty(t.drop_last());
    }
}

proof fn lemma_used_update(t: Seq<Entry>, i: int, e: Entry)
    requires
        0 <= i < t.len(),
    ensures
        used_slots(t.update(i, e)) + (if t[i] is Empty { 0int } else { 1int })
            == used_slots(t) + (if e is Empty { 0int } else { 1int }),
    decreases t.len(),
{
    let u = t.update(i, e);
    if i == t.len() - 1 {
        assert(u.drop_last() =~= t.drop_last());
    } else {
        assert(u.drop_last() =~= t.drop_last().update(i, e));
        lemma_used_update(t.drop_last(), i, e);
    }
}

/// In a table with unique names, the slot that holds a name is the one that
/// the map reads.
proof fn lemma_map_at(t: Seq<Entry>, i: int)
    requires
        unique_names(t),
        0 <= i < t.len(),
        t[i] is Full,
    ensures
        entries_map(t).contains_key(t[i]->Full_0@),
        entries_map(t)[t[i]->Full_0@] == t[i]->Full_1@,
        slot_of(t, t[i]->Full_0@) == i,
{
    let name = t[i]->Full_0@;
    assert(slot_holds(t, i, name));
    let j = slot_of(t, name);
    assert(slot_holds(t, j, name));
    if i != j {
        assert(t[i]->Full_0@ != t[j]->Full_0@);
    }
}

/// Writing `name` into a slot that is not `Full`, in a table that does not
/// hold it, adds it to the map.
proof fn lemma_map_insert(t: Seq<Entry>, i: int, e: Entry)
    requires
        unique_names(t),
        0 <= i < t.len(),
        !(t[i] is Full),
        e is Full,
        forall|j: int| !slot_holds(t, j, e->Full_0@),
    ensures
        unique_names(t.update(i, e)),
        entries_map(t.update(i, e)) == entries_map(t).insert(e->Full_0@, e->Full_1@),
{
    let u = t.update(i, e);
    let name = e->Full_0@;
    assert forall|a: int, b: int|
        0 <= a < u.len() && 0 <= b < u.len() && a != b && u[a] is Full && u[b] is Full
        implies (#[trigger] u[a])->Full_0@ != (#[trigger] u[b])->Full_0@ by {
        if a == i {
            assert(!slot_holds(t, b, name));
        } else if b == i {
            assert(!slot_holds(t, a, name));
        } else {
            assert(t[a]->Full_0@ != t[b]->Full_0@);
        }
    }
    let m1 = entries_map(u);
    let m2 = entries_map(t).insert(name, e->Full_1@);
    assert forall|k: Seq<char>| m1.contains_key(k) == m2.contains_key(k) by {
        if m1.contains_key(k) {
            let j = choose|j: int| slot_holds(u, j, k);
            if j != i {
                assert(slot_holds(t, j, k));
            }
        }
        if m2.contains_key(k) {
            if k == name {
                assert(slot_holds(u, i, k));
            } else {
                let j = choose|j: int| slot_holds(t, j, k);
                assert(slot_holds(u, j, k));
            }
        }
    }
    assert forall|k: Seq<char>| m1.contains_key(k) implies m1[k] == m2[k] by {
        let j = slot_of(u, k);
        assert(slot_holds(u, j, k));
        if k == name {
            lemma_map_at(u, i);
        } else {
            assert(slot_holds(t, j, k));
            lemma_map_at(t, j);
        }
    }
    assert(m1 =~= m2);
}

/// Replacing the value of a `Full` slot replaces it in the map.
proof fn lemma_map_overwrite(t: Seq<Entry>, i: int, e: Entry)
    requires
        unique_names(t),
        0 <= i < t.len(),
        t[i] is Full,
        e is Full,
        e->Full_0@ == t[i]->Full_0@,
    ensures
        unique_names(t.update(i, e)),
        entries_map(t.update(i, e)) == entries_map(t).insert(e->Full_0@, e->Full_1@),
{
    let u = t.update(i, e);
    let name = e->Full_0@;
    assert forall|a: int, b: int|
        0 <= a < u.len() && 0 <= b < u.len() && a != b && u[a] is Full && u[b] is Full
        implies (#[trigger] u[a])->Full_0@ != (#[trigger] u[b])->Full_0@ by {
        assert(t[a]->Full_0@ != t[b]->Full_0@);
    }
    let m1 = entries_map(u);
    let m2 = entries_map(t).insert(name, e->Full_1@);
    assert forall|k: Seq<char>| m1.contains_key(k) == m2.contains_key(k) by {
        if m1.contains_key(k) {
            let j = choose|j: int| slot_holds(u, j, k);
            assert(slot_holds(t, j, k));
        }
        if m2.contains_key(k) {
            if k == name {
                assert(slot_holds(u, i, k));
            } else {
                let j = choose|j: int| slot_holds(t, j, k);
                assert(slot_holds(u, j, k));
            }
        }
    }
    assert forall|k: Seq<char>| m1.contains_key(k) implies m1[k] == m2[k] by {
        let j = slot_of(u, k);
        assert(slot_holds(u, j, k));
        lemma_map_at(u, j);
        if k != name {
            assert(slot_holds(t, j, k));
            lemma_map_at(t, j);
        }
    }
    assert(m1 =~= m2);
}

/// Turning a `Full` slot into a tombstone removes its name from the map.
proof fn lemma_map_remove(t: Seq<Entry>, i: int)
    requires
        unique_names(t),
        0 <= i < t.len(),
        t[i] is Full,
    ensures
        unique_names(t.update(i, Entry::Tomb)),
        entries_map(t.update(i, Entry::Tomb)) == entries_map(t).remove(t[i]->Full_0@),
{
    let u = t.update(i, Entry::Tomb);
    let name = t[i]->Full_0@;
    assert forall|a: int, b: int|
        0 <= a < u.len() && 0 <= b < u.len() && a != b && u[a] is Full && u[b] is Full
        implies (#[trigger] u[a])->Full_0@ != (#[trigger] u[b])->Full_0@ by {
        assert(t[a]->Full_0@ != t[b]->Full_0@);
    }
    let m1 = entries_map(u);
    let m2 = entries_map(t).remove(name);
    assert forall|k: Seq<char>| m1.contains_key(k) == m2.contains_key(k) by {
        if m1.contains_key(k) {
            let j = choose|j: int| slot_holds(u, j, k);
            assert(slot_holds(t, j, k));
            if k == name {
                assert(t[i]->Full_0@ != t[j]->Full_0@);
            }
        }
        if m2.contains_key(k) {
            let j = choose|j: int| slot_holds(t, j, k);
            assert(slot_holds(u, j, k));
        }
    }
    assert forall|k: Seq<char>| m1.contains_key(k) implies m1[k] == m2[k] by {
        let j = slot_of(u, k);
        assert(slot_holds(u, j, k));
        lemma_map_at(u, j);
        assert(slot_holds(t, j, k));
        lemma_map_at(t, j);
    }
    assert(m1 =~= m2);
}

/// Writing into a slot keeps every chain intact, as long as the slot does
/// not become `Empty` and a name that arrives is reachable from its home.
proof fn lemma_chains_update(t: Seq<Entry>, i: int, e: Entry)
    requires
        chains_intact(t),
        0 <= i < t.len(),
        !(e is Empty),
        e is Full ==> forall|d: int|
            0 <= d < probe_distance(home_slot(e->Full_0@, t.len() as int), i, t.len() as int)
                ==> !(t[#[trigger] probe(home_slot(e->Full_0@, t.len() as int), d, t.len() as int)]
                is Empty),
    ensures
        chains_intact(t.update(i, e)),
{
    let u = t.update(i, e);
    let cap = t.len() as int;
    assert forall|a: int| 0 <= a < u.len() implies #[trigger] chain_intact(u, a) by {
        if u[a] is Full {
            let home = home_slot(u[a]->Full_0@, cap);
            assert forall|d: int| 0 <= d < probe_distance(home, a, cap) implies !(u[#[trigger] probe(
                home,
                d,
                cap,
            )] is Empty) by {
                let p = probe(home, d, cap);
                if p != i {
                    if a == i {
                        assert(!(t[probe(home, d, cap)] is Empty));
                    } else {
                        assert(chain_intact(t, a));
                        assert(!(t[probe(home, d, cap)] is Empty));
                    }
                }
            }
        }
    }
}

/// Appending a slot adds its name to the map, if it holds one.
proof fn lemma_map_push(t: Seq<Entry>, e: Entry)
    requires
        unique_names(t.push(e)),
    ensures
        unique_names(t),
        entries_map(t.push(e)) == if e is Full {
            entries_map(t).insert(e->Full_0@, e->Full_1@)
        } else {
            entries_map(t)
        },
        e is Full ==> !entries_map(t).contains_key(e->Full_0@),
{
    let u = t.push(e);
    let n = t.len() as int;
    assert forall|a: int, b: int|
        0 <= a < t.len() && 0 <= b < t.len() && a != b && t[a] is Full && t[b] is Full
        implies (#[trigger] t[a])->Full_0@ != (#[trigger] t[b])->Full_0@ by {
        assert(u[a] is Full && u[b] is Full);
        assert(u[a]->Full_0@ != u[b]->Full_0@);
    }
    if e is Full {
        if entries_map(t).contains_key(e->Full_0@) {
            let j = choose|j: int| slot_holds(t, j, e->Full_0@);
            assert(u[j] is Full && u[n] is Full);
            assert(u[j]->Full_0@ != u[n]->Full_0@);
        }
    }
    let m1 = entries_map(u);
    let m2 = if e is Full {
        entries_map(t).insert(e->Full_0@, e->Full_1@)
    } else {
        entries_map(t)
    };
    assert forall|k: Seq<char>| m1.contains_key(k) == m2.contains_key(k) by {
        if m1.contains_key(k) {
            let j = choose|j: int| slot_holds(u, j, k);
            if j != n {
                assert(slot_holds(t, j, k));
            }
        }
        if m2.contains_key(k) {
            if e is Full && k == e->Full_0@ {
                assert(slot_holds(u, n, k));
            } else {
                let j = choose|j: int| slot_holds(t, j, k);
                assert(slot_holds(u, j, k));
            }
        }
    }
    assert forall|k: Seq<char>| m1.contains_key(k) implies m1[k] == m2[k] by {
        let j = slot_of(u, k);
        assert(slot_holds(u, j, k));
        lemma_map_at(u, j);
        if j != n {
            assert(slot_holds(t, j, k));
            lemma_map_at(t, j);
        }
    }
    assert(m1 =~= m2);
}

/// A table of `Empty` slots holds no name.
proof fn lemma_map_blank(t: Seq<Entry>)
    requires
        forall|i: int| 0 <= i < t.len() ==> t[i] is Empty,
    ensures
        entries_map(t) == Map::<Seq<char>, ValueView>::empty(),
        unique_names(t),
        chains_intact(t),
        used_slots(t) == 0,
{
    lemma_used_all_empty(t);
    assert forall|k: Seq<char>| !entries_map(t).contains_key(k) by {
        if entries_map(t).contains_key(k) {
            let j = choose|j: int| slot_holds(t, j, k);
            assert(t[j] is Empty);
        }
    }
    assert(entries_map(t) =~= Map::<Seq<char>, ValueView>::empty());
    assert forall|i: int| 0 <= i < t.len() implies #[trigger] chain_intact(t, i) by {}
}

impl View for SymTable {
    type V = TableView;

    closed spec fn view(&self) -> TableView {
        TableView {
            entries: entries_map(self.table@),
            used: self.size as nat,
            capacity: self.table@.len(),
        }
    }
}

impl SymTable {
    /// The invariant of the table: the count is right, the load is below
    /// three quarters, no name occurs twice, and every name can be reached
    /// from its home slot without crossing an `Empty` slot.
    pub closed spec fn wf(&self) -> bool {
        &&& table_ok(self.table@)
        &&& self.size == used_slots(self.table@)
        &&& !overloaded(self.size as nat, self.table@.len())
    }

    /// After any operation the table is loaded below three quarters of its
    /// capacity; and a table of which no slot is used binds no name.
    pub proof fn law_load_below_three_quarters(&self)
        requires
            self.wf(),
        ensures
            4 * self@.used < 3 * self@.capacity,
            self@.capacity >= 4,
            self@.used == 0 ==> self@.entries == Map::<Seq<char>, ValueView>::empty(),
    {
        if self.size == 0 {
            lemma_used_none(self.table@);
            assert forall|k: Seq<char>| !self@.entries.contains_key(k) by {
                if self@.entries.contains_key(k) {
                    let j = choose|j: int| slot_holds(self.table@, j, k);
                    assert(self.table@[j] is Empty);
                }
            }
            assert(self@.entries =~= Map::<Seq<char>, ValueView>::empty());
        }
    }

    /// An empty table of `INITIAL_CAPACITY` slots.
    pub fn new() -> (t: Self)
        ensures
            t.wf(),
            t@ == (TableView {
                entries: Map::<Seq<char>, ValueView>::empty(),
                used: 0,
                capacity: INITIAL_CAPACITY as nat,
            }),
    {
        let table = Self::empty_slots(INITIAL_CAPACITY);
        let t = SymTable { table, size: 0 };
        proof {
            lemma_used_all_empty(t.table@);
            assert(unique_names(t.table@));
            assert forall|i: int| 0 <= i < t.table@.len() implies #[trigger] chain_intact(
                t.table@,
                i,
            ) by {}
            t.law_load_below_three_quarters();
        }
        t
    }

    fn empty_slots(n: usize) -> (v: Vec<Entry>)
        ensures
            v@.len() == n,
            forall|i: int| 0 <= i < n ==> v@[i] is Empty,
    {
        let mut v: Vec<Entry> = Vec::new();
        let mut i: usize = 0;
        while i < n
            invariant
                i <= n,
                v@.len() == i,
                forall|j: int| 0 <= j < i ==> v@[j] is Empty,
            decreases n - i,
        {
            v.push(Entry::Empty);
            i += 1;
        }
        v
    }

    /// The number of slots.
    pub fn capacity(&self) -> (n: usize)
        ensures
            n == self@.capacity,
    {
        self.table.len()
    }

    /// The number of slots that hold a name or a tombstone.
    pub fn used(&self) -> (n: usize)
        ensures
            n == self@.used,
    {
        self.size
    }

    /// The FNV-1a hash of a name's UTF-8 bytes.
    pub fn hash_key(token: &str) -> (hash: u32)
        ensures
            hash == fnv1a(encode_utf8(token@)),
    {
        let bytes = token.as_bytes();
        let mut hash: u32 = FNV_OFFSET;
        let mut i: usize = 0;
        while i < bytes.len()
            invariant
                i <= bytes.len(),
                hash == fnv1a(bytes@.take(i as int)),
            decreases bytes.len() - i,
        {
            proof {
                assert(bytes@.take(i + 1).drop_last() =~= bytes@.take(i as int));
            }
            hash = (hash ^ (bytes[i] as u32)).wrapping_mul(FNV_PRIME);
            i += 1;
        }
        proof {
            assert(bytes@.take(i as int) =~= bytes@);
        }
        hash
    }

    /// Walks the probe sequence of `key`: to the slot that holds it, or else
    /// to the first `Empty` slot, which is where it would go.
    fn find_entry(v: &Vec<Entry>, key: &str) -> (r: (usize, bool))
        requires
            table_ok(v@),
        ensures
            r.0 < v@.len(),
            r.1 ==> slot_holds(v@, r.0 as int, key@),
            !r.1 ==> v@[r.0 as int] is Empty,
            !r.1 ==> forall|j: int| !slot_holds(v@, j, key@),
            !r.1 ==> forall|d: int|
                0 <= d < probe_distance(home_slot(key@, v@.len() as int), r.0 as int, v@.len() as int)
                    ==> !(v@[#[trigger] probe(home_slot(key@, v@.len() as int), d, v@.len() as int)]
                    is Empty),
    {
        let cap = v.len();
        let home = (Self::hash_key(key) as usize) % cap;
        let mut index = home;
        let mut steps: usize = 0;
        loop
            invariant
                cap == v@.len(),
                table_ok(v@),
                home == home_slot(key@, cap as int),
                0 <= home < cap,
                steps < cap,
                index == probe(home as int, steps as int, cap as int),
                forall|d: int|
                    0 <= d < steps ==> !(v@[#[trigger] probe(home as int, d, cap as int)] is Empty),
                forall|d: int|
                    0 <= d < steps ==> !slot_holds(
                        v@,
                        #[trigger] probe(home as int, d, cap as int),
                        key@,
                    ),
            decreases cap - steps,
        {
            match &v[index] {
                Entry::Full(k, _) => {
                    if text_eq(k.as_str(), key) {
                        return (index, true);
                    }
                },
                Entry::Empty => {
                    proof {
                        assert forall|j: int| !slot_holds(v@, j, key@) by {
                            if slot_holds(v@, j, key@) {
                                assert(chain_intact(v@, j));
                                let dj = probe_distance(home as int, j, cap as int);
                                assert(probe(home as int, dj, cap as int) == j);
                                if dj > steps {
                                    assert(!(v@[probe(home as int, steps as int, cap as int)]
                                        is Empty));
                                }
                            }
                        }
                    }
                    return (index, false);
                },
                Entry::Tomb => {},
            }
            proof {
                if steps + 1 == cap {
                    lemma_has_empty(v@);
                    let e = choose|e: int| 0 <= e < v@.len() && v@[e] is Empty;
                    let de = probe_distance(home as int, e, cap as int);
                    assert(probe(home as int, de, cap as int) == e);
                }
            }
            steps += 1;
            index += 1;
            if index == cap {
                index = 0;
            }
        }
    }

    /// Binds `key` to `value`. Returns whether the name was bound before.
    /// A table that reaches three quarters of its capacity doubles it and
    /// drops its tombstones.
    pub fn set(&mut self, key: String, value: Value) -> (existed: bool)
        requires
            old(self).wf(),
            old(self)@.can_grow(),
        ensures
            final(self).wf(),
            existed == old(self)@.entries.contains_key(key@),
            final(self)@ == old(self)@.set(key@, value@),
    {
        let (index, has_item) = Self::find_entry(&self.table, key.as_str());
        let ghost before = self.table@;
        let entry = Entry::Full(key, value);
        proof {
            if has_item {
                assert(chain_intact(before, index as int));
            }
            lemma_used_update(before, index as int, entry);
            lemma_chains_update(before, index as int, entry);
            if has_item {
                lemma_map_overwrite(before, index as int, entry);
                assert(exists|i: int| slot_holds(before, i, key@));
            } else {
                lemma_map_insert(before, index as int, entry);
                assert(!(exists|i: int| slot_holds(before, i, key@)));
            }
        }
        if !has_item {
            self.size += 1;
        }
        self.table.set(index, entry);
        self.check_resize();
        has_item
    }

    /// The value bound to `key`, if there is one.
    pub fn get(&self, key: &str) -> (r: Option<Value>)
        requires
            self.wf(),
        ensures
            match r {
                Some(v) => self@.get(key@) == Some(v@),
                None => self@.get(key@) is None,
            },
    {
        if self.size == 0 {
            proof {
                self.law_load_below_three_quarters();
            }
            return None;
        }
        let (index, has_item) = Self::find_entry(&self.table, key);
        if !has_item {
            return None;
        }
        proof {
            lemma_map_at(self.table@, index as int);
        }
        match &self.table[index] {
            Entry::Full(_, v) => Some(v.clone()),
            _ => None,
        }
    }

    /// Unbinds `key`, leaving a tombstone in its slot.
    pub fn delete(&mut self, key: &str) -> (r: Result<(), TableError>)
        requires
            old(self).wf(),
        ensures
            final(self).wf(),
            r == if old(self)@.used == 0 {
                Err::<(), TableError>(TableError::TableEmpty)
            } else if !old(self)@.entries.contains_key(key@) {
                Err::<(), TableError>(TableError::KeyNotFound)
            } else {
                Ok::<(), TableError>(())
            },
            final(self)@ == old(self)@.delete(key@),
    {
        if self.size == 0 {
            proof {
                self.law_load_below_three_quarters();
                assert(self@.entries.remove(key@) =~= self@.entries);
            }
            return Err(TableError::TableEmpty);
        }
        let (index, has_item) = Self::find_entry(&self.table, key);
        if !has_item {
            proof {
                assert(self@.entries.remove(key@) =~= self@.entries);
            }
            return Err(TableError::KeyNotFound);
        }
        let ghost before = self.table@;
        proof {
            lemma_used_update(before, index as int, Entry::Tomb);
            lemma_chains_update(before, index as int, Entry::Tomb);
            lemma_map_remove(before, index as int);
        }
        self.table.set(index, Entry::Tomb);
        Ok(())
    }

    /// Doubles the table when it is loaded to three quarters or more:
    /// every name is placed anew, in slot order, and tombstones are dropped.
    fn check_resize(&mut self)
        requires
            table_ok(old(self).table@),
            old(self).size == used_slots(old(self).table@),
            2 * old(self).table@.len() <= usize::MAX,
        ensures
            final(self).wf(),
            final(self)@ == if overloaded(old(self)@.used, old(self)@.capacity) {
                TableView {
                    entries: old(self)@.entries,
                    used: old(self)@.entries.dom().len(),
                    capacity: 2 * old(self)@.capacity,
                }
            } else {
                old(self)@
            },
    {
        let cap = self.table.len();
        if (self.size as u128) * 4 < (cap as u128) * 3 {
            return;
        }
        let new_capacity = cap * 2;
        let mut new_table = Self::empty_slots(new_capacity);
        let mut new_size: usize = 0;
        let mut i: usize = 0;
        proof {
            lemma_map_blank(new_table@);
            lemma_map_blank(self.table@.take(0));
        }
        while i < cap
            invariant
                cap == self.table@.len(),
                cap >= 4,
                unique_names(self.table@),
                i <= cap,
                new_table@.len() == 2 * cap,
                new_size <= i,
                new_size == used_slots(new_table@),
                unique_names(new_table@),
                chains_intact(new_table@),
                entries_map(new_table@) == entries_map(self.table@.take(i as int)),
                entries_map(new_table@).dom().finite(),
                entries_map(new_table@).dom().len() == new_size,
            decreases cap - i,
        {
            let ghost old_new = new_table@;
            proof {
                assert(self.table@.take(i + 1) =~= self.table@.take(i as int).push(
                    self.table@[i as int],
                ));
                assert forall|a: int, b: int|
                    0 <= a < i + 1 && 0 <= b < i + 1 && a != b && self.table@.take(i + 1)[a] is Full
                        && self.table@.take(i + 1)[b] is Full implies (#[trigger] self.table@.take(
                    i + 1,
                )[a])->Full_0@ != (#[trigger] self.table@.take(i + 1)[b])->Full_0@ by {
                    assert(self.table@[a]->Full_0@ != self.table@[b]->Full_0@);
                }
                lemma_map_push(self.table@.take(i as int), self.table@[i as int]);
            }
            match &self.table[i] {
                Entry::Full(k, v) => {
                    let (index, found) = Self::find_entry(&new_table, k.as_str());
                    let entry = Entry::Full(k.clone(), v.clone());
                    proof {
                        if found {
                            assert(entries_map(old_new).contains_key(k@));
                        }
                        lemma_used_update(old_new, index as int, entry);
                        lemma_chains_update(old_new, index as int, entry);
                        lemma_map_insert(old_new, index as int, entry);
                    }
                    new_table.set(index, entry);
                    new_size += 1;
                },
                _ => {},
            }
            i += 1;
        }
        proof {
            assert(self.table@.take(cap as int) =~= self.table@);
        }
        self.table = new_table;
        self.size = new_size;
    }
}

} // verus!
