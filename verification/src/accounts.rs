//! Account identifiers and the keyed store that both state modules keep their
//! per-account data in.

use vstd::prelude::*;
use vstd::utf8::{encode_utf8, encode_utf8_decode_utf8};

verus! {

/// An account identifier.
///
/// Two identifiers name the same account exactly when their views are equal;
/// the view is the identity that every contract of this library speaks of.
/// The identities are totally ordered.
pub trait AccountKey: View + Sized {
    /// The order of the identities: whether `a` comes before `b`.
    spec fn precedes(a: Self::V, b: Self::V) -> bool;

    /// No identity comes before itself.
    proof fn lemma_precedes_irreflexive(a: Self::V)
        ensures
            !Self::precedes(a, a),
    ;

    /// What comes before an identity also comes before all that follow it.
    proof fn lemma_precedes_transitive(a: Self::V, b: Self::V, c: Self::V)
        requires
            Self::precedes(a, b),
            Self::precedes(b, c),
        ensures
            Self::precedes(a, c),
    ;

    /// Of two different identities, one comes before the other.
    proof fn lemma_precedes_total(a: Self::V, b: Self::V)
        ensures
            Self::precedes(a, b) || a == b || Self::precedes(b, a),
    ;

    /// Whether `self` and `other` name the same account.
    fn same_account(&self, other: &Self) -> (same: bool)
        ensures
            same == (self@ == other@),
    ;

    /// Whether `self` comes before `other` in the order of the identities.
    fn comes_before(&self, other: &Self) -> (before: bool)
        ensures
            before == Self::precedes(self@, other@),
    ;

    /// A fresh identifier for the same account.
    fn duplicate(&self) -> (copy: Self)
        ensures
            copy@ == self@,
    ;
}

/// Whether the byte string `a` comes before `b` in lexicographic order: at
/// the first position where they differ `a` has the smaller byte, or there
/// is no such position and `a` is the shorter one.
pub open spec fn bytes_precede(a: Seq<u8>, b: Seq<u8>) -> bool
    decreases a.len(),
{
    if b.len() == 0 {
        false
    } else if a.len() == 0 {
        true
    } else if a[0] != b[0] {
        a[0] < b[0]
    } else {
        bytes_precede(a.skip(1), b.skip(1))
    }
}

/// No byte string comes before itself.
proof fn lemma_bytes_precede_irreflexive(a: Seq<u8>)
    ensures
        !bytes_precede(a, a),
    decreases a.len(),
{
    if a.len() > 0 {
        lemma_bytes_precede_irreflexive(a.skip(1));
    }
}

/// The lexicographic order of byte strings is transitive.
proof fn lemma_bytes_precede_transitive(a: Seq<u8>, b: Seq<u8>, c: Seq<u8>)
    requires
        bytes_precede(a, b),
        bytes_precede(b, c),
    ensures
        bytes_precede(a, c),
    decreases a.len(),
{
    if a.len() > 0 && a[0] == b[0] && b[0] == c[0] {
        lemma_bytes_precede_transitive(a.skip(1), b.skip(1), c.skip(1));
    }
}

/// Of two different byte strings, one comes before the other.
proof fn lemma_bytes_precede_total(a: Seq<u8>, b: Seq<u8>)
    ensures
        bytes_precede(a, b) || a == b || bytes_precede(b, a),
    decreases a.len(),
{
    if a.len() > 0 && b.len() > 0 && a[0] == b[0] {
        lemma_bytes_precede_total(a.skip(1), b.skip(1));
        if a.skip(1) == b.skip(1) {
            assert(a == seq![a[0]] + a.skip(1));
            assert(b == seq![b[0]] + b.skip(1));
        }
    }
}

/// Byte strings that agree on their first `n` bytes are ordered as what
/// follows those bytes.
proof fn lemma_bytes_precede_after_common_prefix(a: Seq<u8>, b: Seq<u8>, n: int)
    requires
        0 <= n <= a.len(),
        n <= b.len(),
        forall|j: int| 0 <= j < n ==> a[j] == b[j],
    ensures
        bytes_precede(a, b) == bytes_precede(a.skip(n), b.skip(n)),
    decreases n,
{
    if n == 0 {
        assert(a.skip(0) == a);
        assert(b.skip(0) == b);
    } else {
        lemma_bytes_precede_after_common_prefix(a.skip(1), b.skip(1), n - 1);
        assert(a.skip(1).skip(n - 1) == a.skip(n));
        assert(b.skip(1).skip(n - 1) == b.skip(n));
    }
}

/// Whether the bytes `a` come before the bytes `b` in lexicographic order.
fn bytes_come_before(a: &[u8], b: &[u8]) -> (before: bool)
    ensures
        before == bytes_precede(a@, b@),
{
    let mut i: usize = 0;
    while i < a.len() && i < b.len()
        invariant
            i <= a@.len(),
            i <= b@.len(),
            forall|j: int| 0 <= j < i ==> a@[j] == b@[j],
        decreases a@.len() - i,
    {
        if a[i] != b[i] {
            proof {
                lemma_bytes_precede_after_common_prefix(a@, b@, i as int);
            }
            return a[i] < b[i];
        }
        i += 1;
    }
    proof {
        lemma_bytes_precede_after_common_prefix(a@, b@, i as int);
    }
    i < b.len()
}

/// Strings are ordered as `String` orders them: lexicographically by the
/// bytes of their UTF-8 encoding.
impl AccountKey for String {
    open spec fn precedes(a: Seq<char>, b: Seq<char>) -> bool {
        bytes_precede(encode_utf8(a), encode_utf8(b))
    }

    proof fn lemma_precedes_irreflexive(a: Seq<char>) {
        lemma_bytes_precede_irreflexive(encode_utf8(a));
    }

    proof fn lemma_precedes_transitive(a: Seq<char>, b: Seq<char>, c: Seq<char>) {
        lemma_bytes_precede_transitive(encode_utf8(a), encode_utf8(b), encode_utf8(c));
    }

    proof fn lemma_precedes_total(a: Seq<char>, b: Seq<char>) {
        lemma_bytes_precede_total(encode_utf8(a), encode_utf8(b));
        encode_utf8_decode_utf8(a);
        encode_utf8_decode_utf8(b);
    }

    fn same_account(&self, other: &Self) -> (same: bool) {
        *self == *other
    }

    fn comes_before(&self, other: &Self) -> (before: bool) {
        bytes_come_before(self.as_str().as_bytes(), other.as_str().as_bytes())
    }

    fn duplicate(&self) -> (copy: Self) {
        self.clone()
    }
}

/// One account with the value recorded for it.
#[derive(Debug)]
struct Entry<K, V> {
    key: K,
    value: V,
}

/// The mapping that a sequence of entries stands for: each entry records its
/// value under the identity of its key.
spec fn entries_map<K: AccountKey, V>(entries: Seq<Entry<K, V>>) -> Map<K::V, V>
    decreases entries.len(),
{
    if entries.len() == 0 {
        Map::empty()
    } else {
        entries_map(entries.drop_last()).insert(entries.last().key@, entries.last().value)
    }
}

/// Whether the entries stand in ascending order of their accounts. No account
/// then occurs twice.
spec fn ascending<K: AccountKey, V>(entries: Seq<Entry<K, V>>) -> bool {
    forall|i: int, j: int|
        0 <= i < j < entries.len() ==> K::precedes(
            (#[trigger] entries[i]).key@,
            (#[trigger] entries[j]).key@,
        )
}

/// Whether no account occurs twice among the entries.
spec fn distinct_accounts<K: AccountKey, V>(entries: Seq<Entry<K, V>>) -> bool {
    forall|i: int, j: int|
        0 <= i < j < entries.len() ==> (#[trigger] entries[i]).key@ != (#[trigger] entries[j]).key@
}

/// A finite mapping from accounts to values. It keeps its accounts in
/// ascending order, so every account occurs at most once.
#[derive(Debug)]
pub struct AccountMap<K: AccountKey, V: Copy> {
    entries: Vec<Entry<K, V>>,
}

impl<K: AccountKey, V: Copy> View for AccountMap<K, V> {
    type V = Map<K::V, V>;

    closed spec fn view(&self) -> Map<K::V, V> {
        entries_map(self.entries@)
    }
}

/// In ascending entries no account occurs twice.
proof fn lemma_ascending_is_distinct<K: AccountKey, V>(entries: Seq<Entry<K, V>>)
    requires
        ascending(entries),
    ensures
        distinct_accounts(entries),
{
    assert forall|i: int, j: int| 0 <= i < j < entries.len() implies (#[trigger] entries[i]).key@
        != (#[trigger] entries[j]).key@ by {
        K::lemma_precedes_irreflexive(entries[i].key@);
    }
}

/// The accounts of the mapping are exactly the accounts of the entries.
proof fn lemma_entries_map_domain<K: AccountKey, V>(entries: Seq<Entry<K, V>>, id: K::V)
    ensures
        entries_map(entries).contains_key(id) <==> exists|i: int|
            0 <= i < entries.len() && (#[trigger] entries[i]).key@ == id,
    decreases entries.len(),
{
    if entries.len() > 0 {
        let front = entries.drop_last();
        lemma_entries_map_domain(front, id);
        if entries_map(front).contains_key(id) {
            let i = choose|i: int| 0 <= i < front.len() && (#[trigger] front[i]).key@ == id;
            assert(entries[i].key@ == id);
        }
        if exists|i: int| 0 <= i < entries.len() && (#[trigger] entries[i]).key@ == id {
            let i = choose|i: int| 0 <= i < entries.len() && (#[trigger] entries[i]).key@ == id;
            if i < entries.len() - 1 {
                assert(front[i].key@ == id);
            }
        }
    }
}

/// Where no account occurs twice, the mapping holds each entry's value under
/// its account.
proof fn lemma_entries_map_value<K: AccountKey, V>(entries: Seq<Entry<K, V>>, i: int)
    requires
        distinct_accounts(entries),
        0 <= i < entries.len(),
    ensures
        entries_map(entries).contains_key(entries[i].key@),
        entries_map(entries)[entries[i].key@] == entries[i].value,
    decreases entries.len(),
{
    if i < entries.len() - 1 {
        lemma_entries_map_value(entries.drop_last(), i);
    }
}

/// Replacing the value of an entry replaces the value of its account.
proof fn lemma_entries_map_update<K: AccountKey, V>(
    entries: Seq<Entry<K, V>>,
    i: int,
    entry: Entry<K, V>,
)
    requires
        distinct_accounts(entries),
        0 <= i < entries.len(),
        entry.key@ == entries[i].key@,
    ensures
        entries_map(entries.update(i, entry)) == entries_map(entries).insert(
            entry.key@,
            entry.value,
        ),
    decreases entries.len(),
{
    let updated = entries.update(i, entry);
    let front = entries.drop_last();
    if i == entries.len() - 1 {
        assert(updated.drop_last() == front);
    } else {
        lemma_entries_map_update(front, i, entry);
        assert(updated.drop_last() == front.update(i, entry));
    }
}

/// Putting an entry for a new account between the entries adds its value
/// under its account.
proof fn lemma_entries_map_insert<K: AccountKey, V>(
    entries: Seq<Entry<K, V>>,
    i: int,
    entry: Entry<K, V>,
)
    requires
        0 <= i <= entries.len(),
        forall|j: int| 0 <= j < entries.len() ==> (#[trigger] entries[j]).key@ != entry.key@,
    ensures
        entries_map(entries.insert(i, entry)) == entries_map(entries).insert(
            entry.key@,
            entry.value,
        ),
    decreases entries.len(),
{
    let longer = entries.insert(i, entry);
    if i == entries.len() {
        assert(longer.drop_last() == entries);
    } else {
        let front = entries.drop_last();
        lemma_entries_map_insert(front, i, entry);
        assert(longer.drop_last() == front.insert(i, entry));
    }
}

/// Only finitely many accounts are recorded.
proof fn lemma_entries_map_finite<K: AccountKey, V>(entries: Seq<Entry<K, V>>)
    ensures
        entries_map(entries).dom().finite(),
    decreases entries.len(),
{
    if entries.len() > 0 {
        lemma_entries_map_finite(entries.drop_last());
    }
}

impl<K: AccountKey, V: Copy> AccountMap<K, V> {
    #[verifier::type_invariant]
    spec fn well_formed(&self) -> bool {
        ascending(self.entries@)
    }

    /// The empty mapping.
    pub fn new() -> (m: Self)
        ensures
            m@ == Map::<K::V, V>::empty(),
    {
        AccountMap { entries: Vec::new() }
    }

    /// Only finitely many accounts are recorded.
    pub proof fn lemma_finite(&self)
        ensures
            self@.dom().finite(),
    {
        lemma_entries_map_finite(self.entries@);
    }

    /// Where `key` stands among the entries: the position of the first entry
    /// whose account does not come before `key`, and whether that entry is
    /// the one for `key`.
    fn locate(&self, key: &K) -> (place: (usize, bool))
        ensures
            place.0 <= self.entries@.len(),
            forall|j: int|
                0 <= j < place.0 ==> K::precedes((#[trigger] self.entries@[j]).key@, key@),
            forall|j: int|
                place.0 < j < self.entries@.len() ==> K::precedes(
                    key@,
                    (#[trigger] self.entries@[j]).key@,
                ),
            place.1 ==> place.0 < self.entries@.len() && self.entries@[place.0 as int].key@
                == key@,
            !place.1 && place.0 < self.entries@.len() ==> K::precedes(
                key@,
                self.entries@[place.0 as int].key@,
            ),
    {
        proof {
            use_type_invariant(self);
        }
        let mut i: usize = 0;
        while i < self.entries.len() && self.entries[i].key.comes_before(key)
            invariant
                i <= self.entries@.len(),
                forall|j: int| 0 <= j < i ==> K::precedes((#[trigger] self.entries@[j]).key@, key@),
            decreases self.entries@.len() - i,
        {
            i += 1;
        }
        if i == self.entries.len() {
            return (i, false);
        }
        let found = self.entries[i].key.same_account(key);
        proof {
            let here = self.entries@[i as int].key@;
            K::lemma_precedes_total(here, key@);
            assert forall|j: int| i < j < self.entries@.len() implies K::precedes(
                key@,
                (#[trigger] self.entries@[j]).key@,
            ) by {
                if !found {
                    K::lemma_precedes_transitive(key@, here, self.entries@[j].key@);
                }
            }
        }
        (i, found)
    }

    /// The value recorded for the account `key`, if there is one.
    pub fn get(&self, key: &K) -> (value: Option<V>)
        ensures
            value == (if self@.contains_key(key@) {
                Some(self@[key@])
            } else {
                None
            }),
    {
        proof {
            use_type_invariant(self);
            lemma_ascending_is_distinct(self.entries@);
            lemma_entries_map_domain(self.entries@, key@);
        }
        let (i, found) = self.locate(key);
        if found {
            proof {
                lemma_entries_map_value(self.entries@, i as int);
            }
            Some(self.entries[i].value)
        } else {
            proof {
                K::lemma_precedes_irreflexive(key@);
            }
            None
        }
    }

    /// Records `value` for the account `key`, replacing what was recorded for
    /// it before.
    pub fn insert(&mut self, key: &K, value: V)
        ensures
            final(self)@ == old(self)@.insert(key@, value),
    {
        proof {
            use_type_invariant(&*self);
            lemma_ascending_is_distinct(self.entries@);
            K::lemma_precedes_irreflexive(key@);
        }
        let entry = Entry { key: key.duplicate(), value };
        let (i, found) = self.locate(key);
        let mut entries = Vec::new();
        std::mem::swap(&mut entries, &mut self.entries);
        if found {
            proof {
                lemma_entries_map_update(entries@, i as int, entry);
            }
            entries.set(i, entry);
        } else {
            proof {
                lemma_entries_map_insert(entries@, i as int, entry);
            }
            entries.insert(i, entry);
        }
        self.entries = entries;
    }
}

} // verus!
