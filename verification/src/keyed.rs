//! Lists that are read as sets and maps: the model of a list of distinct
//! keys, and the searches that find a key in one.

use vstd::prelude::*;
use crate::types::{AllowedOperation, RegisteredWallet};

verus! {

/// The map that pairs each key with the value at the key's position.
pub open spec fn assoc_map<K, V>(keys: Seq<K>, values: Seq<V>) -> Map<K, V> {
    Map::new(|k: K| keys.contains(k), |k: K| values[keys.index_of(k)])
}

/// `s` with `x` at its end, unless `s` holds `x` already.
pub open spec fn seq_insert<T>(s: Seq<T>, x: T) -> Seq<T> {
    if s.contains(x) {
        s
    } else {
        s.push(x)
    }
}

/// `s` without `x`; what stays keeps its order.
pub open spec fn seq_remove<T>(s: Seq<T>, x: T) -> Seq<T> {
    if s.contains(x) {
        s.remove(s.index_of(x))
    } else {
        s
    }
}

/// In a list of distinct keys a key is found at its own position only.
pub proof fn lemma_index_of_distinct<K>(keys: Seq<K>, i: int)
    requires
        keys.no_duplicates(),
        0 <= i < keys.len(),
    ensures
        keys.contains(keys[i]),
        keys.index_of(keys[i]) == i,
{
    assert(keys.contains(keys[i]));
    let j = keys.index_of(keys[i]);
    assert(0 <= j < keys.len() && keys[j] == keys[i]);
}

/// A fresh key at the end keeps the keys distinct.
pub proof fn lemma_push_distinct<K>(keys: Seq<K>, k: K)
    requires
        keys.no_duplicates(),
        !keys.contains(k),
    ensures
        keys.push(k).no_duplicates(),
{
    let keys2 = keys.push(k);
    assert forall|i: int, j: int| 0 <= i < keys2.len() && 0 <= j < keys2.len() && i != j implies keys2[i] != keys2[j] by {
        if i < keys.len() && j < keys.len() {
        } else if i < keys.len() {
            assert(keys.contains(keys[i]));
        } else {
            assert(keys.contains(keys[j]));
        }
    }
}

/// A key at position `i` maps to the value at position `i`.
pub proof fn lemma_assoc_lookup<K, V>(keys: Seq<K>, values: Seq<V>, i: int)
    requires
        keys.no_duplicates(),
        0 <= i < keys.len(),
    ensures
        assoc_map(keys, values).dom().contains(keys[i]),
        assoc_map(keys, values)[keys[i]] == values[i],
{
    lemma_index_of_distinct(keys, i);
}

/// Appending a fresh key inserts it into the map.
pub proof fn lemma_assoc_push<K, V>(keys: Seq<K>, values: Seq<V>, k: K, v: V)
    requires
        keys.no_duplicates(),
        keys.len() == values.len(),
        !keys.contains(k),
    ensures
        keys.push(k).no_duplicates(),
        assoc_map(keys.push(k), values.push(v)) == assoc_map(keys, values).insert(k, v),
{
    let keys2 = keys.push(k);
    let values2 = values.push(v);
    lemma_push_distinct(keys, k);
    let m1 = assoc_map(keys2, values2);
    let m2 = assoc_map(keys, values).insert(k, v);
    assert forall|x: K| m1.dom().contains(x) <==> m2.dom().contains(x) by {
        if keys2.contains(x) {
            let i = choose|i: int| 0 <= i < keys2.len() && keys2[i] == x;
            if i < keys.len() {
                assert(keys[i] == x);
                assert(keys.contains(x));
            }
        }
        if keys.contains(x) {
            let i = choose|i: int| 0 <= i < keys.len() && keys[i] == x;
            assert(keys2[i] == x);
        }
        if x == k {
            assert(keys2[keys.len() as int] == k);
        }
    }
    assert forall|x: K| m1.dom().contains(x) implies m1[x] == m2[x] by {
        let i = keys2.index_of(x);
        assert(0 <= i < keys2.len() && keys2[i] == x);
        lemma_index_of_distinct(keys2, i);
        if i < keys.len() {
            assert(keys[i] == x);
            lemma_index_of_distinct(keys, i);
            assert(x != k);
        } else {
            assert(x == k);
        }
    }
    assert(m1 =~= m2);
}

/// Replacing the value at position `i` replaces the value of the key there.
pub proof fn lemma_assoc_update<K, V>(keys: Seq<K>, values: Seq<V>, i: int, v: V)
    requires
        keys.no_duplicates(),
        keys.len() == values.len(),
        0 <= i < keys.len(),
    ensures
        assoc_map(keys, values.update(i, v)) == assoc_map(keys, values).insert(keys[i], v),
{
    let m1 = assoc_map(keys, values.update(i, v));
    let m2 = assoc_map(keys, values).insert(keys[i], v);
    lemma_index_of_distinct(keys, i);
    assert forall|x: K| m1.dom().contains(x) implies m1[x] == m2[x] by {
        let j = keys.index_of(x);
        assert(0 <= j < keys.len() && keys[j] == x);
    }
    assert(m1 =~= m2);
}

/// Appending a key inserts it into the set of keys.
pub proof fn lemma_set_push<K>(keys: Seq<K>, k: K)
    ensures
        keys.push(k).to_set() == keys.to_set().insert(k),
{
    let keys2 = keys.push(k);
    assert forall|x: K| keys2.to_set().contains(x) <==> keys.to_set().insert(k).contains(x) by {
        if keys2.contains(x) {
            let i = choose|i: int| 0 <= i < keys2.len() && keys2[i] == x;
            if i < keys.len() {
                assert(keys[i] == x);
                assert(keys.contains(x));
            }
        }
        if keys.contains(x) {
            let i = choose|i: int| 0 <= i < keys.len() && keys[i] == x;
            assert(keys2[i] == x);
        }
        if x == k {
            assert(keys2[keys.len() as int] == k);
        }
    }
    assert(keys2.to_set() =~= keys.to_set().insert(k));
}

/// Taking a key out of a list of distinct keys takes it out of the set.
pub proof fn lemma_set_remove<K>(keys: Seq<K>, i: int)
    requires
        keys.no_duplicates(),
        0 <= i < keys.len(),
    ensures
        keys.remove(i).no_duplicates(),
        !keys.remove(i).contains(keys[i]),
        keys.remove(i).to_set() == keys.to_set().remove(keys[i]),
{
    let keys2 = keys.remove(i);
    assert forall|a: int, b: int| 0 <= a < keys2.len() && 0 <= b < keys2.len() && a != b implies keys2[a] != keys2[b] by {
        let a1 = if a < i { a } else { a + 1 };
        let b1 = if b < i { b } else { b + 1 };
        assert(keys2[a] == keys[a1]);
        assert(keys2[b] == keys[b1]);
    }
    assert forall|x: K| keys2.contains(x) <==> (keys.contains(x) && x != keys[i]) by {
        if keys2.contains(x) {
            let a = choose|a: int| 0 <= a < keys2.len() && keys2[a] == x;
            let a1 = if a < i { a } else { a + 1 };
            assert(keys[a1] == x);
            assert(keys.contains(x));
        }
        if keys.contains(x) && x != keys[i] {
            let a1 = choose|a: int| 0 <= a < keys.len() && keys[a] == x;
            let a = if a1 < i { a1 } else { a1 - 1 };
            assert(keys2[a] == x);
        }
    }
    assert(keys2.to_set() =~= keys.to_set().remove(keys[i]));
}

/// The contents of a list of strings.
pub open spec fn string_views(s: Seq<String>) -> Seq<Seq<char>> {
    s.map_values(|x: String| x@)
}

/// The keys of a list of entries.
pub open spec fn entry_keys<V>(s: Seq<(String, V)>) -> Seq<Seq<char>> {
    s.map_values(|e: (String, V)| e.0@)
}

/// The contents of a list of pairs of strings.
pub open spec fn pair_views(s: Seq<(String, String)>) -> Seq<(Seq<char>, Seq<char>)> {
    s.map_values(|e: (String, String)| (e.0@, e.1@))
}

/// The contents of a list of pairs of an address and a nonce.
pub open spec fn nonce_views(s: Seq<(String, u64)>) -> Seq<(Seq<char>, u64)> {
    s.map_values(|e: (String, u64)| (e.0@, e.1))
}

/// The addresses of a list of wallets.
pub open spec fn wallet_addresses(s: Seq<RegisteredWallet>) -> Seq<Seq<char>> {
    s.map_values(|w: RegisteredWallet| w.chain_address@)
}

/// The identifiers of a list of operations.
pub open spec fn operation_ids(s: Seq<AllowedOperation>) -> Seq<Seq<char>> {
    s.map_values(|o: AllowedOperation| o.operation_id@)
}

/// What a search for `key` among `keys` answers: the first position that
/// holds the key, or nothing where no position does.
pub open spec fn found<K>(keys: Seq<K>, key: K, at: Option<usize>) -> bool {
    match at {
        Some(i) => i < keys.len() && keys[i as int] == key && forall|j: int|
            0 <= j < i ==> keys[j] != key,
        None => !keys.contains(key),
    }
}

/// Keys are distinct up to position `n` where none of the first `n` keys
/// occurs among those before it.
pub open spec fn distinct_before<K>(keys: Seq<K>, n: int) -> bool {
    forall|a: int, b: int| 0 <= a < b < n ==> keys[a] != keys[b]
}

/// Keys that are distinct up to their end are distinct.
pub proof fn lemma_distinct_before_all<K>(keys: Seq<K>)
    requires
        distinct_before(keys, keys.len() as int),
    ensures
        keys.no_duplicates(),
{
    assert forall|i: int, j: int| 0 <= i < keys.len() && 0 <= j < keys.len() && i != j implies keys[i] != keys[j] by {
        if i < j {
        } else {
            assert(keys[j] != keys[i]);
        }
    }
}

/// One step of a check for distinct keys: where the search for the key at
/// position `i` answers `i`, the keys are distinct up to `i + 1`; where it
/// answers anything else, the key occurs twice.
pub proof fn lemma_distinct_step<K>(keys: Seq<K>, i: usize, at: Option<usize>)
    requires
        i < keys.len(),
        distinct_before(keys, i as int),
        found(keys, keys[i as int], at),
    ensures
        at == Some(i) ==> distinct_before(keys, i + 1),
        at != Some(i) ==> !keys.no_duplicates(),
{
    match at {
        Some(j) => {
            if j != i {
                assert(j < i);
                assert(keys[j as int] == keys[i as int]);
            }
        },
        None => {
            assert(keys.contains(keys[i as int]));
        },
    }
}

/// Finds `key` in a list of strings.
pub fn find_string(list: &Vec<String>, key: &String) -> (at: Option<usize>)
    ensures
        found(string_views(list@), key@, at),
{
    let mut i: usize = 0;
    while i < list.len()
        invariant
            i <= list@.len(),
            forall|j: int| 0 <= j < i ==> string_views(list@)[j] != key@,
        decreases list@.len() - i,
    {
        if list[i] == *key {
            return Some(i);
        }
        i += 1;
    }
    None
}

/// Finds the entry of `key` in a list of entries.
pub fn find_entry<V>(list: &Vec<(String, V)>, key: &String) -> (at: Option<usize>)
    ensures
        found(entry_keys(list@), key@, at),
{
    let mut i: usize = 0;
    while i < list.len()
        invariant
            i <= list@.len(),
            forall|j: int| 0 <= j < i ==> entry_keys(list@)[j] != key@,
        decreases list@.len() - i,
    {
        if list[i].0 == *key {
            return Some(i);
        }
        i += 1;
    }
    None
}

/// Finds a pair of strings in a list of pairs.
pub fn find_pair(list: &Vec<(String, String)>, first: &String, second: &String) -> (at: Option<
    usize,
>)
    ensures
        found(pair_views(list@), (first@, second@), at),
{
    let mut i: usize = 0;
    while i < list.len()
        invariant
            i <= list@.len(),
            forall|j: int| 0 <= j < i ==> pair_views(list@)[j] != (first@, second@),
        decreases list@.len() - i,
    {
        if list[i].0 == *first && list[i].1 == *second {
            return Some(i);
        }
        i += 1;
    }
    None
}

/// Finds an address and nonce in a list of consumed nonces.
pub fn find_nonce(list: &Vec<(String, u64)>, address: &String, nonce: u64) -> (at: Option<usize>)
    ensures
        found(nonce_views(list@), (address@, nonce), at),
{
    let mut i: usize = 0;
    while i < list.len()
        invariant
            i <= list@.len(),
            forall|j: int| 0 <= j < i ==> nonce_views(list@)[j] != (address@, nonce),
        decreases list@.len() - i,
    {
        if list[i].1 == nonce && list[i].0 == *address {
            return Some(i);
        }
        i += 1;
    }
    None
}

/// Finds the wallet with the given address.
pub fn find_wallet(list: &Vec<RegisteredWallet>, address: &String) -> (at: Option<usize>)
    ensures
        found(wallet_addresses(list@), address@, at),
{
    let mut i: usize = 0;
    while i < list.len()
        invariant
            i <= list@.len(),
            forall|j: int| 0 <= j < i ==> wallet_addresses(list@)[j] != address@,
        decreases list@.len() - i,
    {
        if list[i].chain_address == *address {
            return Some(i);
        }
        i += 1;
    }
    None
}

/// Finds the operation with the given identifier.
pub fn find_operation(list: &Vec<AllowedOperation>, id: &String) -> (at: Option<usize>)
    ensures
        found(operation_ids(list@), id@, at),
{
    let mut i: usize = 0;
    while i < list.len()
        invariant
            i <= list@.len(),
            forall|j: int| 0 <= j < i ==> operation_ids(list@)[j] != id@,
        decreases list@.len() - i,
    {
        if list[i].operation_id == *id {
            return Some(i);
        }
        i += 1;
    }
    None
}

/// Whether no string occurs twice.
pub fn strings_distinct(list: &Vec<String>) -> (ok: bool)
    ensures
        ok == string_views(list@).no_duplicates(),
{
    let mut i: usize = 0;
    while i < list.len()
        invariant
            i <= list@.len(),
            distinct_before(string_views(list@), i as int),
        decreases list@.len() - i,
    {
        let at = find_string(list, &list[i]);
        proof {
            lemma_distinct_step(string_views(list@), i, at);
        }
        if at != Some(i) {
            return false;
        }
        i += 1;
    }
    proof {
        lemma_distinct_before_all(string_views(list@));
    }
    true
}

/// Whether no key occurs twice.
pub fn entries_distinct<V>(list: &Vec<(String, V)>) -> (ok: bool)
    ensures
        ok == entry_keys(list@).no_duplicates(),
{
    let mut i: usize = 0;
    while i < list.len()
        invariant
            i <= list@.len(),
            distinct_before(entry_keys(list@), i as int),
        decreases list@.len() - i,
    {
        let at = find_entry(list, &list[i].0);
        proof {
            lemma_distinct_step(entry_keys(list@), i, at);
        }
        if at != Some(i) {
            return false;
        }
        i += 1;
    }
    proof {
        lemma_distinct_before_all(entry_keys(list@));
    }
    true
}

/// Whether no pair occurs twice.
pub fn pairs_distinct(list: &Vec<(String, String)>) -> (ok: bool)
    ensures
        ok == pair_views(list@).no_duplicates(),
{
    let mut i: usize = 0;
    while i < list.len()
        invariant
            i <= list@.len(),
            distinct_before(pair_views(list@), i as int),
        decreases list@.len() - i,
    {
        let at = find_pair(list, &list[i].0, &list[i].1);
        proof {
            lemma_distinct_step(pair_views(list@), i, at);
        }
        if at != Some(i) {
            return false;
        }
        i += 1;
    }
    proof {
        lemma_distinct_before_all(pair_views(list@));
    }
    true
}

/// Whether no address occurs twice.
pub fn wallets_distinct(list: &Vec<RegisteredWallet>) -> (ok: bool)
    ensures
        ok == wallet_addresses(list@).no_duplicates(),
{
    let mut i: usize = 0;
    while i < list.len()
        invariant
            i <= list@.len(),
            distinct_before(wallet_addresses(list@), i as int),
        decreases list@.len() - i,
    {
        let at = find_wallet(list, &list[i].chain_address);
        proof {
            lemma_distinct_step(wallet_addresses(list@), i, at);
        }
        if at != Some(i) {
            return false;
        }
        i += 1;
    }
    proof {
        lemma_distinct_before_all(wallet_addresses(list@));
    }
    true
}

/// Whether no operation id occurs twice.
pub fn operations_distinct(list: &Vec<AllowedOperation>) -> (ok: bool)
    ensures
        ok == operation_ids(list@).no_duplicates(),
{
    let mut i: usize = 0;
    while i < list.len()
        invariant
            i <= list@.len(),
            distinct_before(operation_ids(list@), i as int),
        decreases list@.len() - i,
    {
        let at = find_operation(list, &list[i].operation_id);
        proof {
            lemma_distinct_step(operation_ids(list@), i, at);
        }
        if at != Some(i) {
            return false;
        }
        i += 1;
    }
    proof {
        lemma_distinct_before_all(operation_ids(list@));
    }
    true
}

/// Enters a pair at the end of an index, unless the index holds it.
pub fn insert_pair(index: &mut Vec<(String, String)>, first: String, second: String)
    requires
        pair_views(old(index)@).no_duplicates(),
    ensures
        pair_views(final(index)@).no_duplicates(),
        pair_views(final(index)@) == seq_insert(pair_views(old(index)@), (first@, second@)),
{
    if find_pair(index, &first, &second).is_none() {
        proof {
            lemma_push_distinct(pair_views(index@), (first@, second@));
        }
        index.push((first, second));
        assert(pair_views(index@) =~= pair_views(old(index)@).push((first@, second@)));
    }
}

/// Takes a pair out of an index, if the index holds it; the rest keeps its
/// order.
pub fn remove_pair(index: &mut Vec<(String, String)>, first: &String, second: &String)
    requires
        pair_views(old(index)@).no_duplicates(),
    ensures
        pair_views(final(index)@).no_duplicates(),
        pair_views(final(index)@) == seq_remove(pair_views(old(index)@), (first@, second@)),
{
    if let Some(i) = find_pair(index, first, second) {
        proof {
            lemma_set_remove(pair_views(index@), i as int);
            lemma_index_of_distinct(pair_views(index@), i as int);
        }
        let _ = index.remove(i);
        assert(pair_views(index@) =~= pair_views(old(index)@).remove(i as int));
    }
}

/// Records that `nonce` was consumed for `address`.
pub fn insert_nonce(ledger: &mut Vec<(String, u64)>, address: String, nonce: u64)
    ensures
        nonce_views(final(ledger)@).to_set() == nonce_views(old(ledger)@).to_set().insert(
            (address@, nonce),
        ),
{
    if find_nonce(ledger, &address, nonce).is_none() {
        proof {
            lemma_set_push(nonce_views(ledger@), (address@, nonce));
        }
        ledger.push((address, nonce));
        assert(nonce_views(ledger@) =~= nonce_views(old(ledger)@).push((address@, nonce)));
    } else {
        assert(nonce_views(ledger@).to_set().insert((address@, nonce)) =~= nonce_views(
            ledger@,
        ).to_set());
    }
}

} // verus!
