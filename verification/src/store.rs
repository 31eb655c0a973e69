use vstd::prelude::*;
use vstd::hash_map::StringHashMap;

verus! {

/// A record kept by the store: an identifier and a name.
#[derive(Debug, PartialEq, Eq)]
pub struct Sample {
    pub id: u32,
    pub name: String,
}

impl Clone for Sample {
    fn clone(&self) -> (copy: Self)
        ensures
            copy == *self,
    {
        Sample { id: self.id, name: self.name.clone() }
    }
}

/// Error answered to a client when its request cannot be served.
#[derive(Debug)]
pub struct CustomError {
    pub msg: String,
}

/// What a map holds under a key, if anything.
pub open spec fn lookup(m: Map<Seq<char>, Sample>, key: Seq<char>) -> Option<Sample> {
    if m.contains_key(key) {
        Some(m[key])
    } else {
        None
    }
}

/// `keys` lists every key of `m` exactly once, in some order.
pub open spec fn is_key_order(keys: Seq<Seq<char>>, m: Map<Seq<char>, Sample>) -> bool {
    &&& keys.no_duplicates()
    &&& keys.to_set() == m.dom()
}

/// `values` holds the value of every key of `m` exactly once, in some order of the keys.
pub open spec fn lists_all_values(values: Seq<Sample>, m: Map<Seq<char>, Sample>) -> bool {
    exists|keys: Seq<Seq<char>>|
        #[trigger] is_key_order(keys, m) && values == keys.map_values(|k: Seq<char>| m[k])
}

/// An in-memory store of samples, keyed by name.
///
/// Its abstract value is a finite map from keys to samples. Beside the hash map
/// it keeps the list of its keys, each once, which is how the values are enumerated.
pub struct MemoryStore {
    data: StringHashMap<Sample>,
    keys: Vec<String>,
}

impl View for MemoryStore {
    type V = Map<Seq<char>, Sample>;

    closed spec fn view(&self) -> Map<Seq<char>, Sample> {
        self.data@
    }
}

/// The keys named by a list of strings.
spec fn key_seq(keys: Seq<String>) -> Seq<Seq<char>> {
    keys.map_values(|k: String| k@)
}

/// Looks a key up in a map without copying the value.
fn find<'a>(data: &'a StringHashMap<Sample>, key: &str) -> (found: Option<&'a Sample>)
    ensures
        found == match lookup(data@, key@) {
            Some(v) => Some(&v),
            None => None::<&Sample>,
        },
{
    data.get(key)
}

/// Where `key` stands in a list of keys, if it is there.
fn position(keys: &Vec<String>, key: &String) -> (pos: Option<usize>)
    ensures
        match pos {
            Some(i) => i < keys.len() && key_seq(keys@)[i as int] == key@,
            None => !key_seq(keys@).contains(key@),
        },
{
    let n = keys.len();
    let mut i: usize = 0;
    while i < n
        invariant
            n == keys.len(),
            i <= n,
            forall|j: int| 0 <= j < i ==> key_seq(keys@)[j] != key@,
        decreases n - i,
    {
        if keys[i] == *key {
            return Some(i);
        }
        i = i + 1;
    }
    None
}

/// Stores `val` under `key` in a map and its list of keys, and gives back what was
/// stored there before.
fn put_in(data: &mut StringHashMap<Sample>, keys: &mut Vec<String>, key: String, val: Sample) -> (previous: Option<Sample>)
    requires
        is_key_order(key_seq(old(keys)@), old(data)@),
    ensures
        is_key_order(key_seq(final(keys)@), final(data)@),
        final(data)@ == old(data)@.insert(key@, val),
        previous == lookup(old(data)@, key@),
{
    let previous = match find(data, key.as_str()) {
        Some(r) => Some(r.clone()),
        None => None,
    };
    let ghost old_order = key_seq(keys@);
    if previous.is_none() {
        keys.push(key.clone());
        assert(key_seq(keys@) =~= old_order.push(key@));
        assert(!old_order.to_set().contains(key@));
        assert forall|k: Seq<char>| #[trigger]
            key_seq(keys@).contains(k) <==> old_order.contains(k) || k == key@ by {
            if old_order.contains(k) {
                let j = choose|j: int| 0 <= j < old_order.len() && old_order[j] == k;
                assert(key_seq(keys@)[j] == k);
            }
            if k == key@ {
                assert(key_seq(keys@)[old_order.len() as int] == k);
            }
            if key_seq(keys@).contains(k) {
                let j = choose|j: int| 0 <= j < key_seq(keys@).len() && key_seq(keys@)[j] == k;
                if j < old_order.len() {
                    assert(old_order[j] == k);
                }
            }
        }
    } else {
        assert(old_order.to_set().contains(key@));
    }
    data.insert(key, val);
    assert(key_seq(keys@).to_set() =~= data@.dom());
    previous
}

/// Removes `key` from a map and its list of keys, and gives back what was stored
/// under it.
fn delete_in(data: &mut StringHashMap<Sample>, keys: &mut Vec<String>, key: String) -> (removed: Option<Sample>)
    requires
        is_key_order(key_seq(old(keys)@), old(data)@),
    ensures
        is_key_order(key_seq(final(keys)@), final(data)@),
        final(data)@ == old(data)@.remove(key@),
        removed == lookup(old(data)@, key@),
{
    let removed = match find(data, key.as_str()) {
        Some(r) => Some(r.clone()),
        None => None,
    };
    let ghost old_order = key_seq(keys@);
    match position(keys, &key) {
        Some(i) => {
            keys.remove(i);
            let ghost order = key_seq(keys@);
            assert(order =~= old_order.remove(i as int));
            assert forall|a: int, b: int|
                0 <= a < b < order.len() implies order[a] != order[b] by {
                let oa = if a < i { a } else { a + 1 };
                let ob = if b < i { b } else { b + 1 };
                assert(order[a] == old_order[oa]);
                assert(order[b] == old_order[ob]);
            }
            assert forall|k: Seq<char>|
                old_order.contains(k) && k != key@ implies order.contains(k) by {
                let j = choose|j: int| 0 <= j < old_order.len() && old_order[j] == k;
                if j < i {
                    assert(order[j] == k);
                } else {
                    assert(order[j - 1] == k);
                }
            }
            assert forall|k: Seq<char>| order.contains(k) implies old_order.contains(k) && k
                != key@ by {
                let j = choose|j: int| 0 <= j < order.len() && order[j] == k;
                let oj = if j < i { j } else { j + 1 };
                assert(old_order[oj] == k);
            }
        },
        None => {},
    }
    data.remove(key.as_str());
    assert(key_seq(keys@).to_set() =~= data@.dom());
    removed
}

impl MemoryStore {
    /// The keys of the store, in the order in which they were first added.
    closed spec fn key_order(&self) -> Seq<Seq<char>> {
        key_seq(self.keys@)
    }

    /// The list of keys names each key of the map exactly once.
    #[verifier::type_invariant]
    spec fn wf(&self) -> bool {
        is_key_order(self.key_order(), self.data@)
    }

    /// An empty store.
    pub fn new() -> (store: MemoryStore)
        ensures
            store@ == Map::<Seq<char>, Sample>::empty(),
    {
        let data: StringHashMap<Sample> = StringHashMap::new();
        let keys: Vec<String> = Vec::new();
        assert(key_seq(keys@).to_set() =~= data@.dom());
        MemoryStore { data, keys }
    }

    /// Takes the map and the list of keys out of the store, leaving it empty.
    fn take_parts(&mut self) -> (parts: (StringHashMap<Sample>, Vec<String>))
        ensures
            is_key_order(key_seq(parts.1@), parts.0@),
            parts.0@ == old(self)@,
    {
        let mut taken = MemoryStore::new();
        std::mem::swap(self, &mut taken);
        proof {
            use_type_invariant(&taken);
        }
        let MemoryStore { data, keys } = taken;
        (data, keys)
    }

    /// The sample stored under `key`, if there is one.
    pub fn get(&self, key: String) -> (found: Option<Sample>)
        ensures
            found == lookup(self@, key@),
    {
        let val = find(&self.data, key.as_str());
        match val {
            Some(r) => {
                let data = r.clone();
                Some(data)
            },
            None => None,
        }
    }

    /// Stores `val` under `key` and answers the added sample, also where the key
    /// already held one.
    pub fn add(&mut self, key: String, val: Sample) -> (added: Option<Sample>)
        ensures
            final(self)@ == old(self)@.insert(key@, val),
            added == Some(val),
    {
        let copy = val.clone();
        self.update(key, val);
        Some(copy)
    }

    /// Stores `val` under `key` and answers what was stored there before.
    pub fn update(&mut self, key: String, val: Sample) -> (previous: Option<Sample>)
        ensures
            final(self)@ == old(self)@.insert(key@, val),
            previous == lookup(old(self)@, key@),
    {
        let (mut data, mut keys) = self.take_parts();
        let previous = put_in(&mut data, &mut keys, key, val);
        *self = MemoryStore { data, keys };
        previous
    }

    /// Removes `key` and answers what was stored under it.
    pub fn delete(&mut self, key: String) -> (removed: Option<Sample>)
        ensures
            final(self)@ == old(self)@.remove(key@),
            removed == lookup(old(self)@, key@),
    {
        let (mut data, mut keys) = self.take_parts();
        let removed = delete_in(&mut data, &mut keys, key);
        *self = MemoryStore { data, keys };
        removed
    }

    /// Every sample in the store, each once, in the order of its key in the list of keys.
    #[allow(non_snake_case)]
    pub fn getAll(&self) -> (values: Vec<Sample>)
        ensures
            lists_all_values(values@, self@),
    {
        proof {
            use_type_invariant(self);
        }
        let mut values: Vec<Sample> = Vec::new();
        let n = self.keys.len();
        let ghost m = self@;
        let ghost order = self.key_order();
        for i in 0..n
            invariant
                n == self.keys.len(),
                m == self@,
                order == self.key_order(),
                is_key_order(order, m),
                values@ == order.take(i as int).map_values(|k: Seq<char>| m[k]),
        {
            assert(order.to_set().contains(order[i as int]));
            let v = find(&self.data, self.keys[i].as_str()).unwrap();
            values.push(v.clone());
            assert(order.take(i + 1) =~= order.take(i as int).push(order[i as int]));
            assert(values@ =~= order.take(i + 1).map_values(|k: Seq<char>| m[k]));
        }
        assert(order.take(n as int) =~= order);
        values
    }
}

impl Clone for MemoryStore {
    /// A copy of the store, with the same keys in the same order.
    fn clone(&self) -> (copy: Self)
        ensures
            copy@ == self@,
    {
        proof {
            use_type_invariant(self);
        }
        let mut data: StringHashMap<Sample> = StringHashMap::new();
        let mut keys: Vec<String> = Vec::new();
        let n = self.keys.len();
        let ghost m = self@;
        let ghost order = self.key_order();
        for i in 0..n
            invariant
                n == self.keys.len(),
                m == self@,
                order == self.key_order(),
                is_key_order(order, m),
                key_seq(keys@) == order.take(i as int),
                forall|k: Seq<char>| #[trigger]
                    data@.contains_key(k) <==> order.take(i as int).contains(k),
                forall|k: Seq<char>| #[trigger] data@.contains_key(k) ==> data@[k] == m[k],
        {
            assert(order.to_set().contains(order[i as int]));
            let v = find(&self.data, self.keys[i].as_str()).unwrap();
            let ghost before = data@;
            let ghost prefix = order.take(i as int);
            assert(forall|k: Seq<char>| before.contains_key(k) <==> prefix.contains(k));
            data.insert(self.keys[i].clone(), v.clone());
            keys.push(self.keys[i].clone());
            let ghost next = order.take(i + 1);
            assert(next =~= order.take(i as int).push(order[i as int]));
            assert(key_seq(keys@) =~= next);
            assert forall|k: Seq<char>| #[trigger]
                data@.contains_key(k) <==> next.contains(k) by {
                if prefix.contains(k) {
                    let j = choose|j: int| 0 <= j < prefix.len() && prefix[j] == k;
                    assert(next[j] == k);
                }
                if k == order[i as int] {
                    assert(next[i as int] == k);
                }
                if next.contains(k) {
                    let j = choose|j: int| 0 <= j < next.len() && next[j] == k;
                    if j < i {
                        assert(prefix[j] == k);
                    }
                }
            }
        }
        assert(order.take(n as int) =~= order);
        assert(key_seq(keys@).to_set() =~= data@.dom());
        assert(data@ =~= m);
        MemoryStore { data, keys }
    }
}

} // verus!

verus! {

/// A read after a write of `key` gives back the sample written (`add`, `update`, then `get`).
pub proof fn law_read_after_write(m: Map<Seq<char>, Sample>, key: Seq<char>, val: Sample)
    ensures
        lookup(m.insert(key, val), key) == Some(val),
{
}

/// A write of `key` leaves what every other key reads unchanged.
pub proof fn law_write_keeps_other_keys(
    m: Map<Seq<char>, Sample>,
    key: Seq<char>,
    other: Seq<char>,
    val: Sample,
)
    requires
        other != key,
    ensures
        lookup(m.insert(key, val), other) == lookup(m, other),
{
}

/// After `delete(key)`, `get(key)` finds nothing.
pub proof fn law_read_after_delete(m: Map<Seq<char>, Sample>, key: Seq<char>)
    ensures
        lookup(m.remove(key), key) == None::<Sample>,
{
}

/// A delete of `key` leaves what every other key reads unchanged.
pub proof fn law_delete_keeps_other_keys(
    m: Map<Seq<char>, Sample>,
    key: Seq<char>,
    other: Seq<char>,
)
    requires
        other != key,
    ensures
        lookup(m.remove(key), other) == lookup(m, other),
{
}

/// Deleting a key that was just added under a fresh name gives back the store as it was.
pub proof fn law_delete_undoes_fresh_add(m: Map<Seq<char>, Sample>, key: Seq<char>, val: Sample)
    requires
        !m.contains_key(key),
    ensures
        m.insert(key, val).remove(key) == m,
{
    assert(m.insert(key, val).remove(key) =~= m);
}

/// Writing back the sample that an update answered restores the store.
pub proof fn law_update_with_previous_restores(
    m: Map<Seq<char>, Sample>,
    key: Seq<char>,
    val: Sample,
)
    requires
        m.contains_key(key),
    ensures
        m.insert(key, val).insert(key, m[key]) == m,
{
    assert(m.insert(key, val).insert(key, m[key]) =~= m);
}

/// Writing the same sample twice is the same as writing it once.
pub proof fn law_write_is_idempotent(m: Map<Seq<char>, Sample>, key: Seq<char>, val: Sample)
    ensures
        m.insert(key, val).insert(key, val) == m.insert(key, val),
{
    assert(m.insert(key, val).insert(key, val) =~= m.insert(key, val));
}

/// A listing of all values (`getAll`) has one entry per key, holds the sample of every key,
/// and holds nothing that is not stored under some key.
pub proof fn law_listing_covers_store(values: Seq<Sample>, m: Map<Seq<char>, Sample>)
    requires
        lists_all_values(values, m),
    ensures
        m.dom().finite(),
        values.len() == m.dom().len(),
        forall|k: Seq<char>| m.contains_key(k) ==> values.contains(#[trigger] m[k]),
        forall|i: int| 0 <= i < values.len() ==> m.contains_value(#[trigger] values[i]),
{
    let keys = choose|keys: Seq<Seq<char>>|
        #[trigger] is_key_order(keys, m) && values == keys.map_values(|k: Seq<char>| m[k]);
    keys.unique_seq_to_set();
    assert forall|k: Seq<char>| m.contains_key(k) implies values.contains(#[trigger] m[k]) by {
        assert(keys.to_set().contains(k));
        let j = choose|j: int| 0 <= j < keys.len() && keys[j] == k;
        assert(values[j] == m[k]);
    }
    assert forall|i: int| 0 <= i < values.len() implies m.contains_value(#[trigger] values[i]) by {
        assert(keys.to_set().contains(keys[i]));
        assert(values[i] == m[keys[i]]);
    }
}

} // verus!
