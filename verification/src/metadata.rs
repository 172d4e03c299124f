use vstd::prelude::*;

use crate::metadata_error::MetadataError;
use crate::metadata_wire_limit_kind::MetadataWireLimitKind;
use crate::value::{
    compare_str, lemma_lex_order_converse, lemma_lex_order_equal, lemma_lex_order_transitive,
    lemma_str_bytes_injective, lex_order, str_bytes, str_equal, DataType, MetadataValue, ValueModel,
    ValueOrdering,
};

verus! {

/// Hard maximum number of entries accepted by the strict V1 wire contract.
pub const STRICT_STRING_MAP_MAX_ENTRIES: usize = 4096;

/// Hard maximum UTF-8 byte length of a key under the strict V1 wire contract.
pub const STRICT_STRING_MAP_MAX_KEY_BYTES: usize = 256;

/// The order of metadata keys: lexicographic by UTF-8 bytes.
pub open spec fn key_less(a: Seq<char>, b: Seq<char>) -> bool {
    lex_order(str_bytes(a), str_bytes(b)) == ValueOrdering::Less
}

/// The UTF-8 byte length of a key.
pub open spec fn key_len(k: Seq<char>) -> nat {
    str_bytes(k).len()
}

/// Entries whose keys strictly increase in key order.
pub open spec fn sorted_entries(s: Seq<(String, MetadataValue)>) -> bool {
    forall|i: int, j: int| 0 <= i < j < s.len() ==> key_less(#[trigger] s[i].0@, #[trigger] s[j].0@)
}

/// Whether some entry has key `k`.
pub open spec fn has_key(s: Seq<(String, MetadataValue)>, k: Seq<char>) -> bool {
    exists|i: int| 0 <= i < s.len() && #[trigger] s[i].0@ == k
}

/// A position holding key `k`, when there is one.
pub open spec fn key_index(s: Seq<(String, MetadataValue)>, k: Seq<char>) -> int {
    choose|i: int| 0 <= i < s.len() && #[trigger] s[i].0@ == k
}

/// The map from keys to value models held by a sequence of entries.
pub open spec fn entries_view(s: Seq<(String, MetadataValue)>) -> Map<Seq<char>, ValueModel> {
    Map::new(|k: Seq<char>| has_key(s, k), |k: Seq<char>| s[key_index(s, k)].1@)
}

/// The keys of a sequence of entries, in order.
pub open spec fn entry_keys(s: Seq<(String, MetadataValue)>) -> Seq<Seq<char>> {
    s.map_values(|e: (String, MetadataValue)| e.0@)
}

/// In sorted entries, distinct positions hold distinct keys.
proof fn lemma_sorted_distinct(s: Seq<(String, MetadataValue)>, i: int, j: int)
    requires
        sorted_entries(s),
        0 <= i < s.len(),
        0 <= j < s.len(),
        i != j,
    ensures
        s[i].0@ != s[j].0@,
{
    if i < j {
        assert(key_less(s[i].0@, s[j].0@));
        lemma_lex_order_equal(str_bytes(s[i].0@), str_bytes(s[j].0@));
    } else {
        assert(key_less(s[j].0@, s[i].0@));
        lemma_lex_order_equal(str_bytes(s[j].0@), str_bytes(s[i].0@));
    }
}

/// The view maps the key at position `i` to the value at position `i`.
proof fn lemma_view_at(s: Seq<(String, MetadataValue)>, i: int)
    requires
        sorted_entries(s),
        0 <= i < s.len(),
    ensures
        entries_view(s).contains_key(s[i].0@),
        entries_view(s)[s[i].0@] == s[i].1@,
{
    let k = s[i].0@;
    assert(has_key(s, k));
    let c = key_index(s, k);
    if c != i {
        lemma_sorted_distinct(s, c, i);
    }
}

/// The domain of the view is the set of entry keys, and it has one key per
/// entry.
proof fn lemma_view_dom(s: Seq<(String, MetadataValue)>)
    requires
        sorted_entries(s),
    ensures
        entries_view(s).dom() == entry_keys(s).to_set(),
        entries_view(s).dom().finite(),
        entries_view(s).dom().len() == s.len(),
{
    let ks = entry_keys(s);
    assert forall|k: Seq<char>| entries_view(s).dom().contains(k) <==> ks.to_set().contains(k) by {
        if has_key(s, k) {
            let i = choose|i: int| 0 <= i < s.len() && #[trigger] s[i].0@ == k;
            assert(ks[i] == k);
        }
        if ks.contains(k) {
            let i = choose|i: int| 0 <= i < ks.len() && ks[i] == k;
            assert(s[i].0@ == k);
        }
    }
    assert(entries_view(s).dom() =~= ks.to_set());
    assert forall|i: int, j: int| 0 <= i < ks.len() && 0 <= j < ks.len() && i != j implies ks[i]
        != ks[j] by {
        lemma_sorted_distinct(s, i, j);
    }
    assert(ks.no_duplicates());
    ks.unique_seq_to_set();
}

/// Finds where `key` stands in sorted entries: the first position whose key
/// is not less than `key`, and whether that key equals `key`.
fn find_slot(entries: &Vec<(String, MetadataValue)>, key: &str) -> (r: (usize, bool))
    requires
        sorted_entries(entries@),
    ensures
        r.0 <= entries@.len(),
        forall|j: int| 0 <= j < r.0 ==> key_less(#[trigger] entries@[j].0@, key@),
        r.1 ==> r.0 < entries@.len() && entries@[r.0 as int].0@ == key@,
        !r.1 ==> forall|j: int| r.0 <= j < entries@.len() ==> key_less(key@, #[trigger] entries@[j].0@),
        r.1 <==> has_key(entries@, key@),
{
    let mut i: usize = 0;
    while i < entries.len()
        invariant
            i <= entries@.len(),
            sorted_entries(entries@),
            forall|j: int| 0 <= j < i ==> key_less(#[trigger] entries@[j].0@, key@),
        decreases entries.len() - i,
    {
        let ord = compare_str(entries[i].0.as_str(), key);
        match ord {
            ValueOrdering::Less => {},
            ValueOrdering::Equal => {
                proof {
                    lemma_lex_order_equal(str_bytes(entries@[i as int].0@), str_bytes(key@));
                    lemma_str_bytes_injective(entries@[i as int].0@, key@);
                }
                return (i, true);
            },
            ValueOrdering::Greater => {
                proof {
                    lemma_lex_order_converse(str_bytes(key@), str_bytes(entries@[i as int].0@));
                    assert forall|j: int| i <= j < entries@.len() implies key_less(
                        key@,
                        #[trigger] entries@[j].0@,
                    ) by {
                        if j > i {
                            lemma_lex_order_transitive(
                                str_bytes(key@),
                                str_bytes(entries@[i as int].0@),
                                str_bytes(entries@[j].0@),
                            );
                        }
                    }
                    assert forall|j: int| 0 <= j < entries@.len() implies entries@[j].0@ != key@ by {
                        if j < i {
                            lemma_lex_order_equal(str_bytes(entries@[j].0@), str_bytes(key@));
                        } else {
                            lemma_lex_order_equal(str_bytes(key@), str_bytes(entries@[j].0@));
                        }
                    }
                }
                return (i, false);
            },
        }
        i = i + 1;
    }
    proof {
        assert forall|j: int| 0 <= j < entries@.len() implies entries@[j].0@ != key@ by {
            lemma_lex_order_equal(str_bytes(entries@[j].0@), str_bytes(key@));
        }
    }
    (i, false)
}

/// Copies entries, keeping keys and value models.
fn copy_entries(entries: &Vec<(String, MetadataValue)>) -> (r: Vec<(String, MetadataValue)>)
    ensures
        r@.len() == entries@.len(),
        forall|j: int| 0 <= j < r@.len() ==> (#[trigger] r@[j]).0@ == entries@[j].0@ && r@[j].1@
            == entries@[j].1@,
{
    let mut r: Vec<(String, MetadataValue)> = Vec::new();
    let mut i: usize = 0;
    while i < entries.len()
        invariant
            i <= entries@.len(),
            r@.len() == i,
            forall|j: int| 0 <= j < i ==> (#[trigger] r@[j]).0@ == entries@[j].0@ && r@[j].1@
                == entries@[j].1@,
        decreases entries.len() - i,
    {
        r.push((entries[i].0.clone(), entries[i].1.clone()));
        i = i + 1;
    }
    r
}

/// A structured, key-sorted store of metadata values.
///
/// Keys are unique and kept in increasing order of their UTF-8 bytes.
pub struct Metadata {
    entries: Vec<(String, MetadataValue)>,
}

impl Metadata {
    #[verifier::type_invariant]
    spec fn inv(self) -> bool {
        sorted_entries(self.entries@)
    }
}

impl View for Metadata {
    type V = Map<Seq<char>, ValueModel>;

    closed spec fn view(&self) -> Map<Seq<char>, ValueModel> {
        entries_view(self.entries@)
    }
}

impl Metadata {
    /// The entries in increasing key order.
    pub closed spec fn spec_entries(self) -> Seq<(Seq<char>, ValueModel)> {
        self.entries@.map_values(|e: (String, MetadataValue)| (e.0@, e.1@))
    }

    /// Creates an empty metadata object.
    pub fn new() -> (m: Metadata)
        ensures
            m@ == Map::<Seq<char>, ValueModel>::empty(),
    {
        let m = Metadata { entries: Vec::new() };
        assert(m@ =~= Map::<Seq<char>, ValueModel>::empty());
        m
    }

    /// Returns the number of key-value pairs.
    pub fn len(&self) -> (r: usize)
        ensures
            r == self@.len(),
            self@.dom().finite(),
    {
        proof {
            use_type_invariant(self);
            lemma_view_dom(self.entries@);
        }
        self.entries.len()
    }

    /// Returns `true` if there are no entries.
    pub fn is_empty(&self) -> (r: bool)
        ensures
            r == (self@.len() == 0),
    {
        self.len() == 0
    }

    /// Returns `true` if `key` has an entry, including an unset value.
    pub fn contains_key(&self, key: &str) -> (r: bool)
        ensures
            r == self@.contains_key(key@),
    {
        proof {
            use_type_invariant(self);
        }
        let (_, found) = find_slot(&self.entries, key);
        found
    }

    /// Returns the stored value for `key`, or `None` if absent.
    pub fn get_raw(&self, key: &str) -> (r: Option<&MetadataValue>)
        ensures
            match r {
                Some(v) => self@.contains_key(key@) && self@[key@] == v@,
                None => !self@.contains_key(key@),
            },
    {
        proof {
            use_type_invariant(self);
        }
        let (i, found) = find_slot(&self.entries, key);
        if found {
            proof {
                lemma_view_at(self.entries@, i as int);
            }
            Some(&self.entries[i].1)
        } else {
            None
        }
    }

    /// Inserts `value` under `key` and returns the previous value.
    pub fn insert(&mut self, key: &str, value: MetadataValue) -> (r: Option<MetadataValue>)
        ensures
            final(self)@ == old(self)@.insert(key@, value@),
            match r {
                Some(v) => old(self)@.contains_key(key@) && old(self)@[key@] == v@,
                None => !old(self)@.contains_key(key@),
            },
    {
        proof {
            use_type_invariant(&*self);
        }
        let mut entries: Vec<(String, MetadataValue)> = Vec::new();
        std::mem::swap(&mut entries, &mut self.entries);
        let ghost old_entries = entries@;
        let (i, found) = find_slot(&entries, key);
        let result = if found {
            let (k, old_value) = entries.remove(i);
            entries.insert(i, (k, value));
            proof {
                lemma_view_at(old_entries, i as int);
                assert(entries@ == old_entries.update(i as int, (k, value)));
                assert(sorted_entries(entries@));
                assert forall|q: Seq<char>| #[trigger] entries_view(entries@).contains_key(q)
                    <==> entries_view(old_entries).insert(key@, value@).contains_key(q) by {
                    if has_key(old_entries, q) {
                        let c = choose|c: int| 0 <= c < old_entries.len() && #[trigger] old_entries[c].0@ == q;
                        assert(entries@[c].0@ == q);
                    }
                    if has_key(entries@, q) {
                        let c = choose|c: int| 0 <= c < entries@.len() && #[trigger] entries@[c].0@ == q;
                        assert(old_entries[c].0@ == q);
                    }
                }
                assert forall|q: Seq<char>| #[trigger] entries_view(entries@).contains_key(q)
                    implies entries_view(entries@)[q] == entries_view(old_entries).insert(key@, value@)[q] by {
                    let c = choose|c: int| 0 <= c < entries@.len() && #[trigger] entries@[c].0@ == q;
                    lemma_view_at(entries@, c);
                    if c != i {
                        lemma_sorted_distinct(old_entries, c, i as int);
                        assert(entries@[c] == old_entries[c]);
                        lemma_view_at(old_entries, c);
                    } else {
                        assert(q == key@);
                    }
                }
                assert(entries_view(entries@) =~= entries_view(old_entries).insert(key@, value@));
            }
            Some(old_value)
        } else {
            let k = key.to_owned();
            entries.insert(i, (k, value));
            proof {
                assert(entries@ == old_entries.insert(i as int, (k, value)));
                assert forall|a: int, b: int| 0 <= a < b < entries@.len() implies key_less(
                    #[trigger] entries@[a].0@,
                    #[trigger] entries@[b].0@,
                ) by {
                    if a < i && b == i {
                    } else if a < i && b > i {
                        assert(entries@[b] == old_entries[b - 1]);
                    } else if a == i {
                        assert(entries@[b] == old_entries[b - 1]);
                    } else if a > i {
                        assert(entries@[a] == old_entries[a - 1]);
                        assert(entries@[b] == old_entries[b - 1]);
                    } else {
                        assert(entries@[a] == old_entries[a]);
                        assert(entries@[b] == old_entries[b]);
                    }
                }
                assert forall|q: Seq<char>| #[trigger] entries_view(entries@).contains_key(q)
                    <==> entries_view(old_entries).insert(key@, value@).contains_key(q) by {
                    if has_key(old_entries, q) {
                        let c = choose|c: int| 0 <= c < old_entries.len() && #[trigger] old_entries[c].0@ == q;
                        if c < i {
                            assert(entries@[c].0@ == q);
                        } else {
                            assert(entries@[c + 1].0@ == q);
                        }
                    }
                    if q == key@ {
                        assert(entries@[i as int].0@ == q);
                    }
                    if has_key(entries@, q) {
                        let c = choose|c: int| 0 <= c < entries@.len() && #[trigger] entries@[c].0@ == q;
                        if c < i {
                            assert(old_entries[c].0@ == q);
                        } else if c > i {
                            assert(old_entries[c - 1].0@ == q);
                        }
                    }
                }
                assert forall|q: Seq<char>| #[trigger] entries_view(entries@).contains_key(q)
                    implies entries_view(entries@)[q] == entries_view(old_entries).insert(key@, value@)[q] by {
                    let c = choose|c: int| 0 <= c < entries@.len() && #[trigger] entries@[c].0@ == q;
                    lemma_view_at(entries@, c);
                    if c < i {
                        assert(entries@[c] == old_entries[c]);
                        assert(old_entries[c].0@ != key@);
                        lemma_view_at(old_entries, c);
                        assert(entries_view(entries@)[q] == entries@[c].1@);
                        assert(entries_view(old_entries)[q] == entries@[c].1@);
                        assert(q != key@);
                        assert(entries_view(old_entries).insert(key@, value@)[q] == entries@[c].1@);
                    } else if c > i {
                        assert(entries@[c] == old_entries[c - 1]);
                        assert(old_entries[c - 1].0@ != key@);
                        lemma_view_at(old_entries, c - 1);
                        assert(entries_view(entries@)[q] == entries@[c].1@);
                        assert(entries_view(old_entries)[q] == entries@[c].1@);
                        assert(q != key@);
                        assert(entries_view(old_entries).insert(key@, value@)[q] == entries@[c].1@);
                    } else {
                        assert(entries@[c].0@ == key@);
                        assert(entries_view(entries@)[q] == value@);
                        assert(entries_view(old_entries).insert(key@, value@)[q] == value@);
                    }
                }
                assert(entries_view(entries@) =~= entries_view(old_entries).insert(key@, value@));
            }
            None
        };
        self.entries = entries;
        result
    }

    /// Returns the data type of the value stored under `key`.
    pub fn data_type(&self, key: &str) -> (r: Option<DataType>)
        ensures
            match r {
                Some(t) => self@.contains_key(key@) && self@[key@].data_type() == t,
                None => !self@.contains_key(key@),
            },
    {
        match self.get_raw(key) {
            Some(v) => Some(v.data_type()),
            None => None,
        }
    }

    /// Looks up the stored value for `key`, reporting an absent key as
    /// [`MetadataError::MissingKey`].
    pub fn entry(&self, key: &str) -> (r: Result<&MetadataValue, MetadataError>)
        ensures
            match r {
                Ok(v) => self@.contains_key(key@) && self@[key@] == v@,
                Err(e) => !self@.contains_key(key@) && (e matches MetadataError::MissingKey(k) && k@
                    == key@),
            },
    {
        match self.get_raw(key) {
            Some(v) => Ok(v),
            None => Err(MetadataError::MissingKey(key.to_owned())),
        }
    }

    /// Sets `value` under `key`, discarding any previous value.
    pub fn set(&mut self, key: &str, value: MetadataValue)
        ensures
            final(self)@ == old(self)@.insert(key@, value@),
    {
        let _ = self.insert(key, value);
    }

    /// Returns this metadata object with `key` set to `value`.
    pub fn with(self, key: &str, value: MetadataValue) -> (r: Metadata)
        ensures
            r@ == self@.insert(key@, value@),
    {
        let mut m = self;
        m.set(key, value);
        m
    }

    /// Removes the entry for `key` and returns its value if it existed.
    pub fn remove(&mut self, key: &str) -> (r: Option<MetadataValue>)
        ensures
            final(self)@ == old(self)@.remove(key@),
            match r {
                Some(v) => old(self)@.contains_key(key@) && old(self)@[key@] == v@,
                None => !old(self)@.contains_key(key@),
            },
    {
        proof {
            use_type_invariant(&*self);
        }
        let mut entries: Vec<(String, MetadataValue)> = Vec::new();
        std::mem::swap(&mut entries, &mut self.entries);
        let ghost old_entries = entries@;
        let (i, found) = find_slot(&entries, key);
        let result = if found {
            let (_, old_value) = entries.remove(i);
            proof {
                lemma_view_at(old_entries, i as int);
                assert(entries@ == old_entries.remove(i as int));
                assert forall|a: int, b: int| 0 <= a < b < entries@.len() implies key_less(
                    #[trigger] entries@[a].0@,
                    #[trigger] entries@[b].0@,
                ) by {
                    let a0 = if a < i { a } else { a + 1 };
                    let b0 = if b < i { b } else { b + 1 };
                    assert(entries@[a] == old_entries[a0]);
                    assert(entries@[b] == old_entries[b0]);
                }
                assert forall|q: Seq<char>| #[trigger] entries_view(entries@).contains_key(q)
                    <==> entries_view(old_entries).remove(key@).contains_key(q) by {
                    if has_key(old_entries, q) && q != key@ {
                        let c = choose|c: int| 0 <= c < old_entries.len() && #[trigger] old_entries[c].0@ == q;
                        if c < i {
                            assert(entries@[c].0@ == q);
                        } else {
                            assert(entries@[c - 1].0@ == q);
                        }
                    }
                    if has_key(entries@, q) {
                        let c = choose|c: int| 0 <= c < entries@.len() && #[trigger] entries@[c].0@ == q;
                        let c0 = if c < i { c } else { c + 1 };
                        assert(entries@[c] == old_entries[c0]);
                        lemma_sorted_distinct(old_entries, c0, i as int);
                    }
                }
                assert forall|q: Seq<char>| #[trigger] entries_view(entries@).contains_key(q)
                    implies entries_view(entries@)[q] == entries_view(old_entries).remove(key@)[q] by {
                    let c = choose|c: int| 0 <= c < entries@.len() && #[trigger] entries@[c].0@ == q;
                    let c0 = if c < i { c } else { c + 1 };
                    assert(entries@[c] == old_entries[c0]);
                    lemma_view_at(entries@, c);
                    lemma_view_at(old_entries, c0);
                }
                assert(entries_view(entries@) =~= entries_view(old_entries).remove(key@));
            }
            Some(old_value)
        } else {
            proof {
                assert(entries_view(entries@) =~= entries_view(old_entries).remove(key@));
            }
            None
        };
        self.entries = entries;
        result
    }

    /// Removes all entries.
    pub fn clear(&mut self)
        ensures
            final(self)@ == Map::<Seq<char>, ValueModel>::empty(),
    {
        self.entries = Vec::new();
        assert(entries_view(self.entries@) =~= Map::<Seq<char>, ValueModel>::empty());
    }

    /// Returns the keys in increasing key order.
    pub fn keys(&self) -> (r: Vec<String>)
        ensures
            r@.len() == self@.len(),
            forall|i: int| 0 <= i < r@.len() ==> self@.contains_key(#[trigger] r@[i]@),
            forall|k: Seq<char>| #[trigger] self@.contains_key(k) ==> exists|i: int|
                0 <= i < r@.len() && r@[i]@ == k,
            forall|i: int, j: int| 0 <= i < j < r@.len() ==> key_less(#[trigger] r@[i]@, #[trigger] r@[j]@),
            r@.len() == self.spec_sorted_keys().len(),
            forall|i: int| 0 <= i < r@.len() ==> #[trigger] r@[i]@ == self.spec_sorted_keys()[i],
    {
        proof {
            use_type_invariant(self);
            lemma_view_dom(self.entries@);
        }
        let mut keys: Vec<String> = Vec::new();
        let mut i: usize = 0;
        while i < self.entries.len()
            invariant
                i <= self.entries@.len(),
                sorted_entries(self.entries@),
                keys@.len() == i,
                forall|j: int| 0 <= j < i ==> #[trigger] keys@[j]@ == self.entries@[j].0@,
            decreases self.entries.len() - i,
        {
            keys.push(self.entries[i].0.clone());
            i = i + 1;
        }
        proof {
            assert forall|a: int| 0 <= a < keys@.len() implies self@.contains_key(#[trigger] keys@[a]@) by {
                lemma_view_at(self.entries@, a);
            }
            assert forall|k: Seq<char>| #[trigger] self@.contains_key(k) implies exists|a: int|
                0 <= a < keys@.len() && keys@[a]@ == k by {
                let c = key_index(self.entries@, k);
                assert(keys@[c]@ == k);
            }
            assert forall|a: int, b: int| 0 <= a < b < keys@.len() implies key_less(
                #[trigger] keys@[a]@,
                #[trigger] keys@[b]@,
            ) by {
                assert(key_less(self.entries@[a].0@, self.entries@[b].0@));
            }
        }
        keys
    }

    /// Returns copies of the entries in increasing key order.
    pub fn iter(&self) -> (r: Vec<(String, MetadataValue)>)
        ensures
            r@.len() == self@.len(),
            forall|i: int| 0 <= i < r@.len() ==> self@.contains_key(#[trigger] r@[i].0@) && self@[r@[i].0@]
                == r@[i].1@,
            forall|k: Seq<char>| #[trigger] self@.contains_key(k) ==> exists|i: int|
                0 <= i < r@.len() && r@[i].0@ == k,
            forall|i: int, j: int| 0 <= i < j < r@.len() ==> key_less(#[trigger] r@[i].0@, #[trigger] r@[j].0@),
    {
        proof {
            use_type_invariant(self);
            lemma_view_dom(self.entries@);
        }
        let r = copy_entries(&self.entries);
        proof {
            assert forall|a: int| 0 <= a < r@.len() implies self@.contains_key(#[trigger] r@[a].0@)
                && self@[r@[a].0@] == r@[a].1@ by {
                lemma_view_at(self.entries@, a);
            }
            assert forall|k: Seq<char>| #[trigger] self@.contains_key(k) implies exists|a: int|
                0 <= a < r@.len() && r@[a].0@ == k by {
                let c = key_index(self.entries@, k);
                assert(r@[c].0@ == k);
            }
            assert forall|a: int, b: int| 0 <= a < b < r@.len() implies key_less(
                #[trigger] r@[a].0@,
                #[trigger] r@[b].0@,
            ) by {
                assert(key_less(self.entries@[a].0@, self.entries@[b].0@));
            }
        }
        r
    }

    /// Returns copies of the values in increasing key order.
    pub fn values(&self) -> (r: Vec<MetadataValue>)
        ensures
            ({
                let keys = self.spec_sorted_keys();
                &&& r@.len() == keys.len()
                &&& r@.len() == self@.len()
                &&& forall|i: int| 0 <= i < r@.len() ==> #[trigger] r@[i]@ == self@[keys[i]]
            }),
    {
        proof {
            use_type_invariant(self);
            lemma_view_dom(self.entries@);
        }
        let mut values: Vec<MetadataValue> = Vec::new();
        let mut i: usize = 0;
        while i < self.entries.len()
            invariant
                i <= self.entries@.len(),
                sorted_entries(self.entries@),
                values@.len() == i,
                forall|j: int| 0 <= j < i ==> #[trigger] values@[j]@ == self.entries@[j].1@,
            decreases self.entries.len() - i,
        {
            values.push(self.entries[i].1.clone());
            i = i + 1;
        }
        proof {
            assert forall|a: int| 0 <= a < values@.len() implies #[trigger] values@[a]@
                == self@[self.spec_sorted_keys()[a]] by {
                lemma_view_at(self.entries@, a);
            }
        }
        values
    }

    /// The keys in increasing key order.
    pub closed spec fn spec_sorted_keys(self) -> Seq<Seq<char>> {
        entry_keys(self.entries@)
    }

    /// Validates that this object fits the strict V1 wire contract: at most
    /// the hard maximum number of entries, and no key longer than the hard
    /// maximum key bytes. The entry count is checked first; then the first
    /// overlong key in key order is reported.
    pub fn validate_wire_contract(&self) -> (r: Result<(), MetadataError>)
        ensures
            r is Ok <==> (self@.len() <= STRICT_STRING_MAP_MAX_ENTRIES && forall|k: Seq<char>|
                #[trigger] self@.contains_key(k) ==> key_len(k) <= STRICT_STRING_MAP_MAX_KEY_BYTES),
            self@.len() > STRICT_STRING_MAP_MAX_ENTRIES ==> r == Err::<(), MetadataError>(
                MetadataError::WireLimitExceeded {
                    kind: MetadataWireLimitKind::Entries,
                    value: self@.len() as usize,
                    maximum: STRICT_STRING_MAP_MAX_ENTRIES,
                },
            ),
            self@.len() <= STRICT_STRING_MAP_MAX_ENTRIES && r is Err ==> exists|k: Seq<char>|
                {
                    &&& #[trigger] self@.contains_key(k)
                    &&& key_len(k) > STRICT_STRING_MAP_MAX_KEY_BYTES
                    &&& forall|q: Seq<char>| #[trigger]
                        self@.contains_key(q) && key_less(q, k) ==> key_len(q)
                            <= STRICT_STRING_MAP_MAX_KEY_BYTES
                    &&& r == Err::<(), MetadataError>(
                        MetadataError::WireLimitExceeded {
                            kind: MetadataWireLimitKind::KeyBytes,
                            value: key_len(k) as usize,
                            maximum: STRICT_STRING_MAP_MAX_KEY_BYTES,
                        },
                    )
                },
    {
        proof {
            use_type_invariant(self);
            lemma_view_dom(self.entries@);
        }
        let n = self.entries.len();
        if n > STRICT_STRING_MAP_MAX_ENTRIES {
            return Err(
                MetadataError::WireLimitExceeded {
                    kind: MetadataWireLimitKind::Entries,
                    value: n,
                    maximum: STRICT_STRING_MAP_MAX_ENTRIES,
                },
            );
        }
        let mut i: usize = 0;
        while i < n
            invariant
                i <= n,
                n == self.entries@.len(),
                n == self@.len(),
                n <= STRICT_STRING_MAP_MAX_ENTRIES,
                sorted_entries(self.entries@),
                forall|j: int| 0 <= j < i ==> key_len(#[trigger] self.entries@[j].0@)
                    <= STRICT_STRING_MAP_MAX_KEY_BYTES,
            decreases n - i,
        {
            let len = self.entries[i].0.as_str().as_bytes().len();
            if len > STRICT_STRING_MAP_MAX_KEY_BYTES {
                proof {
                    let k = self.entries@[i as int].0@;
                    lemma_view_at(self.entries@, i as int);
                    assert forall|q: Seq<char>| #[trigger]
                        self@.contains_key(q) && key_less(q, k) implies key_len(q)
                            <= STRICT_STRING_MAP_MAX_KEY_BYTES by {
                        let c = key_index(self.entries@, q);
                        if c >= i {
                            if c > i {
                                assert(key_less(k, q));
                                lemma_lex_order_converse(str_bytes(k), str_bytes(q));
                            } else {
                                lemma_lex_order_equal(str_bytes(q), str_bytes(k));
                            }
                        }
                    }
                }
                return Err(
                    MetadataError::WireLimitExceeded {
                        kind: MetadataWireLimitKind::KeyBytes,
                        value: len,
                        maximum: STRICT_STRING_MAP_MAX_KEY_BYTES,
                    },
                );
            }
            i = i + 1;
        }
        proof {
            assert forall|k: Seq<char>| #[trigger] self@.contains_key(k) implies key_len(k)
                <= STRICT_STRING_MAP_MAX_KEY_BYTES by {
                let c = key_index(self.entries@, k);
            }
        }
        Ok(())
    }
}


/// A prefix of sorted entries is sorted.
proof fn lemma_sorted_take(s: Seq<(String, MetadataValue)>, n: int)
    requires
        sorted_entries(s),
        0 <= n <= s.len(),
    ensures
        sorted_entries(s.take(n)),
{
    assert forall|i: int, j: int| 0 <= i < j < s.take(n).len() implies key_less(
        #[trigger] s.take(n)[i].0@,
        #[trigger] s.take(n)[j].0@,
    ) by {
        assert(s.take(n)[i] == s[i]);
        assert(s.take(n)[j] == s[j]);
    }
}

/// The view of one more entry of sorted entries adds that entry.
proof fn lemma_view_take_step(s: Seq<(String, MetadataValue)>, i: int)
    requires
        sorted_entries(s),
        0 <= i < s.len(),
    ensures
        entries_view(s.take(i + 1)) == entries_view(s.take(i)).insert(s[i].0@, s[i].1@),
{
    let a = s.take(i);
    let b = s.take(i + 1);
    lemma_sorted_take(s, i);
    lemma_sorted_take(s, i + 1);
    assert forall|q: Seq<char>| #[trigger] entries_view(b).contains_key(q) <==> entries_view(a).insert(
        s[i].0@,
        s[i].1@,
    ).contains_key(q) by {
        if has_key(a, q) {
            let c = choose|c: int| 0 <= c < a.len() && #[trigger] a[c].0@ == q;
            assert(b[c] == a[c]);
        }
        assert(b[i] == s[i]);
        if has_key(b, q) && q != s[i].0@ {
            let c = choose|c: int| 0 <= c < b.len() && #[trigger] b[c].0@ == q;
            assert(c != i);
            assert(a[c] == b[c]);
        }
    }
    assert forall|q: Seq<char>| #[trigger] entries_view(b).contains_key(q) implies entries_view(b)[q]
        == entries_view(a).insert(s[i].0@, s[i].1@)[q] by {
        let c = choose|c: int| 0 <= c < b.len() && #[trigger] b[c].0@ == q;
        lemma_view_at(b, c);
        if c < i {
            assert(a[c] == b[c]);
            lemma_view_at(a, c);
            assert(b[i] == s[i]);
            lemma_sorted_distinct(b, c, i);
        } else {
            assert(b[c] == s[i]);
        }
    }
    assert(entries_view(b) =~= entries_view(a).insert(s[i].0@, s[i].1@));
}

/// Entries with the same keys and value models, position by position, have
/// the same view.
proof fn lemma_view_same(a: Seq<(String, MetadataValue)>, b: Seq<(String, MetadataValue)>)
    requires
        sorted_entries(a),
        a.len() == b.len(),
        forall|j: int| 0 <= j < a.len() ==> (#[trigger] a[j]).0@ == b[j].0@ && a[j].1@ == b[j].1@,
    ensures
        sorted_entries(b),
        entries_view(a) == entries_view(b),
{
    assert forall|i: int, j: int| 0 <= i < j < b.len() implies key_less(#[trigger] b[i].0@, #[trigger] b[j].0@) by {
        assert(key_less(a[i].0@, a[j].0@));
    }
    assert forall|q: Seq<char>| #[trigger] entries_view(a).contains_key(q) <==> entries_view(b).contains_key(q) by {
        if has_key(a, q) {
            let c = choose|c: int| 0 <= c < a.len() && #[trigger] a[c].0@ == q;
            assert(b[c].0@ == q);
        }
        if has_key(b, q) {
            let c = choose|c: int| 0 <= c < b.len() && #[trigger] b[c].0@ == q;
            assert(a[c].0@ == q);
        }
    }
    assert forall|q: Seq<char>| #[trigger] entries_view(a).contains_key(q) implies entries_view(a)[q]
        == entries_view(b)[q] by {
        let c = choose|c: int| 0 <= c < a.len() && #[trigger] a[c].0@ == q;
        lemma_view_at(a, c);
        lemma_view_at(b, c);
    }
    assert(entries_view(a) =~= entries_view(b));
}

/// `predicate` may answer `b` for a key with the view `k` and a value with
/// the model `v`.
pub open spec fn answered<F: Fn(&str, &MetadataValue) -> bool>(predicate: F, k: Seq<char>, v: ValueModel, b: bool) -> bool {
    exists|s: &str, value: &MetadataValue| s@ == k && value@ == v && predicate.ensures((s, value), b)
}

impl Metadata {
    /// Copies every entry of `other` into this object, replacing the values
    /// of keys present in both.
    pub fn merge(&mut self, other: Metadata)
        ensures
            final(self)@ == old(self)@.union_prefer_right(other@),
    {
        proof {
            use_type_invariant(&other);
        }
        let ghost start = self@;
        let entries = other.entries;
        let mut i: usize = 0;
        assert(entries@.take(0) =~= Seq::<(String, MetadataValue)>::empty());
        assert(entries_view(entries@.take(0)) =~= Map::<Seq<char>, ValueModel>::empty());
        assert(start.union_prefer_right(Map::<Seq<char>, ValueModel>::empty()) =~= start);
        while i < entries.len()
            invariant
                i <= entries@.len(),
                sorted_entries(entries@),
                start == old(self)@,
                self@ == start.union_prefer_right(entries_view(entries@.take(i as int))),
            decreases entries.len() - i,
        {
            proof {
                lemma_view_take_step(entries@, i as int);
            }
            let ghost before = self@;
            self.set(entries[i].0.as_str(), entries[i].1.clone());
            proof {
                let k = entries@[i as int].0@;
                let v = entries@[i as int].1@;
                assert(self@ =~= start.union_prefer_right(entries_view(entries@.take(i as int)).insert(k, v)));
            }
            i = i + 1;
        }
        proof {
            assert(entries@.take(i as int) =~= entries@);
            assert(entries_view(entries@) == other@);
        }
    }

    /// Returns a copy of this object with every entry of `other` copied in,
    /// replacing the values of keys present in both.
    pub fn merged(&self, other: &Metadata) -> (r: Metadata)
        ensures
            r@ == self@.union_prefer_right(other@),
    {
        let mut r = self.clone();
        r.merge(other.clone());
        r
    }

    /// Keeps only the entries for which `predicate` holds, visiting them in
    /// increasing key order.
    pub fn retain<F: Fn(&str, &MetadataValue) -> bool>(&mut self, predicate: F)
        requires
            forall|k: &str, v: &MetadataValue| #[trigger] predicate.requires((k, v)),
        ensures
            final(self)@.dom().subset_of(old(self)@.dom()),
            forall|k: Seq<char>| #[trigger] final(self)@.contains_key(k) ==> final(self)@[k] == old(self)@[k],
            forall|k: Seq<char>|
                #[trigger] old(self)@.contains_key(k) ==> answered(predicate, k, old(self)@[k], final(self)@.contains_key(k)),
    {
        proof {
            use_type_invariant(&*self);
        }
        let mut entries: Vec<(String, MetadataValue)> = Vec::new();
        std::mem::swap(&mut entries, &mut self.entries);
        let ghost old_entries = entries@;
        let ghost old_view = entries_view(old_entries);
        let mut kept: Vec<(String, MetadataValue)> = Vec::new();
        let ghost mut chosen: Set<Seq<char>> = Set::empty();
        let mut i: usize = 0;
        while i < entries.len()
            invariant
                i <= entries@.len(),
                entries@ == old_entries,
                old_view == entries_view(old_entries),
                sorted_entries(old_entries),
                forall|k: &str, v: &MetadataValue| #[trigger] predicate.requires((k, v)),
                sorted_entries(kept@),
                kept@.len() > 0 ==> exists|c: int| 0 <= c < i && kept@.last().0@ == #[trigger] old_entries[c].0@,
                forall|q: Seq<char>| #[trigger] chosen.contains(q) ==> exists|c: int| 0 <= c < i && #[trigger] old_entries[c].0@ == q,
                entries_view(kept@) == old_view.restrict(chosen),
                forall|c: int| 0 <= c < i ==> #[trigger] answered(predicate, old_entries[c].0@, old_entries[c].1@, chosen.contains(old_entries[c].0@)),
            decreases entries.len() - i,
        {
            let key = entries[i].0.as_str();
            let value = &entries[i].1;
            let keep = predicate(key, value);
            proof {
                lemma_view_at(old_entries, i as int);
                assert forall|c: int| 0 <= c < i implies old_entries[c].0@ != old_entries[i as int].0@ by {
                    lemma_sorted_distinct(old_entries, c, i as int);
                }
            }
            let ghost before = chosen;
            if keep {
                let ghost prev = kept@;
                kept.push((entries[i].0.clone(), entries[i].1.clone()));
                proof {
                    chosen = chosen.insert(old_entries[i as int].0@);
                    assert(kept@.drop_last() =~= prev);
                    assert forall|a: int, b: int| 0 <= a < b < kept@.len() implies key_less(
                        #[trigger] kept@[a].0@,
                        #[trigger] kept@[b].0@,
                    ) by {
                        if b == kept@.len() - 1 && a < b {
                            assert(kept@[a] == prev[a]);
                            let c = choose|c: int| 0 <= c < i && prev.last().0@ == #[trigger] old_entries[c].0@;
                            if a < prev.len() - 1 {
                                assert(key_less(prev[a].0@, prev.last().0@));
                                assert(key_less(old_entries[c].0@, old_entries[i as int].0@));
                                lemma_lex_order_transitive(
                                    str_bytes(prev[a].0@),
                                    str_bytes(prev.last().0@),
                                    str_bytes(old_entries[i as int].0@),
                                );
                            } else {
                                assert(key_less(old_entries[c].0@, old_entries[i as int].0@));
                            }
                        } else {
                            assert(kept@[a] == prev[a]);
                            assert(kept@[b] == prev[b]);
                        }
                    }
                    lemma_view_take_step(kept@, prev.len() as int);
                    assert(kept@.take(prev.len() as int) =~= prev);
                    assert(kept@.take(prev.len() + 1int) =~= kept@);
                    assert(entries_view(kept@) =~= old_view.restrict(chosen));
                }
            } else {
                proof {
                    assert(!chosen.contains(old_entries[i as int].0@));
                }
            }
            proof {
                assert(predicate.ensures((key, value), chosen.contains(old_entries[i as int].0@)));
                assert forall|c: int| 0 <= c < i + 1 implies #[trigger] answered(
                    predicate,
                    old_entries[c].0@,
                    old_entries[c].1@,
                    chosen.contains(old_entries[c].0@),
                ) by {
                    if c < i {
                        assert(chosen.contains(old_entries[c].0@) == before.contains(old_entries[c].0@));
                        assert(answered(predicate, old_entries[c].0@, old_entries[c].1@, before.contains(old_entries[c].0@)));
                    } else {
                        assert(key@ == old_entries[c].0@);
                        assert(value@ == old_entries[c].1@);
                    }
                }
            }
            i = i + 1;
        }
        proof {
            assert forall|k: Seq<char>| #[trigger] old_view.contains_key(k) implies answered(
                predicate,
                k,
                old_view[k],
                entries_view(kept@).contains_key(k),
            ) by {
                let c = key_index(old_entries, k);
                lemma_view_at(old_entries, c);
                assert(entries_view(kept@).contains_key(k) == chosen.contains(k));
                assert(answered(predicate, old_entries[c].0@, old_entries[c].1@, chosen.contains(old_entries[c].0@)));
            }
        }
        self.entries = kept;
    }

    /// Returns the entries in increasing key order.
    pub fn into_inner(self) -> (r: Vec<(String, MetadataValue)>)
        ensures
            r@.map_values(|e: (String, MetadataValue)| (e.0@, e.1@)) == self.spec_entries(),
            sorted_entries(r@),
            entries_view(r@) == self@,
    {
        proof {
            use_type_invariant(&self);
        }
        self.entries
    }
}

impl Clone for Metadata {
    /// Copies every entry.
    fn clone(&self) -> (r: Self)
        ensures
            r@ == self@,
    {
        proof {
            use_type_invariant(self);
        }
        let entries = copy_entries(&self.entries);
        proof {
            lemma_view_same(self.entries@, entries@);
        }
        Metadata { entries }
    }
}

} // verus!
