use vstd::prelude::*;

use crate::text::str_eq;

verus! {

/// A tagged primitive value, as the field visitor records it.  Integers,
/// unsigned integers, booleans and strings are kept verbatim; every other
/// recordable value degrades to its diagnostic rendering.
pub enum FieldValue {
    Int(i64),
    UInt(u64),
    Bool(bool),
    Text(String),
    Rendered(String),
}

/// The mathematical value of one recorded field.
pub enum FieldData {
    Int(i64),
    UInt(u64),
    Bool(bool),
    Text(Seq<char>),
    Rendered(Seq<char>),
}

impl View for FieldValue {
    type V = FieldData;

    open spec fn view(&self) -> FieldData {
        match self {
            FieldValue::Int(n) => FieldData::Int(*n),
            FieldValue::UInt(n) => FieldData::UInt(*n),
            FieldValue::Bool(b) => FieldData::Bool(*b),
            FieldValue::Text(s) => FieldData::Text(s@),
            FieldValue::Rendered(s) => FieldData::Rendered(s@),
        }
    }
}

impl FieldValue {
    /// A copy with the same mathematical value.
    pub fn duplicate(&self) -> (r: FieldValue)
        ensures
            r@ == self@,
    {
        match self {
            FieldValue::Int(n) => FieldValue::Int(*n),
            FieldValue::UInt(n) => FieldValue::UInt(*n),
            FieldValue::Bool(b) => FieldValue::Bool(*b),
            FieldValue::Text(s) => FieldValue::Text(s.clone()),
            FieldValue::Rendered(s) => FieldValue::Rendered(s.clone()),
        }
    }
}

/// The mapping that a sequence of keyed entries denotes: entries are read
/// left to right, and a later entry for a key shadows an earlier one.
pub open spec fn map_of<V: View>(s: Seq<(String, V)>) -> Map<Seq<char>, V::V>
    decreases s.len(),
{
    if s.len() == 0 {
        Map::empty()
    } else {
        map_of(s.drop_last()).insert(s.last().0@, s.last().1@)
    }
}

/// A string-keyed mapping, stored as an entry list in which the latest
/// entry for a key wins.  Its view is the denoted mathematical `Map`.
pub struct KvMap<V> {
    entries: Vec<(String, V)>,
}

impl<V: View> View for KvMap<V> {
    type V = Map<Seq<char>, V::V>;

    closed spec fn view(&self) -> Map<Seq<char>, V::V> {
        map_of(self.entries@)
    }
}

/// The value that `map_of` yields for the key of entry `i`, when no later
/// entry shadows it.
pub proof fn lemma_map_of_found<V: View>(s: Seq<(String, V)>, i: int)
    requires
        0 <= i < s.len(),
        forall|j: int| i < j < s.len() ==> s[j].0@ != s[i].0@,
    ensures
        map_of(s).contains_key(s[i].0@),
        map_of(s)[s[i].0@] == s[i].1@,
    decreases s.len(),
{
    if i < s.len() - 1 {
        lemma_map_of_found(s.drop_last(), i);
    }
}

/// A key that no entry carries is absent from `map_of`.
pub proof fn lemma_map_of_absent<V: View>(s: Seq<(String, V)>, k: Seq<char>)
    requires
        forall|j: int| 0 <= j < s.len() ==> s[j].0@ != k,
    ensures
        !map_of(s).contains_key(k),
    decreases s.len(),
{
    if s.len() > 0 {
        lemma_map_of_absent(s.drop_last(), k);
    }
}

proof fn lemma_map_of_append<V: View>(a: Seq<(String, V)>, b: Seq<(String, V)>)
    ensures
        map_of(a + b) == map_of(a).union_prefer_right(map_of(b)),
    decreases b.len(),
{
    if b.len() == 0 {
        assert(a + b =~= a);
        assert(map_of(a).union_prefer_right(map_of(b)) =~= map_of(a));
    } else {
        let b0 = b.drop_last();
        lemma_map_of_append(a, b0);
        assert((a + b).drop_last() =~= a + b0);
        assert((a + b).last() == b.last());
        assert(map_of(a).union_prefer_right(map_of(b0).insert(b.last().0@, b.last().1@))
            =~= map_of(a).union_prefer_right(map_of(b0)).insert(b.last().0@, b.last().1@));
    }
}

proof fn lemma_map_of_key_present<V: View>(s: Seq<(String, V)>, i: int)
    requires
        0 <= i < s.len(),
    ensures
        map_of(s).contains_key(s[i].0@),
    decreases s.len(),
{
    if i < s.len() - 1 {
        lemma_map_of_key_present(s.drop_last(), i);
    }
}

proof fn lemma_map_of_congruent<V: View>(a: Seq<(String, V)>, b: Seq<(String, V)>)
    requires
        a.len() == b.len(),
        forall|j: int| 0 <= j < a.len() ==> a[j].0@ == b[j].0@ && a[j].1@ == b[j].1@,
    ensures
        map_of(a) == map_of(b),
    decreases a.len(),
{
    if a.len() > 0 {
        lemma_map_of_congruent(a.drop_last(), b.drop_last());
    }
}

impl<V: View> KvMap<V> {
    /// An empty mapping.
    pub fn new() -> (r: Self)
        ensures
            r@ == Map::<Seq<char>, V::V>::empty(),
    {
        KvMap { entries: Vec::new() }
    }

    /// Insert `v` under `k`, overwriting any earlier value for `k`.
    pub fn insert(&mut self, k: String, v: V)
        ensures
            final(self)@ == old(self)@.insert(k@, v@),
    {
        let ghost s = self.entries@;
        self.entries.push((k, v));
        proof {
            assert(self.entries@.drop_last() =~= s);
        }
    }

    /// The value most recently inserted under `k`, if any.
    pub fn get<'a>(&'a self, k: &str) -> (r: Option<&'a V>)
        ensures
            match r {
                Some(v) => self@.contains_key(k@) && v@ == self@[k@],
                None => !self@.contains_key(k@),
            },
    {
        let n = self.entries.len();
        let mut i: usize = n;
        while i > 0
            invariant
                i <= n,
                n == self.entries@.len(),
                forall|j: int| i <= j < n ==> self.entries@[j].0@ != k@,
            decreases i,
    {
            i -= 1;
            if str_eq(self.entries[i].0.as_str(), k) {
                proof {
                    lemma_map_of_found(self.entries@, i as int);
                }
                return Some(&self.entries[i].1);
            }
        }
        proof {
            lemma_map_of_absent(self.entries@, k@);
        }
        None
    }

    /// Whether some value is stored under `k`.
    pub fn contains(&self, k: &str) -> (r: bool)
        ensures
            r == self@.contains_key(k@),
    {
        match self.get(k) {
            Some(_) => true,
            None => false,
        }
    }

    /// The number of stored entries; `entry_at` enumerates them in
    /// insertion order.
    pub fn entry_count(&self) -> (n: usize)
        ensures
            n == self.entry_len(),
    {
        self.entries.len()
    }

    /// The number of stored entries.
    pub closed spec fn entry_len(&self) -> nat {
        self.entries@.len()
    }

    /// The entry at position `i` of the insertion order.  Its key is bound
    /// in the mapping, though a later entry of the same key may shadow its
    /// value.
    pub fn entry_at(&self, i: usize) -> (r: &(String, V))
        requires
            i < self.entry_len(),
        ensures
            self@.contains_key(r.0@),
    {
        proof {
            lemma_map_of_key_present(self.entries@, i as int);
        }
        &self.entries[i]
    }

    /// Merge every entry of `other` into `self`; on a key collision the
    /// entry of `other` wins.
    pub fn merge(&mut self, other: KvMap<V>)
        ensures
            final(self)@ == old(self)@.union_prefer_right(other@),
    {
        let ghost a = self.entries@;
        let ghost b = other.entries@;
        let mut o = other;
        self.entries.append(&mut o.entries);
        proof {
            lemma_map_of_append(a, b);
        }
    }
}

impl KvMap<FieldValue> {
    /// A copy with the same mathematical value.
    pub fn duplicate(&self) -> (r: Self)
        ensures
            r@ == self@,
    {
        let n = self.entries.len();
        let mut out: Vec<(String, FieldValue)> = Vec::new();
        let mut i: usize = 0;
        while i < n
            invariant
                i <= n,
                n == self.entries@.len(),
                out@.len() == i,
                forall|j: int| 0 <= j < i ==> out@[j].0@ == self.entries@[j].0@
                    && out@[j].1@ == self.entries@[j].1@,
            decreases n - i,
        {
            let k = self.entries[i].0.clone();
            let v = self.entries[i].1.duplicate();
            out.push((k, v));
            i += 1;
        }
        proof {
            lemma_map_of_congruent(out@, self.entries@);
        }
        KvMap { entries: out }
    }
}

/// A field mapping: field names to tagged primitive values.
pub type FieldMap = KvMap<FieldValue>;

} // verus!
