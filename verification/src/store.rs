use vstd::prelude::*;

use crate::fields::{FieldData, FieldMap, FieldValue, KvMap};

verus! {

/// The mapping that the store's entry list denotes: entries are read left
/// to right, and a later entry for a span identifier shadows an earlier one.
pub open spec fn store_map_of(s: Seq<(u64, FieldMap)>) -> Map<u64, Map<Seq<char>, FieldData>>
    decreases s.len(),
{
    if s.len() == 0 {
        Map::empty()
    } else {
        store_map_of(s.drop_last()).insert(s.last().0, s.last().1@)
    }
}

/// The accumulated field mapping of one span, or the empty mapping when the
/// span has not been recorded into yet.
pub open spec fn stored_fields(
    m: Map<u64, Map<Seq<char>, FieldData>>,
    id: u64,
) -> Map<Seq<char>, FieldData> {
    if m.contains_key(id) {
        m[id]
    } else {
        Map::empty()
    }
}

/// One span's serialized snapshot: its accumulated fields with the span's
/// declared name injected under the key `name`.
pub open spec fn snapshot_spec(
    m: Map<u64, Map<Seq<char>, FieldData>>,
    id: u64,
    name: Seq<char>,
) -> Map<Seq<char>, FieldData> {
    stored_fields(m, id).insert("name"@, FieldData::Text(name))
}

/// The span trail of an active stack, root ancestor first: one snapshot per
/// stack entry, in stack order.
pub open spec fn trail_spec(
    m: Map<u64, Map<Seq<char>, FieldData>>,
    stack: Seq<(u64, Seq<char>)>,
) -> Seq<Map<Seq<char>, FieldData>> {
    Seq::new(stack.len(), |i: int| snapshot_spec(m, stack[i].0, stack[i].1))
}

/// The per-span field accumulation table, indexed by the span identifier
/// that the host runtime assigns.  Its view maps each recorded span to its
/// accumulated field mapping.
pub struct SpanFieldStore {
    entries: Vec<(u64, FieldMap)>,
}

impl View for SpanFieldStore {
    type V = Map<u64, Map<Seq<char>, FieldData>>;

    closed spec fn view(&self) -> Map<u64, Map<Seq<char>, FieldData>> {
        store_map_of(self.entries@)
    }
}

proof fn lemma_store_found(s: Seq<(u64, FieldMap)>, i: int)
    requires
        0 <= i < s.len(),
        forall|j: int| i < j < s.len() ==> s[j].0 != s[i].0,
    ensures
        store_map_of(s).contains_key(s[i].0),
        store_map_of(s)[s[i].0] == s[i].1@,
    decreases s.len(),
{
    if i < s.len() - 1 {
        lemma_store_found(s.drop_last(), i);
    }
}

proof fn lemma_store_absent(s: Seq<(u64, FieldMap)>, id: u64)
    requires
        forall|j: int| 0 <= j < s.len() ==> s[j].0 != id,
    ensures
        !store_map_of(s).contains_key(id),
    decreases s.len(),
{
    if s.len() > 0 {
        lemma_store_absent(s.drop_last(), id);
    }
}

impl SpanFieldStore {
    /// A store with no span recorded yet.
    pub fn new() -> (r: Self)
        ensures
            r@ == Map::<u64, Map<Seq<char>, FieldData>>::empty(),
    {
        SpanFieldStore { entries: Vec::new() }
    }

    /// The fields accumulated so far for span `id`; the empty mapping when
    /// the span has no record yet.
    pub fn get_fields(&self, id: u64) -> (r: FieldMap)
        ensures
            r@ == stored_fields(self@, id),
    {
        let n = self.entries.len();
        let mut i: usize = n;
        while i > 0
            invariant
                i <= n,
                n == self.entries@.len(),
                forall|j: int| i <= j < n ==> self.entries@[j].0 != id,
            decreases i,
        {
            i -= 1;
            if self.entries[i].0 == id {
                proof {
                    lemma_store_found(self.entries@, i as int);
                }
                return self.entries[i].1.duplicate();
            }
        }
        proof {
            lemma_store_absent(self.entries@, id);
        }
        KvMap::new()
    }

    /// Merge one recording call into span `id`: on the first call the new
    /// mapping is attached as it is, later calls merge into the accumulated
    /// mapping with the new entries winning on key collision.
    pub fn record(&mut self, id: u64, fm: FieldMap)
        ensures
            final(self)@ == old(self)@.insert(
                id,
                stored_fields(old(self)@, id).union_prefer_right(fm@),
            ),
    {
        let mut cur = self.get_fields(id);
        cur.merge(fm);
        let ghost s = self.entries@;
        self.entries.push((id, cur));
        proof {
            assert(self.entries@.drop_last() =~= s);
        }
    }

    /// The serialized snapshot of span `id`, whose declared name is `name`:
    /// the accumulated fields plus the injected `name` key.
    pub fn snapshot(&self, id: u64, name: &str) -> (r: FieldMap)
        ensures
            r@ == snapshot_spec(self@, id, name@),
    {
        let mut r = self.get_fields(id);
        r.insert("name".to_owned(), FieldValue::Text(name.to_owned()));
        r
    }

    /// Drop the record of span `id`, as happens when the host runtime
    /// destroys the span instance.
    pub fn remove_span(&mut self, id: u64)
        ensures
            final(self)@ == old(self)@.remove(id),
    {
        let n = self.entries.len();
        let mut out: Vec<(u64, FieldMap)> = Vec::new();
        let mut i: usize = 0;
        while i < n
            invariant
                i <= n,
                n == self.entries@.len(),
                store_map_of(out@) == store_map_of(self.entries@.take(i as int)).remove(id),
            decreases n - i,
        {
            let ghost outpre = out@;
            let ghost pre = self.entries@.take(i as int);
            let ghost post = self.entries@.take(i as int + 1);
            let p = (self.entries[i].0, self.entries[i].1.duplicate());
            proof {
                assert(post.drop_last() =~= pre);
                assert(post.last().0 == self.entries@[i as int].0);
            }
            if p.0 != id {
                out.push(p);
                proof {
                    assert(out@.drop_last() =~= outpre);
                    assert(store_map_of(post).remove(id) =~= store_map_of(pre).remove(id).insert(
                        self.entries@[i as int].0,
                        self.entries@[i as int].1@,
                    ));
                    assert(store_map_of(out@) == store_map_of(outpre).insert(
                        self.entries@[i as int].0,
                        p.1@,
                    ));
                }
            } else {
                proof {
                    assert(store_map_of(post).remove(id) =~= store_map_of(pre).remove(id));
                }
            }
            i += 1;
        }
        proof {
            assert(self.entries@.take(n as int) =~= self.entries@);
        }
        self.entries = out;
    }

    /// The span trail of the active stack `stack` (identifier and declared
    /// name of each active span, root ancestor first): root-first,
    /// leaf-last, one snapshot per active span.
    pub fn span_trail(&self, stack: &Vec<(u64, String)>) -> (r: Vec<FieldMap>)
        ensures
            r@.len() == stack@.len(),
            forall|i: int|
                0 <= i < stack@.len() ==> (#[trigger] r@[i])@ == snapshot_spec(
                    self@,
                    stack@[i].0,
                    stack@[i].1@,
                ),
    {
        let n = stack.len();
        let mut r: Vec<FieldMap> = Vec::new();
        let mut i: usize = 0;
        while i < n
            invariant
                i <= n,
                n == stack@.len(),
                r@.len() == i,
                forall|j: int|
                    0 <= j < i ==> (#[trigger] r@[j])@ == snapshot_spec(
                        self@,
                        stack@[j].0,
                        stack@[j].1@,
                    ),
            decreases n - i,
        {
            let snap = self.snapshot(stack[i].0, stack[i].1.as_str());
            r.push(snap);
            i += 1;
        }
        r
    }
}

/// The key-wise union of a sequence of recording calls, later calls winning
/// on key collision.
pub open spec fn merged_all(rs: Seq<Map<Seq<char>, FieldData>>) -> Map<Seq<char>, FieldData>
    decreases rs.len(),
{
    if rs.len() == 0 {
        Map::empty()
    } else {
        merged_all(rs.drop_last()).union_prefer_right(rs.last())
    }
}

/// The index of the last recording call that wrote key `k`, or `-1`.
pub open spec fn last_writer(rs: Seq<Map<Seq<char>, FieldData>>, k: Seq<char>) -> int
    decreases rs.len(),
{
    if rs.len() == 0 {
        -1
    } else if rs.last().contains_key(k) {
        rs.len() - 1
    } else {
        last_writer(rs.drop_last(), k)
    }
}

/// Key-wise characterisation of a whole sequence of recording calls against
/// one span: a key is present in the merged result exactly when some call
/// wrote it, and its value is the one of the last call that wrote it.
pub proof fn lemma_merged_all_keywise(rs: Seq<Map<Seq<char>, FieldData>>, k: Seq<char>)
    ensures
        merged_all(rs).contains_key(k) <==> exists|i: int|
            0 <= i < rs.len() && (#[trigger] rs[i]).contains_key(k),
        merged_all(rs).contains_key(k) ==> {
            let i = last_writer(rs, k);
            &&& 0 <= i < rs.len()
            &&& rs[i].contains_key(k)
            &&& (forall|j: int| i < j < rs.len() ==> !(#[trigger] rs[j]).contains_key(k))
            &&& merged_all(rs)[k] == rs[i][k]
        },
    decreases rs.len(),
{
    if rs.len() > 0 {
        let rs0 = rs.drop_last();
        lemma_merged_all_keywise(rs0, k);
        if rs.last().contains_key(k) {
            assert(rs[rs.len() - 1].contains_key(k));
        } else {
            if merged_all(rs).contains_key(k) {
                assert(merged_all(rs).contains_key(k) == merged_all(rs0).contains_key(k));
                assert(merged_all(rs)[k] == merged_all(rs0)[k]);
                let i0 = choose|i: int| 0 <= i < rs0.len() && (#[trigger] rs0[i]).contains_key(k);
                assert(rs[i0].contains_key(k));
                let iw = last_writer(rs, k);
                assert(iw == last_writer(rs0, k));
                assert(rs[iw] == rs0[iw]);
                assert forall|j: int| iw < j < rs.len() implies !(#[trigger] rs[j]).contains_key(
                    k,
                ) by {
                    if j < rs.len() - 1 {
                        assert(rs[j] == rs0[j]);
                    } else {
                        assert(rs[j] == rs.last());
                    }
                }
            }
            if exists|i: int| 0 <= i < rs.len() && (#[trigger] rs[i]).contains_key(k) {
                let i0 = choose|i: int| 0 <= i < rs.len() && (#[trigger] rs[i]).contains_key(k);
                assert(i0 < rs.len() - 1 && rs0[i0].contains_key(k));
            }
        }
    }
}

/// The final snapshot that any sequence of recording calls against one span
/// yields: the key-wise union of the recorded mappings, later calls winning
/// on key collision, plus the injected `name` key.
pub open spec fn snapshot_of_records(
    rs: Seq<Map<Seq<char>, FieldData>>,
    name: Seq<char>,
) -> Map<Seq<char>, FieldData> {
    merged_all(rs).insert("name"@, FieldData::Text(name))
}

/// The final snapshot after any sequence of recording calls carries the
/// injected name, and is otherwise exactly the key-wise union of the
/// recorded mappings with later calls winning.
pub proof fn lemma_snapshot_of_records(
    rs: Seq<Map<Seq<char>, FieldData>>,
    name: Seq<char>,
    k: Seq<char>,
)
    ensures
        snapshot_of_records(rs, name)["name"@] == FieldData::Text(name),
        k != "name"@ ==> (snapshot_of_records(rs, name).contains_key(k) <==> exists|i: int|
            0 <= i < rs.len() && (#[trigger] rs[i]).contains_key(k)),
        k != "name"@ && snapshot_of_records(rs, name).contains_key(k) ==> {
            let i = last_writer(rs, k);
            &&& 0 <= i < rs.len()
            &&& (forall|j: int| i < j < rs.len() ==> !(#[trigger] rs[j]).contains_key(k))
            &&& snapshot_of_records(rs, name)[k] == rs[i][k]
        },
{
    lemma_merged_all_keywise(rs, k);
}

/// The store after a whole sequence of record calls against span `id`:
/// each call inserts the span's accumulated mapping merged with the newly
/// recorded one, exactly as `record` promises.
pub open spec fn apply_records(
    m: Map<u64, Map<Seq<char>, FieldData>>,
    id: u64,
    rs: Seq<Map<Seq<char>, FieldData>>,
) -> Map<u64, Map<Seq<char>, FieldData>>
    decreases rs.len(),
{
    if rs.len() == 0 {
        m
    } else {
        let prev = apply_records(m, id, rs.drop_last());
        prev.insert(id, stored_fields(prev, id).union_prefer_right(rs.last()))
    }
}

/// Any sequence of record calls against one previously unrecorded span
/// leaves that span with exactly the key-wise union of the recorded
/// mappings (characterised by `lemma_merged_all_keywise`), makes its
/// snapshot the union plus the injected `name` key, and touches no other
/// span.
pub proof fn lemma_record_sequence(
    m: Map<u64, Map<Seq<char>, FieldData>>,
    id: u64,
    rs: Seq<Map<Seq<char>, FieldData>>,
    name: Seq<char>,
)
    requires
        !m.contains_key(id),
    ensures
        stored_fields(apply_records(m, id, rs), id) == merged_all(rs),
        snapshot_spec(apply_records(m, id, rs), id, name) == snapshot_of_records(rs, name),
        forall|other: u64|
            other != id ==> stored_fields(apply_records(m, id, rs), other) == stored_fields(
                m,
                other,
            ),
    decreases rs.len(),
{
    if rs.len() > 0 {
        lemma_record_sequence(m, id, rs.drop_last(), name);
    }
}

/// Destroying one span's record is never observable through a trail whose
/// active stack does not contain that span: breadcrumbs built before the
/// destruction are plain values and cannot change, and every later trail
/// over the surviving spans is unchanged as well.
pub proof fn lemma_remove_not_retroactive(
    m: Map<u64, Map<Seq<char>, FieldData>>,
    id: u64,
    stack: Seq<(u64, Seq<char>)>,
)
    requires
        forall|i: int| 0 <= i < stack.len() ==> (#[trigger] stack[i]).0 != id,
    ensures
        trail_spec(m.remove(id), stack) == trail_spec(m, stack),
{
    assert forall|i: int| 0 <= i < stack.len() implies trail_spec(m.remove(id), stack)[i]
        == trail_spec(m, stack)[i] by {
        assert(stored_fields(m.remove(id), stack[i].0) == stored_fields(m, stack[i].0));
    }
    assert(trail_spec(m.remove(id), stack) =~= trail_spec(m, stack));
}

} // verus!
