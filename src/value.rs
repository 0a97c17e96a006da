//! The structured value produced by every dump, and its mathematical model.
use vstd::prelude::*;

verus! {

/// A structured value: the tree that a dump produces.
///
/// Floating numbers are carried by their IEEE bit pattern; a pattern that is not
/// a finite number never appears here (it is decoded as `Null`).
#[derive(Debug)]
pub enum Value {
    Null,
    Bool(bool),
    Int(i64),
    UInt(u64),
    F32(u32),
    F64(u64),
    Str(String),
    Array(Vec<Value>),
    Object(Vec<(String, Value)>),
}

/// The model of a `Value`: the same tree over mathematical sequences.
pub enum Json {
    Null,
    Bool(bool),
    Int(int),
    F32(u32),
    F64(u64),
    Str(Seq<char>),
    Array(Seq<Json>),
    Object(Seq<(Seq<char>, Json)>),
}

pub open spec fn items_view(s: Seq<Value>) -> Seq<Json>
    decreases s,
{
    if s.len() == 0 {
        Seq::empty()
    } else {
        items_view(s.drop_last()).push(value_view(s.last()))
    }
}

pub open spec fn entries_view(s: Seq<(String, Value)>) -> Seq<(Seq<char>, Json)>
    decreases s,
{
    if s.len() == 0 {
        Seq::empty()
    } else {
        entries_view(s.drop_last()).push((s.last().0@, value_view(s.last().1)))
    }
}

pub open spec fn value_view(v: Value) -> Json
    decreases v,
{
    match v {
        Value::Null => Json::Null,
        Value::Bool(b) => Json::Bool(b),
        Value::Int(i) => Json::Int(i as int),
        Value::UInt(u) => Json::Int(u as int),
        Value::F32(b) => Json::F32(b),
        Value::F64(b) => Json::F64(b),
        Value::Str(s) => Json::Str(s@),
        Value::Array(items) => Json::Array(items_view(items@)),
        Value::Object(entries) => Json::Object(entries_view(entries@)),
    }
}

impl View for Value {
    type V = Json;

    open spec fn view(&self) -> Json {
        value_view(*self)
    }
}


/// Position of the first entry whose key is `k`, or -1 when there is none.
pub open spec fn key_pos(s: Seq<(Seq<char>, Json)>, k: Seq<char>) -> int
    decreases s.len(),
{
    if s.len() == 0 {
        -1
    } else if key_pos(s.drop_last(), k) >= 0 {
        key_pos(s.drop_last(), k)
    } else if s.last().0 == k {
        s.len() - 1
    } else {
        -1
    }
}

/// Mapping insertion: the entry with key `k` takes the value `v`, or a new entry is appended.
pub open spec fn json_insert(s: Seq<(Seq<char>, Json)>, k: Seq<char>, v: Json) -> Seq<(Seq<char>, Json)> {
    let p = key_pos(s, k);
    if p >= 0 {
        s.update(p, (k, v))
    } else {
        s.push((k, v))
    }
}

/// The keys of a mapping.
pub open spec fn has_key(s: Seq<(Seq<char>, Json)>, k: Seq<char>) -> bool {
    exists|i: int| 0 <= i < s.len() && #[trigger] s[i].0 == k
}

pub proof fn lemma_key_pos(s: Seq<(Seq<char>, Json)>, k: Seq<char>, i: int)
    requires
        0 <= i <= s.len(),
        forall|j: int| 0 <= j < i ==> #[trigger] s[j].0 != k,
        i < s.len() ==> s[i].0 == k,
    ensures
        key_pos(s, k) == (if i < s.len() { i } else { -1 }),
    decreases s.len(),
{
    if s.len() > 0 {
        let t = s.drop_last();
        if i < s.len() - 1 {
            lemma_key_pos(t, k, i);
        } else {
            assert forall|j: int| 0 <= j < t.len() implies #[trigger] t[j].0 != k by {
                assert(t[j] == s[j]);
            }
            lemma_key_pos(t, k, t.len() as int);
        }
    }
}

pub proof fn lemma_key_pos_range(s: Seq<(Seq<char>, Json)>, k: Seq<char>)
    ensures
        -1 <= key_pos(s, k) < s.len(),
        key_pos(s, k) >= 0 ==> s[key_pos(s, k)].0 == k,
        key_pos(s, k) < 0 ==> !has_key(s, k),
        forall|j: int| 0 <= j < s.len() && (key_pos(s, k) < 0 || j < key_pos(s, k)) ==> #[trigger] s[j].0 != k,
    decreases s.len(),
{
    if s.len() > 0 {
        lemma_key_pos_range(s.drop_last(), k);
        assert forall|j: int| 0 <= j < s.len() - 1 implies #[trigger] s[j] == s.drop_last()[j] by {}
        if key_pos(s, k) < 0 {
            assert forall|i: int| 0 <= i < s.len() implies #[trigger] s[i].0 != k by {
                if i < s.len() - 1 {
                    assert(s.drop_last()[i] == s[i]);
                }
            }
        }
    }
}

/// The value a mapping holds under key `k`.
pub open spec fn value_of(s: Seq<(Seq<char>, Json)>, k: Seq<char>) -> Json {
    s[key_pos(s, k)].1
}

/// After inserting `(k, v)` the mapping holds `v` under `k`, and under every
/// other key what it held before.
pub proof fn lemma_insert_value(s: Seq<(Seq<char>, Json)>, k: Seq<char>, v: Json, q: Seq<char>)
    ensures
        key_pos(json_insert(s, k, v), k) >= 0,
        value_of(json_insert(s, k, v), k) == v,
        q != k ==> key_pos(json_insert(s, k, v), q) == key_pos(s, q),
        q != k && key_pos(s, q) >= 0 ==> value_of(json_insert(s, k, v), q) == value_of(s, q),
{
    lemma_key_pos_range(s, k);
    lemma_key_pos_range(s, q);
    let r = json_insert(s, k, v);
    let p = key_pos(s, k);
    if p >= 0 {
        assert forall|j: int| 0 <= j < p implies #[trigger] r[j].0 != k by {
            assert(r[j] == s[j]);
        }
        lemma_key_pos(r, k, p);
    } else {
        assert forall|j: int| 0 <= j < s.len() implies #[trigger] r[j].0 != k by {
            assert(r[j] == s[j]);
        }
        lemma_key_pos(r, k, s.len() as int);
    }
    if q != k {
        let pq = key_pos(s, q);
        if pq >= 0 {
            assert forall|j: int| 0 <= j < pq implies #[trigger] r[j].0 != q by {
                if j != p {
                    assert(r[j] == s[j]);
                }
            }
            assert(r[pq] == s[pq]);
            lemma_key_pos(r, q, pq);
        } else {
            assert forall|j: int| 0 <= j < r.len() implies #[trigger] r[j].0 != q by {
                if j < s.len() && j != p {
                    assert(r[j] == s[j]);
                }
            }
            lemma_key_pos(r, q, r.len() as int);
        }
    }
}

/// After an insertion the keys are the old keys and `k`.
pub proof fn lemma_insert_keys(s: Seq<(Seq<char>, Json)>, k: Seq<char>, v: Json, q: Seq<char>)
    ensures
        has_key(json_insert(s, k, v), q) == (has_key(s, q) || q == k),
{
    lemma_key_pos_range(s, k);
    let r = json_insert(s, k, v);
    if has_key(s, q) {
        let i = choose|i: int| 0 <= i < s.len() && #[trigger] s[i].0 == q;
        assert(r[i].0 == q);
    }
    if q == k {
        if key_pos(s, k) >= 0 {
            assert(r[key_pos(s, k)].0 == q);
        } else {
            assert(r[s.len() as int].0 == q);
        }
    }
    if has_key(r, q) {
        let i = choose|i: int| 0 <= i < r.len() && #[trigger] r[i].0 == q;
        if i < s.len() && i != key_pos(s, k) {
            assert(s[i].0 == q);
        }
    }
}

pub proof fn lemma_entries_view(s: Seq<(String, Value)>)
    ensures
        entries_view(s).len() == s.len(),
        forall|i: int| 0 <= i < s.len() ==> #[trigger] entries_view(s)[i] == (s[i].0@, value_view(s[i].1)),
    decreases s.len(),
{
    if s.len() > 0 {
        lemma_entries_view(s.drop_last());
        assert forall|i: int| 0 <= i < s.len() implies #[trigger] entries_view(s)[i] == (s[i].0@, value_view(s[i].1)) by {
            if i < s.len() - 1 {
                assert(s.drop_last()[i] == s[i]);
            }
        }
    }
}

pub proof fn lemma_items_push(s: Seq<Value>, v: Value)
    ensures
        items_view(s.push(v)) == items_view(s).push(value_view(v)),
{
    assert(s.push(v).drop_last() =~= s);
}

pub proof fn lemma_entries_push(s: Seq<(String, Value)>, e: (String, Value))
    ensures
        entries_view(s.push(e)) == entries_view(s).push((e.0@, value_view(e.1))),
{
    assert(s.push(e).drop_last() =~= s);
}

/// Inserts `(k, v)` into the entries of an object: an entry with the same key is replaced.
pub fn object_insert(entries: &mut Vec<(String, Value)>, k: String, v: Value)
    ensures
        entries_view(final(entries)@) == json_insert(entries_view(old(entries)@), k@, v@),
{
    proof {
        lemma_entries_view(entries@);
    }
    let ghost ev = entries_view(entries@);
    let mut i: usize = 0;
    while i < entries.len()
        invariant
            i <= entries.len(),
            ev == entries_view(entries@),
            entries@ == old(entries)@,
            ev.len() == entries.len(),
            forall|j: int| 0 <= j < i ==> #[trigger] ev[j].0 != k@,
            forall|j: int| 0 <= j < entries.len() ==> #[trigger] ev[j] == (entries@[j].0@, value_view(entries@[j].1)),
        decreases entries.len() - i,
    {
        if entries[i].0 == k {
            proof {
                lemma_key_pos(ev, k@, i as int);
            }
            let ghost kv = k@;
            let ghost vv = v@;
            assert(ev[i as int].0 == kv);
            entries.set(i, (k, v));
            proof {
                lemma_entries_view(entries@);
                assert(entries_view(entries@) =~= ev.update(i as int, (kv, vv)));
            }
            return;
        }
        i = i + 1;
    }
    proof {
        lemma_key_pos(ev, k@, ev.len() as int);
        lemma_entries_push(entries@, (k, v));
    }
    entries.push((k, v));
}

} // verus!
