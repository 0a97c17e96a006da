//! Enum resolution and the process-wide cache of enum constants.
use vstd::prelude::*;
use crate::host::{Host, Loc, FIELD_ATTRIBUTE_STATIC, FIELD_ATTRIBUTE_LITERAL, is_static, is_literal, loc_u32, read_u32};
use crate::value::{Value, Json};

verus! {

/// The named constants of one enum class, in declaration order.
pub struct EnumEntry {
    pub class: usize,
    pub name: String,
    pub literals: Vec<(String, i32)>,
}

/// Enum constants captured so far, one entry per enum class.
pub struct EnumCache {
    pub entries: Vec<EnumEntry>,
}

pub open spec fn lits_view(s: Seq<(String, i32)>) -> Seq<(Seq<char>, i32)> {
    s.map_values(|e: (String, i32)| (e.0@, e.1))
}

/// The signed 32-bit integer held by the first four bytes of `bytes`.
pub open spec fn bytes_i32<H: Host>(h: &H, bytes: Seq<u8>) -> i32 {
    loc_u32(h, bytes, Loc::Scratch(0)) as i32
}

/// The constants declared by the fields `fs`: each static literal field with its value.
pub open spec fn lits_of<H: Host>(h: &H, fs: Seq<usize>) -> Seq<(Seq<char>, i32)>
    decreases fs.len(),
{
    if fs.len() == 0 {
        Seq::empty()
    } else {
        let prev = lits_of(h, fs.drop_last());
        let f = fs.last();
        if is_static(h, f) && is_literal(h, f) {
            prev.push((h.spec_field_name(f), bytes_i32(h, h.spec_static_bytes(f, 4))))
        } else {
            prev
        }
    }
}

/// The constants of enum class `c`.
pub open spec fn enum_literals<H: Host>(h: &H, c: usize) -> Seq<(Seq<char>, i32)> {
    lits_of(h, h.spec_fields(c))
}

/// The name of the first constant whose value is `v`.
pub open spec fn lookup_lit(l: Seq<(Seq<char>, i32)>, v: i32) -> Option<Seq<char>>
    decreases l.len(),
{
    if l.len() == 0 {
        None
    } else if l[0].1 == v {
        Some(l[0].0)
    } else {
        lookup_lit(l.drop_first(), v)
    }
}

/// An enum value: the name of its constant, or the number itself when no constant matches.
pub open spec fn enum_json(l: Seq<(Seq<char>, i32)>, v: i32) -> Json {
    match lookup_lit(l, v) {
        Some(n) => Json::Str(n),
        None => Json::Int(v as int),
    }
}

/// Enum resolution: a value held by some constant decodes to the name of the
/// first such constant; a value held by none decodes to the number itself.
pub proof fn lemma_enum_resolution(l: Seq<(Seq<char>, i32)>, v: i32, i: int)
    requires
        0 <= i <= l.len(),
        forall|j: int| 0 <= j < i ==> #[trigger] l[j].1 != v,
        i < l.len() ==> l[i].1 == v,
    ensures
        enum_json(l, v) == (if i < l.len() {
            Json::Str(l[i].0)
        } else {
            Json::Int(v as int)
        }),
    decreases i,
{
    if i > 0 {
        let t = l.drop_first();
        assert forall|j: int| 0 <= j < i - 1 implies #[trigger] t[j].1 != v by {
            assert(t[j] == l[j + 1]);
        }
        lemma_enum_resolution(t, v, i - 1);
    }
}

/// Whether the cache already holds an entry for class `c`.
pub open spec fn has_entry(entries: Seq<EnumEntry>, c: usize) -> bool {
    exists|i: int| 0 <= i < entries.len() && #[trigger] entries[i].class == c
}

/// How a lookup of class `c` leaves the cache: unchanged when the class already
/// had an entry, else with exactly one entry appended for it; old entries keep
/// their places either way.
pub open spec fn cache_after(old: Seq<EnumEntry>, new: Seq<EnumEntry>, c: usize) -> bool {
    &&& has_entry(new, c)
    &&& new.len() >= old.len()
    &&& forall|i: int| 0 <= i < old.len() ==> #[trigger] new[i] == old[i]
    &&& has_entry(old, c) ==> new == old
    &&& !has_entry(old, c) ==> new.len() == old.len() + 1 && new.last().class == c
}

impl EnumCache {
    /// Every entry holds exactly the constants that the host declares for its class.
    pub open spec fn valid_for<H: Host>(&self, h: &H) -> bool {
        forall|i: int|
            0 <= i < self.entries@.len() ==> {
                let e = #[trigger] self.entries@[i];
                &&& lits_view(e.literals@) == enum_literals(h, e.class)
                &&& e.name@ == h.spec_class_name(e.class)
            }
    }

    pub fn new() -> (r: EnumCache)
        ensures
            r.entries@.len() == 0,
    {
        EnumCache { entries: Vec::new() }
    }
}

/// Reads the constants of enum class `c` from its static literal fields.
pub fn collect_literals<H: Host>(h: &H, c: usize) -> (r: Vec<(String, i32)>)
    ensures
        lits_view(r@) == enum_literals(h, c),
{
    let fs = h.fields(c);
    let mut out: Vec<(String, i32)> = Vec::new();
    let mut i: usize = 0;
    while i < fs.len()
        invariant
            fs@ == h.spec_fields(c),
            i <= fs.len(),
            lits_view(out@) == lits_of(h, fs@.subrange(0, i as int)),
        decreases fs.len() - i,
    {
        let f = fs[i];
        let flags = h.field_flags(f);
        assert(fs@.subrange(0, i + 1).drop_last() =~= fs@.subrange(0, i as int));
        if flags & FIELD_ATTRIBUTE_STATIC != 0 && flags & FIELD_ATTRIBUTE_LITERAL != 0 {
            let bytes = h.read_static(f, 4);
            let v = read_u32(h, &bytes, Loc::Scratch(0)) as i32;
            let name = h.field_name(f);
            let ghost before = out@;
            let ghost nv = name@;
            out.push((name, v));
            assert(lits_view(out@) =~= lits_view(before).push((nv, v)));
        }
        i = i + 1;
    }
    assert(fs@.subrange(0, fs@.len() as int) =~= fs@);
    out
}

/// The name of the first constant in `lits` whose value is `v`.
pub fn lookup<'a>(lits: &'a Vec<(String, i32)>, v: i32) -> (r: Option<&'a String>)
    ensures
        match r {
            Some(n) => lookup_lit(lits_view(lits@), v) == Some(n@),
            None => lookup_lit(lits_view(lits@), v) is None,
        },
{
    let ghost l = lits_view(lits@);
    assert(l.subrange(0, l.len() as int) =~= l);
    let mut i: usize = 0;
    while i < lits.len()
        invariant
            l == lits_view(lits@),
            i <= lits.len(),
            lookup_lit(l, v) == lookup_lit(l.subrange(i as int, l.len() as int), v),
        decreases lits.len() - i,
    {
        let ghost rest = l.subrange(i as int, l.len() as int);
        assert(rest.drop_first() =~= l.subrange(i + 1, l.len() as int));
        if lits[i].1 == v {
            return Some(&lits[i].0);
        }
        i = i + 1;
    }
    None
}

/// Finds the cache entry of class `c`, filling it from the host on first use.
pub fn cached_literals<H: Host>(h: &H, c: usize, cache: &mut EnumCache) -> (idx: usize)
    requires
        old(cache).valid_for(h),
    ensures
        final(cache).valid_for(h),
        idx < final(cache).entries@.len(),
        final(cache).entries@[idx as int].class == c,
        cache_after(old(cache).entries@, final(cache).entries@, c),
{
    let mut i: usize = 0;
    while i < cache.entries.len()
        invariant
            cache.valid_for(h),
            cache.entries@ == old(cache).entries@,
            i <= cache.entries.len(),
            forall|j: int| 0 <= j < i ==> #[trigger] cache.entries@[j].class != c,
        decreases cache.entries.len() - i,
    {
        if cache.entries[i].class == c {
            assert(has_entry(cache.entries@, c));
            return i;
        }
        i = i + 1;
    }
    let literals = collect_literals(h, c);
    let name = h.class_name(c);
    let ghost before = cache.entries@;
    cache.entries.push(EnumEntry { class: c, name, literals });
    assert forall|j: int| 0 <= j < cache.entries@.len() implies {
        let e = #[trigger] cache.entries@[j];
        &&& lits_view(e.literals@) == enum_literals(h, e.class)
        &&& e.name@ == h.spec_class_name(e.class)
    } by {
        if j < before.len() {
            assert(cache.entries@[j] == before[j]);
        }
    }
    assert(cache.entries@[before.len() as int].class == c);
    cache.entries.len() - 1
}

/// Reads the enum value at `loc` and names it by the constants of class `c`.
pub fn resolve_enum_to_string<H: Host>(
    h: &H,
    sc: &Vec<u8>,
    loc: Loc,
    c: usize,
    cache: &mut EnumCache,
) -> (r: Value)
    requires
        old(cache).valid_for(h),
    ensures
        final(cache).valid_for(h),
        cache_after(old(cache).entries@, final(cache).entries@, c),
        r@ == enum_json(enum_literals(h, c), loc_u32(h, sc@, loc) as i32),
{
    let v = read_u32(h, sc, loc) as i32;
    let idx = cached_literals(h, c, cache);
    let found = lookup(&cache.entries[idx].literals, v);
    match found {
        Some(n) => Value::Str(n.clone()),
        None => Value::Int(v as i64),
    }
}

} // verus!
