//! The static snapshot walker: dumps the static fields of a class and of its
//! nested classes, independent of any instance.
use vstd::prelude::*;
use crate::enums::EnumCache;
use crate::graph::{
    TYPE_VALUETYPE, is_ref_tag, is_reference_tag, walk_json, value_json,
    convert_object_to_value, read_value_from_addr,
};
use crate::host::{Host, Loc, FIELD_ATTRIBUTE_STATIC, FIELD_ATTRIBUTE_LITERAL, is_static, is_literal, loc_ptr, read_ptr};
use crate::text::{seq_contains, seq_starts_with, digits, text, text_eq, contains, starts_with, append_str, push_hex};
use crate::value::{Value, Json, entries_view, json_insert, has_key, object_insert, lemma_insert_keys};

verus! {

/// Deepest level of nested classes that is dumped.
pub const MAX_STATIC_DEPTH: usize = 10;
/// Scratch size for a static field that is not an inline value.
pub const DEFAULT_STATIC_SIZE: usize = 16;
/// Scratch size for an inline value whose size is unknown or implausible.
pub const FALLBACK_STATIC_SIZE: usize = 256;
/// Inline values of this size or more are treated as implausible.
pub const MAX_STATIC_SIZE: i32 = 10000;
/// Smallest address taken for a real object.
pub const MIN_VALID_ADDRESS: usize = 0x10000;

/// Static fields whose reading is known to corrupt the runtime's state.
pub open spec fn is_unstable(name: Seq<char>) -> bool {
    name == "AUDIENCE_RATE_DIC"@ || name == "REGEX_COLOR_TAG"@ || name == "OVERRIDE_RECT_DICT"@
        || name == "JUKEBOX_DIALOG_SET_LIST_ANIMATION_DATA"@ || name
        == "CARE_FLASH_MINI_CHARA_INFO_DUO"@
}

pub fn is_unstable_field(name: &str) -> (r: bool)
    ensures
        r == is_unstable(name@),
{
    text_eq(name, "AUDIENCE_RATE_DIC") || text_eq(name, "REGEX_COLOR_TAG") || text_eq(
        name,
        "OVERRIDE_RECT_DICT",
    ) || text_eq(name, "JUKEBOX_DIALOG_SET_LIST_ANIMATION_DATA") || text_eq(
        name,
        "CARE_FLASH_MINI_CHARA_INFO_DUO",
    )
}

/// A pointer that may be followed: null, or aligned and above the low guard region.
pub open spec fn plausible_pointer(p: usize) -> bool {
    p == 0 || (p >= MIN_VALID_ADDRESS && p % 8 == 0)
}

pub fn is_valid_pointer(p: usize) -> (r: bool)
    ensures
        r == plausible_pointer(p),
{
    if p == 0 {
        return true;
    }
    if p < MIN_VALID_ADDRESS {
        return false;
    }
    if p % 8 != 0 {
        return false;
    }
    true
}

pub open spec fn invalid_pointer_text(p: usize) -> Seq<char> {
    "<Invalid Pointer: "@ + "0x"@ + digits(p as nat, 16) + ">"@
}

/// Classes that are compiler-generated or belong to framework namespaces.
pub open spec fn is_skipped_name(name: Seq<char>) -> bool {
    seq_contains(name, "<"@) || seq_contains(name, "$"@) || seq_contains(name, "DisplayClass"@)
        || seq_starts_with(name, "System."@) || seq_starts_with(name, "UnityEngine."@)
}

/// How many bytes of a static field's value are read.
pub open spec fn static_size<H: Host>(h: &H, f: usize) -> usize {
    if h.spec_field_tag(f) == TYPE_VALUETYPE {
        let fk = h.spec_field_class(f);
        if fk != 0 && 0 < h.spec_value_size(fk) < MAX_STATIC_SIZE {
            h.spec_value_size(fk) as usize
        } else {
            FALLBACK_STATIC_SIZE
        }
    } else {
        DEFAULT_STATIC_SIZE
    }
}

/// Whether a field is dumped by a static snapshot.
pub open spec fn static_dumped<H: Host>(h: &H, f: usize) -> bool {
    let off = h.spec_field_offset(f);
    is_static(h, f) && !is_literal(h, f) && off != usize::MAX && off != 0xFFFF_FFFFusize
        && !is_unstable(h.spec_field_name(f))
}

/// The value of a static field, read through a scratch copy.
pub open spec fn static_field_json<H: Host>(h: &H, bl: Seq<String>, f: usize) -> Json {
    let sc = h.spec_static_bytes(f, static_size(h, f));
    let tag = h.spec_field_tag(f);
    if is_reference_tag(tag) {
        let p = loc_ptr(h, sc, Loc::Scratch(0));
        if !plausible_pointer(p) {
            Json::Str(invalid_pointer_text(p))
        } else {
            walk_json(h, bl, Seq::empty(), p, 0)
        }
    } else {
        value_json(h, bl, Seq::empty(), sc, Loc::Scratch(0), tag, h.spec_field_class(f), 0)
    }
}

/// The mapping of the first `n` of the fields `fs` that a static snapshot dumps.
pub open spec fn static_entries<H: Host>(h: &H, bl: Seq<String>, fs: Seq<usize>, n: nat) -> Seq<(Seq<char>, Json)>
    decreases n,
{
    if n == 0 {
        Seq::empty()
    } else {
        let prev = static_entries(h, bl, fs, (n - 1) as nat);
        let f = fs[n - 1];
        if static_dumped(h, f) {
            json_insert(prev, h.spec_field_name(f), static_field_json(h, bl, f))
        } else {
            prev
        }
    }
}

pub open spec fn static_fuel(d: usize) -> nat {
    if d <= MAX_STATIC_DEPTH + 1 {
        (MAX_STATIC_DEPTH + 1 - d) as nat
    } else {
        0
    }
}

/// The static snapshot of class `c` at nesting depth `d`.
pub open spec fn static_json<H: Host>(h: &H, bl: Seq<String>, c: usize, d: usize) -> Json
    decreases static_fuel(d), 1nat, 0nat,
{
    if c == 0 {
        Json::Null
    } else if d > MAX_STATIC_DEPTH {
        Json::Str("<Max Static Depth>"@)
    } else if is_skipped_name(h.spec_class_name(c)) {
        Json::Null
    } else if h.spec_is_generic(c) || h.spec_is_interface(c) {
        Json::Str("<Skipped: Generic/Interface>"@)
    } else {
        let fs = h.spec_fields(c);
        let ns = h.spec_nested(c);
        Json::Object(nested_entries(h, bl, ns, ns.len(), d, static_entries(h, bl, fs, fs.len())))
    }
}

/// `base` with the snapshots of the first `n` nested classes `ns` merged in under
/// their names; a class whose snapshot is `Null` adds nothing.
pub open spec fn nested_entries<H: Host>(
    h: &H,
    bl: Seq<String>,
    ns: Seq<usize>,
    n: nat,
    d: usize,
    base: Seq<(Seq<char>, Json)>,
) -> Seq<(Seq<char>, Json)>
    decreases static_fuel(d), 0nat, n,
    when d <= MAX_STATIC_DEPTH
{
    if n == 0 {
        base
    } else {
        let prev = nested_entries(h, bl, ns, (n - 1) as nat, d, base);
        let nc = ns[n - 1];
        let v = static_json(h, bl, nc, (d + 1) as usize);
        if v is Null {
            prev
        } else {
            json_insert(prev, h.spec_class_name(nc), v)
        }
    }
}

/// A field among the first `n` of `fs` that a static snapshot dumps under `k`.
pub open spec fn dumps_field<H: Host>(h: &H, fs: Seq<usize>, n: nat, k: Seq<char>) -> bool {
    exists|j: int| 0 <= j < n && static_dumped(h, #[trigger] fs[j]) && h.spec_field_name(fs[j]) == k
}

/// A class among the first `n` of `ns` whose snapshot is merged in under `k`.
pub open spec fn shows_nested<H: Host>(h: &H, bl: Seq<String>, ns: Seq<usize>, n: nat, d: usize, k: Seq<char>) -> bool {
    exists|j: int|
        0 <= j < n && h.spec_class_name(#[trigger] ns[j]) == k && !(static_json(h, bl, ns[j], (d + 1) as usize) is Null)
}

pub proof fn lemma_static_entries_keys<H: Host>(h: &H, bl: Seq<String>, fs: Seq<usize>, n: nat, k: Seq<char>)
    requires
        n <= fs.len(),
    ensures
        has_key(static_entries(h, bl, fs, n), k) == dumps_field(h, fs, n, k),
    decreases n,
{
    if n > 0 {
        lemma_static_entries_keys(h, bl, fs, (n - 1) as nat, k);
        let prev = static_entries(h, bl, fs, (n - 1) as nat);
        let f = fs[n - 1];
        if static_dumped(h, f) {
            lemma_insert_keys(prev, h.spec_field_name(f), static_field_json(h, bl, f), k);
        }
        if dumps_field(h, fs, n, k) {
            let j = choose|j: int| 0 <= j < n && static_dumped(h, #[trigger] fs[j]) && h.spec_field_name(fs[j]) == k;
            if j < n - 1 {
                assert(dumps_field(h, fs, (n - 1) as nat, k));
            }
        }
        if dumps_field(h, fs, (n - 1) as nat, k) {
            let j = choose|j: int| 0 <= j < n - 1 && static_dumped(h, #[trigger] fs[j]) && h.spec_field_name(fs[j]) == k;
            assert(0 <= j < n);
        }
    }
}

pub proof fn lemma_nested_entries_keys<H: Host>(
    h: &H,
    bl: Seq<String>,
    ns: Seq<usize>,
    n: nat,
    d: usize,
    base: Seq<(Seq<char>, Json)>,
    k: Seq<char>,
)
    requires
        n <= ns.len(),
        d <= MAX_STATIC_DEPTH,
    ensures
        has_key(nested_entries(h, bl, ns, n, d, base), k) == (has_key(base, k) || shows_nested(h, bl, ns, n, d, k)),
    decreases n,
{
    if n > 0 {
        lemma_nested_entries_keys(h, bl, ns, (n - 1) as nat, d, base, k);
        let prev = nested_entries(h, bl, ns, (n - 1) as nat, d, base);
        let nc = ns[n - 1];
        let v = static_json(h, bl, nc, (d + 1) as usize);
        if !(v is Null) {
            lemma_insert_keys(prev, h.spec_class_name(nc), v, k);
        }
        if shows_nested(h, bl, ns, n, d, k) {
            let j = choose|j: int|
                0 <= j < n && h.spec_class_name(#[trigger] ns[j]) == k && !(static_json(h, bl, ns[j], (d + 1) as usize) is Null);
            if j < n - 1 {
                assert(shows_nested(h, bl, ns, (n - 1) as nat, d, k));
            }
        }
        if shows_nested(h, bl, ns, (n - 1) as nat, d, k) {
            let j = choose|j: int|
                0 <= j < n - 1 && h.spec_class_name(#[trigger] ns[j]) == k && !(static_json(h, bl, ns[j], (d + 1) as usize) is Null);
            assert(0 <= j < n);
        }
    }
}

/// The keys of a static snapshot are the names of the dumped static fields and
/// of the nested classes with a snapshot. So a field in the unstable list, or a
/// literal (compile-time constant) field, never gives a key of its own; and each
/// nested class with a snapshot appears under its own name.
pub proof fn lemma_static_snapshot_keys<H: Host>(h: &H, bl: Seq<String>, c: usize, d: usize, k: Seq<char>)
    requires
        static_json(h, bl, c, d) is Object,
    ensures
        has_key(static_json(h, bl, c, d)->Object_0, k) == (dumps_field(h, h.spec_fields(c), h.spec_fields(c).len(), k)
            || shows_nested(h, bl, h.spec_nested(c), h.spec_nested(c).len(), d, k)),
        is_unstable(k) && !shows_nested(h, bl, h.spec_nested(c), h.spec_nested(c).len(), d, k)
            ==> !has_key(static_json(h, bl, c, d)->Object_0, k),
        forall|j: int|
            0 <= j < h.spec_fields(c).len() && is_literal(h, #[trigger] h.spec_fields(c)[j]) ==> !static_dumped(
                h,
                h.spec_fields(c)[j],
            ),
{
    let fs = h.spec_fields(c);
    let ns = h.spec_nested(c);
    lemma_static_entries_keys(h, bl, fs, fs.len(), k);
    lemma_nested_entries_keys(h, bl, ns, ns.len(), d, static_entries(h, bl, fs, fs.len()), k);
}

fn invalid_pointer_marker(p: usize) -> (r: String)
    ensures
        r@ == invalid_pointer_text(p),
{
    let mut s = text("<Invalid Pointer: ");
    push_hex(&mut s, p as u64);
    append_str(&mut s, ">");
    s
}

fn static_read_size<H: Host>(h: &H, f: usize) -> (r: usize)
    ensures
        r == static_size(h, f),
{
    if h.field_tag(f) == TYPE_VALUETYPE {
        let fk = h.field_class(f);
        if fk != 0 {
            let s = h.value_size(fk);
            if 0 < s && s < MAX_STATIC_SIZE {
                return s as usize;
            }
        }
        FALLBACK_STATIC_SIZE
    } else {
        DEFAULT_STATIC_SIZE
    }
}

fn read_static_field<H: Host>(h: &H, f: usize, cache: &mut EnumCache, blacklist: &Vec<String>) -> (r: Value)
    requires
        old(cache).valid_for(h),
    ensures
        final(cache).valid_for(h),
        r@ == static_field_json(h, blacklist@, f),
{
    let size = static_read_size(h, f);
    let sc = h.read_static(f, size);
    let tag = h.field_tag(f);
    let mut visited: Vec<usize> = Vec::new();
    assert(visited@ =~= Seq::<usize>::empty());
    if is_ref_tag(tag) {
        let p = read_ptr(h, &sc, Loc::Scratch(0));
        if !is_valid_pointer(p) {
            Value::Str(invalid_pointer_marker(p))
        } else {
            convert_object_to_value(h, p, 0, &mut visited, cache, blacklist)
        }
    } else {
        let tc = h.field_class(f);
        read_value_from_addr(h, &sc, Loc::Scratch(0), tag, tc, 0, &mut visited, cache, blacklist)
    }
}

fn static_fields_of<H: Host>(h: &H, c: usize, cache: &mut EnumCache, blacklist: &Vec<String>) -> (r: Vec<(String, Value)>)
    requires
        old(cache).valid_for(h),
    ensures
        final(cache).valid_for(h),
        entries_view(r@) == static_entries(h, blacklist@, h.spec_fields(c), h.spec_fields(c).len()),
{
    let fs = h.fields(c);
    let mut out: Vec<(String, Value)> = Vec::new();
    let mut i: usize = 0;
    while i < fs.len()
        invariant
            fs@ == h.spec_fields(c),
            i <= fs.len(),
            cache.valid_for(h),
            entries_view(out@) == static_entries(h, blacklist@, fs@, i as nat),
        decreases fs.len() - i,
    {
        let f = fs[i];
        let flags = h.field_flags(f);
        let off = h.field_offset(f);
        if flags & FIELD_ATTRIBUTE_STATIC != 0 && flags & FIELD_ATTRIBUTE_LITERAL == 0 && off != usize::MAX
            && off != 0xFFFF_FFFFusize {
            let name = h.field_name(f);
            if !is_unstable_field(name.as_str()) {
                let v = read_static_field(h, f, cache, blacklist);
                object_insert(&mut out, name, v);
            }
        }
        i = i + 1;
    }
    out
}

/// Dumps the static fields of class `c` and, up to the nesting cap, of its nested
/// classes, each under its own name.
pub fn dump_class_recursive<H: Host>(h: &H, c: usize, depth: usize, cache: &mut EnumCache, blacklist: &Vec<String>) -> (r: Value)
    requires
        old(cache).valid_for(h),
    ensures
        final(cache).valid_for(h),
        r@ == static_json(h, blacklist@, c, depth),
    decreases static_fuel(depth), 1nat,
{
    if c == 0 {
        return Value::Null;
    }
    if depth > MAX_STATIC_DEPTH {
        return Value::Str(text("<Max Static Depth>"));
    }
    let name = h.class_name(c);
    let n = name.as_str();
    if contains(n, "<") || contains(n, "$") || contains(n, "DisplayClass") || starts_with(n, "System.")
        || starts_with(n, "UnityEngine.") {
        return Value::Null;
    }
    if h.is_generic(c) || h.is_interface(c) {
        return Value::Str(text("<Skipped: Generic/Interface>"));
    }
    h.init_class(c);
    let mut out = static_fields_of(h, c, cache, blacklist);
    let ns = h.nested_classes(c);
    let ghost base = entries_view(out@);
    let mut i: usize = 0;
    while i < ns.len()
        invariant
            depth <= MAX_STATIC_DEPTH,
            ns@ == h.spec_nested(c),
            i <= ns.len(),
            cache.valid_for(h),
            entries_view(out@) == nested_entries(h, blacklist@, ns@, i as nat, depth, base),
        decreases ns.len() - i,
    {
        let nc = ns[i];
        let v = dump_class_recursive(h, nc, depth + 1, cache, blacklist);
        let is_null = match v {
            Value::Null => true,
            _ => false,
        };
        if !is_null {
            let nn = h.class_name(nc);
            object_insert(&mut out, nn, v);
        }
        i = i + 1;
    }
    Value::Object(out)
}

} // verus!
