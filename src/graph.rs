//! The object-graph walker: turns a live object, an inline struct or a single
//! field into a structured value, with cycle detection and a depth cap.
use vstd::prelude::*;
use crate::config::{blacklisted, is_field_blacklisted};
use crate::decode::{
    OBJECT_HEADER_SIZE, f32_json, f64_json, f32_value, f64_value, deobf_json,
    try_decrypt_obscured,
};
use crate::enums::{EnumCache, enum_json, enum_literals, resolve_enum_to_string};
use crate::host::{
    Host, Loc, FIELD_ATTRIBUTE_STATIC, is_static, addr_add, add_addr, loc_add, add_loc, loc_byte,
    loc_u16, loc_u32, loc_u64, loc_ptr, read_byte, read_u16, read_u32, read_u64, read_ptr,
};
use crate::text::{
    seq_ends_with, seq_starts_with, digits, utf16_lossy, text, text_eq, ends_with, starts_with,
    append_str, push_decimal, push_hex, decode_utf16,
};
use crate::value::{
    Value, Json, items_view, entries_view, json_insert, has_key, key_pos, value_of, object_insert,
    lemma_items_push, lemma_insert_keys, lemma_insert_value, lemma_key_pos_range,
};

verus! {

/// Deepest object level that is expanded; deeper objects become a marker.
pub const MAX_OBJECT_DEPTH: usize = 50;
/// Largest array that is expanded; a longer one becomes a marker.
pub const MAX_ARRAY_LENGTH: u32 = 2000;
/// Most classes visited when climbing an inheritance chain.
pub const MAX_CLASS_CHAIN: usize = 64;
/// Offset of the first element of an array object.
pub const ARRAY_DATA_OFFSET: usize = 32;
/// Offset of the length of a string object.
pub const STRING_LENGTH_OFFSET: usize = 16;
/// Offset of the first UTF-16 code unit of a string object.
pub const STRING_CHARS_OFFSET: usize = 20;

pub const TYPE_BOOLEAN: i32 = 0x2;
pub const TYPE_CHAR: i32 = 0x3;
pub const TYPE_I1: i32 = 0x4;
pub const TYPE_U1: i32 = 0x5;
pub const TYPE_I2: i32 = 0x6;
pub const TYPE_U2: i32 = 0x7;
pub const TYPE_I4: i32 = 0x8;
pub const TYPE_U4: i32 = 0x9;
pub const TYPE_I8: i32 = 0xA;
pub const TYPE_U8: i32 = 0xB;
pub const TYPE_R4: i32 = 0xC;
pub const TYPE_R8: i32 = 0xD;
pub const TYPE_STRING: i32 = 0xE;
pub const TYPE_ARRAY: i32 = 0x14;
pub const TYPE_VALUETYPE: i32 = 0x11;
pub const TYPE_CLASS: i32 = 0x12;
pub const TYPE_GENERICINST: i32 = 0x15;
pub const TYPE_OBJECT: i32 = 0x1C;
pub const TYPE_SZARRAY: i32 = 0x1D;

/// How many more object levels may be opened below depth `d`.
pub open spec fn fuel(d: usize) -> nat {
    if d <= MAX_OBJECT_DEPTH + 1 {
        (MAX_OBJECT_DEPTH + 1 - d) as nat
    } else {
        0
    }
}

pub open spec fn is_reference_tag(t: i32) -> bool {
    t == TYPE_STRING || t == TYPE_CLASS || t == TYPE_SZARRAY || t == TYPE_GENERICINST || t == TYPE_OBJECT
        || t == TYPE_ARRAY
}

pub fn is_ref_tag(t: i32) -> (r: bool)
    ensures
        r == is_reference_tag(t),
{
    t == TYPE_STRING || t == TYPE_CLASS || t == TYPE_SZARRAY || t == TYPE_GENERICINST || t == TYPE_OBJECT
        || t == TYPE_ARRAY
}

/// One level deeper, staying put at the largest depth.
pub open spec fn deeper(d: usize) -> usize {
    if d == usize::MAX {
        d
    } else {
        (d + 1) as usize
    }
}

fn next_depth(d: usize) -> (r: usize)
    ensures
        r == deeper(d),
{
    if d == usize::MAX {
        d
    } else {
        d + 1
    }
}

/// Rank of the object and struct walks in the termination measure: past the
/// depth cap they recurse no further.
pub open spec fn walk_rank(d: usize) -> nat {
    if d > MAX_OBJECT_DEPTH {
        0
    } else {
        4
    }
}

pub open spec fn cycle_text(obj: usize) -> Seq<char> {
    "<Cycle: "@ + "0x"@ + digits(obj as nat, 16) + ">"@
}

pub open spec fn max_depth_text() -> Seq<char> {
    "<Max Depth>"@
}

pub open spec fn truncated_text(len: u32) -> Seq<char> {
    "<Array len="@ + digits(len as nat, 10) + " (Truncated)>"@
}

pub open spec fn unknown_stride_text(name: Seq<char>) -> Seq<char> {
    "<Array: "@ + name + " (Struct Array, Unknown Stride)>"@
}

pub open spec fn is_array_name(name: Seq<char>) -> bool {
    seq_ends_with(name, "[]"@)
}

/// The fields of `c` and of its ancestors, climbing until a parent is the universal
/// object base or the value-type base, or after `n` classes.
pub open spec fn chain_fields<H: Host>(h: &H, c: usize, n: nat) -> Seq<usize>
    decreases n,
{
    if c == 0 || n == 0 {
        Seq::empty()
    } else {
        let p = h.spec_parent(c);
        if p != 0 && (h.spec_class_name(p) == "Object"@ || h.spec_class_name(p) == "ValueType"@) {
            h.spec_fields(c)
        } else {
            h.spec_fields(c) + chain_fields(h, p, (n - 1) as nat)
        }
    }
}

/// The address of element `i` of an array whose elements are `w` bytes apart.
pub open spec fn elem_addr(data: usize, i: int, w: int) -> usize {
    addr_add(data, ((i * w) as u64) as usize)
}

/// The code units of the string object at `obj`.
pub open spec fn string_units<H: Host>(h: &H, obj: usize, len: nat) -> Seq<u16> {
    Seq::new(
        len,
        |i: int| loc_u16(h, Seq::empty(), Loc::Heap(elem_addr(addr_add(obj, STRING_CHARS_OFFSET), i, 2))),
    )
}

/// The text of the string object at `obj`.
pub open spec fn string_text<H: Host>(h: &H, obj: usize) -> Seq<char> {
    let len = loc_u32(h, Seq::empty(), Loc::Heap(addr_add(obj, STRING_LENGTH_OFFSET))) as i32;
    if len <= 0 {
        Seq::empty()
    } else {
        utf16_lossy(string_units(h, obj, len as nat))
    }
}

/// Element `i` of an array of 32-bit integers, floats, bytes or booleans (`kind` 0 to 3).
pub open spec fn prim_elem<H: Host>(h: &H, data: usize, i: int, kind: int) -> Json {
    let e = Seq::empty();
    if kind == 0 {
        Json::Int((loc_u32(h, e, Loc::Heap(elem_addr(data, i, 4))) as i32) as int)
    } else if kind == 1 {
        f32_json(loc_u32(h, e, Loc::Heap(elem_addr(data, i, 4))))
    } else if kind == 2 {
        Json::Int(loc_byte(h, e, Loc::Heap(elem_addr(data, i, 1)), 0) as int)
    } else {
        Json::Bool(loc_byte(h, e, Loc::Heap(elem_addr(data, i, 1)), 0) != 0)
    }
}

pub open spec fn prim_items<H: Host>(h: &H, data: usize, len: nat, kind: int) -> Seq<Json> {
    Seq::new(len, |i: int| prim_elem(h, data, i, kind))
}

/// Which bulk element kind an array class name calls for, or -1.
pub open spec fn prim_kind(name: Seq<char>) -> int {
    if name == "Int32[]"@ || name == "System.Int32[]"@ {
        0
    } else if name == "Single[]"@ || name == "System.Single[]"@ {
        1
    } else if name == "Byte[]"@ || name == "System.Byte[]"@ {
        2
    } else if name == "Boolean[]"@ || name == "System.Boolean[]"@ {
        3
    } else {
        -1
    }
}

/// The value of the object at `obj`, reached at depth `d` with `vis` the objects
/// on the path from the root.
pub open spec fn walk_json<H: Host>(h: &H, bl: Seq<String>, vis: Seq<usize>, obj: usize, d: usize) -> Json
    decreases fuel(d), walk_rank(d), 0nat,
{
    if obj == 0 {
        Json::Null
    } else if vis.contains(obj) {
        Json::Str(cycle_text(obj))
    } else if d > MAX_OBJECT_DEPTH {
        Json::Str(max_depth_text())
    } else {
        live_json(h, bl, vis.push(obj), obj, d)
    }
}

/// The value of an object that is being visited: dispatch on its class name.
pub open spec fn live_json<H: Host>(h: &H, bl: Seq<String>, vis: Seq<usize>, obj: usize, d: usize) -> Json
    decreases fuel(d), 3nat, 0nat,
    when d <= MAX_OBJECT_DEPTH
{
    let c = h.spec_class_of(obj);
    let name = h.spec_class_name(c);
    let len = h.spec_array_length(obj);
    let data = addr_add(obj, ARRAY_DATA_OFFSET);
    let ec = h.spec_element_class(c);
    if c == 0 {
        Json::Null
    } else if is_array_name(name) && len > MAX_ARRAY_LENGTH {
        Json::Str(truncated_text(len))
    } else if is_array_name(name) && prim_kind(name) >= 0 {
        Json::Array(prim_items(h, data, len as nat, prim_kind(name)))
    } else if is_array_name(name) && ec != 0 && !h.spec_is_valuetype(ec) {
        Json::Array(ref_items(h, bl, vis, data, len as nat, d))
    } else if is_array_name(name) && ec != 0 && h.spec_value_size(ec) > 0 {
        Json::Array(struct_items(h, bl, vis, data, ec, h.spec_value_size(ec) as int, len as nat, d))
    } else if is_array_name(name) && ec != 0 {
        Json::Str(unknown_stride_text(name))
    } else if name == "String"@ {
        Json::Str(string_text(h, obj))
    } else {
        let fs = chain_fields(h, c, MAX_CLASS_CHAIN as nat);
        Json::Object(field_entries(h, bl, vis, Seq::empty(), Loc::Heap(obj), fs, fs.len(), d, false))
    }
}

/// The first `n` elements of an array of references.
pub open spec fn ref_items<H: Host>(h: &H, bl: Seq<String>, vis: Seq<usize>, data: usize, n: nat, d: usize) -> Seq<Json>
    decreases fuel(d), 2nat, n,
    when d <= MAX_OBJECT_DEPTH
{
    if n == 0 {
        Seq::empty()
    } else {
        let ptr = loc_ptr(h, Seq::empty(), Loc::Heap(elem_addr(data, n - 1, 8)));
        ref_items(h, bl, vis, data, (n - 1) as nat, d).push(walk_json(h, bl, vis, ptr, (d + 1) as usize))
    }
}

/// The first `n` elements of an array of inline values of class `ec`, `w` bytes apart.
pub open spec fn struct_items<H: Host>(
    h: &H,
    bl: Seq<String>,
    vis: Seq<usize>,
    data: usize,
    ec: usize,
    w: int,
    n: nat,
    d: usize,
) -> Seq<Json>
    decreases fuel(d), 2nat, n,
    when d <= MAX_OBJECT_DEPTH
{
    if n == 0 {
        Seq::empty()
    } else {
        let loc = Loc::Heap(elem_addr(data, n - 1, w));
        let e = Seq::empty();
        let v = if seq_starts_with(h.spec_class_name(ec), "Obscured"@) && deobf_json(h, e, loc, ec) is Some {
            deobf_json(h, e, loc, ec)->0
        } else if h.spec_is_enum(ec) {
            enum_json(enum_literals(h, ec), loc_u32(h, e, loc) as i32)
        } else {
            struct_json(h, bl, vis, e, loc, ec, (d + 1) as usize)
        };
        struct_items(h, bl, vis, data, ec, w, (n - 1) as nat, d).push(v)
    }
}

/// The fields of an inline value of class `c` stored at `loc`, as a mapping.
pub open spec fn struct_json<H: Host>(
    h: &H,
    bl: Seq<String>,
    vis: Seq<usize>,
    sc: Seq<u8>,
    loc: Loc,
    c: usize,
    d: usize,
) -> Json
    decreases fuel(d), walk_rank(d), 0nat,
{
    if d > MAX_OBJECT_DEPTH {
        Json::Str(max_depth_text())
    } else {
        let fs = h.spec_fields(c);
        Json::Object(field_entries(h, bl, vis, sc, loc, fs, fs.len(), d, true))
    }
}

/// The mapping built from the first `n` of the fields `fs` of a value at `base`.
/// Static fields are left out. For an object (`inline` false) offsets count from
/// the object and blacklisted names are left out; for an inline value the header
/// size is taken off each offset, and an offset inside the header gives a marker.
pub open spec fn field_entries<H: Host>(
    h: &H,
    bl: Seq<String>,
    vis: Seq<usize>,
    sc: Seq<u8>,
    base: Loc,
    fs: Seq<usize>,
    n: nat,
    d: usize,
    inline: bool,
) -> Seq<(Seq<char>, Json)>
    decreases fuel(d), 2nat, n,
    when d <= MAX_OBJECT_DEPTH
{
    if n == 0 {
        Seq::empty()
    } else {
        let prev = field_entries(h, bl, vis, sc, base, fs, (n - 1) as nat, d, inline);
        let f = fs[n - 1];
        let name = h.spec_field_name(f);
        let off = h.spec_field_offset(f);
        if is_static(h, f) || blacklisted(bl, name) {
            prev
        } else if inline && off < OBJECT_HEADER_SIZE {
            json_insert(prev, name, Json::Str("<Invalid Offset>"@))
        } else {
            let at = if inline {
                loc_add(base, (off - OBJECT_HEADER_SIZE) as usize)
            } else {
                loc_add(base, off)
            };
            json_insert(
                prev,
                name,
                value_json(h, bl, vis, sc, at, h.spec_field_tag(f), h.spec_field_class(f), d),
            )
        }
    }
}

/// The value of type tag `tag` (with class `tc` for inline values) stored at `loc`.
pub open spec fn value_json<H: Host>(
    h: &H,
    bl: Seq<String>,
    vis: Seq<usize>,
    sc: Seq<u8>,
    loc: Loc,
    tag: i32,
    tc: usize,
    d: usize,
) -> Json
    decreases fuel(d), 1nat, 0nat,
{
    if tag == TYPE_BOOLEAN {
        Json::Bool(loc_byte(h, sc, loc, 0) != 0)
    } else if tag == TYPE_CHAR || tag == TYPE_U2 {
        Json::Int(loc_u16(h, sc, loc) as int)
    } else if tag == TYPE_I1 {
        Json::Int((loc_byte(h, sc, loc, 0) as i8) as int)
    } else if tag == TYPE_U1 {
        Json::Int(loc_byte(h, sc, loc, 0) as int)
    } else if tag == TYPE_I2 {
        Json::Int((loc_u16(h, sc, loc) as i16) as int)
    } else if tag == TYPE_I4 {
        Json::Int((loc_u32(h, sc, loc) as i32) as int)
    } else if tag == TYPE_U4 {
        Json::Int(loc_u32(h, sc, loc) as int)
    } else if tag == TYPE_I8 {
        Json::Int((loc_u64(h, sc, loc) as i64) as int)
    } else if tag == TYPE_U8 {
        Json::Int(loc_u64(h, sc, loc) as int)
    } else if tag == TYPE_R4 {
        f32_json(loc_u32(h, sc, loc))
    } else if tag == TYPE_R8 {
        f64_json(loc_u64(h, sc, loc))
    } else if is_reference_tag(tag) {
        walk_json(h, bl, vis, loc_ptr(h, sc, loc), deeper(d))
    } else if tag == TYPE_VALUETYPE {
        if tc == 0 {
            Json::Str("UnknownStruct"@)
        } else if seq_starts_with(h.spec_class_name(tc), "Obscured"@) && deobf_json(h, sc, loc, tc) is Some {
            deobf_json(h, sc, loc, tc)->0
        } else if h.spec_is_enum(tc) {
            enum_json(enum_literals(h, tc), loc_u32(h, sc, loc) as i32)
        } else {
            struct_json(h, bl, vis, sc, loc, tc, deeper(d))
        }
    } else {
        Json::Int((loc_u32(h, sc, loc) as i32) as int)
    }
}

/// A field of `fs`, among the first `n`, that a mapping of fields shows under `k`.
pub open spec fn shows_field<H: Host>(h: &H, bl: Seq<String>, fs: Seq<usize>, n: nat, k: Seq<char>) -> bool {
    exists|j: int|
        0 <= j < n && !is_static(h, #[trigger] fs[j]) && h.spec_field_name(fs[j]) == k && !blacklisted(bl, k)
}

/// A mapping of fields has one key for each instance field whose name is not
/// blacklisted, and no other key: fields appear field for field, and a
/// blacklisted name never appears, for objects and inline values alike.
pub proof fn lemma_field_entries_keys<H: Host>(
    h: &H,
    bl: Seq<String>,
    vis: Seq<usize>,
    sc: Seq<u8>,
    base: Loc,
    fs: Seq<usize>,
    n: nat,
    d: usize,
    inline: bool,
    k: Seq<char>,
)
    requires
        d <= MAX_OBJECT_DEPTH,
        n <= fs.len(),
    ensures
        has_key(field_entries(h, bl, vis, sc, base, fs, n, d, inline), k) == shows_field(h, bl, fs, n, k),
    decreases n,
{
    if n > 0 {
        lemma_field_entries_keys(h, bl, vis, sc, base, fs, (n - 1) as nat, d, inline, k);
        let prev = field_entries(h, bl, vis, sc, base, fs, (n - 1) as nat, d, inline);
        let f = fs[n - 1];
        let name = h.spec_field_name(f);
        let off = h.spec_field_offset(f);
        if is_static(h, f) || blacklisted(bl, name) {
        } else if inline && off < OBJECT_HEADER_SIZE {
            lemma_insert_keys(prev, name, Json::Str("<Invalid Offset>"@), k);
        } else {
            let at = if inline {
                loc_add(base, (off - OBJECT_HEADER_SIZE) as usize)
            } else {
                loc_add(base, off)
            };
            lemma_insert_keys(prev, name, value_json(h, bl, vis, sc, at, h.spec_field_tag(f), h.spec_field_class(f), d), k);
        }
        if shows_field(h, bl, fs, n, k) {
            let j = choose|j: int|
                0 <= j < n && !is_static(h, #[trigger] fs[j]) && h.spec_field_name(fs[j]) == k && !blacklisted(bl, k);
            if j < n - 1 {
                assert(shows_field(h, bl, fs, (n - 1) as nat, k));
            }
        }
        if shows_field(h, bl, fs, (n - 1) as nat, k) {
            let j = choose|j: int|
                0 <= j < n - 1 && !is_static(h, #[trigger] fs[j]) && h.spec_field_name(fs[j]) == k && !blacklisted(bl, k);
            assert(0 <= j < n);
        }
    }
}

/// No mapping anywhere in `j`, at any depth, has a blacklisted key.
pub open spec fn clean(j: Json, bl: Seq<String>) -> bool
    decreases j, 0nat,
{
    match j {
        Json::Array(items) => items_clean(items, bl, items.len()),
        Json::Object(e) => fields_clean(e, bl, e.len()),
        _ => true,
    }
}

/// The first `n` items are clean.
pub open spec fn items_clean(items: Seq<Json>, bl: Seq<String>, n: nat) -> bool
    decreases items, n,
    when n <= items.len()
{
    n == 0 || (items_clean(items, bl, (n - 1) as nat) && clean(items[n - 1], bl))
}

/// The first `n` entries have keys that are not blacklisted and clean values.
pub open spec fn fields_clean(e: Seq<(Seq<char>, Json)>, bl: Seq<String>, n: nat) -> bool
    decreases e, n,
    when n <= e.len()
{
    n == 0 || (fields_clean(e, bl, (n - 1) as nat) && entry_clean(e[n - 1], bl))
}

/// The key is not blacklisted and the value is clean.
pub open spec fn entry_clean(x: (Seq<char>, Json), bl: Seq<String>) -> bool
    decreases x, 1nat,
{
    !blacklisted(bl, x.0) && clean(x.1, bl)
}

proof fn lemma_items_clean(items: Seq<Json>, bl: Seq<String>, n: nat)
    requires
        n <= items.len(),
        forall|i: int| 0 <= i < items.len() ==> #[trigger] clean(items[i], bl),
    ensures
        items_clean(items, bl, n),
    decreases n,
{
    if n > 0 {
        lemma_items_clean(items, bl, (n - 1) as nat);
        assert(clean(items[n - 1], bl));
    }
}

proof fn lemma_fields_clean(e: Seq<(Seq<char>, Json)>, bl: Seq<String>, n: nat)
    requires
        n <= e.len(),
        entries_clean(e, bl),
    ensures
        fields_clean(e, bl, n),
    decreases n,
{
    if n > 0 {
        lemma_fields_clean(e, bl, (n - 1) as nat);
        assert(entry_clean(e[n - 1], bl));
    }
}

proof fn lemma_clean_array(items: Seq<Json>, bl: Seq<String>)
    requires
        forall|i: int| 0 <= i < items.len() ==> #[trigger] clean(items[i], bl),
    ensures
        clean(Json::Array(items), bl),
{
    lemma_items_clean(items, bl, items.len());
}

proof fn lemma_clean_object(e: Seq<(Seq<char>, Json)>, bl: Seq<String>)
    requires
        entries_clean(e, bl),
    ensures
        clean(Json::Object(e), bl),
{
    lemma_fields_clean(e, bl, e.len());
}

pub open spec fn entries_clean(e: Seq<(Seq<char>, Json)>, bl: Seq<String>) -> bool {
    forall|i: int| 0 <= i < e.len() ==> #[trigger] entry_clean(e[i], bl)
}

proof fn lemma_insert_clean(e: Seq<(Seq<char>, Json)>, k: Seq<char>, v: Json, bl: Seq<String>)
    requires
        entries_clean(e, bl),
        !blacklisted(bl, k),
        clean(v, bl),
    ensures
        entries_clean(json_insert(e, k, v), bl),
{
    lemma_key_pos_range(e, k);
    let r = json_insert(e, k, v);
    assert forall|i: int| 0 <= i < r.len() implies #[trigger] entry_clean(r[i], bl) by {
        if i < e.len() && i != key_pos(e, k) {
            assert(r[i] == e[i]);
        }
    }
}

proof fn lemma_deobf_clean<H: Host>(h: &H, sc: Seq<u8>, loc: Loc, c: usize, bl: Seq<String>)
    ensures
        deobf_json(h, sc, loc, c) is Some ==> clean(deobf_json(h, sc, loc, c)->0, bl),
{
}

/// Blacklisted field names never appear as keys, at any depth: not in the
/// mapping of the walked object, nor in those of the objects, arrays and inline
/// values below it.
pub proof fn lemma_walk_clean<H: Host>(h: &H, bl: Seq<String>, vis: Seq<usize>, obj: usize, d: usize)
    ensures
        clean(walk_json(h, bl, vis, obj, d), bl),
    decreases fuel(d), walk_rank(d), 0nat,
{
    if obj != 0 && !vis.contains(obj) && d <= MAX_OBJECT_DEPTH {
        lemma_live_clean(h, bl, vis.push(obj), obj, d);
    }
}

proof fn lemma_live_clean<H: Host>(h: &H, bl: Seq<String>, vis: Seq<usize>, obj: usize, d: usize)
    requires
        d <= MAX_OBJECT_DEPTH,
    ensures
        clean(live_json(h, bl, vis, obj, d), bl),
    decreases fuel(d), 3nat, 0nat,
{
    let c = h.spec_class_of(obj);
    let name = h.spec_class_name(c);
    let len = h.spec_array_length(obj);
    let data = addr_add(obj, ARRAY_DATA_OFFSET);
    let ec = h.spec_element_class(c);
    if c == 0 {
    } else if is_array_name(name) && len > MAX_ARRAY_LENGTH {
    } else if is_array_name(name) && prim_kind(name) >= 0 {
        let items = prim_items(h, data, len as nat, prim_kind(name));
        lemma_clean_array(items, bl);
    } else if is_array_name(name) && ec != 0 && !h.spec_is_valuetype(ec) {
        lemma_ref_items_clean(h, bl, vis, data, len as nat, d);
        let items = ref_items(h, bl, vis, data, len as nat, d);
        lemma_clean_array(items, bl);
    } else if is_array_name(name) && ec != 0 && h.spec_value_size(ec) > 0 {
        let w = h.spec_value_size(ec) as int;
        lemma_struct_items_clean(h, bl, vis, data, ec, w, len as nat, d);
        lemma_clean_array(struct_items(h, bl, vis, data, ec, w, len as nat, d), bl);
    } else if is_array_name(name) && ec != 0 {
    } else if name == "String"@ {
    } else {
        let fs = chain_fields(h, c, MAX_CLASS_CHAIN as nat);
        let e = field_entries(h, bl, vis, Seq::empty(), Loc::Heap(obj), fs, fs.len(), d, false);
        lemma_entries_clean(h, bl, vis, Seq::empty(), Loc::Heap(obj), fs, fs.len(), d, false);
        lemma_clean_object(e, bl);
    }
}

proof fn lemma_ref_items_clean<H: Host>(h: &H, bl: Seq<String>, vis: Seq<usize>, data: usize, n: nat, d: usize)
    requires
        d <= MAX_OBJECT_DEPTH,
    ensures
        ref_items(h, bl, vis, data, n, d).len() == n,
        forall|i: int| 0 <= i < n ==> #[trigger] clean(ref_items(h, bl, vis, data, n, d)[i], bl),
    decreases fuel(d), 2nat, n,
{
    if n > 0 {
        lemma_ref_items_clean(h, bl, vis, data, (n - 1) as nat, d);
        let ptr = loc_ptr(h, Seq::empty(), Loc::Heap(elem_addr(data, n - 1, 8)));
        lemma_walk_clean(h, bl, vis, ptr, (d + 1) as usize);
        let items = ref_items(h, bl, vis, data, n, d);
        let prev = ref_items(h, bl, vis, data, (n - 1) as nat, d);
        assert forall|i: int| 0 <= i < n implies #[trigger] clean(items[i], bl) by {
            if i < n - 1 {
                assert(items[i] == prev[i]);
            }
        }
    }
}

proof fn lemma_struct_items_clean<H: Host>(
    h: &H,
    bl: Seq<String>,
    vis: Seq<usize>,
    data: usize,
    ec: usize,
    w: int,
    n: nat,
    d: usize,
)
    requires
        d <= MAX_OBJECT_DEPTH,
    ensures
        struct_items(h, bl, vis, data, ec, w, n, d).len() == n,
        forall|i: int| 0 <= i < n ==> #[trigger] clean(struct_items(h, bl, vis, data, ec, w, n, d)[i], bl),
    decreases fuel(d), 2nat, n,
{
    if n > 0 {
        lemma_struct_items_clean(h, bl, vis, data, ec, w, (n - 1) as nat, d);
        let loc = Loc::Heap(elem_addr(data, n - 1, w));
        let e = Seq::<u8>::empty();
        lemma_deobf_clean(h, e, loc, ec, bl);
        lemma_struct_clean(h, bl, vis, e, loc, ec, (d + 1) as usize);
        let items = struct_items(h, bl, vis, data, ec, w, n, d);
        let prev = struct_items(h, bl, vis, data, ec, w, (n - 1) as nat, d);
        assert forall|i: int| 0 <= i < n implies #[trigger] clean(items[i], bl) by {
            if i < n - 1 {
                assert(items[i] == prev[i]);
            }
        }
    }
}

/// The mapping of an inline value has no blacklisted key at any depth.
pub proof fn lemma_struct_clean<H: Host>(
    h: &H,
    bl: Seq<String>,
    vis: Seq<usize>,
    sc: Seq<u8>,
    loc: Loc,
    c: usize,
    d: usize,
)
    ensures
        clean(struct_json(h, bl, vis, sc, loc, c, d), bl),
    decreases fuel(d), walk_rank(d), 0nat,
{
    if d <= MAX_OBJECT_DEPTH {
        let fs = h.spec_fields(c);
        lemma_entries_clean(h, bl, vis, sc, loc, fs, fs.len(), d, true);
        lemma_clean_object(field_entries(h, bl, vis, sc, loc, fs, fs.len(), d, true), bl);
    }
}

proof fn lemma_entries_clean<H: Host>(
    h: &H,
    bl: Seq<String>,
    vis: Seq<usize>,
    sc: Seq<u8>,
    base: Loc,
    fs: Seq<usize>,
    n: nat,
    d: usize,
    inline: bool,
)
    requires
        d <= MAX_OBJECT_DEPTH,
    ensures
        entries_clean(field_entries(h, bl, vis, sc, base, fs, n, d, inline), bl),
    decreases fuel(d), 2nat, n,
{
    if n > 0 {
        lemma_entries_clean(h, bl, vis, sc, base, fs, (n - 1) as nat, d, inline);
        let prev = field_entries(h, bl, vis, sc, base, fs, (n - 1) as nat, d, inline);
        let f = fs[n - 1];
        let name = h.spec_field_name(f);
        let off = h.spec_field_offset(f);
        if is_static(h, f) || blacklisted(bl, name) {
        } else if inline && off < OBJECT_HEADER_SIZE {
            lemma_insert_clean(prev, name, Json::Str("<Invalid Offset>"@), bl);
        } else {
            let at = if inline {
                loc_add(base, (off - OBJECT_HEADER_SIZE) as usize)
            } else {
                loc_add(base, off)
            };
            let v = value_json(h, bl, vis, sc, at, h.spec_field_tag(f), h.spec_field_class(f), d);
            lemma_value_clean(h, bl, vis, sc, at, h.spec_field_tag(f), h.spec_field_class(f), d);
            lemma_insert_clean(prev, name, v, bl);
        }
    }
}

/// A decoded field has no blacklisted key at any depth.
pub proof fn lemma_value_clean<H: Host>(
    h: &H,
    bl: Seq<String>,
    vis: Seq<usize>,
    sc: Seq<u8>,
    loc: Loc,
    tag: i32,
    tc: usize,
    d: usize,
)
    ensures
        clean(value_json(h, bl, vis, sc, loc, tag, tc, d), bl),
    decreases fuel(d), 1nat, 0nat,
{
    if is_reference_tag(tag) {
        lemma_walk_clean(h, bl, vis, loc_ptr(h, sc, loc), deeper(d));
    } else if tag == TYPE_VALUETYPE && tc != 0 {
        lemma_deobf_clean(h, sc, loc, tc, bl);
        lemma_struct_clean(h, bl, vis, sc, loc, tc, deeper(d));
    }
}

/// Position of the last field among the first `n` of `fs` shown under `k`, or -1.
pub open spec fn last_shown<H: Host>(h: &H, bl: Seq<String>, fs: Seq<usize>, n: nat, k: Seq<char>) -> int
    decreases n,
{
    if n == 0 {
        -1
    } else if !is_static(h, fs[n - 1]) && !blacklisted(bl, k) && h.spec_field_name(fs[n - 1]) == k {
        n - 1
    } else {
        last_shown(h, bl, fs, (n - 1) as nat, k)
    }
}

/// The decoded value of field `f` of a value at `base`.
pub open spec fn field_value<H: Host>(
    h: &H,
    bl: Seq<String>,
    vis: Seq<usize>,
    sc: Seq<u8>,
    base: Loc,
    f: usize,
    d: usize,
    inline: bool,
) -> Json {
    let off = h.spec_field_offset(f);
    if inline && off < OBJECT_HEADER_SIZE {
        Json::Str("<Invalid Offset>"@)
    } else {
        let at = if inline {
            loc_add(base, (off - OBJECT_HEADER_SIZE) as usize)
        } else {
            loc_add(base, off)
        };
        value_json(h, bl, vis, sc, at, h.spec_field_tag(f), h.spec_field_class(f), d)
    }
}

/// Field for field: under each shown name a mapping of fields holds the decoded
/// value of the last field with that name (a later class level overwrites an
/// earlier one).
pub proof fn lemma_field_entries_values<H: Host>(
    h: &H,
    bl: Seq<String>,
    vis: Seq<usize>,
    sc: Seq<u8>,
    base: Loc,
    fs: Seq<usize>,
    n: nat,
    d: usize,
    inline: bool,
    k: Seq<char>,
)
    requires
        d <= MAX_OBJECT_DEPTH,
        n <= fs.len(),
    ensures
        last_shown(h, bl, fs, n, k) >= 0 ==> key_pos(field_entries(h, bl, vis, sc, base, fs, n, d, inline), k) >= 0
            && value_of(field_entries(h, bl, vis, sc, base, fs, n, d, inline), k) == field_value(
            h,
            bl,
            vis,
            sc,
            base,
            fs[last_shown(h, bl, fs, n, k)],
            d,
            inline,
        ),
    decreases n,
{
    if n > 0 {
        lemma_field_entries_values(h, bl, vis, sc, base, fs, (n - 1) as nat, d, inline, k);
        let prev = field_entries(h, bl, vis, sc, base, fs, (n - 1) as nat, d, inline);
        let f = fs[n - 1];
        let name = h.spec_field_name(f);
        if !(is_static(h, f) || blacklisted(bl, name)) {
            let v = field_value(h, bl, vis, sc, base, f, d, inline);
            assert(field_entries(h, bl, vis, sc, base, fs, n, d, inline) == json_insert(prev, name, v));
            lemma_insert_value(prev, name, v, k);
        }
    }
}

/// When the walk of an object gives a mapping, it holds the object field for
/// field: its keys are exactly the names of the instance fields of the object's
/// class chain that are not blacklisted, and under each key stands the decoded
/// value of the last such field with that name, one level deeper for references.
pub proof fn lemma_walk_object_keys<H: Host>(
    h: &H,
    bl: Seq<String>,
    vis: Seq<usize>,
    obj: usize,
    d: usize,
    k: Seq<char>,
)
    requires
        walk_json(h, bl, vis, obj, d) is Object,
    ensures
        has_key(walk_json(h, bl, vis, obj, d)->Object_0, k) == shows_field(
            h,
            bl,
            chain_fields(h, h.spec_class_of(obj), MAX_CLASS_CHAIN as nat),
            chain_fields(h, h.spec_class_of(obj), MAX_CLASS_CHAIN as nat).len(),
            k,
        ),
        blacklisted(bl, k) ==> !has_key(walk_json(h, bl, vis, obj, d)->Object_0, k),
        ({
            let fs = chain_fields(h, h.spec_class_of(obj), MAX_CLASS_CHAIN as nat);
            let j = last_shown(h, bl, fs, fs.len(), k);
            j >= 0 ==> value_of(walk_json(h, bl, vis, obj, d)->Object_0, k) == value_json(
                h,
                bl,
                vis.push(obj),
                Seq::empty(),
                Loc::Heap(addr_add(obj, h.spec_field_offset(fs[j]))),
                h.spec_field_tag(fs[j]),
                h.spec_field_class(fs[j]),
                d,
            )
        }),
{
    let fs = chain_fields(h, h.spec_class_of(obj), MAX_CLASS_CHAIN as nat);
    lemma_field_entries_keys(h, bl, vis.push(obj), Seq::empty(), Loc::Heap(obj), fs, fs.len(), d, false, k);
    lemma_field_entries_values(h, bl, vis.push(obj), Seq::empty(), Loc::Heap(obj), fs, fs.len(), d, false, k);
}

/// An array of references gives one element per slot, in order: slot `i` gives
/// the walk of the object it points to, one level deeper.
pub proof fn lemma_ref_items<H: Host>(h: &H, bl: Seq<String>, vis: Seq<usize>, data: usize, n: nat, d: usize)
    requires
        d <= MAX_OBJECT_DEPTH,
    ensures
        ref_items(h, bl, vis, data, n, d).len() == n,
        forall|i: int|
            0 <= i < n ==> #[trigger] ref_items(h, bl, vis, data, n, d)[i] == walk_json(
                h,
                bl,
                vis,
                loc_ptr(h, Seq::empty(), Loc::Heap(elem_addr(data, i, 8))),
                (d + 1) as usize,
            ),
    decreases n,
{
    if n > 0 {
        lemma_ref_items(h, bl, vis, data, (n - 1) as nat, d);
    }
}

/// An array longer than the maximum decodes to the truncation marker alone,
/// never to a partial array.
pub proof fn lemma_long_array_truncated<H: Host>(h: &H, bl: Seq<String>, vis: Seq<usize>, obj: usize, d: usize)
    requires
        obj != 0,
        !vis.contains(obj),
        d <= MAX_OBJECT_DEPTH,
        h.spec_class_of(obj) != 0,
        is_array_name(h.spec_class_name(h.spec_class_of(obj))),
        h.spec_array_length(obj) > MAX_ARRAY_LENGTH,
    ensures
        walk_json(h, bl, vis, obj, d) == Json::Str(truncated_text(h.spec_array_length(obj))),
{
}

/// The cyclic edge of a graph is represented by a marker: an object met again on
/// its own path is not walked a second time.
pub proof fn lemma_cycle_marked<H: Host>(h: &H, bl: Seq<String>, vis: Seq<usize>, obj: usize, d: usize)
    requires
        obj != 0,
        vis.contains(obj),
    ensures
        walk_json(h, bl, vis, obj, d) == Json::Str(cycle_text(obj)),
{
}

/// Past the depth cap every object that is not on the path becomes the depth marker.
pub proof fn lemma_depth_cap<H: Host>(h: &H, bl: Seq<String>, vis: Seq<usize>, obj: usize, d: usize)
    requires
        obj != 0,
        !vis.contains(obj),
        d > MAX_OBJECT_DEPTH,
    ensures
        walk_json(h, bl, vis, obj, d) == Json::Str(max_depth_text()),
{
}

/// The value reached from `j` by entering the first entry of a mapping `steps`
/// times (`Null` when there is no mapping to enter).
pub open spec fn follow(j: Json, steps: nat) -> Json
    decreases steps,
{
    if steps == 0 {
        j
    } else {
        match j {
            Json::Object(e) => if e.len() > 0 {
                follow(e[0].1, (steps - 1) as nat)
            } else {
                Json::Null
            },
            _ => Json::Null,
        }
    }
}

/// `links` is a chain of distinct objects of class `c`, whose only field `f`
/// (an instance reference named `k`, not blacklisted) points to the next one.
pub open spec fn is_chain<H: Host>(h: &H, bl: Seq<String>, links: Seq<usize>, c: usize, f: usize) -> bool {
    &&& c != 0
    &&& h.spec_parent(c) == 0
    &&& !is_array_name(h.spec_class_name(c))
    &&& h.spec_class_name(c) != "String"@
    &&& h.spec_fields(c) == seq![f]
    &&& !is_static(h, f)
    &&& !blacklisted(bl, h.spec_field_name(f))
    &&& is_reference_tag(h.spec_field_tag(f))
    &&& forall|i: int| 0 <= i < links.len() ==> #[trigger] links[i] != 0 && h.spec_class_of(links[i]) == c
    &&& forall|i: int, j: int| 0 <= i < j < links.len() ==> #[trigger] links[i] != #[trigger] links[j]
    &&& forall|i: int|
        0 <= i < links.len() - 1 ==> loc_ptr(h, Seq::empty(), Loc::Heap(addr_add(#[trigger] links[i], h.spec_field_offset(f))))
            == links[i + 1]
}

/// The walk of link `i` of a chain, reached at depth `i` from the first.
pub open spec fn chain_walk<H: Host>(h: &H, bl: Seq<String>, links: Seq<usize>, i: int) -> Json {
    walk_json(h, bl, links.subrange(0, i), links[i], i as usize)
}

proof fn lemma_chain_step<H: Host>(h: &H, bl: Seq<String>, links: Seq<usize>, c: usize, f: usize, i: int)
    requires
        is_chain(h, bl, links, c, f),
        0 <= i <= MAX_OBJECT_DEPTH,
        i + 1 < links.len(),
    ensures
        chain_walk(h, bl, links, i) == Json::Object(seq![(h.spec_field_name(f), chain_walk(h, bl, links, i + 1))]),
{
    let o = links[i];
    let vis = links.subrange(0, i);
    assert(!vis.contains(o)) by {
        if vis.contains(o) {
            let j = choose|j: int| 0 <= j < vis.len() && vis[j] == o;
            assert(links[j] != links[i]);
        }
    }
    assert(vis.push(o) =~= links.subrange(0, i + 1));
    let d = i as usize;
    assert(chain_fields(h, 0, (MAX_CLASS_CHAIN - 1) as nat) == Seq::<usize>::empty());
    assert(chain_fields(h, c, MAX_CLASS_CHAIN as nat) =~= seq![f]);
    let fs = seq![f];
    let e0 = field_entries(h, bl, links.subrange(0, i + 1), Seq::empty(), Loc::Heap(o), fs, 0, d, false);
    assert(e0 == Seq::<(Seq<char>, Json)>::empty());
    let v = value_json(h, bl, links.subrange(0, i + 1), Seq::empty(), Loc::Heap(addr_add(o, h.spec_field_offset(f))), h.spec_field_tag(f), h.spec_field_class(f), d);
    assert(v == chain_walk(h, bl, links, i + 1));
    lemma_key_pos_range(e0, h.spec_field_name(f));
    assert(json_insert(e0, h.spec_field_name(f), v) =~= seq![(h.spec_field_name(f), v)]);
}

/// Depth cap on a chain longer than the cap: the walk from the first link opens
/// one mapping per level for the first `MAX_OBJECT_DEPTH + 1` links, and the
/// next level is the depth marker, which stands for every deeper link.
pub proof fn lemma_chain_depth_cap<H: Host>(h: &H, bl: Seq<String>, links: Seq<usize>, c: usize, f: usize, i: int)
    requires
        is_chain(h, bl, links, c, f),
        links.len() > MAX_OBJECT_DEPTH + 1,
        0 <= i <= MAX_OBJECT_DEPTH + 1,
    ensures
        follow(chain_walk(h, bl, links, i), (MAX_OBJECT_DEPTH + 1 - i) as nat) == Json::Str(max_depth_text()),
        forall|s: nat| s <= MAX_OBJECT_DEPTH - i ==> #[trigger] follow(chain_walk(h, bl, links, i), s) is Object,
    decreases MAX_OBJECT_DEPTH + 1 - i,
{
    if i == MAX_OBJECT_DEPTH + 1 {
        let vis = links.subrange(0, i);
        assert(!vis.contains(links[i])) by {
            if vis.contains(links[i]) {
                let j = choose|j: int| 0 <= j < vis.len() && vis[j] == links[i];
                assert(links[j] != links[i]);
            }
        }
        lemma_depth_cap(h, bl, vis, links[i], i as usize);
    } else {
        lemma_chain_step(h, bl, links, c, f, i);
        lemma_chain_depth_cap(h, bl, links, c, f, i + 1);
        let w = chain_walk(h, bl, links, i);
        let next = chain_walk(h, bl, links, i + 1);
        assert(follow(w, (MAX_OBJECT_DEPTH + 1 - i) as nat) == follow(next, (MAX_OBJECT_DEPTH - i) as nat));
        assert forall|s: nat| s <= MAX_OBJECT_DEPTH - i implies #[trigger] follow(w, s) is Object by {
            if s > 0 {
                assert(follow(w, s) == follow(next, (s - 1) as nat));
            }
        }
    }
}

/// Walking the same unchanged object twice gives equal values, whatever the enum
/// cache held before each walk.
pub proof fn lemma_walk_idempotent<H: Host>(
    h: &H,
    bl: Seq<String>,
    vis: Seq<usize>,
    obj: usize,
    d: usize,
    first: Value,
    second: Value,
)
    requires
        first@ == walk_json(h, bl, vis, obj, d),
        second@ == walk_json(h, bl, vis, obj, d),
    ensures
        first@ == second@,
{
}

fn on_path(visited: &Vec<usize>, obj: usize) -> (r: bool)
    ensures
        r == visited@.contains(obj),
{
    let mut i: usize = 0;
    while i < visited.len()
        invariant
            i <= visited.len(),
            forall|j: int| 0 <= j < i ==> visited@[j] != obj,
        decreases visited.len() - i,
    {
        if visited[i] == obj {
            assert(visited@[i as int] == obj);
            return true;
        }
        i = i + 1;
    }
    false
}

fn cycle_marker(obj: usize) -> (r: String)
    ensures
        r@ == cycle_text(obj),
{
    let mut s = text("<Cycle: ");
    push_hex(&mut s, obj as u64);
    append_str(&mut s, ">");
    s
}

fn truncated_marker(len: u32) -> (r: String)
    ensures
        r@ == truncated_text(len),
{
    let mut s = text("<Array len=");
    push_decimal(&mut s, len as u64);
    append_str(&mut s, " (Truncated)>");
    s
}

fn unknown_stride_marker(name: &String) -> (r: String)
    ensures
        r@ == unknown_stride_text(name@),
{
    let mut s = text("<Array: ");
    append_str(&mut s, name.as_str());
    append_str(&mut s, " (Struct Array, Unknown Stride)>");
    s
}

fn elem_address(data: usize, i: usize, w: usize) -> (r: usize)
    requires
        i * w <= u64::MAX,
    ensures
        r == elem_addr(data, i as int, w as int),
{
    add_addr(data, ((i as u64) * (w as u64)) as usize)
}

fn prim_kind_of(name: &str) -> (r: i32)
    ensures
        r == prim_kind(name@),
{
    if text_eq(name, "Int32[]") || text_eq(name, "System.Int32[]") {
        0
    } else if text_eq(name, "Single[]") || text_eq(name, "System.Single[]") {
        1
    } else if text_eq(name, "Byte[]") || text_eq(name, "System.Byte[]") {
        2
    } else if text_eq(name, "Boolean[]") || text_eq(name, "System.Boolean[]") {
        3
    } else {
        -1
    }
}

/// The fields of `c` and its ancestors, as `chain_fields` describes.
pub fn collect_chain_fields<H: Host>(h: &H, c: usize) -> (r: Vec<usize>)
    ensures
        r@ == chain_fields(h, c, MAX_CLASS_CHAIN as nat),
{
    let mut out: Vec<usize> = Vec::new();
    let mut cur = c;
    let mut level: usize = 0;
    while cur != 0 && level < MAX_CLASS_CHAIN
        invariant
            level <= MAX_CLASS_CHAIN,
            out@ + chain_fields(h, cur, (MAX_CLASS_CHAIN - level) as nat) == chain_fields(
                h,
                c,
                MAX_CLASS_CHAIN as nat,
            ),
        decreases MAX_CLASS_CHAIN - level,
    {
        let mut own = h.fields(cur);
        let ghost before = out@;
        let ghost own_s = own@;
        out.append(&mut own);
        let p = h.parent(cur);
        if p != 0 {
            let pn = h.class_name(p);
            if text_eq(pn.as_str(), "Object") || text_eq(pn.as_str(), "ValueType") {
                assert(out@ =~= before + own_s);
                return out;
            }
        }
        assert(out@ + chain_fields(h, p, (MAX_CLASS_CHAIN - (level + 1)) as nat) =~= before + (own_s
            + chain_fields(h, p, (MAX_CLASS_CHAIN - (level + 1)) as nat)));
        cur = p;
        level = level + 1;
    }
    assert(out@ + Seq::<usize>::empty() =~= out@);
    out
}

/// The text of the string object at `obj`.
pub fn read_string<H: Host>(h: &H, obj: usize) -> (r: String)
    ensures
        r@ == string_text(h, obj),
{
    let e: Vec<u8> = Vec::new();
    assert(e@ =~= Seq::<u8>::empty());
    let len = read_u32(h, &e, Loc::Heap(add_addr(obj, STRING_LENGTH_OFFSET))) as i32;
    if len <= 0 {
        return String::new();
    }
    let n = len as usize;
    let chars = add_addr(obj, STRING_CHARS_OFFSET);
    let mut units: Vec<u16> = Vec::new();
    let mut i: usize = 0;
    while i < n
        invariant
            n == len as nat,
            n <= i32::MAX,
            e@ == Seq::<u8>::empty(),
            i <= n,
            chars == addr_add(obj, STRING_CHARS_OFFSET),
            units@ =~= string_units(h, obj, i as nat),
        decreases n - i,
    {
        let u = read_u16(h, &e, Loc::Heap(elem_address(chars, i, 2)));
        units.push(u);
        i = i + 1;
    }
    decode_utf16(units.as_slice())
}

fn read_prim_items<H: Host>(h: &H, data: usize, len: u32, kind: i32) -> (r: Vec<Value>)
    requires
        len <= MAX_ARRAY_LENGTH,
        0 <= kind <= 3,
    ensures
        items_view(r@) == prim_items(h, data, len as nat, kind as int),
{
    let e: Vec<u8> = Vec::new();
    assert(e@ =~= Seq::<u8>::empty());
    let mut out: Vec<Value> = Vec::new();
    let mut i: usize = 0;
    while i < len as usize
        invariant
            e@ == Seq::<u8>::empty(),
            len <= MAX_ARRAY_LENGTH,
            0 <= kind <= 3,
            i <= len,
            items_view(out@) =~= prim_items(h, data, i as nat, kind as int),
        decreases len - i,
    {
        let v = if kind == 0 {
            Value::Int(read_u32(h, &e, Loc::Heap(elem_address(data, i, 4))) as i32 as i64)
        } else if kind == 1 {
            f32_value(read_u32(h, &e, Loc::Heap(elem_address(data, i, 4))))
        } else if kind == 2 {
            Value::Int(read_byte(h, &e, Loc::Heap(elem_address(data, i, 1)), 0) as i64)
        } else {
            Value::Bool(read_byte(h, &e, Loc::Heap(elem_address(data, i, 1)), 0) != 0)
        };
        proof {
            lemma_items_push(out@, v);
        }
        out.push(v);
        i = i + 1;
    }
    out
}

fn read_ref_items<H: Host>(
    h: &H,
    data: usize,
    len: u32,
    depth: usize,
    visited: &mut Vec<usize>,
    cache: &mut EnumCache,
    blacklist: &Vec<String>,
) -> (r: Vec<Value>)
    requires
        len <= MAX_ARRAY_LENGTH,
        depth <= MAX_OBJECT_DEPTH,
        old(cache).valid_for(h),
    ensures
        final(cache).valid_for(h),
        final(visited)@ == old(visited)@,
        items_view(r@) == ref_items(h, blacklist@, old(visited)@, data, len as nat, depth),
    decreases fuel(depth), 2nat,
{
    let e: Vec<u8> = Vec::new();
    assert(e@ =~= Seq::<u8>::empty());
    let ghost vis = visited@;
    let mut out: Vec<Value> = Vec::new();
    let mut i: usize = 0;
    while i < len as usize
        invariant
            e@ == Seq::<u8>::empty(),
            len <= MAX_ARRAY_LENGTH,
            depth <= MAX_OBJECT_DEPTH,
            i <= len,
            visited@ == vis,
            cache.valid_for(h),
            items_view(out@) == ref_items(h, blacklist@, vis, data, i as nat, depth),
        decreases len - i,
    {
        let ptr = read_ptr(h, &e, Loc::Heap(elem_address(data, i, 8)));
        let v = convert_object_to_value(h, ptr, depth + 1, visited, cache, blacklist);
        proof {
            lemma_items_push(out@, v);
        }
        out.push(v);
        i = i + 1;
    }
    out
}

fn read_struct_items<H: Host>(
    h: &H,
    data: usize,
    ec: usize,
    w: usize,
    len: u32,
    depth: usize,
    visited: &mut Vec<usize>,
    cache: &mut EnumCache,
    blacklist: &Vec<String>,
) -> (r: Vec<Value>)
    requires
        len <= MAX_ARRAY_LENGTH,
        depth <= MAX_OBJECT_DEPTH,
        0 < w <= i32::MAX,
        old(cache).valid_for(h),
    ensures
        final(cache).valid_for(h),
        final(visited)@ == old(visited)@,
        items_view(r@) == struct_items(h, blacklist@, old(visited)@, data, ec, w as int, len as nat, depth),
    decreases fuel(depth), 2nat,
{
    let e: Vec<u8> = Vec::new();
    assert(e@ =~= Seq::<u8>::empty());
    let ghost vis = visited@;
    let mut out: Vec<Value> = Vec::new();
    let mut i: usize = 0;
    while i < len as usize
        invariant
            e@ == Seq::<u8>::empty(),
            len <= MAX_ARRAY_LENGTH,
            depth <= MAX_OBJECT_DEPTH,
            0 < w <= i32::MAX,
            i <= len,
            visited@ == vis,
            cache.valid_for(h),
            items_view(out@) == struct_items(h, blacklist@, vis, data, ec, w as int, i as nat, depth),
        decreases len - i,
    {
        assert(i * w <= 2000 * i32::MAX) by (nonlinear_arith)
            requires
                i <= 2000,
                w <= i32::MAX,
        ;
        let loc = Loc::Heap(elem_address(data, i, w));
        let name = h.class_name(ec);
        let plain = if starts_with(name.as_str(), "Obscured") {
            try_decrypt_obscured(h, &e, loc, ec)
        } else {
            None
        };
        let v = match plain {
            Some(v) => v,
            None => {
                if h.is_enum(ec) {
                    resolve_enum_to_string(h, &e, loc, ec, cache)
                } else {
                    convert_struct_to_value(h, &e, loc, ec, depth + 1, visited, cache, blacklist)
                }
            },
        };
        proof {
            lemma_items_push(out@, v);
        }
        out.push(v);
        i = i + 1;
    }
    out
}

/// The mapping of the fields `fs` of a value at `base`, as `field_entries` describes.
fn convert_fields<H: Host>(
    h: &H,
    sc: &Vec<u8>,
    base: Loc,
    fs: &Vec<usize>,
    depth: usize,
    inline: bool,
    visited: &mut Vec<usize>,
    cache: &mut EnumCache,
    blacklist: &Vec<String>,
) -> (r: Vec<(String, Value)>)
    requires
        depth <= MAX_OBJECT_DEPTH,
        old(cache).valid_for(h),
    ensures
        final(cache).valid_for(h),
        final(visited)@ == old(visited)@,
        entries_view(r@) == field_entries(h, blacklist@, old(visited)@, sc@, base, fs@, fs@.len(), depth, inline),
    decreases fuel(depth), 2nat,
{
    let ghost vis = visited@;
    let mut out: Vec<(String, Value)> = Vec::new();
    let mut i: usize = 0;
    while i < fs.len()
        invariant
            depth <= MAX_OBJECT_DEPTH,
            i <= fs.len(),
            visited@ == vis,
            cache.valid_for(h),
            entries_view(out@) == field_entries(h, blacklist@, vis, sc@, base, fs@, i as nat, depth, inline),
        decreases fs.len() - i,
    {
        let f = fs[i];
        let flags = h.field_flags(f);
        if flags & FIELD_ATTRIBUTE_STATIC == 0 {
            let name = h.field_name(f);
            let off = h.field_offset(f);
            if is_field_blacklisted(blacklist, name.as_str()) {
            } else if inline && off < OBJECT_HEADER_SIZE {
                object_insert(&mut out, name, Value::Str(text("<Invalid Offset>")));
            } else {
                let at = if inline {
                    add_loc(base, off - OBJECT_HEADER_SIZE)
                } else {
                    add_loc(base, off)
                };
                let tag = h.field_tag(f);
                let tc = h.field_class(f);
                let v = read_value_from_addr(h, sc, at, tag, tc, depth, visited, cache, blacklist);
                object_insert(&mut out, name, v);
            }
        }
        i = i + 1;
    }
    out
}

/// Decodes the value of type tag `tag` (class `tc` for inline values) stored at `loc`.
pub fn read_value_from_addr<H: Host>(
    h: &H,
    sc: &Vec<u8>,
    loc: Loc,
    tag: i32,
    tc: usize,
    depth: usize,
    visited: &mut Vec<usize>,
    cache: &mut EnumCache,
    blacklist: &Vec<String>,
) -> (r: Value)
    requires
        old(cache).valid_for(h),
    ensures
        final(cache).valid_for(h),
        final(visited)@ == old(visited)@,
        r@ == value_json(h, blacklist@, old(visited)@, sc@, loc, tag, tc, depth),
    decreases fuel(depth), 1nat,
{
    if tag == TYPE_BOOLEAN {
        Value::Bool(read_byte(h, sc, loc, 0) != 0)
    } else if tag == TYPE_CHAR || tag == TYPE_U2 {
        Value::Int(read_u16(h, sc, loc) as i64)
    } else if tag == TYPE_I1 {
        Value::Int(read_byte(h, sc, loc, 0) as i8 as i64)
    } else if tag == TYPE_U1 {
        Value::Int(read_byte(h, sc, loc, 0) as i64)
    } else if tag == TYPE_I2 {
        Value::Int(read_u16(h, sc, loc) as i16 as i64)
    } else if tag == TYPE_I4 {
        Value::Int(read_u32(h, sc, loc) as i32 as i64)
    } else if tag == TYPE_U4 {
        Value::Int(read_u32(h, sc, loc) as i64)
    } else if tag == TYPE_I8 {
        Value::Int(read_u64(h, sc, loc) as i64)
    } else if tag == TYPE_U8 {
        Value::UInt(read_u64(h, sc, loc))
    } else if tag == TYPE_R4 {
        f32_value(read_u32(h, sc, loc))
    } else if tag == TYPE_R8 {
        f64_value(read_u64(h, sc, loc))
    } else if is_ref_tag(tag) {
        let ptr = read_ptr(h, sc, loc);
        convert_object_to_value(h, ptr, next_depth(depth), visited, cache, blacklist)
    } else if tag == TYPE_VALUETYPE {
        if tc == 0 {
            return Value::Str(text("UnknownStruct"));
        }
        let name = h.class_name(tc);
        if starts_with(name.as_str(), "Obscured") {
            let d = try_decrypt_obscured(h, sc, loc, tc);
            if let Some(v) = d {
                return v;
            }
        }
        if h.is_enum(tc) {
            resolve_enum_to_string(h, sc, loc, tc, cache)
        } else {
            convert_struct_to_value(h, sc, loc, tc, next_depth(depth), visited, cache, blacklist)
        }
    } else {
        Value::Int(read_u32(h, sc, loc) as i32 as i64)
    }
}

/// Converts an inline value of class `c` stored at `loc` (no object header) into a mapping.
pub fn convert_struct_to_value<H: Host>(
    h: &H,
    sc: &Vec<u8>,
    loc: Loc,
    c: usize,
    depth: usize,
    visited: &mut Vec<usize>,
    cache: &mut EnumCache,
    blacklist: &Vec<String>,
) -> (r: Value)
    requires
        old(cache).valid_for(h),
    ensures
        final(cache).valid_for(h),
        final(visited)@ == old(visited)@,
        r@ == struct_json(h, blacklist@, old(visited)@, sc@, loc, c, depth),
    decreases fuel(depth), walk_rank(depth),
{
    if depth > MAX_OBJECT_DEPTH {
        return Value::Str(text("<Max Depth>"));
    }
    let fs = h.fields(c);
    let entries = convert_fields(h, sc, loc, &fs, depth, true, visited, cache, blacklist);
    Value::Object(entries)
}

/// Converts the object at `obj`, reached at `depth`, into a structured value.
/// `visited` holds the objects on the path from the root; it is the same on return.
pub fn convert_object_to_value<H: Host>(
    h: &H,
    obj: usize,
    depth: usize,
    visited: &mut Vec<usize>,
    cache: &mut EnumCache,
    blacklist: &Vec<String>,
) -> (r: Value)
    requires
        old(cache).valid_for(h),
    ensures
        final(cache).valid_for(h),
        final(visited)@ == old(visited)@,
        r@ == walk_json(h, blacklist@, old(visited)@, obj, depth),
    decreases fuel(depth), walk_rank(depth),
{
    if obj == 0 {
        return Value::Null;
    }
    if on_path(visited, obj) {
        return Value::Str(cycle_marker(obj));
    }
    if depth > MAX_OBJECT_DEPTH {
        return Value::Str(text("<Max Depth>"));
    }
    visited.push(obj);
    let r = convert_live(h, obj, depth, visited, cache, blacklist);
    let _ = visited.pop();
    r
}

fn convert_live<H: Host>(
    h: &H,
    obj: usize,
    depth: usize,
    visited: &mut Vec<usize>,
    cache: &mut EnumCache,
    blacklist: &Vec<String>,
) -> (r: Value)
    requires
        depth <= MAX_OBJECT_DEPTH,
        old(cache).valid_for(h),
    ensures
        final(cache).valid_for(h),
        final(visited)@ == old(visited)@,
        r@ == live_json(h, blacklist@, old(visited)@, obj, depth),
    decreases fuel(depth), 3nat,
{
    let c = h.class_of(obj);
    if c == 0 {
        return Value::Null;
    }
    let name = h.class_name(c);
    if ends_with(name.as_str(), "[]") {
        let len = h.array_length(obj);
        let data = add_addr(obj, ARRAY_DATA_OFFSET);
        if len > MAX_ARRAY_LENGTH {
            return Value::Str(truncated_marker(len));
        }
        let kind = prim_kind_of(name.as_str());
        if kind >= 0 {
            return Value::Array(read_prim_items(h, data, len, kind));
        }
        let ec = h.element_class(c);
        if ec != 0 {
            if !h.is_valuetype(ec) {
                return Value::Array(read_ref_items(h, data, len, depth, visited, cache, blacklist));
            }
            let size = h.value_size(ec);
            if size > 0 {
                return Value::Array(
                    read_struct_items(h, data, ec, size as usize, len, depth, visited, cache, blacklist),
                );
            }
            return Value::Str(unknown_stride_marker(&name));
        }
    }
    if text_eq(name.as_str(), "String") {
        return Value::Str(read_string(h, obj));
    }
    let fs = collect_chain_fields(h, c);
    let e: Vec<u8> = Vec::new();
    assert(e@ =~= Seq::<u8>::empty());
    let entries = convert_fields(h, &e, Loc::Heap(obj), &fs, depth, false, visited, cache, blacklist);
    Value::Object(entries)
}

} // verus!
