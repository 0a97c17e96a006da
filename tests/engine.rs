use horse_dumper::enums::{resolve_enum_to_string, EnumCache};
use horse_dumper::host::Loc;
use horse_dumper::graph::{
    convert_object_to_value, read_value_from_addr, MAX_OBJECT_DEPTH, TYPE_OBJECT, TYPE_BOOLEAN, TYPE_CHAR, TYPE_CLASS, TYPE_I1, TYPE_I2,
    TYPE_I4, TYPE_I8, TYPE_R4, TYPE_R8, TYPE_U1, TYPE_U2, TYPE_U4, TYPE_U8, TYPE_VALUETYPE,
};
use horse_dumper::host::{FIELD_ATTRIBUTE_LITERAL, FIELD_ATTRIBUTE_STATIC};
use horse_dumper::memory::MemoryHost;
use horse_dumper::value::Value;

const BASE: usize = 0x10000;

fn walk(h: &MemoryHost, obj: usize, blacklist: &Vec<String>) -> Value {
    let mut visited = Vec::new();
    let mut cache = EnumCache::new();
    let v = convert_object_to_value(h, obj, 0, &mut visited, &mut cache, blacklist);
    assert!(visited.is_empty());
    v
}

fn same(a: Value, b: Value) {
    assert_eq!(format!("{:?}", a), format!("{:?}", b));
}

fn s(t: &str) -> Value {
    Value::Str(t.to_string())
}

fn obj(entries: Vec<(&str, Value)>) -> Value {
    Value::Object(entries.into_iter().map(|(k, v)| (k.to_string(), v)).collect())
}

fn int_array(h: &mut MemoryHost, at: usize, name: &str, items: &[i32]) {
    let c = h.add_class(name);
    h.write_u64(at, c as u64);
    h.write_u32(at + 24, items.len() as u32);
    for (i, v) in items.iter().enumerate() {
        h.write_u32(at + 32 + 4 * i, *v as u32);
    }
}

#[test]
fn int32_array_decodes_in_bulk() {
    let mut h = MemoryHost::new(BASE, 4096);
    int_array(&mut h, BASE, "Int32[]", &[1, 2, 3, 4, 5]);
    let v = walk(&h, BASE, &vec![]);
    same(
        v,
        Value::Array(vec![Value::Int(1), Value::Int(2), Value::Int(3), Value::Int(4), Value::Int(5)])
    );
}

#[test]
fn long_array_becomes_truncation_marker() {
    let mut h = MemoryHost::new(BASE, 4096);
    let c = h.add_class("System.Int32[]");
    h.write_u64(BASE, c as u64);
    h.write_u32(BASE + 24, 2001);
    same(walk(&h, BASE, &vec![]), s("<Array len=2001 (Truncated)>"));
}

fn enum_host(raw: u32) -> (MemoryHost, usize) {
    let mut h = MemoryHost::new(BASE, 4096);
    let e = h.add_class("RunState");
    h.classes[e - 1].is_enum = true;
    h.classes[e - 1].is_valuetype = true;
    let flags = FIELD_ATTRIBUTE_STATIC | FIELD_ATTRIBUTE_LITERAL;
    let idle = h.add_field(e, "Idle", TYPE_I4, 0, 0, flags);
    let running = h.add_field(e, "Running", TYPE_I4, 0, 0, flags);
    h.fields[idle - 1].static_value = 0i32.to_le_bytes().to_vec();
    h.fields[running - 1].static_value = 1i32.to_le_bytes().to_vec();
    let holder = h.add_class("Horse");
    h.add_field(holder, "state", TYPE_VALUETYPE, e, 16, 0);
    h.write_u64(BASE, holder as u64);
    h.write_u32(BASE + 16, raw);
    (h, e)
}

#[test]
fn enum_value_resolves_to_constant_name() {
    let (h, _) = enum_host(1);
    same(walk(&h, BASE, &vec![]), obj(vec![("state", s("Running"))]));
}

#[test]
fn enum_value_without_constant_stays_a_number() {
    let (h, _) = enum_host(99);
    same(walk(&h, BASE, &vec![]), obj(vec![("state", Value::Int(99))]));
}

#[test]
fn obscured_int_is_deobfuscated() {
    let mut h = MemoryHost::new(BASE, 4096);
    let w = h.add_class("ObscuredInt");
    h.classes[w - 1].is_valuetype = true;
    h.add_field(w, "currentCryptoKey", TYPE_I4, 0, 20, 0);
    h.add_field(w, "hiddenValue", TYPE_I4, 0, 16, 0);
    let holder = h.add_class("Stats");
    h.add_field(holder, "speed", TYPE_VALUETYPE, w, 16, 0);
    h.write_u64(BASE, holder as u64);
    h.write_u32(BASE + 16, 0b1010);
    h.write_u32(BASE + 20, 0b0110);
    same(walk(&h, BASE, &vec![]), obj(vec![("speed", Value::Int(12))]));
}

#[test]
fn cycle_is_marked_not_followed() {
    let mut h = MemoryHost::new(BASE, 4096);
    let node = h.add_class("Node");
    h.add_field(node, "next", TYPE_CLASS, node, 16, 0);
    let a = BASE;
    let b = BASE + 0x100;
    h.write_u64(a, node as u64);
    h.write_u64(b, node as u64);
    h.write_u64(a + 16, b as u64);
    h.write_u64(b + 16, a as u64);
    same(
        walk(&h, a, &vec![]),
        obj(vec![("next", obj(vec![("next", s("<Cycle: 0x10000>"))]))])
    );
}

#[test]
fn blacklisted_fields_are_left_out_of_inline_values() {
    let mut h = MemoryHost::new(BASE, 4096);
    let p = h.add_class("Owner");
    h.classes[p - 1].is_valuetype = true;
    h.add_field(p, "viewer_id", TYPE_I4, 0, 8, 0);
    h.add_field(p, "_ownerViewerId", TYPE_I4, 0, 16, 0);
    h.add_field(p, "rank", TYPE_I4, 0, 20, 0);
    let holder = h.add_class("Holder");
    h.add_field(holder, "owner", TYPE_VALUETYPE, p, 16, 0);
    h.write_u64(BASE, holder as u64);
    h.write_u32(BASE + 16, 7);
    h.write_u32(BASE + 20, 3);
    let bl = vec!["viewer_id".to_string(), "_ownerViewerId".to_string()];
    same(walk(&h, BASE, &bl), obj(vec![("owner", obj(vec![("rank", Value::Int(3))]))]));
}

#[test]
fn decoder_past_the_depth_cap_still_reads_primitives() {
    let mut h = MemoryHost::new(BASE, 4096);
    let node = h.add_class("Node");
    h.write_u64(BASE + 0x100, node as u64);
    h.write_u64(BASE, (BASE + 0x100) as u64);
    h.write_u32(BASE + 8, 41);
    let mut visited = Vec::new();
    let mut cache = EnumCache::new();
    let sc: Vec<u8> = Vec::new();
    let deep = MAX_OBJECT_DEPTH + 7;
    let v = read_value_from_addr(&h, &sc, Loc::Heap(BASE + 8), TYPE_I4, 0, deep, &mut visited, &mut cache, &vec![]);
    same(v, Value::Int(41));
    let v = read_value_from_addr(&h, &sc, Loc::Heap(BASE), TYPE_CLASS, 0, deep, &mut visited, &mut cache, &vec![]);
    same(v, s("<Max Depth>"));
    let v = read_value_from_addr(&h, &sc, Loc::Heap(BASE), TYPE_OBJECT, 0, usize::MAX, &mut visited, &mut cache, &vec![]);
    same(v, s("<Max Depth>"));
    let v = read_value_from_addr(&h, &sc, Loc::Heap(BASE + 8), TYPE_VALUETYPE, node, deep, &mut visited, &mut cache, &vec![]);
    same(v, s("<Max Depth>"));
}

#[test]
fn enum_cache_keeps_one_entry_per_class() {
    let (h, e) = enum_host(1);
    let mut cache = EnumCache::new();
    let sc: Vec<u8> = Vec::new();
    let first = resolve_enum_to_string(&h, &sc, Loc::Heap(BASE + 16), e, &mut cache);
    let second = resolve_enum_to_string(&h, &sc, Loc::Heap(BASE + 16), e, &mut cache);
    same(first, s("Running"));
    same(second, s("Running"));
    assert_eq!(cache.entries.len(), 1);
    assert_eq!(cache.entries[0].class, e);
    assert_eq!(cache.entries[0].name, "RunState");
    assert_eq!(cache.entries[0].literals, vec![("Idle".to_string(), 0), ("Running".to_string(), 1)]);
}

#[test]
fn blacklisted_fields_are_left_out_at_every_depth() {
    let mut h = MemoryHost::new(BASE, 4096);
    let inner = h.add_class("Trainer");
    h.add_field(inner, "viewer_id", TYPE_I4, 0, 16, 0);
    h.add_field(inner, "rank", TYPE_I4, 0, 20, 0);
    let outer = h.add_class("Race");
    h.add_field(outer, "trainer", TYPE_CLASS, inner, 16, 0);
    h.add_field(outer, "viewer_id", TYPE_I4, 0, 24, 0);
    let a = BASE;
    let b = BASE + 0x100;
    h.write_u64(a, outer as u64);
    h.write_u64(a + 16, b as u64);
    h.write_u32(a + 24, 77);
    h.write_u64(b, inner as u64);
    h.write_u32(b + 16, 5);
    h.write_u32(b + 20, 3);
    let bl = vec!["viewer_id".to_string()];
    same(walk(&h, a, &bl), obj(vec![("trainer", obj(vec![("rank", Value::Int(3))]))]));
    same(
        walk(&h, a, &vec![]),
        obj(vec![
            ("trainer", obj(vec![("viewer_id", Value::Int(5)), ("rank", Value::Int(3))])),
            ("viewer_id", Value::Int(77)),
        ]),
    );
}

#[test]
fn deep_chain_ends_in_depth_markers() {
    let levels = MAX_OBJECT_DEPTH + 5;
    let mut h = MemoryHost::new(BASE, 0x100 * (levels + 1));
    let node = h.add_class("Link");
    h.add_field(node, "next", TYPE_CLASS, node, 16, 0);
    for i in 0..levels {
        let at = BASE + 0x100 * i;
        h.write_u64(at, node as u64);
        if i + 1 < levels {
            h.write_u64(at + 16, (at + 0x100) as u64);
        }
    }
    let mut v = walk(&h, BASE, &vec![]);
    let mut depth = 0;
    loop {
        match v {
            Value::Object(mut entries) => {
                assert_eq!(entries.len(), 1);
                v = entries.pop().unwrap().1;
                depth += 1;
            }
            other => {
                same(other, s("<Max Depth>"));
                break;
            }
        }
    }
    assert_eq!(depth, MAX_OBJECT_DEPTH + 1);
}

#[test]
fn string_object_is_decoded_from_utf16() {
    let mut h = MemoryHost::new(BASE, 4096);
    let c = h.add_class("String");
    h.write_u64(BASE, c as u64);
    let text: Vec<u16> = "Special Week".encode_utf16().collect();
    h.write_u32(BASE + 16, text.len() as u32);
    for (i, u) in text.iter().enumerate() {
        h.write_u8(BASE + 20 + 2 * i, (*u & 0xff) as u8);
        h.write_u8(BASE + 21 + 2 * i, (*u >> 8) as u8);
    }
    same(walk(&h, BASE, &vec![]), s("Special Week"));
}

#[test]
fn empty_string_object_is_empty_text() {
    let mut h = MemoryHost::new(BASE, 4096);
    let c = h.add_class("String");
    h.write_u64(BASE, c as u64);
    same(walk(&h, BASE, &vec![]), s(""));
}

#[test]
fn reference_array_walks_each_slot() {
    let mut h = MemoryHost::new(BASE, 4096);
    let item = h.add_class("Item");
    h.add_field(item, "id", TYPE_I4, 0, 16, 0);
    let arr = h.add_class("Item[]");
    h.classes[arr - 1].element = item;
    let a = BASE;
    let x = BASE + 0x200;
    h.write_u64(a, arr as u64);
    h.write_u32(a + 24, 2);
    h.write_u64(a + 32, x as u64);
    h.write_u64(a + 40, 0);
    h.write_u64(x, item as u64);
    h.write_u32(x + 16, 9);
    same(walk(&h, a, &vec![]), Value::Array(vec![obj(vec![("id", Value::Int(9))]), Value::Null]));
}

#[test]
fn struct_array_uses_element_size_as_stride() {
    let mut h = MemoryHost::new(BASE, 4096);
    let p = h.add_class("Point");
    h.classes[p - 1].is_valuetype = true;
    h.classes[p - 1].value_size = 8;
    h.add_field(p, "x", TYPE_I4, 0, 16, 0);
    h.add_field(p, "y", TYPE_I4, 0, 20, 0);
    let arr = h.add_class("Point[]");
    h.classes[arr - 1].element = p;
    h.write_u64(BASE, arr as u64);
    h.write_u32(BASE + 24, 2);
    for (i, v) in [1u32, 2, 3, 4].iter().enumerate() {
        h.write_u32(BASE + 32 + 4 * i, *v);
    }
    same(
        walk(&h, BASE, &vec![]),
        Value::Array(vec![
            obj(vec![("x", Value::Int(1)), ("y", Value::Int(2))]),
            obj(vec![("x", Value::Int(3)), ("y", Value::Int(4))]),
        ]),
    );
}

#[test]
fn struct_array_without_stride_is_marked() {
    let mut h = MemoryHost::new(BASE, 4096);
    let p = h.add_class("Blob");
    h.classes[p - 1].is_valuetype = true;
    let arr = h.add_class("Blob[]");
    h.classes[arr - 1].element = p;
    h.write_u64(BASE, arr as u64);
    h.write_u32(BASE + 24, 2);
    same(walk(&h, BASE, &vec![]), s("<Array: Blob[] (Struct Array, Unknown Stride)>"));
}

#[test]
fn inline_struct_offset_inside_header_is_marked() {
    let mut h = MemoryHost::new(BASE, 4096);
    let p = h.add_class("Pair");
    h.classes[p - 1].is_valuetype = true;
    h.add_field(p, "bad", TYPE_I4, 0, 8, 0);
    h.add_field(p, "good", TYPE_I4, 0, 16, 0);
    let holder = h.add_class("Holder");
    h.add_field(holder, "pair", TYPE_VALUETYPE, p, 16, 0);
    h.write_u64(BASE, holder as u64);
    h.write_u32(BASE + 16, 42);
    same(
        walk(&h, BASE, &vec![]),
        obj(vec![("pair", obj(vec![("bad", s("<Invalid Offset>")), ("good", Value::Int(42))]))]),
    );
}

#[test]
fn float_fields_keep_bits_and_non_finite_is_null() {
    let mut h = MemoryHost::new(BASE, 4096);
    let c = h.add_class("Timing");
    h.add_field(c, "speed", TYPE_R4, 0, 16, 0);
    h.add_field(c, "broken", TYPE_R4, 0, 20, 0);
    h.add_field(c, "total", TYPE_R8, 0, 24, 0);
    h.write_u64(BASE, c as u64);
    h.write_u32(BASE + 16, 1.5f32.to_bits());
    h.write_u32(BASE + 20, f32::NAN.to_bits());
    h.write_u64(BASE + 24, 2.25f64.to_bits());
    same(
        walk(&h, BASE, &vec![]),
        obj(vec![
            ("speed", Value::F32(1.5f32.to_bits())),
            ("broken", Value::Null),
            ("total", Value::F64(2.25f64.to_bits())),
        ]),
    );
}

#[test]
fn inherited_fields_are_merged_up_to_object_base() {
    let mut h = MemoryHost::new(BASE, 4096);
    let root = h.add_class("Object");
    h.add_field(root, "hidden", TYPE_I4, 0, 8, 0);
    let base = h.add_class("Animal");
    h.classes[base - 1].parent = root;
    h.add_field(base, "legs", TYPE_I4, 0, 16, 0);
    let derived = h.add_class("Horse");
    h.classes[derived - 1].parent = base;
    h.add_field(derived, "speed", TYPE_I4, 0, 20, 0);
    h.add_field(derived, "count", TYPE_I4, 0, 24, FIELD_ATTRIBUTE_STATIC);
    h.write_u64(BASE, derived as u64);
    h.write_u32(BASE + 16, 4);
    h.write_u32(BASE + 20, 60);
    same(walk(&h, BASE, &vec![]), obj(vec![("speed", Value::Int(60)), ("legs", Value::Int(4))]));
}

#[test]
fn null_object_is_null() {
    let h = MemoryHost::new(BASE, 16);
    same(walk(&h, 0, &vec![]), Value::Null);
}

fn obscured_host(class: &str, width: usize, hidden: u64, key: u64) -> MemoryHost {
    let mut h = MemoryHost::new(BASE, 4096);
    let w = h.add_class(class);
    h.classes[w - 1].is_valuetype = true;
    h.add_field(w, "hiddenValue", TYPE_I4, 0, 16, 0);
    h.add_field(w, "currentCryptoKey", TYPE_I4, 0, 16 + width, 0);
    let holder = h.add_class("Stats");
    h.add_field(holder, "v", TYPE_VALUETYPE, w, 16, 0);
    h.write_u64(BASE, holder as u64);
    if width == 4 {
        h.write_u32(BASE + 16, hidden as u32);
        h.write_u32(BASE + 20, key as u32);
    } else {
        h.write_u64(BASE + 16, hidden);
        h.write_u64(BASE + 24, key);
    }
    h
}

#[test]
fn obscured_kinds_round_trip() {
    let key32: u32 = 0x5a5a_1234;
    let key64: u64 = 0x0123_4567_89ab_cdef;
    let long_plain: i64 = -9_000_000_000;
    let h = obscured_host("ObscuredLong", 8, (long_plain as u64) ^ key64, key64);
    same(walk(&h, BASE, &vec![]), obj(vec![("v", Value::Int(long_plain))]));
    let h = obscured_host("ObscuredBool", 4, (1 ^ key32) as u64, key32 as u64);
    same(walk(&h, BASE, &vec![]), obj(vec![("v", Value::Bool(true))]));
    let h = obscured_host("ObscuredBool", 4, key32 as u64, key32 as u64);
    same(walk(&h, BASE, &vec![]), obj(vec![("v", Value::Bool(false))]));
    let f = 3.25f32.to_bits();
    let h = obscured_host("ObscuredFloat", 4, (f ^ key32) as u64, key32 as u64);
    same(walk(&h, BASE, &vec![]), obj(vec![("v", Value::F32(f))]));
    let d = (-0.5f64).to_bits();
    let h = obscured_host("ObscuredDouble", 8, d ^ key64, key64);
    same(walk(&h, BASE, &vec![]), obj(vec![("v", Value::F64(d))]));
}

#[test]
fn obscured_wrapper_without_key_field_is_a_plain_struct() {
    let mut h = MemoryHost::new(BASE, 4096);
    let w = h.add_class("ObscuredInt");
    h.classes[w - 1].is_valuetype = true;
    h.add_field(w, "hiddenValue", TYPE_I4, 0, 16, 0);
    let holder = h.add_class("Stats");
    h.add_field(holder, "v", TYPE_VALUETYPE, w, 16, 0);
    h.write_u64(BASE, holder as u64);
    h.write_u32(BASE + 16, 7);
    same(walk(&h, BASE, &vec![]), obj(vec![("v", obj(vec![("hiddenValue", Value::Int(7))]))]));
}

#[test]
fn walking_twice_gives_equal_values() {
    let (h, _) = enum_host(1);
    let mut visited = Vec::new();
    let mut cache = EnumCache::new();
    let first = convert_object_to_value(&h, BASE, 0, &mut visited, &mut cache, &vec![]);
    let second = convert_object_to_value(&h, BASE, 0, &mut visited, &mut cache, &vec![]);
    same(first, second);
    assert_eq!(cache.entries.len(), 1);
}

#[test]
fn integer_fields_are_read_at_their_own_width() {
    let mut h = MemoryHost::new(BASE, 4096);
    let c = h.add_class("Widths");
    h.add_field(c, "flag", TYPE_BOOLEAN, 0, 16, 0);
    h.add_field(c, "i1", TYPE_I1, 0, 17, 0);
    h.add_field(c, "u1", TYPE_U1, 0, 18, 0);
    h.add_field(c, "i2", TYPE_I2, 0, 20, 0);
    h.add_field(c, "u2", TYPE_U2, 0, 22, 0);
    h.add_field(c, "ch", TYPE_CHAR, 0, 24, 0);
    h.add_field(c, "u4", TYPE_U4, 0, 28, 0);
    h.add_field(c, "i8", TYPE_I8, 0, 32, 0);
    h.add_field(c, "u8", TYPE_U8, 0, 40, 0);
    h.write_u64(BASE, c as u64);
    for k in 16..48 {
        h.write_u8(BASE + k, 0xff);
    }
    h.write_u8(BASE + 16, 1);
    h.write_u8(BASE + 24, 0x41);
    h.write_u8(BASE + 25, 0);
    h.write_u8(BASE + 26, 0x42);
    same(
        walk(&h, BASE, &vec![]),
        obj(vec![
            ("flag", Value::Bool(true)),
            ("i1", Value::Int(-1)),
            ("u1", Value::Int(255)),
            ("i2", Value::Int(-1)),
            ("u2", Value::Int(65535)),
            ("ch", Value::Int(0x41)),
            ("u4", Value::Int(4294967295)),
            ("i8", Value::Int(-1)),
            ("u8", Value::UInt(u64::MAX)),
        ]),
    );
}

#[test]
fn field_name_collision_across_levels_keeps_last_written() {
    let mut h = MemoryHost::new(BASE, 4096);
    let base = h.add_class("Base");
    h.add_field(base, "id", TYPE_I4, 0, 20, 0);
    let derived = h.add_class("Derived");
    h.classes[derived - 1].parent = base;
    h.add_field(derived, "id", TYPE_I4, 0, 16, 0);
    h.write_u64(BASE, derived as u64);
    h.write_u32(BASE + 16, 1);
    h.write_u32(BASE + 20, 2);
    same(walk(&h, BASE, &vec![]), obj(vec![("id", Value::Int(2))]));
}

#[test]
fn array_at_the_maximum_length_is_kept_whole() {
    let n = 2000usize;
    let mut h = MemoryHost::new(BASE, 32 + n);
    let c = h.add_class("Byte[]");
    h.write_u64(BASE, c as u64);
    h.write_u32(BASE + 24, n as u32);
    for i in 0..n {
        h.write_u8(BASE + 32 + i, (i % 256) as u8);
    }
    match walk(&h, BASE, &vec![]) {
        Value::Array(items) => {
            assert_eq!(items.len(), n);
            same(items.into_iter().nth(300).unwrap(), Value::Int(44));
        }
        other => panic!("expected an array, got {:?}", other),
    }
}

#[test]
fn bool_and_single_arrays_use_fast_paths() {
    let mut h = MemoryHost::new(BASE, 4096);
    let b = h.add_class("System.Boolean[]");
    h.write_u64(BASE, b as u64);
    h.write_u32(BASE + 24, 3);
    h.write_u8(BASE + 32, 1);
    h.write_u8(BASE + 33, 0);
    h.write_u8(BASE + 34, 2);
    same(
        walk(&h, BASE, &vec![]),
        Value::Array(vec![Value::Bool(true), Value::Bool(false), Value::Bool(true)]),
    );
    let f = h.add_class("Single[]");
    let a = BASE + 0x100;
    h.write_u64(a, f as u64);
    h.write_u32(a + 24, 2);
    h.write_u32(a + 32, 0.5f32.to_bits());
    h.write_u32(a + 36, f32::INFINITY.to_bits());
    same(walk(&h, a, &vec![]), Value::Array(vec![Value::F32(0.5f32.to_bits()), Value::Null]));
}
