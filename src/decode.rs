//! Decoding rules for single values: floating bit patterns and the XOR
//! de-obfuscation of wrapper value types.
use vstd::prelude::*;
use crate::host::{Host, Loc, FIELD_ATTRIBUTE_STATIC, is_static, loc_add, add_loc, loc_u32, loc_u64, read_u32, read_u64};
use crate::text::text_eq;
use crate::value::{Value, Json};

verus! {

/// Size of the header that precedes the fields of an object; field offsets count it.
pub const OBJECT_HEADER_SIZE: usize = 16;

/// Whether a single-precision bit pattern is a finite number.
pub open spec fn f32_finite(b: u32) -> bool {
    (b >> 23u32) & 0xffu32 != 0xffu32
}

/// Whether a double-precision bit pattern is a finite number.
pub open spec fn f64_finite(b: u64) -> bool {
    (b >> 52u64) & 0x7ffu64 != 0x7ffu64
}

/// A single-precision number, or `Null` when it is not finite.
pub open spec fn f32_json(b: u32) -> Json {
    if f32_finite(b) {
        Json::F32(b)
    } else {
        Json::Null
    }
}

/// A double-precision number, or `Null` when it is not finite.
pub open spec fn f64_json(b: u64) -> Json {
    if f64_finite(b) {
        Json::F64(b)
    } else {
        Json::Null
    }
}

pub fn f32_value(b: u32) -> (r: Value)
    ensures
        r@ == f32_json(b),
{
    if (b >> 23u32) & 0xffu32 != 0xffu32 {
        Value::F32(b)
    } else {
        Value::Null
    }
}

pub fn f64_value(b: u64) -> (r: Value)
    ensures
        r@ == f64_json(b),
{
    if (b >> 52u64) & 0x7ffu64 != 0x7ffu64 {
        Value::F64(b)
    } else {
        Value::Null
    }
}

/// The in-struct offset of the last instance field named `target` among `fs`,
/// header removed; fields whose offset lies inside the header do not count.
pub open spec fn find_off<H: Host>(h: &H, fs: Seq<usize>, target: Seq<char>) -> Option<usize>
    decreases fs.len(),
{
    if fs.len() == 0 {
        None
    } else {
        let f = fs.last();
        if !is_static(h, f) && h.spec_field_offset(f) >= OBJECT_HEADER_SIZE && h.spec_field_name(f)
            == target {
            Some((h.spec_field_offset(f) - OBJECT_HEADER_SIZE) as usize)
        } else {
            find_off(h, fs.drop_last(), target)
        }
    }
}

/// The plain value of an obfuscated wrapper of class `c` stored at `loc`:
/// the hidden field XOR the key field, read at the width of the wrapped kind.
/// `None` when the class is no known wrapper, a field is missing, or a
/// floating result is not finite.
pub open spec fn deobf_json<H: Host>(h: &H, sc: Seq<u8>, loc: Loc, c: usize) -> Option<Json> {
    let name = h.spec_class_name(c);
    let ho = find_off(h, h.spec_fields(c), "hiddenValue"@);
    let ko = find_off(h, h.spec_fields(c), "currentCryptoKey"@);
    if ho is Some && ko is Some {
        let hl = loc_add(loc, ho->0);
        let kl = loc_add(loc, ko->0);
        if name == "ObscuredInt"@ {
            Some(Json::Int(((loc_u32(h, sc, hl) as i32) ^ (loc_u32(h, sc, kl) as i32)) as int))
        } else if name == "ObscuredLong"@ {
            Some(Json::Int(((loc_u64(h, sc, hl) as i64) ^ (loc_u64(h, sc, kl) as i64)) as int))
        } else if name == "ObscuredBool"@ {
            Some(Json::Bool((loc_u32(h, sc, hl) as i32) ^ (loc_u32(h, sc, kl) as i32) != 0))
        } else if name == "ObscuredFloat"@ {
            let b = loc_u32(h, sc, hl) ^ loc_u32(h, sc, kl);
            if f32_finite(b) {
                Some(Json::F32(b))
            } else {
                None
            }
        } else if name == "ObscuredDouble"@ {
            let b = loc_u64(h, sc, hl) ^ loc_u64(h, sc, kl);
            if f64_finite(b) {
                Some(Json::F64(b))
            } else {
                None
            }
        } else {
            None
        }
    } else {
        None
    }
}

/// Where a wrapper of class `c` at `loc` keeps its hidden value and its key.
pub open spec fn wrapper_slots<H: Host>(h: &H, loc: Loc, c: usize) -> (Loc, Loc) {
    (
        loc_add(loc, find_off(h, h.spec_fields(c), "hiddenValue"@)->0),
        loc_add(loc, find_off(h, h.spec_fields(c), "currentCryptoKey"@)->0),
    )
}

pub open spec fn has_wrapper_fields<H: Host>(h: &H, c: usize) -> bool {
    find_off(h, h.spec_fields(c), "hiddenValue"@) is Some && find_off(h, h.spec_fields(c), "currentCryptoKey"@) is Some
}

/// De-obfuscation round trip: a wrapper whose hidden field holds `plain XOR key`
/// and whose key field holds `key` decodes to exactly `plain`, for each wrapped
/// kind; floating kinds go by bit pattern and must be finite.
pub proof fn lemma_deobfuscation_round_trip<H: Host>(
    h: &H,
    sc: Seq<u8>,
    loc: Loc,
    c: usize,
    plain32: u32,
    key32: u32,
    plain64: u64,
    key64: u64,
)
    requires
        has_wrapper_fields(h, c),
        h.spec_class_name(c) == "ObscuredInt"@ || h.spec_class_name(c) == "ObscuredBool"@
            || h.spec_class_name(c) == "ObscuredFloat"@ ==> loc_u32(h, sc, wrapper_slots(h, loc, c).0)
            == plain32 ^ key32 && loc_u32(h, sc, wrapper_slots(h, loc, c).1) == key32,
        h.spec_class_name(c) == "ObscuredLong"@ || h.spec_class_name(c) == "ObscuredDouble"@
            ==> loc_u64(h, sc, wrapper_slots(h, loc, c).0) == plain64 ^ key64 && loc_u64(
            h,
            sc,
            wrapper_slots(h, loc, c).1,
        ) == key64,
    ensures
        h.spec_class_name(c) == "ObscuredInt"@ ==> deobf_json(h, sc, loc, c) == Some(
            Json::Int((plain32 as i32) as int),
        ),
        h.spec_class_name(c) == "ObscuredBool"@ ==> deobf_json(h, sc, loc, c) == Some(
            Json::Bool(plain32 != 0),
        ),
        h.spec_class_name(c) == "ObscuredFloat"@ && f32_finite(plain32) ==> deobf_json(h, sc, loc, c)
            == Some(Json::F32(plain32)),
        h.spec_class_name(c) == "ObscuredLong"@ ==> deobf_json(h, sc, loc, c) == Some(
            Json::Int((plain64 as i64) as int),
        ),
        h.spec_class_name(c) == "ObscuredDouble"@ && f64_finite(plain64) ==> deobf_json(h, sc, loc, c)
            == Some(Json::F64(plain64)),
{
    reveal_strlit("ObscuredInt");
    reveal_strlit("ObscuredLong");
    reveal_strlit("ObscuredBool");
    reveal_strlit("ObscuredFloat");
    reveal_strlit("ObscuredDouble");
    assert("ObscuredBool"@[8] != "ObscuredLong"@[8]);
    assert("ObscuredBool"@ != "ObscuredLong"@);
    assert("ObscuredDouble"@.len() != "ObscuredLong"@.len());
    assert("ObscuredDouble"@ != "ObscuredLong"@);
    assert("ObscuredDouble"@ != "ObscuredBool"@);
    assert("ObscuredDouble"@ != "ObscuredInt"@);
    assert("ObscuredDouble"@ != "ObscuredFloat"@);
    assert("ObscuredFloat"@.len() != "ObscuredLong"@.len());
    assert("ObscuredFloat"@ != "ObscuredLong"@);
    assert("ObscuredFloat"@ != "ObscuredBool"@);
    assert("ObscuredFloat"@ != "ObscuredInt"@);
    assert("ObscuredBool"@ != "ObscuredInt"@);
    assert("ObscuredLong"@ != "ObscuredInt"@);
    assert((plain32 ^ key32) ^ key32 == plain32) by (bit_vector);
    assert((plain64 ^ key64) ^ key64 == plain64) by (bit_vector);
    assert(((plain32 ^ key32) as i32) ^ (key32 as i32) == plain32 as i32) by (bit_vector);
    assert(((plain64 ^ key64) as i64) ^ (key64 as i64) == plain64 as i64) by (bit_vector);
    assert((((plain32 ^ key32) as i32) ^ (key32 as i32) != 0) == (plain32 != 0)) by (bit_vector);
}

pub open spec fn opt_view(o: Option<Value>) -> Option<Json> {
    match o {
        Some(v) => Some(v@),
        None => None,
    }
}

fn find_offset<H: Host>(h: &H, fs: &Vec<usize>, target: &str) -> (r: Option<usize>)
    ensures
        r == find_off(h, fs@, target@),
{
    let mut found: Option<usize> = None;
    let mut i: usize = 0;
    while i < fs.len()
        invariant
            i <= fs.len(),
            found == find_off(h, fs@.subrange(0, i as int), target@),
        decreases fs.len() - i,
    {
        let f = fs[i];
        assert(fs@.subrange(0, i + 1).drop_last() =~= fs@.subrange(0, i as int));
        let flags = h.field_flags(f);
        let off = h.field_offset(f);
        if flags & FIELD_ATTRIBUTE_STATIC == 0 && off >= OBJECT_HEADER_SIZE {
            let name = h.field_name(f);
            if text_eq(name.as_str(), target) {
                found = Some(off - OBJECT_HEADER_SIZE);
            }
        }
        i = i + 1;
    }
    assert(fs@.subrange(0, fs@.len() as int) =~= fs@);
    found
}

/// Reverses the XOR obfuscation of a wrapper value of class `c` stored at `loc`.
pub fn try_decrypt_obscured<H: Host>(h: &H, sc: &Vec<u8>, loc: Loc, c: usize) -> (r: Option<Value>)
    ensures
        opt_view(r) == deobf_json(h, sc@, loc, c),
{
    let fs = h.fields(c);
    let ho = find_offset(h, &fs, "hiddenValue");
    let ko = find_offset(h, &fs, "currentCryptoKey");
    match (ho, ko) {
        (Some(hoff), Some(koff)) => {
            let name = h.class_name(c);
            let hl = add_loc(loc, hoff);
            let kl = add_loc(loc, koff);
            if text_eq(name.as_str(), "ObscuredInt") {
                let x = (read_u32(h, sc, hl) as i32) ^ (read_u32(h, sc, kl) as i32);
                Some(Value::Int(x as i64))
            } else if text_eq(name.as_str(), "ObscuredLong") {
                let x = (read_u64(h, sc, hl) as i64) ^ (read_u64(h, sc, kl) as i64);
                Some(Value::Int(x))
            } else if text_eq(name.as_str(), "ObscuredBool") {
                let x = (read_u32(h, sc, hl) as i32) ^ (read_u32(h, sc, kl) as i32);
                Some(Value::Bool(x != 0))
            } else if text_eq(name.as_str(), "ObscuredFloat") {
                let b = read_u32(h, sc, hl) ^ read_u32(h, sc, kl);
                if (b >> 23u32) & 0xffu32 != 0xffu32 {
                    Some(Value::F32(b))
                } else {
                    None
                }
            } else if text_eq(name.as_str(), "ObscuredDouble") {
                let b = read_u64(h, sc, hl) ^ read_u64(h, sc, kl);
                if (b >> 52u64) & 0x7ffu64 != 0x7ffu64 {
                    Some(Value::F64(b))
                } else {
                    None
                }
            } else {
                None
            }
        },
        _ => None,
    }
}

} // verus!
