//! The adapter through which the engine sees the host runtime: its type metadata
//! and its memory. Handles are plain integers; 0 is the null handle.
use vstd::prelude::*;

verus! {

/// Attribute bit of a field that belongs to the class rather than to an instance.
pub const FIELD_ATTRIBUTE_STATIC: u32 = 0x10;
/// Attribute bit of a compile-time constant field.
pub const FIELD_ATTRIBUTE_LITERAL: u32 = 0x40;

/// Read access to the host runtime.
///
/// Each query has a specification function that names its answer; the engine's
/// contracts are stated over those functions, for every implementation. A query
/// on a handle that names nothing answers with null handles, empty lists and
/// zero bytes. The specification functions have default bodies so that an
/// implementation outside verified code (the adapter to the live runtime) need
/// not spell them out; generic code never sees those defaults.
pub trait Host {
    /// The byte at address `addr`.
    open spec fn spec_byte(&self, addr: usize) -> u8 {
        0
    }

    /// The class of the object at `obj`.
    open spec fn spec_class_of(&self, obj: usize) -> usize {
        0
    }

    /// The element count of the array object at `obj`.
    open spec fn spec_array_length(&self, obj: usize) -> u32 {
        0
    }

    open spec fn spec_class_name(&self, class: usize) -> Seq<char> {
        Seq::empty()
    }

    open spec fn spec_parent(&self, class: usize) -> usize {
        0
    }

    open spec fn spec_is_enum(&self, class: usize) -> bool {
        false
    }

    open spec fn spec_is_valuetype(&self, class: usize) -> bool {
        false
    }

    open spec fn spec_is_interface(&self, class: usize) -> bool {
        false
    }

    open spec fn spec_is_generic(&self, class: usize) -> bool {
        false
    }

    /// The element class of an array class.
    open spec fn spec_element_class(&self, class: usize) -> usize {
        0
    }

    /// The size in bytes of an instance of a value-type class, without object header.
    open spec fn spec_value_size(&self, class: usize) -> i32 {
        0
    }

    /// The fields a class declares itself, in declaration order.
    open spec fn spec_fields(&self, class: usize) -> Seq<usize> {
        Seq::empty()
    }

    /// The classes nested in a class.
    open spec fn spec_nested(&self, class: usize) -> Seq<usize> {
        Seq::empty()
    }

    /// The methods of a class.
    open spec fn spec_methods(&self, class: usize) -> Seq<usize> {
        Seq::empty()
    }

    /// The classes of a module.
    open spec fn spec_image_classes(&self, image: usize) -> Seq<usize> {
        Seq::empty()
    }

    open spec fn spec_field_name(&self, field: usize) -> Seq<char> {
        Seq::empty()
    }

    /// The type tag of a field's declared type.
    open spec fn spec_field_tag(&self, field: usize) -> i32 {
        0
    }

    /// The class of a field's declared type (0 when it has none).
    open spec fn spec_field_class(&self, field: usize) -> usize {
        0
    }

    /// The byte offset of a field from the start of an object, header included.
    open spec fn spec_field_offset(&self, field: usize) -> usize {
        0
    }

    open spec fn spec_field_flags(&self, field: usize) -> u32 {
        0
    }

    /// The first `size` bytes of the current value of a static field.
    open spec fn spec_static_bytes(&self, field: usize, size: usize) -> Seq<u8> {
        Seq::empty()
    }

    open spec fn spec_method_name(&self, method: usize) -> Seq<char> {
        Seq::empty()
    }

    /// The class of each parameter type of a method (0 where a type has none).
    open spec fn spec_param_classes(&self, method: usize) -> Seq<usize> {
        Seq::empty()
    }

    fn read_u8(&self, addr: usize) -> (r: u8)
        ensures
            r == self.spec_byte(addr),
    ;

    fn class_of(&self, obj: usize) -> (r: usize)
        ensures
            r == self.spec_class_of(obj),
    ;

    fn array_length(&self, obj: usize) -> (r: u32)
        ensures
            r == self.spec_array_length(obj),
    ;

    fn class_name(&self, class: usize) -> (r: String)
        ensures
            r@ == self.spec_class_name(class),
    ;

    fn parent(&self, class: usize) -> (r: usize)
        ensures
            r == self.spec_parent(class),
    ;

    fn is_enum(&self, class: usize) -> (r: bool)
        ensures
            r == self.spec_is_enum(class),
    ;

    fn is_valuetype(&self, class: usize) -> (r: bool)
        ensures
            r == self.spec_is_valuetype(class),
    ;

    fn is_interface(&self, class: usize) -> (r: bool)
        ensures
            r == self.spec_is_interface(class),
    ;

    fn is_generic(&self, class: usize) -> (r: bool)
        ensures
            r == self.spec_is_generic(class),
    ;

    fn element_class(&self, class: usize) -> (r: usize)
        ensures
            r == self.spec_element_class(class),
    ;

    fn value_size(&self, class: usize) -> (r: i32)
        ensures
            r == self.spec_value_size(class),
    ;

    fn fields(&self, class: usize) -> (r: Vec<usize>)
        ensures
            r@ == self.spec_fields(class),
    ;

    fn nested_classes(&self, class: usize) -> (r: Vec<usize>)
        ensures
            r@ == self.spec_nested(class),
    ;

    fn methods(&self, class: usize) -> (r: Vec<usize>)
        ensures
            r@ == self.spec_methods(class),
    ;

    fn image_classes(&self, image: usize) -> (r: Vec<usize>)
        ensures
            r@ == self.spec_image_classes(image),
    ;

    /// Asks the runtime to finish initialising a class's static state.
    fn init_class(&self, class: usize);

    fn field_name(&self, field: usize) -> (r: String)
        ensures
            r@ == self.spec_field_name(field),
    ;

    fn field_tag(&self, field: usize) -> (r: i32)
        ensures
            r == self.spec_field_tag(field),
    ;

    fn field_class(&self, field: usize) -> (r: usize)
        ensures
            r == self.spec_field_class(field),
    ;

    fn field_offset(&self, field: usize) -> (r: usize)
        ensures
            r == self.spec_field_offset(field),
    ;

    fn field_flags(&self, field: usize) -> (r: u32)
        ensures
            r == self.spec_field_flags(field),
    ;

    /// Reads the current value of a static field into a buffer of `size` bytes.
    fn read_static(&self, field: usize, size: usize) -> (r: Vec<u8>)
        ensures
            r@ == self.spec_static_bytes(field, size),
            r@.len() == size,
    ;

    fn method_name(&self, method: usize) -> (r: String)
        ensures
            r@ == self.spec_method_name(method),
    ;

    fn param_classes(&self, method: usize) -> (r: Vec<usize>)
        ensures
            r@ == self.spec_param_classes(method),
    ;
}

pub open spec fn is_static<H: Host>(h: &H, f: usize) -> bool {
    h.spec_field_flags(f) & FIELD_ATTRIBUTE_STATIC != 0
}

pub open spec fn is_literal<H: Host>(h: &H, f: usize) -> bool {
    h.spec_field_flags(f) & FIELD_ATTRIBUTE_LITERAL != 0
}

/// Address arithmetic as the machine does it: the sum wraps around.
pub open spec fn addr_add(a: usize, k: usize) -> usize {
    if a + k > usize::MAX {
        (a + k - usize::MAX - 1) as usize
    } else {
        (a + k) as usize
    }
}

pub fn add_addr(a: usize, k: usize) -> (r: usize)
    ensures
        r == addr_add(a, k),
{
    if a <= usize::MAX - k {
        a + k
    } else {
        k - (usize::MAX - a) - 1
    }
}

/// Where a value is read from: the host's memory, or a scratch buffer holding
/// a copy of a static field's value.
#[derive(Clone, Copy)]
pub enum Loc {
    Heap(usize),
    Scratch(usize),
}

pub open spec fn loc_add(loc: Loc, k: usize) -> Loc {
    match loc {
        Loc::Heap(a) => Loc::Heap(addr_add(a, k)),
        Loc::Scratch(o) => Loc::Scratch(addr_add(o, k)),
    }
}

pub fn add_loc(loc: Loc, k: usize) -> (r: Loc)
    ensures
        r == loc_add(loc, k),
{
    match loc {
        Loc::Heap(a) => Loc::Heap(add_addr(a, k)),
        Loc::Scratch(o) => Loc::Scratch(add_addr(o, k)),
    }
}

/// The byte `k` places after `loc`; a scratch buffer reads as zero past its end.
pub open spec fn loc_byte<H: Host>(h: &H, sc: Seq<u8>, loc: Loc, k: usize) -> u8 {
    match loc {
        Loc::Heap(a) => h.spec_byte(addr_add(a, k)),
        Loc::Scratch(o) => if o + k < sc.len() {
            sc[o + k]
        } else {
            0
        },
    }
}

pub fn read_byte<H: Host>(h: &H, sc: &Vec<u8>, loc: Loc, k: usize) -> (r: u8)
    ensures
        r == loc_byte(h, sc@, loc, k),
{
    match loc {
        Loc::Heap(a) => {
            let at = add_addr(a, k);
            let b = h.read_u8(at);
            b
        },
        Loc::Scratch(o) => {
            let n = sc.len();
            if o <= usize::MAX - k && o + k < n {
                sc[o + k]
            } else {
                0
            }
        },
    }
}

/// The little-endian 16-bit word at `loc`.
pub open spec fn loc_u16<H: Host>(h: &H, sc: Seq<u8>, loc: Loc) -> u16 {
    (loc_byte(h, sc, loc, 0) as u16) | ((loc_byte(h, sc, loc, 1) as u16) << 8u16)
}

/// The little-endian 32-bit word at `loc`.
pub open spec fn loc_u32<H: Host>(h: &H, sc: Seq<u8>, loc: Loc) -> u32 {
    (loc_byte(h, sc, loc, 0) as u32) | ((loc_byte(h, sc, loc, 1) as u32) << 8u32) | ((loc_byte(
        h,
        sc,
        loc,
        2,
    ) as u32) << 16u32) | ((loc_byte(h, sc, loc, 3) as u32) << 24u32)
}

/// The little-endian 64-bit word at `loc`.
pub open spec fn loc_u64<H: Host>(h: &H, sc: Seq<u8>, loc: Loc) -> u64 {
    (loc_u32(h, sc, loc) as u64) | ((loc_u32(h, sc, loc_add(loc, 4)) as u64) << 32u64)
}

pub fn read_u16<H: Host>(h: &H, sc: &Vec<u8>, loc: Loc) -> (r: u16)
    ensures
        r == loc_u16(h, sc@, loc),
{
    (read_byte(h, sc, loc, 0) as u16) | ((read_byte(h, sc, loc, 1) as u16) << 8u16)
}

pub fn read_u32<H: Host>(h: &H, sc: &Vec<u8>, loc: Loc) -> (r: u32)
    ensures
        r == loc_u32(h, sc@, loc),
{
    let b0 = read_byte(h, sc, loc, 0);
    let b1 = read_byte(h, sc, loc, 1);
    let b2 = read_byte(h, sc, loc, 2);
    let b3 = read_byte(h, sc, loc, 3);
    (b0 as u32) | ((b1 as u32) << 8u32) | ((b2 as u32) << 16u32) | ((b3 as u32) << 24u32)
}

pub fn read_u64<H: Host>(h: &H, sc: &Vec<u8>, loc: Loc) -> (r: u64)
    ensures
        r == loc_u64(h, sc@, loc),
{
    let lo = read_u32(h, sc, loc);
    let hi = read_u32(h, sc, add_loc(loc, 4));
    (lo as u64) | ((hi as u64) << 32u64)
}

/// The pointer stored at `loc`.
pub open spec fn loc_ptr<H: Host>(h: &H, sc: Seq<u8>, loc: Loc) -> usize {
    loc_u64(h, sc, loc) as usize
}

pub fn read_ptr<H: Host>(h: &H, sc: &Vec<u8>, loc: Loc) -> (r: usize)
    ensures
        r == loc_ptr(h, sc@, loc),
{
    read_u64(h, sc, loc) as usize
}

} // verus!
