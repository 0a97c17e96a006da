//! An in-memory host runtime: type metadata held in tables and memory held in a
//! byte buffer. Objects carry their class handle in their first eight bytes and
//! arrays their length at offset 24, as the real runtime lays them out.
use vstd::prelude::*;
use crate::host::{Host, addr_add, add_addr};
use crate::text::text;

verus! {

/// Offset of the element count in an array object.
pub const ARRAY_LENGTH_OFFSET: usize = 24;

pub struct ClassDef {
    pub name: String,
    pub parent: usize,
    pub is_enum: bool,
    pub is_valuetype: bool,
    pub is_interface: bool,
    pub is_generic: bool,
    pub element: usize,
    pub value_size: i32,
    pub fields: Vec<usize>,
    pub nested: Vec<usize>,
    pub methods: Vec<usize>,
}

pub struct FieldDef {
    pub name: String,
    pub tag: i32,
    pub class: usize,
    pub offset: usize,
    pub flags: u32,
    pub static_value: Vec<u8>,
}

pub struct MethodDef {
    pub name: String,
    pub params: Vec<usize>,
}

/// Handle `k` names entry `k - 1` of the matching table; memory starts at `base`.
pub struct MemoryHost {
    pub base: usize,
    pub memory: Vec<u8>,
    pub classes: Vec<ClassDef>,
    pub fields: Vec<FieldDef>,
    pub methods: Vec<MethodDef>,
    pub images: Vec<Vec<usize>>,
}

fn copy_handles(v: &Vec<usize>) -> (r: Vec<usize>)
    ensures
        r@ == v@,
{
    let mut out: Vec<usize> = Vec::new();
    let mut i: usize = 0;
    while i < v.len()
        invariant
            i <= v.len(),
            out@ == v@.subrange(0, i as int),
        decreases v.len() - i,
    {
        out.push(v[i]);
        i = i + 1;
        assert(out@ =~= v@.subrange(0, i as int));
    }
    assert(v@.subrange(0, v@.len() as int) =~= v@);
    out
}

/// The two class records agree on everything but their field lists.
pub open spec fn same_but_fields(a: ClassDef, b: ClassDef) -> bool {
    &&& a.name == b.name
    &&& a.parent == b.parent
    &&& a.is_enum == b.is_enum
    &&& a.is_valuetype == b.is_valuetype
    &&& a.is_interface == b.is_interface
    &&& a.is_generic == b.is_generic
    &&& a.element == b.element
    &&& a.value_size == b.value_size
    &&& a.nested == b.nested
    &&& a.methods == b.methods
}

/// The two class records agree on everything but their method lists.
pub open spec fn same_but_methods(a: ClassDef, b: ClassDef) -> bool {
    &&& a.name == b.name
    &&& a.parent == b.parent
    &&& a.is_enum == b.is_enum
    &&& a.is_valuetype == b.is_valuetype
    &&& a.is_interface == b.is_interface
    &&& a.is_generic == b.is_generic
    &&& a.element == b.element
    &&& a.value_size == b.value_size
    &&& a.nested == b.nested
    &&& a.fields == b.fields
}

impl MemoryHost {
    pub open spec fn has_class(&self, c: usize) -> bool {
        1 <= c <= self.classes@.len()
    }

    pub open spec fn has_field(&self, f: usize) -> bool {
        1 <= f <= self.fields@.len()
    }

    pub open spec fn has_method(&self, m: usize) -> bool {
        1 <= m <= self.methods@.len()
    }

    pub open spec fn class_at(&self, c: usize) -> ClassDef {
        self.classes@[c - 1]
    }

    pub open spec fn field_at(&self, f: usize) -> FieldDef {
        self.fields@[f - 1]
    }

    pub open spec fn mem_byte(&self, addr: usize) -> u8 {
        if self.base <= addr < self.base + self.memory@.len() {
            self.memory@[addr - self.base]
        } else {
            0
        }
    }

    /// The little-endian 32-bit word at `addr`.
    pub open spec fn mem_u32(&self, addr: usize) -> u32 {
        (self.mem_byte(addr) as u32) | ((self.mem_byte(addr_add(addr, 1)) as u32) << 8u32) | ((
        self.mem_byte(addr_add(addr, 2)) as u32) << 16u32) | ((self.mem_byte(addr_add(addr, 3))
            as u32) << 24u32)
    }

    /// The little-endian 64-bit word at `addr`.
    pub open spec fn mem_u64(&self, addr: usize) -> u64 {
        (self.mem_u32(addr) as u64) | ((self.mem_u32(addr_add(addr, 4)) as u64) << 32u64)
    }

    fn byte_at(&self, addr: usize) -> (r: u8)
        ensures
            r == self.mem_byte(addr),
    {
        if addr >= self.base && addr - self.base < self.memory.len() {
            self.memory[addr - self.base]
        } else {
            0
        }
    }

    fn word32_at(&self, addr: usize) -> (r: u32)
        ensures
            r == self.mem_u32(addr),
    {
        let b0 = self.byte_at(addr);
        let b1 = self.byte_at(add_addr(addr, 1));
        let b2 = self.byte_at(add_addr(addr, 2));
        let b3 = self.byte_at(add_addr(addr, 3));
        (b0 as u32) | ((b1 as u32) << 8u32) | ((b2 as u32) << 16u32) | ((b3 as u32) << 24u32)
    }

    fn word64_at(&self, addr: usize) -> (r: u64)
        ensures
            r == self.mem_u64(addr),
    {
        let lo = self.word32_at(addr);
        let hi = self.word32_at(add_addr(addr, 4));
        (lo as u64) | ((hi as u64) << 32u64)
    }

    /// An empty runtime whose memory is `size` zero bytes starting at `base`.
    pub fn new(base: usize, size: usize) -> (r: MemoryHost)
        ensures
            r.base == base,
            r.memory@ == Seq::new(size as nat, |i: int| 0u8),
            r.classes@.len() == 0,
            r.fields@.len() == 0,
            r.methods@.len() == 0,
            r.images@.len() == 0,
    {
        let mut memory: Vec<u8> = Vec::new();
        let mut i: usize = 0;
        while i < size
            invariant
                i <= size,
                memory@ == Seq::new(i as nat, |j: int| 0u8),
            decreases size - i,
        {
            memory.push(0u8);
            i = i + 1;
            assert(memory@ =~= Seq::new(i as nat, |j: int| 0u8));
        }
        MemoryHost {
            base,
            memory,
            classes: Vec::new(),
            fields: Vec::new(),
            methods: Vec::new(),
            images: Vec::new(),
        }
    }

    /// Declares a class with no fields, no parent and no flags set; returns its handle.
    pub fn add_class(&mut self, name: &str) -> (c: usize)
        requires
            old(self).classes@.len() < usize::MAX,
        ensures
            c == final(self).classes@.len(),
            final(self).classes@ == old(self).classes@.push(final(self).classes@.last()),
            final(self).class_at(c).name@ == name@,
            final(self).class_at(c).fields@.len() == 0,
            final(self).class_at(c).nested@.len() == 0,
            final(self).class_at(c).methods@.len() == 0,
            final(self).class_at(c).parent == 0,
            final(self).class_at(c).element == 0,
            final(self).fields == old(self).fields,
            final(self).memory == old(self).memory,
            final(self).base == old(self).base,
    {
        self.classes.push(
            ClassDef {
                name: text(name),
                parent: 0,
                is_enum: false,
                is_valuetype: false,
                is_interface: false,
                is_generic: false,
                element: 0,
                value_size: 0,
                fields: Vec::new(),
                nested: Vec::new(),
                methods: Vec::new(),
            },
        );
        self.classes.len()
    }

    /// Declares a field of class `c` (which must exist); returns its handle.
    pub fn add_field(
        &mut self,
        c: usize,
        name: &str,
        tag: i32,
        class: usize,
        offset: usize,
        flags: u32,
    ) -> (f: usize)
        requires
            old(self).has_class(c),
            old(self).fields@.len() < usize::MAX,
        ensures
            f == final(self).fields@.len(),
            final(self).fields@.len() == old(self).fields@.len() + 1,
            final(self).field_at(f).name@ == name@,
            final(self).field_at(f).tag == tag,
            final(self).field_at(f).class == class,
            final(self).field_at(f).offset == offset,
            final(self).field_at(f).flags == flags,
            final(self).field_at(f).static_value@.len() == 0,
            forall|i: int| 0 <= i < old(self).fields@.len() ==> #[trigger] final(self).fields@[i] == old(self).fields@[i],
            final(self).class_at(c).fields@ == old(self).class_at(c).fields@.push(f),
            final(self).classes@.len() == old(self).classes@.len(),
            same_but_fields(old(self).class_at(c), final(self).class_at(c)),
            forall|i: int|
                0 <= i < old(self).classes@.len() && i != c - 1 ==> #[trigger] final(self).classes@[i] == old(
                    self,
                ).classes@[i],
            final(self).base == old(self).base,
            final(self).memory == old(self).memory,
            final(self).methods == old(self).methods,
            final(self).images == old(self).images,
    {
        self.fields.push(FieldDef { name: text(name), tag, class, offset, flags, static_value: Vec::new() });
        let f = self.fields.len();
        let ghost before = self.classes@;
        let mut cd = self.classes.remove(c - 1);
        cd.fields.push(f);
        self.classes.insert(c - 1, cd);
        assert forall|i: int| 0 <= i < before.len() && i != c - 1 implies #[trigger] self.classes@[i] == before[i] by {
            if i < c - 1 {
                assert(self.classes@[i] == before.remove(c - 1)[i]);
            } else {
                assert(self.classes@[i] == before.remove(c - 1)[i - 1]);
            }
        }
        f
    }

    /// Declares a method of class `c` (which must exist) whose parameters have the
    /// classes `params`; returns its handle.
    pub fn add_method(&mut self, c: usize, name: &str, params: Vec<usize>) -> (m: usize)
        requires
            old(self).has_class(c),
            old(self).methods@.len() < usize::MAX,
        ensures
            m == final(self).methods@.len(),
            final(self).methods@.len() == old(self).methods@.len() + 1,
            final(self).methods@[m - 1].name@ == name@,
            final(self).methods@[m - 1].params@ == params@,
            forall|i: int| 0 <= i < old(self).methods@.len() ==> #[trigger] final(self).methods@[i] == old(self).methods@[i],
            final(self).class_at(c).methods@ == old(self).class_at(c).methods@.push(m),
            final(self).classes@.len() == old(self).classes@.len(),
            same_but_methods(old(self).class_at(c), final(self).class_at(c)),
            forall|i: int|
                0 <= i < old(self).classes@.len() && i != c - 1 ==> #[trigger] final(self).classes@[i] == old(
                    self,
                ).classes@[i],
            final(self).base == old(self).base,
            final(self).memory == old(self).memory,
            final(self).fields == old(self).fields,
            final(self).images == old(self).images,
    {
        self.methods.push(MethodDef { name: text(name), params });
        let m = self.methods.len();
        let ghost before = self.classes@;
        let mut cd = self.classes.remove(c - 1);
        cd.methods.push(m);
        self.classes.insert(c - 1, cd);
        assert forall|i: int| 0 <= i < before.len() && i != c - 1 implies #[trigger] self.classes@[i] == before[i] by {
            if i < c - 1 {
                assert(self.classes@[i] == before.remove(c - 1)[i]);
            } else {
                assert(self.classes@[i] == before.remove(c - 1)[i - 1]);
            }
        }
        m
    }

    /// Declares a module holding the classes `classes`; returns its handle.
    pub fn add_image(&mut self, classes: Vec<usize>) -> (i: usize)
        requires
            old(self).images@.len() < usize::MAX,
        ensures
            i == final(self).images@.len(),
            final(self).images@ == old(self).images@.push(classes),
    {
        self.images.push(classes);
        self.images.len()
    }

    /// Stores `v` at address `addr` when it lies inside the memory.
    pub fn write_u8(&mut self, addr: usize, v: u8)
        ensures
            old(self).holds(addr, 1) ==> final(self).mem_byte(addr) == v,
            forall|a: usize| a != addr ==> final(self).mem_byte(a) == old(self).mem_byte(a),
            final(self).memory@ == (if old(self).base <= addr < old(self).base + old(self).memory@.len() {
                old(self).memory@.update(addr - old(self).base, v)
            } else {
                old(self).memory@
            }),
            final(self).base == old(self).base,
            final(self).classes == old(self).classes,
            final(self).fields == old(self).fields,
    {
        if addr >= self.base && addr - self.base < self.memory.len() {
            let k = addr - self.base;
            self.memory.set(k, v);
        }
    }

    /// Whether the `n` bytes from `addr` lie inside the memory.
    pub open spec fn holds(&self, addr: usize, n: int) -> bool {
        self.base <= addr && addr + n <= self.base + self.memory@.len() && addr + n <= usize::MAX
    }

    /// Stores `v` little-endian at `addr`; bytes outside the memory are dropped.
    pub fn write_u32(&mut self, addr: usize, v: u32)
        ensures
            final(self).base == old(self).base,
            final(self).memory@.len() == old(self).memory@.len(),
            final(self).classes == old(self).classes,
            final(self).fields == old(self).fields,
            old(self).holds(addr, 4) ==> final(self).mem_u32(addr) == v,
            old(self).holds(addr, 4) ==> forall|a: usize|
                a < addr || a >= addr + 4 ==> #[trigger] final(self).mem_byte(a) == old(self).mem_byte(a),
    {
        let b0 = (v & 0xff) as u8;
        let b1 = ((v >> 8u32) & 0xff) as u8;
        let b2 = ((v >> 16u32) & 0xff) as u8;
        let b3 = ((v >> 24u32) & 0xff) as u8;
        self.write_u8(addr, b0);
        self.write_u8(add_addr(addr, 1), b1);
        self.write_u8(add_addr(addr, 2), b2);
        self.write_u8(add_addr(addr, 3), b3);
        proof {
            if old(self).holds(addr, 4) {
                assert(self.mem_byte(addr) == b0);
                assert(self.mem_byte(addr_add(addr, 1)) == b1);
                assert(self.mem_byte(addr_add(addr, 2)) == b2);
                assert(self.mem_byte(addr_add(addr, 3)) == b3);
                assert((b0 as u32) | ((b1 as u32) << 8u32) | ((b2 as u32) << 16u32) | ((b3 as u32) << 24u32) == v)
                    by (bit_vector)
                    requires
                        b0 == (v & 0xff) as u8,
                        b1 == ((v >> 8u32) & 0xff) as u8,
                        b2 == ((v >> 16u32) & 0xff) as u8,
                        b3 == ((v >> 24u32) & 0xff) as u8,
                ;
            }
        }
    }

    /// Stores `v` little-endian at `addr`; bytes outside the memory are dropped.
    pub fn write_u64(&mut self, addr: usize, v: u64)
        ensures
            final(self).base == old(self).base,
            final(self).memory@.len() == old(self).memory@.len(),
            final(self).classes == old(self).classes,
            final(self).fields == old(self).fields,
            old(self).holds(addr, 8) ==> final(self).mem_u64(addr) == v,
    {
        let lo = (v & 0xffff_ffff) as u32;
        let hi = (v >> 32u64) as u32;
        self.write_u32(addr, lo);
        let ghost mid = *self;
        self.write_u32(add_addr(addr, 4), hi);
        proof {
            if old(self).holds(addr, 8) {
                assert(addr_add(addr, 4) == addr + 4);
                assert(self.mem_byte(addr) == mid.mem_byte(addr));
                assert(self.mem_byte(addr_add(addr, 1)) == mid.mem_byte(addr_add(addr, 1)));
                assert(self.mem_byte(addr_add(addr, 2)) == mid.mem_byte(addr_add(addr, 2)));
                assert(self.mem_byte(addr_add(addr, 3)) == mid.mem_byte(addr_add(addr, 3)));
                assert(self.mem_u32(addr) == mid.mem_u32(addr));
                assert((lo as u64) | ((hi as u64) << 32u64) == v) by (bit_vector)
                    requires
                        lo == (v & 0xffff_ffff) as u32,
                        hi == (v >> 32u64) as u32,
                ;
            }
        }
    }
}

impl Host for MemoryHost {
    open spec fn spec_byte(&self, addr: usize) -> u8 {
        self.mem_byte(addr)
    }

    open spec fn spec_class_of(&self, obj: usize) -> usize {
        self.mem_u64(obj) as usize
    }

    open spec fn spec_array_length(&self, obj: usize) -> u32 {
        self.mem_u32(addr_add(obj, ARRAY_LENGTH_OFFSET))
    }

    open spec fn spec_class_name(&self, class: usize) -> Seq<char> {
        if self.has_class(class) {
            self.class_at(class).name@
        } else {
            Seq::empty()
        }
    }

    open spec fn spec_parent(&self, class: usize) -> usize {
        if self.has_class(class) {
            self.class_at(class).parent
        } else {
            0
        }
    }

    open spec fn spec_is_enum(&self, class: usize) -> bool {
        self.has_class(class) && self.class_at(class).is_enum
    }

    open spec fn spec_is_valuetype(&self, class: usize) -> bool {
        self.has_class(class) && self.class_at(class).is_valuetype
    }

    open spec fn spec_is_interface(&self, class: usize) -> bool {
        self.has_class(class) && self.class_at(class).is_interface
    }

    open spec fn spec_is_generic(&self, class: usize) -> bool {
        self.has_class(class) && self.class_at(class).is_generic
    }

    open spec fn spec_element_class(&self, class: usize) -> usize {
        if self.has_class(class) {
            self.class_at(class).element
        } else {
            0
        }
    }

    open spec fn spec_value_size(&self, class: usize) -> i32 {
        if self.has_class(class) {
            self.class_at(class).value_size
        } else {
            0
        }
    }

    open spec fn spec_fields(&self, class: usize) -> Seq<usize> {
        if self.has_class(class) {
            self.class_at(class).fields@
        } else {
            Seq::empty()
        }
    }

    open spec fn spec_nested(&self, class: usize) -> Seq<usize> {
        if self.has_class(class) {
            self.class_at(class).nested@
        } else {
            Seq::empty()
        }
    }

    open spec fn spec_methods(&self, class: usize) -> Seq<usize> {
        if self.has_class(class) {
            self.class_at(class).methods@
        } else {
            Seq::empty()
        }
    }

    open spec fn spec_image_classes(&self, image: usize) -> Seq<usize> {
        if 1 <= image <= self.images@.len() {
            self.images@[image - 1]@
        } else {
            Seq::empty()
        }
    }

    open spec fn spec_field_name(&self, field: usize) -> Seq<char> {
        if self.has_field(field) {
            self.field_at(field).name@
        } else {
            Seq::empty()
        }
    }

    open spec fn spec_field_tag(&self, field: usize) -> i32 {
        if self.has_field(field) {
            self.field_at(field).tag
        } else {
            0
        }
    }

    open spec fn spec_field_class(&self, field: usize) -> usize {
        if self.has_field(field) {
            self.field_at(field).class
        } else {
            0
        }
    }

    open spec fn spec_field_offset(&self, field: usize) -> usize {
        if self.has_field(field) {
            self.field_at(field).offset
        } else {
            0
        }
    }

    open spec fn spec_field_flags(&self, field: usize) -> u32 {
        if self.has_field(field) {
            self.field_at(field).flags
        } else {
            0
        }
    }

    open spec fn spec_static_bytes(&self, field: usize, size: usize) -> Seq<u8> {
        Seq::new(
            size as nat,
            |i: int|
                if self.has_field(field) && i < self.field_at(field).static_value@.len() {
                    self.field_at(field).static_value@[i]
                } else {
                    0u8
                },
        )
    }

    open spec fn spec_method_name(&self, method: usize) -> Seq<char> {
        if self.has_method(method) {
            self.methods@[method - 1].name@
        } else {
            Seq::empty()
        }
    }

    open spec fn spec_param_classes(&self, method: usize) -> Seq<usize> {
        if self.has_method(method) {
            self.methods@[method - 1].params@
        } else {
            Seq::empty()
        }
    }

    fn read_u8(&self, addr: usize) -> (r: u8) {
        self.byte_at(addr)
    }

    fn class_of(&self, obj: usize) -> (r: usize) {
        self.word64_at(obj) as usize
    }

    fn array_length(&self, obj: usize) -> (r: u32) {
        self.word32_at(add_addr(obj, ARRAY_LENGTH_OFFSET))
    }

    fn class_name(&self, class: usize) -> (r: String) {
        if class >= 1 && class <= self.classes.len() {
            self.classes[class - 1].name.clone()
        } else {
            String::new()
        }
    }

    fn parent(&self, class: usize) -> (r: usize) {
        if class >= 1 && class <= self.classes.len() {
            self.classes[class - 1].parent
        } else {
            0
        }
    }

    fn is_enum(&self, class: usize) -> (r: bool) {
        class >= 1 && class <= self.classes.len() && self.classes[class - 1].is_enum
    }

    fn is_valuetype(&self, class: usize) -> (r: bool) {
        class >= 1 && class <= self.classes.len() && self.classes[class - 1].is_valuetype
    }

    fn is_interface(&self, class: usize) -> (r: bool) {
        class >= 1 && class <= self.classes.len() && self.classes[class - 1].is_interface
    }

    fn is_generic(&self, class: usize) -> (r: bool) {
        class >= 1 && class <= self.classes.len() && self.classes[class - 1].is_generic
    }

    fn element_class(&self, class: usize) -> (r: usize) {
        if class >= 1 && class <= self.classes.len() {
            self.classes[class - 1].element
        } else {
            0
        }
    }

    fn value_size(&self, class: usize) -> (r: i32) {
        if class >= 1 && class <= self.classes.len() {
            self.classes[class - 1].value_size
        } else {
            0
        }
    }

    fn fields(&self, class: usize) -> (r: Vec<usize>) {
        if class >= 1 && class <= self.classes.len() {
            copy_handles(&self.classes[class - 1].fields)
        } else {
            Vec::new()
        }
    }

    fn nested_classes(&self, class: usize) -> (r: Vec<usize>) {
        if class >= 1 && class <= self.classes.len() {
            copy_handles(&self.classes[class - 1].nested)
        } else {
            Vec::new()
        }
    }

    fn methods(&self, class: usize) -> (r: Vec<usize>) {
        if class >= 1 && class <= self.classes.len() {
            copy_handles(&self.classes[class - 1].methods)
        } else {
            Vec::new()
        }
    }

    fn image_classes(&self, image: usize) -> (r: Vec<usize>) {
        if image >= 1 && image <= self.images.len() {
            copy_handles(&self.images[image - 1])
        } else {
            Vec::new()
        }
    }

    fn init_class(&self, class: usize) {
    }

    fn field_name(&self, field: usize) -> (r: String) {
        if field >= 1 && field <= self.fields.len() {
            self.fields[field - 1].name.clone()
        } else {
            String::new()
        }
    }

    fn field_tag(&self, field: usize) -> (r: i32) {
        if field >= 1 && field <= self.fields.len() {
            self.fields[field - 1].tag
        } else {
            0
        }
    }

    fn field_class(&self, field: usize) -> (r: usize) {
        if field >= 1 && field <= self.fields.len() {
            self.fields[field - 1].class
        } else {
            0
        }
    }

    fn field_offset(&self, field: usize) -> (r: usize) {
        if field >= 1 && field <= self.fields.len() {
            self.fields[field - 1].offset
        } else {
            0
        }
    }

    fn field_flags(&self, field: usize) -> (r: u32) {
        if field >= 1 && field <= self.fields.len() {
            self.fields[field - 1].flags
        } else {
            0
        }
    }

    fn read_static(&self, field: usize, size: usize) -> (r: Vec<u8>) {
        let mut out: Vec<u8> = Vec::new();
        let mut i: usize = 0;
        while i < size
            invariant
                i <= size,
                out@ =~= self.spec_static_bytes(field, i),
            decreases size - i,
        {
            let b = if field >= 1 && field <= self.fields.len() && i < self.fields[field - 1].static_value.len() {
                self.fields[field - 1].static_value[i]
            } else {
                0u8
            };
            out.push(b);
            i = i + 1;
        }
        out
    }

    fn method_name(&self, method: usize) -> (r: String) {
        if method >= 1 && method <= self.methods.len() {
            self.methods[method - 1].name.clone()
        } else {
            String::new()
        }
    }

    fn param_classes(&self, method: usize) -> (r: Vec<usize>) {
        if method >= 1 && method <= self.methods.len() {
            copy_handles(&self.methods[method - 1].params)
        } else {
            Vec::new()
        }
    }
}

} // verus!
