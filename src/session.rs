//! Deciding when an intercepted race object is a new race worth dumping.
use vstd::prelude::*;
use crate::host::{Host, Loc, addr_add, add_addr, loc_ptr, read_ptr};
use crate::text::{text_eq, contains, seq_contains};

verus! {

/// What is remembered of the last race that was dumped.
pub struct DumpTracker {
    pub last_addr: usize,
    pub last_sim: usize,
    /// Offset of the simulation-data field of the race class, once it is known.
    pub sim_offset: Option<usize>,
}

/// Whether an intercepted race object is a new race.
///
/// Once the simulation-data offset is known, a race without simulation data is
/// never new, and one with data is new when its address or its data pointer
/// differs from the last dump's. Before that, any non-null object at another
/// address is a candidate.
pub open spec fn new_race(t: DumpTracker, addr: usize, sim: usize) -> bool {
    match t.sim_offset {
        Some(_) => sim != 0 && (addr != t.last_addr || sim != t.last_sim),
        None => addr != 0 && addr != t.last_addr,
    }
}

impl DumpTracker {
    pub fn new() -> (r: DumpTracker)
        ensures
            r.last_addr == 0,
            r.last_sim == 0,
            r.sim_offset is None,
    {
        DumpTracker { last_addr: 0, last_sim: 0, sim_offset: None }
    }

    pub fn is_new_race(&self, addr: usize, sim: usize) -> (r: bool)
        ensures
            r == new_race(*self, addr, sim),
    {
        match self.sim_offset {
            Some(_) => sim != 0 && (addr != self.last_addr || sim != self.last_sim),
            None => addr != 0 && addr != self.last_addr,
        }
    }

    /// Remembers the race at `addr` with data pointer `sim` as dumped.
    pub fn record(&mut self, addr: usize, sim: usize)
        ensures
            final(self).last_addr == addr,
            final(self).last_sim == sim,
            final(self).sim_offset == old(self).sim_offset,
    {
        self.last_addr = addr;
        self.last_sim = sim;
    }

    pub fn set_sim_offset(&mut self, off: usize)
        ensures
            final(self).sim_offset == Some(off),
            final(self).last_addr == old(self).last_addr,
            final(self).last_sim == old(self).last_sim,
    {
        self.sim_offset = Some(off);
    }
}

/// The simulation-data pointer of the race object at `obj`, when the offset is known.
pub open spec fn sim_pointer<H: Host>(h: &H, t: DumpTracker, obj: usize) -> usize {
    match t.sim_offset {
        Some(off) => loc_ptr(h, Seq::empty(), Loc::Heap(addr_add(obj, off))),
        None => 0,
    }
}

pub fn read_sim_pointer<H: Host>(h: &H, t: &DumpTracker, obj: usize) -> (r: usize)
    ensures
        r == sim_pointer(h, *t, obj),
{
    match t.sim_offset {
        Some(off) => {
            let e: Vec<u8> = Vec::new();
            assert(e@ =~= Seq::<u8>::empty());
            read_ptr(h, &e, Loc::Heap(add_addr(obj, off)))
        },
        None => 0,
    }
}

/// The offset of the first field of `c` named `<SimDataBase64>k__BackingField`.
pub open spec fn sim_field_offset<H: Host>(h: &H, fs: Seq<usize>) -> Option<usize>
    decreases fs.len(),
{
    if fs.len() == 0 {
        None
    } else if h.spec_field_name(fs[0]) == "<SimDataBase64>k__BackingField"@ {
        Some(h.spec_field_offset(fs[0]))
    } else {
        sim_field_offset(h, fs.drop_first())
    }
}

pub fn find_sim_data_offset<H: Host>(h: &H, c: usize) -> (r: Option<usize>)
    ensures
        r == sim_field_offset(h, h.spec_fields(c)),
{
    let fs = h.fields(c);
    let ghost s = fs@;
    assert(s.subrange(0, s.len() as int) =~= s);
    let mut i: usize = 0;
    while i < fs.len()
        invariant
            fs@ == s,
            s == h.spec_fields(c),
            i <= fs.len(),
            sim_field_offset(h, s) == sim_field_offset(h, s.subrange(i as int, s.len() as int)),
        decreases fs.len() - i,
    {
        assert(s.subrange(i as int, s.len() as int).drop_first() =~= s.subrange(i + 1, s.len() as int));
        let name = h.field_name(fs[i]);
        if text_eq(name.as_str(), "<SimDataBase64>k__BackingField") {
            return Some(h.field_offset(fs[i]));
        }
        i = i + 1;
    }
    None
}

/// Whether the object at `obj` belongs to a race class.
pub open spec fn is_race_object<H: Host>(h: &H, obj: usize) -> bool {
    h.spec_class_of(obj) != 0 && seq_contains(h.spec_class_name(h.spec_class_of(obj)), "RaceInfo"@)
}

/// The tracker once the simulation-data offset has been looked up on the
/// object's class, if it was not known yet.
pub open spec fn with_offset<H: Host>(h: &H, t: DumpTracker, obj: usize) -> DumpTracker {
    if t.sim_offset is None {
        match sim_field_offset(h, h.spec_fields(h.spec_class_of(obj))) {
            Some(o) => DumpTracker { last_addr: t.last_addr, last_sim: t.last_sim, sim_offset: Some(o) },
            None => t,
        }
    } else {
        t
    }
}

/// The data pointer that decides a dump: read again when the offset was just learned.
pub open spec fn confirmed_sim<H: Host>(h: &H, t: DumpTracker, obj: usize, sim: usize) -> usize {
    if t.sim_offset is None && with_offset(h, t, obj).sim_offset is Some {
        sim_pointer(h, with_offset(h, t, obj), obj)
    } else {
        sim
    }
}

/// Second step for a candidate race object at `obj` whose data pointer read `sim`
/// earlier: only a race object is considered; the data offset is learned on first
/// use; the race is dumped (and remembered) when its data pointer is not null.
pub fn confirm_race<H: Host>(h: &H, t: &mut DumpTracker, obj: usize, sim: usize) -> (r: bool)
    ensures
        !is_race_object(h, obj) ==> !r && *final(t) == *old(t),
        is_race_object(h, obj) ==> {
            let t1 = with_offset(h, *old(t), obj);
            let s = confirmed_sim(h, *old(t), obj, sim);
            &&& r == (s != 0)
            &&& final(t).sim_offset == t1.sim_offset
            &&& s != 0 ==> final(t).last_addr == obj && final(t).last_sim == s
            &&& s == 0 ==> final(t).last_addr == old(t).last_addr && final(t).last_sim == old(t).last_sim
        },
{
    let c = h.class_of(obj);
    if c == 0 {
        return false;
    }
    let name = h.class_name(c);
    if !contains(name.as_str(), "RaceInfo") {
        return false;
    }
    let mut s = sim;
    if t.sim_offset.is_none() {
        let off = find_sim_data_offset(h, c);
        if let Some(o) = off {
            t.set_sim_offset(o);
            s = read_sim_pointer(h, t, obj);
        }
    }
    if s != 0 {
        t.record(obj, s);
        true
    } else {
        false
    }
}

} // verus!
