//! Metadata search: the methods of a module that take a parameter of a named type.
use vstd::prelude::*;
use crate::host::Host;
use crate::text::{seq_contains, contains};

verus! {

/// A method found by the search, with the names of its class and of itself.
pub struct MethodSearchResult {
    pub method: usize,
    pub class_name: String,
    pub method_name: String,
}

/// Whether some parameter of method `m` has a class whose name contains `p`.
pub open spec fn takes_param<H: Host>(h: &H, m: usize, p: Seq<char>) -> bool {
    exists|i: int|
        0 <= i < h.spec_param_classes(m).len() && #[trigger] h.spec_param_classes(m)[i] != 0
            && seq_contains(h.spec_class_name(h.spec_param_classes(m)[i]), p)
}

/// The first of the methods `ms` that takes such a parameter.
pub open spec fn first_match<H: Host>(h: &H, ms: Seq<usize>, p: Seq<char>) -> Option<usize>
    decreases ms.len(),
{
    if ms.len() == 0 {
        None
    } else if takes_param(h, ms[0], p) {
        Some(ms[0])
    } else {
        first_match(h, ms.drop_first(), p)
    }
}

/// The methods among `ms` of class `c` that take such a parameter, in order, each
/// with the class's name and its own name.
pub open spec fn class_results<H: Host>(h: &H, c: usize, ms: Seq<usize>, p: Seq<char>) -> Seq<(usize, Seq<char>, Seq<char>)>
    decreases ms.len(),
{
    if ms.len() == 0 {
        Seq::empty()
    } else {
        let prev = class_results(h, c, ms.drop_last(), p);
        let m = ms.last();
        if takes_param(h, m, p) {
            prev.push((m, h.spec_class_name(c), h.spec_method_name(m)))
        } else {
            prev
        }
    }
}

/// Every method of the classes `cs` that takes such a parameter, class by class.
pub open spec fn search_results<H: Host>(h: &H, cs: Seq<usize>, p: Seq<char>) -> Seq<(usize, Seq<char>, Seq<char>)>
    decreases cs.len(),
{
    if cs.len() == 0 {
        Seq::empty()
    } else {
        let c = cs.last();
        let prev = search_results(h, cs.drop_last(), p);
        if c != 0 {
            prev + class_results(h, c, h.spec_methods(c), p)
        } else {
            prev
        }
    }
}

pub open spec fn results_view(s: Seq<MethodSearchResult>) -> Seq<(usize, Seq<char>, Seq<char>)> {
    s.map_values(|r: MethodSearchResult| (r.method, r.class_name@, r.method_name@))
}

fn method_takes_param<H: Host>(h: &H, m: usize, p: &str) -> (r: bool)
    ensures
        r == takes_param(h, m, p@),
{
    let ps = h.param_classes(m);
    let mut i: usize = 0;
    while i < ps.len()
        invariant
            ps@ == h.spec_param_classes(m),
            i <= ps.len(),
            forall|j: int|
                0 <= j < i ==> !(#[trigger] ps@[j] != 0 && seq_contains(h.spec_class_name(ps@[j]), p@)),
        decreases ps.len() - i,
    {
        let pc = ps[i];
        if pc != 0 {
            let name = h.class_name(pc);
            if contains(name.as_str(), p) {
                assert(ps@[i as int] != 0 && seq_contains(h.spec_class_name(ps@[i as int]), p@));
                return true;
            }
        }
        i = i + 1;
    }
    false
}

/// The first method of class `c` that takes a parameter whose class name contains `p`.
pub fn find_method_taking_param_by_name<H: Host>(h: &H, c: usize, p: &str) -> (r: Option<usize>)
    ensures
        c == 0 ==> r is None,
        c != 0 ==> r == first_match(h, h.spec_methods(c), p@),
{
    if c == 0 {
        return None;
    }
    let ms = h.methods(c);
    let ghost s = ms@;
    assert(s.subrange(0, s.len() as int) =~= s);
    let mut i: usize = 0;
    while i < ms.len()
        invariant
            c != 0,
            ms@ == s,
            s == h.spec_methods(c),
            i <= ms.len(),
            first_match(h, s, p@) == first_match(h, s.subrange(i as int, s.len() as int), p@),
        decreases ms.len() - i,
    {
        assert(s.subrange(i as int, s.len() as int).drop_first() =~= s.subrange(i + 1, s.len() as int));
        if method_takes_param(h, ms[i], p) {
            return Some(ms[i]);
        }
        i = i + 1;
    }
    None
}

/// Scans every class of module `image` for the methods taking a parameter whose
/// class name contains `p`; every such method is listed.
pub fn find_methods_in_assembly_by_param<H: Host>(h: &H, image: usize, p: &str) -> (r: Vec<MethodSearchResult>)
    ensures
        image == 0 ==> r@.len() == 0,
        image != 0 ==> results_view(r@) == search_results(h, h.spec_image_classes(image), p@),
{
    let mut out: Vec<MethodSearchResult> = Vec::new();
    if image == 0 {
        return out;
    }
    let cs = h.image_classes(image);
    let mut i: usize = 0;
    while i < cs.len()
        invariant
            cs@ == h.spec_image_classes(image),
            i <= cs.len(),
            results_view(out@) == search_results(h, cs@.subrange(0, i as int), p@),
        decreases cs.len() - i,
    {
        let c = cs[i];
        assert(cs@.subrange(0, i + 1).drop_last() =~= cs@.subrange(0, i as int));
        if c != 0 {
            let ghost start = results_view(out@);
            let class_name = h.class_name(c);
            let ms = h.methods(c);
            let mut j: usize = 0;
            while j < ms.len()
                invariant
                    c != 0,
                    class_name@ == h.spec_class_name(c),
                    ms@ == h.spec_methods(c),
                    j <= ms.len(),
                    results_view(out@) == start + class_results(h, c, ms@.subrange(0, j as int), p@),
                decreases ms.len() - j,
            {
                let m = ms[j];
                assert(ms@.subrange(0, j + 1).drop_last() =~= ms@.subrange(0, j as int));
                if method_takes_param(h, m, p) {
                    let method_name = h.method_name(m);
                    let ghost before = out@;
                    let ghost entry = (m, class_name@, method_name@);
                    out.push(MethodSearchResult { method: m, class_name: class_name.clone(), method_name });
                    assert(results_view(out@) =~= results_view(before).push(entry));
                    assert(start + class_results(h, c, ms@.subrange(0, j + 1), p@) =~= (start + class_results(
                        h,
                        c,
                        ms@.subrange(0, j as int),
                        p@,
                    )).push(entry));
                }
                j = j + 1;
            }
            assert(ms@.subrange(0, ms@.len() as int) =~= ms@);
        } else {
            assert(search_results(h, cs@.subrange(0, i + 1), p@) == search_results(h, cs@.subrange(0, i as int), p@));
        }
        i = i + 1;
    }
    assert(cs@.subrange(0, cs@.len() as int) =~= cs@);
    out
}

/// Whether result `r` names a class containing `cp` and a method containing `mp`.
pub open spec fn preferred(r: (usize, Seq<char>, Seq<char>), cp: Seq<char>, mp: Seq<char>) -> bool {
    seq_contains(r.1, cp) && seq_contains(r.2, mp)
}

/// Which result to use: the first whose class name contains `cp` and whose
/// method name contains `mp`, else the first result; `None` when there is none.
pub fn pick_result(results: &Vec<MethodSearchResult>, cp: &str, mp: &str) -> (r: Option<usize>)
    ensures
        results@.len() == 0 ==> r is None,
        results@.len() > 0 ==> r is Some,
        match r {
            Some(i) => {
                &&& i < results@.len()
                &&& forall|j: int| 0 <= j < i ==> !preferred(#[trigger] results_view(results@)[j], cp@, mp@)
                &&& (preferred(results_view(results@)[i as int], cp@, mp@) || (i == 0 && forall|j: int|
                    0 <= j < results@.len() ==> !preferred(#[trigger] results_view(results@)[j], cp@, mp@)))
            },
            None => true,
        },
{
    let mut i: usize = 0;
    while i < results.len()
        invariant
            i <= results.len(),
            forall|j: int| 0 <= j < i ==> !preferred(#[trigger] results_view(results@)[j], cp@, mp@),
        decreases results.len() - i,
    {
        if contains(results[i].class_name.as_str(), cp) && contains(results[i].method_name.as_str(), mp) {
            return Some(i);
        }
        i = i + 1;
    }
    if results.len() > 0 {
        Some(0)
    } else {
        None
    }
}

} // verus!
