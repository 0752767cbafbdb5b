//! The module registry as this crate sees it: an ordered list of the
//! registered module names, each held once. The registry itself is an
//! external collaborator; this crate only enumerates its names and
//! never mutates it.
use vstd::prelude::*;

use crate::resolution::dedup_names;
use crate::text::str_eq;

verus! {

/// Whether `name` occurs in `names`.
pub fn contains_name(names: &Vec<String>, name: &str) -> (b: bool)
    ensures
        b == names.deep_view().contains(name@),
{
    let ghost ns = names.deep_view();
    let mut i: usize = 0;
    while i < names.len()
        invariant
            0 <= i <= names.len(),
            ns == names.deep_view(),
            ns.len() == names@.len(),
            forall|j: int| 0 <= j < i ==> ns[j] != name@,
        decreases names.len() - i,
    {
        if str_eq(names[i].as_str(), name) {
            proof {
                assert(ns[i as int] == name@);
            }
            return true;
        }
        i += 1;
    }
    proof {
        if ns.contains(name@) {
            let j = choose|j: int| 0 <= j < ns.len() && ns[j] == name@;
            assert(ns[j] != name@);
        }
    }
    false
}

/// The registered module names, in registry order. The registry stands
/// for the key set of an ordered mapping, so each name is held once:
/// construction drops repeated names, keeping first occurrences.
pub struct Registry {
    names: Vec<String>,
}

impl View for Registry {
    type V = Seq<Seq<char>>;

    closed spec fn view(&self) -> Seq<Seq<char>> {
        self.names.deep_view()
    }
}

impl Registry {
    /// A registry holding `names` in that order, first occurrences
    /// kept, repetitions dropped.
    pub fn new(names: Vec<String>) -> (r: Registry)
        ensures
            r@ == dedup_names(names.deep_view()),
    {
        let ghost ns = names.deep_view();
        let mut out: Vec<String> = Vec::new();
        let mut i: usize = 0;
        while i < names.len()
            invariant
                0 <= i <= names.len(),
                ns == names.deep_view(),
                ns.len() == names@.len(),
                out.deep_view() == dedup_names(ns.take(i as int)),
            decreases names.len() - i,
        {
            proof {
                assert(ns.take(i + 1).drop_last() =~= ns.take(i as int));
                assert(ns.take(i + 1).last() == ns[i as int]);
                assert(ns[i as int] == names@[i as int]@);
            }
            if !contains_name(&out, names[i].as_str()) {
                let ghost prev = out.deep_view();
                let n = names[i].clone();
                out.push(n);
                proof {
                    assert(out.deep_view() =~= prev.push(ns[i as int]));
                }
            }
            i += 1;
        }
        proof {
            assert(ns.take(ns.len() as int) =~= ns);
        }
        Registry { names: out }
    }

    /// Whether `name` is a registered module name.
    pub fn contains(&self, name: &str) -> (b: bool)
        ensures
            b == self@.contains(name@),
    {
        contains_name(&self.names, name)
    }

    /// A copy of every registered name, in registry order.
    pub fn keys(&self) -> (r: Vec<String>)
        ensures
            r.deep_view() == self@,
    {
        let mut out: Vec<String> = Vec::new();
        let mut i: usize = 0;
        while i < self.names.len()
            invariant
                0 <= i <= self.names.len(),
                out@.len() == i,
                forall|j: int| 0 <= j < i ==> out@[j] == self.names@[j],
            decreases self.names.len() - i,
        {
            let c = self.names[i].clone();
            out.push(c);
            i += 1;
        }
        proof {
            assert(out@ =~= self.names@);
            assert(out.deep_view() =~= self.names.deep_view());
        }
        out
    }
}

} // verus!
