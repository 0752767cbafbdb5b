//! What the two resolution strategies share: defaulting an empty module
//! selection to the whole registry, and the shape of a selection
//! checked against the registry's names.
use vstd::prelude::*;

verus! {

/// The resolved module set: the selection itself, or every registered
/// name, in registry order, when the selection is empty.
pub open spec fn default_modules(sel: Seq<Seq<char>>, keys: Seq<Seq<char>>) -> Seq<Seq<char>> {
    if sel.len() == 0 {
        keys
    } else {
        sel
    }
}

/// No name appears twice: the module set is a set.
pub open spec fn unique_names(s: Seq<Seq<char>>) -> bool {
    forall|i: int, j: int| 0 <= i < j < s.len() ==> s[i] != s[j]
}

/// `sel` with repeated names removed: the first occurrence of each
/// name, in order.
pub open spec fn dedup_names(sel: Seq<Seq<char>>) -> Seq<Seq<char>>
    decreases sel.len(),
{
    if sel.len() == 0 {
        Seq::empty()
    } else {
        let rest = dedup_names(sel.drop_last());
        if rest.contains(sel.last()) {
            rest
        } else {
            rest.push(sel.last())
        }
    }
}

/// Deduplication keeps exactly the names of the selection.
pub proof fn lemma_dedup_names_contains(sel: Seq<Seq<char>>, x: Seq<char>)
    ensures
        dedup_names(sel).contains(x) <==> sel.contains(x),
    decreases sel.len(),
{
    if sel.len() > 0 {
        let dl = sel.drop_last();
        let rest = dedup_names(dl);
        lemma_dedup_names_contains(dl, x);
        assert(forall|i: int| 0 <= i < dl.len() ==> dl[i] == sel[i]);
        if sel.contains(x) {
            let i = choose|i: int| 0 <= i < sel.len() && sel[i] == x;
            if i < sel.len() - 1 {
                assert(dl[i] == x);
                assert(dl.contains(x));
            } else {
                assert(sel.last() == x);
            }
            if rest.contains(sel.last()) {
                if sel.last() == x {
                    lemma_dedup_names_contains(dl, sel.last());
                } else {
                    assert(rest.contains(x));
                }
            } else {
                if sel.last() == x {
                    assert(rest.push(sel.last())[rest.len() as int] == x);
                } else {
                    let w = choose|w: int| 0 <= w < rest.len() && rest[w] == x;
                    assert(rest.push(sel.last())[w] == x);
                }
            }
            assert(dedup_names(sel).contains(x));
        }
        if dedup_names(sel).contains(x) {
            if rest.contains(sel.last()) {
                assert(rest.contains(x));
                assert(dl.contains(x));
                let i = choose|i: int| 0 <= i < dl.len() && dl[i] == x;
                assert(sel[i] == x);
            } else {
                let d = rest.push(sel.last());
                let w = choose|w: int| 0 <= w < d.len() && d[w] == x;
                if w < rest.len() {
                    assert(rest[w] == x);
                    assert(rest.contains(x));
                    assert(dl.contains(x));
                    let i = choose|i: int| 0 <= i < dl.len() && dl[i] == x;
                    assert(sel[i] == x);
                } else {
                    assert(sel[sel.len() - 1] == x);
                }
            }
            assert(sel.contains(x));
        }
    }
}

/// Deduplication leaves no repeated name.
pub proof fn lemma_dedup_names_unique(sel: Seq<Seq<char>>)
    ensures
        unique_names(dedup_names(sel)),
    decreases sel.len(),
{
    if sel.len() > 0 {
        let dl = sel.drop_last();
        let rest = dedup_names(dl);
        lemma_dedup_names_unique(dl);
        if !rest.contains(sel.last()) {
            let d = rest.push(sel.last());
            assert forall|i: int, j: int| 0 <= i < j < d.len() implies d[i] != d[j] by {
                if j < rest.len() {
                    assert(d[i] == rest[i] && d[j] == rest[j]);
                } else {
                    assert(d[j] == sel.last());
                    assert(d[i] == rest[i]);
                    if rest[i] == sel.last() {
                        assert(rest.contains(sel.last()));
                    }
                }
            }
        }
    }
}

/// The first selected name absent from the registry, if any.
pub open spec fn first_unknown(sel: Seq<Seq<char>>, keys: Seq<Seq<char>>) -> Option<Seq<char>>
    decreases sel.len(),
{
    if sel.len() == 0 {
        None
    } else if !keys.contains(sel[0]) {
        Some(sel[0])
    } else {
        first_unknown(sel.drop_first(), keys)
    }
}

/// There is no unknown selected name exactly when every selected name
/// is registered.
pub proof fn lemma_first_unknown_none(sel: Seq<Seq<char>>, keys: Seq<Seq<char>>)
    ensures
        first_unknown(sel, keys) is None <==> (forall|i: int|
            0 <= i < sel.len() ==> keys.contains(#[trigger] sel[i])),
    decreases sel.len(),
{
    if sel.len() > 0 {
        let tail = sel.drop_first();
        lemma_first_unknown_none(tail, keys);
        assert(forall|i: int| 0 <= i < tail.len() ==> tail[i] == sel[i + 1]);
        if first_unknown(sel, keys) is None {
            assert(keys.contains(sel[0]));
            assert forall|i: int| 0 <= i < sel.len() implies keys.contains(
                #[trigger] sel[i],
            ) by {
                if i > 0 {
                    assert(keys.contains(tail[i - 1]));
                }
            }
        }
        if forall|i: int| 0 <= i < sel.len() ==> keys.contains(#[trigger] sel[i]) {
            assert(keys.contains(sel[0]));
            assert forall|i: int| 0 <= i < tail.len() implies keys.contains(
                #[trigger] tail[i],
            ) by {
                assert(tail[i] == sel[i + 1]);
            }
            assert(first_unknown(tail, keys) is None);
        }
    }
}

/// The tail of the selection decides once its head is registered.
pub proof fn lemma_first_unknown_step(sel: Seq<Seq<char>>, keys: Seq<Seq<char>>, i: int)
    requires
        0 <= i <= sel.len(),
        forall|j: int| 0 <= j < i ==> keys.contains(#[trigger] sel[j]),
    ensures
        first_unknown(sel, keys) == first_unknown(sel.skip(i), keys),
    decreases i,
{
    if i > 0 {
        assert(keys.contains(sel[0]));
        assert(first_unknown(sel, keys) == first_unknown(sel.drop_first(), keys));
        assert(sel.drop_first() =~= sel.skip(1));
        assert(forall|j: int| 0 <= j < i - 1 ==> sel.skip(1)[j] == sel[j + 1]);
        lemma_first_unknown_step(sel.skip(1), keys, i - 1);
        assert(sel.skip(1).skip(i - 1) =~= sel.skip(i));
    } else {
        assert(sel.skip(0) =~= sel);
    }
}

} // verus!
