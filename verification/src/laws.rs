//! General properties of the two resolution strategies and of the
//! resolved configurations, stated and proved once for all inputs.
use vstd::prelude::*;

use crate::embedded;
use crate::resolution::{
    dedup_names, lemma_dedup_names_contains, lemma_dedup_names_unique, lemma_first_unknown_none,
    unique_names,
};
use crate::standalone;
use crate::text::u32_of;

verus! {

/// A speed-factor value that the standalone strategy accepts is taken
/// unchanged by the embedded strategy; one that it rejects — because
/// it is no numeral, does not fit, or is not larger than 0.01 — is
/// replaced by 1.0 there.
pub proof fn lemma_speed_factor_agreement(s: Seq<char>)
    ensures
        standalone::spec_speed_factor(s) matches Ok(v) ==> embedded::embedded_speed_value(s)
            == v,
        standalone::spec_speed_factor(s) is Err ==> embedded::embedded_speed_value(s)
            == 1_000_000u64,
{
}

/// An empty module selection resolves to the full registry key set, in
/// registry order, in the standalone strategy.
pub proof fn lemma_standalone_empty_selection(raw: standalone::RawModel, keys: Seq<Seq<char>>)
    requires
        raw.modules.len() == 0,
    ensures
        standalone::spec_resolve(raw, keys) matches Ok(c) ==> c.modules == keys,
{
}

/// An empty module selection — no `module` parameter whose value is a
/// registered name — resolves to the full registry key set, in
/// registry order, in the embedded strategy.
pub proof fn lemma_embedded_empty_selection(
    pairs_opt: Option<Seq<(Seq<char>, Seq<char>)>>,
    keys: Seq<Seq<char>>,
)
    requires
        pairs_opt matches Some(pairs) ==> embedded::selected_modules(pairs, keys).len() == 0,
    ensures
        embedded::embedded_modules(pairs_opt, keys) == keys,
{
}

/// A standalone selection naming any module absent from the registry
/// fails resolution: no configuration is produced.
pub proof fn lemma_unknown_module_rejected(raw: standalone::RawModel, keys: Seq<Seq<char>>)
    requires
        exists|i: int| 0 <= i < raw.modules.len() && !keys.contains(#[trigger] raw.modules[i]),
    ensures
        standalone::spec_resolve(raw, keys) is Err,
{
    lemma_first_unknown_none(raw.modules, keys);
}

/// The embedded strategy drops unknown module names and keeps the
/// registered ones: every selected name is registered, and the value
/// of every `module` parameter naming a registered module stays
/// selected.
pub proof fn lemma_embedded_selection_sound(
    pairs: Seq<(Seq<char>, Seq<char>)>,
    keys: Seq<Seq<char>>,
)
    ensures
        forall|i: int|
            0 <= i < embedded::selected_modules(pairs, keys).len() ==> keys.contains(
                #[trigger] embedded::selected_modules(pairs, keys)[i],
            ),
        forall|j: int|
            0 <= j < pairs.len() && (#[trigger] pairs[j]).0 == "module"@ && keys.contains(
                pairs[j].1,
            ) ==> embedded::selected_modules(pairs, keys).contains(pairs[j].1),
    decreases pairs.len(),
{
    if pairs.len() > 0 {
        let rest = pairs.drop_last();
        lemma_embedded_selection_sound(rest, keys);
        let sel = embedded::selected_modules(pairs, keys);
        let selr = embedded::selected_modules(rest, keys);
        let kept = pairs.last().0 == "module"@ && keys.contains(pairs.last().1)
            && !selr.contains(pairs.last().1);
        assert forall|i: int| 0 <= i < sel.len() implies keys.contains(#[trigger] sel[i]) by {
            if kept {
                if i < selr.len() {
                    assert(sel[i] == selr[i]);
                } else {
                    assert(sel[i] == pairs.last().1);
                }
            }
        }
        assert forall|j: int|
            0 <= j < pairs.len() && (#[trigger] pairs[j]).0 == "module"@ && keys.contains(
                pairs[j].1,
            ) implies sel.contains(pairs[j].1) by {
            if j < pairs.len() - 1 {
                assert(rest[j] == pairs[j]);
                assert(selr.contains(pairs[j].1));
                let w = choose|w: int| 0 <= w < selr.len() && selr[w] == pairs[j].1;
                if kept {
                    assert(sel[w] == selr[w]);
                } else {
                    assert(sel == selr);
                }
                assert(sel.contains(pairs[j].1));
            } else {
                if selr.contains(pairs.last().1) {
                    assert(sel == selr);
                } else {
                    assert(kept);
                    assert(sel[selr.len() as int] == pairs.last().1);
                }
            }
        }
    }
}

/// The embedded selection holds no name twice: a repeated `module`
/// parameter contributes its value once.
pub proof fn lemma_selected_modules_unique(
    pairs: Seq<(Seq<char>, Seq<char>)>,
    keys: Seq<Seq<char>>,
)
    ensures
        unique_names(embedded::selected_modules(pairs, keys)),
    decreases pairs.len(),
{
    if pairs.len() > 0 {
        let rest = pairs.drop_last();
        lemma_selected_modules_unique(rest, keys);
        let selr = embedded::selected_modules(rest, keys);
        if pairs.last().0 == "module"@ && keys.contains(pairs.last().1) && !selr.contains(
            pairs.last().1,
        ) {
            let d = selr.push(pairs.last().1);
            assert forall|i: int, j: int| 0 <= i < j < d.len() implies d[i] != d[j] by {
                if j < selr.len() {
                    assert(d[i] == selr[i] && d[j] == selr[j]);
                } else {
                    assert(d[j] == pairs.last().1);
                    assert(d[i] == selr[i]);
                    if selr[i] == pairs.last().1 {
                        assert(selr.contains(pairs.last().1));
                    }
                }
            }
        }
    }
}

/// Dropping repetitions loses no name: with a non-empty selection the
/// resolved standalone module set holds exactly the selected names,
/// first occurrences in order.
pub proof fn lemma_standalone_selection_names(
    raw: standalone::RawModel,
    keys: Seq<Seq<char>>,
    x: Seq<char>,
)
    requires
        raw.modules.len() > 0,
    ensures
        standalone::spec_resolve(raw, keys) matches Ok(c) ==> (c.modules.contains(x)
            <==> raw.modules.contains(x)),
{
    lemma_dedup_names_contains(raw.modules, x);
    lemma_dedup_names_contains(raw.modules, raw.modules[0]);
    assert(raw.modules.contains(raw.modules[0]));
    assert(dedup_names(raw.modules).len() > 0);
}

/// A configuration that standalone resolution produces is well formed:
/// its speed factor exceeds 0.01 (stored truncated to millionths), a
/// configured module-run limit is at least 1, its module set holds no
/// name twice, and it is non-empty whenever the registry is. The
/// registry's names are the keys of a mapping, held once each.
pub proof fn lemma_resolved_config_wf(raw: standalone::RawModel, keys: Seq<Seq<char>>)
    requires
        unique_names(keys),
    ensures
        standalone::spec_resolve(raw, keys) matches Ok(c) ==> standalone::config_wf(c, keys),
{
    lemma_dedup_names_unique(raw.modules);
}

/// A configuration that embedded resolution produces keeps the same
/// invariants: its speed factor exceeds 0.01 (stored truncated to
/// millionths), its module set holds no name twice, and it is
/// non-empty whenever the registry is. The registry's names are the
/// keys of a mapping, held once each.
pub proof fn lemma_embedded_config_wf(
    pairs_opt: Option<Seq<(Seq<char>, Seq<char>)>>,
    keys: Seq<Seq<char>>,
)
    requires
        unique_names(keys),
    ensures
        embedded::embedded_speed(pairs_opt) >= 10_000,
        unique_names(embedded::embedded_modules(pairs_opt, keys)),
        keys.len() > 0 ==> embedded::embedded_modules(pairs_opt, keys).len() > 0,
{
    match pairs_opt {
        Option::Some(pairs) => lemma_selected_modules_unique(pairs, keys),
        Option::None => {},
    }
}

/// The module-count limit that the standalone strategy accepts is the
/// unsigned integer it was given, unchanged, and only when its value
/// is at least 1.
pub proof fn lemma_module_count_policy(s: Seq<char>)
    ensures
        standalone::spec_min_1(s) matches Ok(n) ==> u32_of(s) == Option::Some(n) && n >= 1,
        (match u32_of(s) {
            Option::Some(n) => n >= 1 ==> standalone::spec_min_1(s) == Result::<
                u32,
                crate::errors::ConfigErrorSpec,
            >::Ok(n),
            Option::None => standalone::spec_min_1(s) is Err,
        }),
{
}

} // verus!
