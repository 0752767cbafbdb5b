//! The embedded strategy: resolve the configuration from the query
//! string of a page URL. There is no error channel in this
//! environment, so every malformed or unknown value falls back
//! silently to a documented default.
use vstd::prelude::*;

use crate::registry::{contains_name, Registry};
use crate::resolution::default_modules;
use crate::text::{dropped_frac_nonzero, micros_of, parse_speed_micros, parse_u32, str_eq, u32_of};

verus! {

/// One decoded key/value pair of a URL query string.
pub struct QueryPair {
    pub key: String,
    pub value: String,
}

impl View for QueryPair {
    type V = (Seq<char>, Seq<char>);

    open spec fn view(&self) -> (Seq<char>, Seq<char>) {
        (self.key@, self.value@)
    }
}

impl DeepView for QueryPair {
    type V = (Seq<char>, Seq<char>);

    open spec fn deep_view(&self) -> (Seq<char>, Seq<char>) {
        self.view()
    }
}

/// What parsing `s` as a URL and decoding its query string yields: the
/// key/value pairs in query order, or `None` when `s` is not a valid
/// URL. The result depends on the characters of `s` alone.
pub uninterp spec fn url_query_pairs_of(s: Seq<char>) -> Option<Seq<(Seq<char>, Seq<char>)>>;

/// Relies on `url::Url::parse` to read `href` as a URL, and on
/// `url::Url::query_pairs` to decode its query string into key/value
/// pairs, in order.
#[verifier::external_body]
fn query_pairs_of_href(href: &str) -> (r: Option<Vec<QueryPair>>)
    ensures
        r matches Some(v) ==> url_query_pairs_of(href@) == Some(v.deep_view()),
        r is None ==> url_query_pairs_of(href@) is None,
{
    match url::Url::parse(href) {
        Ok(u) => Some(
            u.query_pairs().map(
                |(k, v): (std::borrow::Cow<str>, std::borrow::Cow<str>)|
                    QueryPair { key: k.into_owned(), value: v.into_owned() },
            ).collect(),
        ),
        Err(_) => None,
    }
}

/// The module names selected by the query: the value of each `module`
/// parameter that names a registered module, first occurrences in
/// query order, each name held once. Unknown names and repetitions are
/// dropped silently.
pub open spec fn selected_modules(
    pairs: Seq<(Seq<char>, Seq<char>)>,
    keys: Seq<Seq<char>>,
) -> Seq<Seq<char>>
    decreases pairs.len(),
{
    if pairs.len() == 0 {
        Seq::empty()
    } else {
        let rest = selected_modules(pairs.drop_last(), keys);
        if pairs.last().0 == "module"@ && keys.contains(pairs.last().1) && !rest.contains(
            pairs.last().1,
        ) {
            rest.push(pairs.last().1)
        } else {
            rest
        }
    }
}

/// The value of the first query parameter named `key`, if any.
pub open spec fn first_value(pairs: Seq<(Seq<char>, Seq<char>)>, key: Seq<char>) -> Option<
    Seq<char>,
>
    decreases pairs.len(),
{
    if pairs.len() == 0 {
        Option::None
    } else if pairs[0].0 == key {
        Option::Some(pairs[0].1)
    } else {
        first_value(pairs.drop_first(), key)
    }
}

/// How the embedded strategy reads a speed-factor value: its value in
/// millionths when it is a decimal numeral larger than 0.01 that fits
/// — the boundary decided on the exact value, as in the standalone
/// strategy, so a kept part of 10000 millionths with a non-zero
/// dropped digit is accepted — and 1.0 otherwise.
pub open spec fn embedded_speed_value(v: Seq<char>) -> u64 {
    match micros_of(v) {
        Option::Some(m) => if m <= u64::MAX && (m > 10_000 || (m == 10_000
            && dropped_frac_nonzero(v))) {
            m as u64
        } else {
            1_000_000u64
        },
        Option::None => 1_000_000u64,
    }
}

/// The resolved speed factor of the embedded environment: the first
/// `speed-factor` parameter when present and acceptable, else 1.0.
pub open spec fn embedded_speed(pairs_opt: Option<Seq<(Seq<char>, Seq<char>)>>) -> u64 {
    match pairs_opt {
        Option::Some(pairs) => match first_value(pairs, "speed-factor"@) {
            Option::Some(v) => embedded_speed_value(v),
            Option::None => 1_000_000u64,
        },
        Option::None => 1_000_000u64,
    }
}

/// How the embedded strategy reads an instant-print-lines value: its
/// value when it is an unsigned integer, and 0 otherwise.
pub open spec fn embedded_print_lines_value(v: Seq<char>) -> u32 {
    match u32_of(v) {
        Option::Some(n) => n,
        Option::None => 0u32,
    }
}

/// The resolved instant-print-lines count of the embedded environment:
/// the first `instant-print-lines` parameter when present and an
/// unsigned integer, else 0.
pub open spec fn embedded_print_lines(pairs_opt: Option<Seq<(Seq<char>, Seq<char>)>>) -> u32 {
    match pairs_opt {
        Option::Some(pairs) => match first_value(pairs, "instant-print-lines"@) {
            Option::Some(v) => embedded_print_lines_value(v),
            Option::None => 0u32,
        },
        Option::None => 0u32,
    }
}

/// The resolved module set of the embedded environment: the selected
/// registered names, defaulting to every registered name when none
/// were selected or the URL did not parse.
pub open spec fn embedded_modules(
    pairs_opt: Option<Seq<(Seq<char>, Seq<char>)>>,
    keys: Seq<Seq<char>>,
) -> Seq<Seq<char>> {
    match pairs_opt {
        Option::Some(pairs) => default_modules(selected_modules(pairs, keys), keys),
        Option::None => keys,
    }
}

/// The resolved configuration of the embedded environment: a strict
/// subset of the standalone shape, with no exit-condition fields and
/// no output-formatting flags. The speed factor is held in millionths.
pub struct AppConfig {
    pub modules: Vec<String>,
    pub speed_factor_micros: u64,
    pub instant_print_lines: u32,
}

/// The abstract form of the resolved embedded configuration.
#[verifier::ext_equal]
pub struct ConfigModel {
    pub modules: Seq<Seq<char>>,
    pub speed_factor_micros: u64,
    pub instant_print_lines: u32,
}

impl View for AppConfig {
    type V = ConfigModel;

    open spec fn view(&self) -> ConfigModel {
        ConfigModel {
            modules: self.modules.deep_view(),
            speed_factor_micros: self.speed_factor_micros,
            instant_print_lines: self.instant_print_lines,
        }
    }
}

/// Find the value of the first query parameter named `key`.
fn find_first(pairs: &Vec<QueryPair>, key: &str) -> (r: Option<String>)
    ensures
        r matches Some(v) ==> first_value(pairs.deep_view(), key@) == Option::Some(v@),
        r is None ==> first_value(pairs.deep_view(), key@) is None,
{
    let ghost ps = pairs.deep_view();
    proof {
        assert(ps.skip(0) =~= ps);
    }
    let mut i: usize = 0;
    while i < pairs.len()
        invariant
            0 <= i <= pairs.len(),
            ps == pairs.deep_view(),
            ps.len() == pairs@.len(),
            first_value(ps, key@) == first_value(ps.skip(i as int), key@),
        decreases pairs.len() - i,
    {
        proof {
            assert(ps.skip(i as int)[0] == ps[i as int]);
            assert(ps[i as int] == pairs@[i as int].deep_view());
        }
        if str_eq(pairs[i].key.as_str(), key) {
            return Option::Some(pairs[i].value.clone());
        }
        proof {
            assert(ps.skip(i as int).drop_first() =~= ps.skip(i + 1));
        }
        i += 1;
    }
    proof {
        assert(ps.skip(ps.len() as int) =~= Seq::<(Seq<char>, Seq<char>)>::empty());
    }
    Option::None
}

/// Resolve the embedded configuration from the page URL `href`.
/// Unknown module names are dropped; a malformed speed factor becomes
/// 1.0; a malformed instant-print-lines count becomes 0; a URL that
/// does not parse yields the defaults outright; an empty selection
/// defaults to every registered name, in registry order.
pub fn parse_args(href: &str, registry: &Registry) -> (c: AppConfig)
    ensures
        c@.modules == embedded_modules(url_query_pairs_of(href@), registry@),
        c@.speed_factor_micros == embedded_speed(url_query_pairs_of(href@)),
        c@.instant_print_lines == embedded_print_lines(url_query_pairs_of(href@)),
{
    let pairs_opt = query_pairs_of_href(href);
    match pairs_opt {
        Option::None => AppConfig {
            modules: registry.keys(),
            speed_factor_micros: 1_000_000,
            instant_print_lines: 0,
        },
        Option::Some(pairs) => {
            let ghost ps = pairs.deep_view();
            let mut sel: Vec<String> = Vec::new();
            let mut i: usize = 0;
            while i < pairs.len()
                invariant
                    0 <= i <= pairs.len(),
                    ps == pairs.deep_view(),
                    ps.len() == pairs@.len(),
                    sel.deep_view() == selected_modules(ps.take(i as int), registry@),
                decreases pairs.len() - i,
            {
                proof {
                    assert(ps[i as int] == pairs@[i as int].deep_view());
                    assert(ps.take(i + 1).drop_last() =~= ps.take(i as int));
                    assert(ps.take(i + 1).last() == ps[i as int]);
                }
                let is_module_key = str_eq(pairs[i].key.as_str(), "module");
                if is_module_key && registry.contains(pairs[i].value.as_str())
                    && !contains_name(&sel, pairs[i].value.as_str()) {
                    let ghost prev = sel.deep_view();
                    let v = pairs[i].value.clone();
                    sel.push(v);
                    proof {
                        assert(sel.deep_view() =~= prev.push(ps[i as int].1));
                    }
                }
                i += 1;
            }
            proof {
                assert(ps.take(ps.len() as int) =~= ps);
            }
            let speed_factor_micros: u64 = match find_first(&pairs, "speed-factor") {
                Option::Some(v) => match parse_speed_micros(v.as_str()) {
                    Option::Some((m, tail)) => if m > 10_000 || (m == 10_000 && tail) {
                        m
                    } else {
                        1_000_000
                    },
                    Option::None => 1_000_000,
                },
                Option::None => 1_000_000,
            };
            let instant_print_lines: u32 = match find_first(&pairs, "instant-print-lines") {
                Option::Some(v) => match parse_u32(v.as_str()) {
                    Option::Some(n) => n,
                    Option::None => 0,
                },
                Option::None => 0,
            };
            let modules: Vec<String> = if sel.len() == 0 {
                registry.keys()
            } else {
                sel
            };
            AppConfig { modules, speed_factor_micros, instant_print_lines }
        },
    }
}

impl AppConfig {
    /// The embedded environment configures no exit limits, so the exit
    /// policy never asks it to stop, whatever the counters read;
    /// termination is entirely externally driven.
    pub fn should_exit(&self, elapsed_nanos: u128, modules_ran: u32) -> (r: bool)
        ensures
            r == false,
    {
        false
    }
}

} // verus!
