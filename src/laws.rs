use vstd::prelude::*;
use vstd::arithmetic::div_mod::{lemma_fundamental_div_mod, lemma_fundamental_div_mod_converse, lemma_mod_bound};
use crate::catalog::{entry_ok, CatalogEntry};
use crate::composition::{entry_matches, is_report, report_indexed, reported, same_element, ElementsConcentrationsWithAliases};
use crate::dosing::{dilute_outcome, resolve_target, AmountPlan, DiluteCalcType, DiluteResult, ElementsDosesWithAliases, TargetResolution};
use crate::order::{lemma_precedes_order, precedes, sorted_positions};
use crate::compound::PPB;
use crate::dosing::{dose_of, doses_match, target_amount};
use crate::elements::{find_name, KnownElements};
use crate::formula::{
    add_atom, all_zero, digit_value, finish, flush, initial_state, is_digit, merge_fits, merge_scaled, merged,
    parse_formula, scan, step, Counts, ScanState, ParseFault,
};
use crate::mix::{magnesium, mgo, nitrogen, npk_composition, oxide_share, phosphorus, potassium, MacroElements};

verus! {

proof fn lemma_div_cancel(x: int, y: int, c: int)
    requires
        0 <= x,
        0 < y,
        0 < c,
    ensures
        (x * c) / (y * c) == x / y,
{
    let q = x / y;
    let r = x % y;
    lemma_fundamental_div_mod(x, y);
    lemma_mod_bound(x, y);
    assert(x * c == q * (y * c) + r * c && 0 <= r * c < y * c) by (nonlinear_arith)
        requires
            x == y * q + r,
            0 <= r < y,
            0 < c,
    {
    }
    lemma_fundamental_div_mod_converse(x * c, y * c, q, r * c);
}

/// Dissolving `solution` micrograms in `container` milliliters and dosing `portion` milliliters
/// gives the same concentration of every share as dosing `dry` micrograms directly, whenever
/// `solution * portion == dry * container`.
pub proof fn lemma_solution_dose_is_dry_dose(solution: int, portion: int, container: int, dry: int, f: int, vol: int)
    requires
        solution * portion == dry * container,
        0 <= dry,
        0 <= f,
        0 < portion,
        0 < container,
        0 < vol,
    ensures
        dose_of(solution, portion, container, f, vol) == dose_of(dry, 1, 1, f, vol),
{
    let k = 1_000_000 * vol;
    assert(solution * portion * f == (dry * f) * container && container * 1_000_000 * vol == k * container
        && dry * 1 * f == dry * f && 1 * 1_000_000 * vol == k && k > 0 && dry * f >= 0) by (nonlinear_arith)
        requires
            solution * portion == dry * container,
            k == 1_000_000 * vol,
            vol > 0,
            dry >= 0,
            f >= 0,
    {
    }
    lemma_div_cancel(dry * f, k, container);
}

/// Solution dosing of `solution` micrograms through `portion / container` reports exactly the
/// per-element and per-alias concentrations of dry dosing of `dry` micrograms, whenever
/// `solution * portion == dry * container`.
pub proof fn lemma_solution_report_is_dry_report(
    rep: Seq<ElementsConcentrationsWithAliases>,
    doses: Seq<crate::dosing::ElementsDosesWithAliases>,
    solution: int,
    portion: int,
    container: int,
    dry: int,
    vol: int,
)
    requires
        solution * portion == dry * container,
        0 <= dry,
        0 < portion,
        0 < container,
        0 < vol,
    ensures
        doses_match(rep, doses, solution, portion, container, vol) <==> doses_match(rep, doses, dry, 1, 1, vol),
{
    assert forall|f: int| f >= 0 implies #[trigger] dose_of(solution, portion, container, f, vol) == dose_of(dry, 1, 1, f, vol) by {
        lemma_solution_dose_is_dry_dose(solution, portion, container, dry, f, vol);
    }
}

/// The amount that a target dose computes for a target concentration `c`, dosed back as a
/// result of dose, gives the target element's concentration `back` with `back <= c` and
/// `(c - back - 1) * container * 1_000_000 * vol < f * portion`.
pub proof fn lemma_target_dose_inverts_result(c: int, portion: int, container: int, f: int, vol: int)
    requires
        0 <= c,
        0 < portion,
        0 < container,
        0 < f,
        0 < vol,
    ensures
        dose_of(target_amount(c, portion, container, f, vol), portion, container, f, vol) <= c,
        (c - dose_of(target_amount(c, portion, container, f, vol), portion, container, f, vol) - 1) * (container
            * 1_000_000 * vol) < f * portion,
{
    let k = container * 1_000_000 * vol;
    let g = f * portion;
    assert(k > 0 && g > 0) by (nonlinear_arith)
        requires
            k == container * 1_000_000 * vol,
            g == f * portion,
            container > 0,
            vol > 0,
            f > 0,
            portion > 0,
    {
    }
    assert(c * 1_000_000 * vol * container == c * k) by (nonlinear_arith)
        requires
            k == container * 1_000_000 * vol,
    {
    }
    let a = target_amount(c, portion, container, f, vol);
    assert(a == (c * k) / g);
    lemma_fundamental_div_mod(c * k, g);
    lemma_mod_bound(c * k, g);
    assert(a * portion * f == a * g) by (nonlinear_arith)
        requires
            g == f * portion,
    {
    }
    let back = dose_of(a, portion, container, f, vol);
    assert(back == (a * g) / k);
    lemma_fundamental_div_mod(a * g, k);
    lemma_mod_bound(a * g, k);
    assert(back <= c && (c - back - 1) * k < g) by (nonlinear_arith)
        requires
            c * k == g * a + (c * k) % g,
            0 <= (c * k) % g < g,
            a * g == k * back + (a * g) % k,
            0 <= (a * g) % k < k,
            k > 0,
            g > 0,
    {
    }
}

/// Dry dosing: a target concentration, dosed back, is reproduced within 1000 nanograms per liter
/// (0.001 mg/l) from below, for any element fraction.
pub proof fn lemma_dry_target_dose_round_trip(c: int, f: int, vol: int)
    requires
        0 <= c,
        0 < f <= PPB,
        0 < vol,
    ensures
        0 <= c - dose_of(target_amount(c, 1, 1, f, vol), 1, 1, f, vol) <= 1000,
{
    lemma_target_dose_inverts_result(c, 1, 1, f, vol);
    let back = dose_of(target_amount(c, 1, 1, f, vol), 1, 1, f, vol);
    assert(c - back <= 1000) by (nonlinear_arith)
        requires
            (c - back - 1) * (1 * 1_000_000 * vol) < f * 1,
            f <= 1_000_000_000,
            vol >= 1,
    {
    }
}

/// Declaring MgO on top of a macro-nutrient declaration changes the blend at magnesium alone,
/// where it sets the magnesium share of the declared MgO.
pub proof fn lemma_mgo_adds_magnesium(known: KnownElements, m: MacroElements, j: int)
    requires
        m.mgo_percentage > 0,
        0 <= j < known.len(),
    ensures
        ({
            let without = MacroElements { mgo_percentage: 0, ..m };
            if Some(j) == find_name(known.names(), magnesium()) {
                &&& npk_composition(known, m)[j] == oxide_share(known, magnesium(), mgo(), m.mgo_percentage) as u64
                &&& npk_composition(known, without)[j] == 0
            } else {
                npk_composition(known, m)[j] == npk_composition(known, without)[j]
            }
        }),
{
    let names = known.names();
    if Some(j) == find_name(names, magnesium()) {
        assert(names[j] == magnesium());
        assert(magnesium()[0] != nitrogen()[0] && magnesium()[0] != phosphorus()[0] && magnesium()[0] != potassium()[0]);
        assert(Some(j) != find_name(names, nitrogen()));
        assert(Some(j) != find_name(names, phosphorus()));
        assert(Some(j) != find_name(names, potassium()));
    }
}

/// A catalog entry with neither a formula nor compounds is rejected.
pub proof fn lemma_entry_without_shape_rejected(known: KnownElements, e: CatalogEntry)
    requires
        e.formula is None,
        e.compounds is None,
    ensures
        !entry_ok(known, e),
{
}

/// The scan state after the characters of `s` from position `i` on, without the final flush
/// (a `*` counts as an ignored character here).
pub open spec fn run(names: Seq<Seq<char>>, s: Seq<char>, i: nat, st: ScanState) -> Result<ScanState, ParseFault>
    decreases s.len() - i,
{
    if i >= s.len() {
        Ok(st)
    } else {
        let c = s[i as int];
        if st.open > 0 {
            let open = if c == '(' { st.open + 1 } else { st.open };
            let close = if c == ')' { st.close + 1 } else { st.close };
            if open != close {
                run(names, s, i + 1, ScanState { acc: st.acc.push(c), open, close, ..st })
            } else {
                match parse_formula(names, st.acc) {
                    Err(f) => Err(f),
                    Ok(sub) => run(
                        names,
                        s,
                        i + 1,
                        ScanState { acc: Seq::empty(), last_sub: Some(sub), open: 0, close: 0, ..st },
                    ),
                }
            }
        } else {
            match step(names, st, c) {
                Err(f) => Err(f),
                Ok(st2) => run(names, s, i + 1, st2),
            }
        }
    }
}

/// The scan of `x` closes every group that it opens.
pub open spec fn closes_groups(names: Seq<Seq<char>>, x: Seq<char>) -> bool {
    run(names, x, 0, initial_state(names.len())) matches Ok(st) && st.open == 0
}

/// Counts fit the catalog, and the element waiting for a multiplier has been registered.
pub open spec fn counts_inv(names: Seq<Seq<char>>, st: ScanState) -> bool {
    &&& st.counts.len() == names.len()
    &&& (st.last_elt matches Some(e) ==> 0 <= e < st.counts.len() && st.counts[e] >= 1)
}

/// The accumulator never holds more than the characters read (and less, inside a group).
pub open spec fn acc_inv(st: ScanState, i: nat) -> bool {
    &&& st.acc.len() <= i
    &&& (st.open > 0 ==> st.acc.len() < i)
}

proof fn lemma_find_in_range(names: Seq<Seq<char>>, name: Seq<char>)
    ensures
        find_name(names, name) matches Some(e) ==> 0 <= e < names.len() && names[e] == name,
{
}

proof fn lemma_step_invariants(names: Seq<Seq<char>>, st: ScanState, c: char, i: nat)
    requires
        counts_inv(names, st),
        acc_inv(st, i),
        st.open == 0,
    ensures
        step(names, st, c) matches Ok(st2) ==> counts_inv(names, st2) && acc_inv(st2, i + 1),
{
    lemma_find_in_range(names, st.acc);
    match flush(st) {
        Ok((counts, fl)) => {
            let st1 = crate::formula::after_flush(st, counts, fl);
            lemma_find_in_range(names, st1.acc);
        },
        Err(_) => {},
    }
}

proof fn lemma_prefix(names: Seq<Seq<char>>, x: Seq<char>, y: Seq<char>, i: nat, st: ScanState)
    requires
        i <= x.len(),
        forall|k: int| 0 <= k < x.len() ==> x[k] != '*',
        acc_inv(st, i),
        counts_inv(names, st),
    ensures
        match run(names, x, i, st) {
            Ok(st2) => {
                &&& scan(names, x + y, i, st) == scan(names, x + y, x.len(), st2)
                &&& scan(names, x, i, st) == finish(names, st2)
                &&& counts_inv(names, st2)
            },
            Err(f) => scan(names, x, i, st) == Err::<Counts, ParseFault>(f) && scan(names, x + y, i, st) == Err::<
                Counts,
                ParseFault,
            >(f),
        },
    decreases x.len() - i,
{
    let s = x + y;
    if i < x.len() {
        let c = x[i as int];
        assert(s[i as int] == c);
        if st.open > 0 {
            let open = if c == '(' { st.open + 1 } else { st.open };
            let close = if c == ')' { st.close + 1 } else { st.close };
            if open != close {
                let st2 = ScanState { acc: st.acc.push(c), open, close, ..st };
                lemma_prefix(names, x, y, i + 1, st2);
            } else {
                match parse_formula(names, st.acc) {
                    Err(f) => {},
                    Ok(sub) => {
                        let st2 = ScanState { acc: Seq::empty(), last_sub: Some(sub), open: 0, close: 0, ..st };
                        lemma_prefix(names, x, y, i + 1, st2);
                    },
                }
            }
        } else {
            lemma_step_invariants(names, st, c, i);
            match step(names, st, c) {
                Err(f) => {},
                Ok(st2) => {
                    lemma_prefix(names, x, y, i + 1, st2);
                },
            }
        }
    }
}

/// Adding `d` times `h` to the counts before the final flush adds it to the result.
proof fn lemma_finish_shift(names: Seq<Seq<char>>, st: ScanState, h: Counts, d: u32)
    requires
        counts_inv(names, st),
        finish(names, st) matches Ok(r) && forall|j: int| 0 <= j < r.len() ==> r[j] + h[j] * d < u32::MAX,
    ensures
        merge_fits(st.counts, h, d),
        finish(names, ScanState { counts: merged(st.counts, h, d), ..st }) == Ok::<Counts, ParseFault>(
            merged(finish(names, st)->Ok_0, h, d),
        ),
{
    let c = st.counts;
    let n = c.len();
    let st2 = ScanState { counts: merged(c, h, d), ..st };
    let r = finish(names, st)->Ok_0;
    lemma_find_in_range(names, st.acc);
    assert forall|j: int| 0 <= j < n implies h[j] * d >= 0 by {
        assert(h[j] * d >= 0) by (nonlinear_arith)
            requires
                h[j] >= 0,
                d >= 0,
        {
        }
    }
    let (c1, fl) = flush(st)->Ok_0;
    let (c1b, flb) = flush(st2)->Ok_0;
    match st.last_sub {
        Some(sub) => {
            let k: u32 = match st.last_cnt {
                Some(v) => v,
                None => 1,
            };
            assert forall|j: int| 0 <= j < n implies sub[j] * k >= 0 by {
                assert(sub[j] * k >= 0) by (nonlinear_arith)
                    requires
                        sub[j] >= 0,
                        k >= 0,
                {
                }
            }
        },
        None => {},
    }
    assert(flush(st2) is Ok);
    assert(flb == fl);
    assert(c1.len() == n && c1b.len() == n);
    assert(forall|j: int| 0 <= j < n ==> c1b[j] == c1[j] + h[j] * d);
    assert(forall|j: int| 0 <= j < n ==> c[j] <= c1[j] + 1);
    if !fl && st.open == 0 && st.acc.len() > 0 {
        let e = find_name(names, st.acc)->Some_0;
        assert(c1[e] + 1 == r[e]);
        assert(add_atom(names, c1b, st.acc) == Ok::<(Counts, int), ParseFault>((c1b.update(e, (c1b[e] + 1) as u32), e)));
        assert(c1b.update(e, (c1b[e] + 1) as u32) =~= merged(r, h, d));
    } else {
        assert(c1 == r);
        assert(c1b =~= merged(r, h, d));
    }
    if all_zero(merged(r, h, d)) {
        let j = choose|j: int| 0 <= j < r.len() && r[j] != 0;
        assert(merged(r, h, d)[j] == 0);
    }
}

/// A hydrate suffix `*dY` adds `d` times the counts of `Y` to those of the formula before it,
/// wherever that formula holds no `*`, closes its groups and parses, and no count reaches the
/// 32-bit limit.
pub proof fn lemma_hydrate_adds(names: Seq<Seq<char>>, x: Seq<char>, k: char, y: Seq<char>)
    requires
        forall|i: int| 0 <= i < x.len() ==> x[i] != '*',
        is_digit(k),
        closes_groups(names, x),
        parse_formula(names, x) is Ok,
        parse_formula(names, y) is Ok,
        forall|j: int|
            0 <= j < names.len() ==> parse_formula(names, x)->Ok_0[j] + parse_formula(names, y)->Ok_0[j] * digit_value(k)
                < u32::MAX,
    ensures
        parse_formula(names, x + seq!['*', k] + y) == Ok::<Counts, ParseFault>(
            merged(parse_formula(names, x)->Ok_0, parse_formula(names, y)->Ok_0, digit_value(k)),
        ),
{
    let st0 = initial_state(names.len());
    let tail = seq!['*', k] + y;
    let s = x + tail;
    assert(x + seq!['*', k] + y =~= s);
    lemma_prefix(names, x, tail, 0, st0);
    let st = run(names, x, 0, st0)->Ok_0;
    let cx = parse_formula(names, x)->Ok_0;
    let cy = parse_formula(names, y)->Ok_0;
    let d = digit_value(k);
    assert(finish(names, st) == Ok::<Counts, ParseFault>(cx));
    assert(cx.len() == names.len()) by {
        assert(st.counts.len() == names.len());
    }
    lemma_finish_shift(names, st, cy, d);
    let rest = s.subrange(x.len() + 1 as int, s.len() as int);
    assert(s[x.len() as int] == '*');
    assert(rest =~= seq![k] + y);
    assert(crate::formula::hydrate_body(rest) =~= y);
    assert(crate::formula::hydrate_mult(rest) == d);
    assert(merge_scaled(st.counts, cy, d) == Ok::<Counts, ParseFault>(merged(st.counts, cy, d)));
}

proof fn lemma_sorted_unique(known: KnownElements, s1: Seq<int>, s2: Seq<int>)
    requires
        sorted_positions(known, s1),
        sorted_positions(known, s2),
        forall|k: int| 0 <= k < s1.len() ==> 0 <= #[trigger] s1[k] < known.len(),
        forall|k: int| 0 <= k < s2.len() ==> 0 <= #[trigger] s2[k] < known.len(),
        forall|x: int| s1.contains(x) <==> s2.contains(x),
    ensures
        s1 == s2,
    decreases s1.len(),
{
    let e = known.elements@;
    if s1.len() == 0 {
        if s2.len() > 0 {
            assert(s2.contains(s2[0]));
        }
        assert(s1 =~= s2);
    } else {
        assert(s1.contains(s1[0]));
        assert(s2.len() > 0);
        let h1 = s1[0];
        let h2 = s2[0];
        if h1 != h2 {
            assert(s2.contains(h1));
            let m = choose|m: int| 0 <= m < s2.len() && s2[m] == h1;
            assert(s1.contains(h2)) by {
                assert(s2.contains(h2));
            }
            let k = choose|k: int| 0 <= k < s1.len() && s1[k] == h2;
            assert(m > 0 && k > 0);
            assert(precedes(e[h2], e[h1]));
            assert(precedes(e[h1], e[h2]));
            lemma_precedes_order(e[h1], e[h2], e[h1]);
        }
        let t1 = s1.drop_first();
        let t2 = s2.drop_first();
        assert forall|x: int| t1.contains(x) implies t2.contains(x) by {
            let k = choose|k: int| 0 <= k < t1.len() && t1[k] == x;
            assert(s1[k + 1] == x);
            assert(s1.contains(x));
            assert(s2.contains(x));
            let m = choose|m: int| 0 <= m < s2.len() && s2[m] == x;
            if m == 0 {
                assert(precedes(e[s1[0]], e[s1[k + 1]]));
                lemma_precedes_order(e[x], e[x], e[x]);
            } else {
                assert(t2[m - 1] == x);
            }
        }
        assert forall|x: int| t2.contains(x) implies t1.contains(x) by {
            let k = choose|k: int| 0 <= k < t2.len() && t2[k] == x;
            assert(s2[k + 1] == x);
            assert(s2.contains(x));
            assert(s1.contains(x));
            let m = choose|m: int| 0 <= m < s1.len() && s1[m] == x;
            if m == 0 {
                assert(precedes(e[s2[0]], e[s2[k + 1]]));
                lemma_precedes_order(e[x], e[x], e[x]);
            } else {
                assert(t1[m - 1] == x);
            }
        }
        assert(sorted_positions(known, t1)) by {
            assert forall|a: int, b: int| 0 <= a < b < t1.len() implies precedes(e[t1[a]], e[t1[b]]) by {
                assert(t1[a] == s1[a + 1] && t1[b] == s1[b + 1]);
            }
        }
        assert(sorted_positions(known, t2)) by {
            assert forall|a: int, b: int| 0 <= a < b < t2.len() implies precedes(e[t2[a]], e[t2[b]]) by {
                assert(t2[a] == s2[a + 1] && t2[b] == s2[b + 1]);
            }
        }
        assert forall|k: int| 0 <= k < t1.len() implies 0 <= #[trigger] t1[k] < known.len() by {
            assert(t1[k] == s1[k + 1]);
        }
        assert forall|k: int| 0 <= k < t2.len() implies 0 <= #[trigger] t2[k] < known.len() by {
            assert(t2[k] == s2[k + 1]);
        }
        lemma_sorted_unique(known, t1, t2);
        assert(s1 =~= seq![h1] + t1);
        assert(s2 =~= seq![h2] + t2);
    }
}

/// Two report entries say the same: element, share, and each alias with its share.
pub open spec fn same_entry(x: ElementsConcentrationsWithAliases, y: ElementsConcentrationsWithAliases) -> bool {
    &&& same_element(x.element, y.element)
    &&& x.concentration == y.concentration
    &&& x.aliases@.len() == y.aliases@.len()
    &&& forall|t: int|
        0 <= t < x.aliases@.len() ==> (#[trigger] x.aliases@[t]).element_alias@ == y.aliases@[t].element_alias@
            && x.aliases@[t].concentration == y.aliases@[t].concentration
}

/// A fertilizer has one composition report: any two say the same, entry by entry.
pub proof fn lemma_report_unique(
    known: KnownElements,
    fr: Seq<u64>,
    present: Seq<bool>,
    a: Seq<ElementsConcentrationsWithAliases>,
    b: Seq<ElementsConcentrationsWithAliases>,
)
    requires
        is_report(known, fr, present, a),
        is_report(known, fr, present, b),
    ensures
        a.len() == b.len(),
        forall|k: int| 0 <= k < a.len() ==> same_entry(#[trigger] a[k], b[k]),
{
    let i1 = choose|idx: Seq<int>| report_indexed(known, fr, present, a, idx);
    let i2 = choose|idx: Seq<int>| report_indexed(known, fr, present, b, idx);
    assert forall|x: int| i1.contains(x) <==> i2.contains(x) by {
        if i1.contains(x) {
            let k = choose|k: int| 0 <= k < i1.len() && i1[k] == x;
            assert(reported(known, present, i1[k]));
        }
        if i2.contains(x) {
            let k = choose|k: int| 0 <= k < i2.len() && i2[k] == x;
            assert(reported(known, present, i2[k]));
        }
    }
    lemma_sorted_unique(known, i1, i2);
    assert forall|k: int| 0 <= k < a.len() implies same_entry(#[trigger] a[k], b[k]) by {
        assert(entry_matches(known, i1[k], fr[i1[k]], a[k]));
        assert(entry_matches(known, i2[k], fr[i2[k]], b[k]));
        let elt = known.elements@[i1[k]];
        assert forall|t: int| 0 <= t < a[k].aliases@.len() implies (#[trigger] a[k].aliases@[t]).element_alias@
            == b[k].aliases@[t].element_alias@ && a[k].aliases@[t].concentration == b[k].aliases@[t].concentration by {
            assert(a[k].aliases@[t].element_alias@ == elt.aliases@[t]@);
            assert(b[k].aliases@[t].element_alias@ == elt.aliases@[t]@);
        }
    }
}

/// Two dose lists say the same: element, concentration, and each alias with its concentration.
pub open spec fn same_doses(x: Seq<ElementsDosesWithAliases>, y: Seq<ElementsDosesWithAliases>) -> bool {
    &&& x.len() == y.len()
    &&& forall|k: int|
        0 <= k < x.len() ==> {
            &&& same_element((#[trigger] x[k]).element, y[k].element)
            &&& x[k].dose == y[k].dose
            &&& x[k].aliases@.len() == y[k].aliases@.len()
            &&& forall|t: int|
                0 <= t < x[k].aliases@.len() ==> (#[trigger] x[k].aliases@[t]).element_alias@ == y[k].aliases@[t].element_alias@
                    && x[k].aliases@[t].dose == y[k].aliases@[t].dose
        }
}

/// Solution dosing of `solution` micrograms through `portion / container`, and dry dosing of `dry`
/// micrograms, of one fertilizer into one tank give the same per-element and per-alias
/// concentrations whenever `solution * portion == dry * container`.
pub proof fn lemma_solution_result_is_dry_result(
    known: KnownElements,
    fr: Seq<u64>,
    present: Seq<bool>,
    rs: DiluteResult,
    rd: DiluteResult,
    solution: u64,
    portion: int,
    container: int,
    dry: u64,
    vol: int,
)
    requires
        solution * portion == dry * container,
        0 < portion,
        0 < container,
        0 < vol,
        dilute_outcome(Ok(rs), known, fr, present, solution, DiluteCalcType::ResultOfDose, None, portion, container, vol),
        dilute_outcome(Ok(rd), known, fr, present, dry, DiluteCalcType::ResultOfDose, None, 1, 1, vol),
    ensures
        same_doses(rs.elements_dose@, rd.elements_dose@),
{
    let ra = choose|rep: Seq<ElementsConcentrationsWithAliases>|
        is_report(known, fr, present, rep) && doses_match(rep, rs.elements_dose@, solution as int, portion, container, vol);
    let rb = choose|rep: Seq<ElementsConcentrationsWithAliases>|
        is_report(known, fr, present, rep) && doses_match(rep, rd.elements_dose@, dry as int, 1, 1, vol);
    lemma_report_unique(known, fr, present, ra, rb);
    assert forall|f: int| f >= 0 implies #[trigger] dose_of(solution as int, portion, container, f, vol) == dose_of(
        dry as int,
        1,
        1,
        f,
        vol,
    ) by {
        lemma_solution_dose_is_dry_dose(solution as int, portion, container, dry as int, f, vol);
    }
    let x = rs.elements_dose@;
    let y = rd.elements_dose@;
    assert forall|k: int| 0 <= k < x.len() implies {
        &&& same_element((#[trigger] x[k]).element, y[k].element)
        &&& x[k].dose == y[k].dose
        &&& x[k].aliases@.len() == y[k].aliases@.len()
        &&& forall|t: int|
            0 <= t < x[k].aliases@.len() ==> (#[trigger] x[k].aliases@[t]).element_alias@ == y[k].aliases@[t].element_alias@
                && x[k].aliases@[t].dose == y[k].aliases@[t].dose
    } by {
        assert(same_entry(ra[k], rb[k]));
        assert forall|t: int| 0 <= t < x[k].aliases@.len() implies (#[trigger] x[k].aliases@[t]).element_alias@
            == y[k].aliases@[t].element_alias@ && x[k].aliases@[t].dose == y[k].aliases@[t].dose by {
            assert(ra[k].aliases@[t].element_alias@ == rb[k].aliases@[t].element_alias@);
        }
    }
}

/// A target dose, dosed back as a result of dose with the amount it computed, gives the same
/// concentrations, and the target element (the one the token resolves to, at concentration `ce`)
/// comes back at `back` with `back <= ce` and `(ce - back - 1) * container * 1_000_000 * vol <
/// fraction * portion` (for dry dosing of an element: `ce - back <= 1000` ng/l, see
/// `lemma_dry_target_dose_round_trip`).
pub proof fn lemma_target_result_round_trip(
    known: KnownElements,
    fr: Seq<u64>,
    present: Seq<bool>,
    r1: DiluteResult,
    r2: DiluteResult,
    c: u64,
    t: String,
    portion: int,
    container: int,
    vol: int,
)
    requires
        fr.len() == known.len(),
        present.len() == known.len(),
        0 < portion,
        0 < container,
        0 < vol,
        dilute_outcome(Ok(r1), known, fr, present, c, DiluteCalcType::TargetDose, Some(t), portion, container, vol),
        dilute_outcome(Ok(r2), known, fr, present, r1.compound_dose, DiluteCalcType::ResultOfDose, None, portion, container, vol),
    ensures
        same_doses(r1.elements_dose@, r2.elements_dose@),
        resolve_target(known, t@, c as int) matches TargetResolution::Element(j, ce) && exists|k: int|
            0 <= k < r2.elements_dose@.len() && #[trigger] r2.elements_dose@[k].element.name@ == known.elements@[j].name@
                && r2.elements_dose@[k].dose <= ce && (ce - r2.elements_dose@[k].dose - 1) * (container * 1_000_000 * vol)
                < fr[j] * portion,
{
    let a = r1.compound_dose as int;
    let ra = choose|rep: Seq<ElementsConcentrationsWithAliases>|
        is_report(known, fr, present, rep) && doses_match(rep, r1.elements_dose@, a, portion, container, vol);
    let rb = choose|rep: Seq<ElementsConcentrationsWithAliases>|
        is_report(known, fr, present, rep) && doses_match(rep, r2.elements_dose@, a, portion, container, vol);
    lemma_report_unique(known, fr, present, ra, rb);
    let x = r1.elements_dose@;
    let y = r2.elements_dose@;
    assert forall|k: int| 0 <= k < x.len() implies {
        &&& same_element((#[trigger] x[k]).element, y[k].element)
        &&& x[k].dose == y[k].dose
        &&& x[k].aliases@.len() == y[k].aliases@.len()
        &&& forall|t: int|
            0 <= t < x[k].aliases@.len() ==> (#[trigger] x[k].aliases@[t]).element_alias@ == y[k].aliases@[t].element_alias@
                && x[k].aliases@[t].dose == y[k].aliases@[t].dose
    } by {
        assert(same_entry(ra[k], rb[k]));
        assert forall|t: int| 0 <= t < x[k].aliases@.len() implies (#[trigger] x[k].aliases@[t]).element_alias@
            == y[k].aliases@[t].element_alias@ && x[k].aliases@[t].dose == y[k].aliases@[t].dose by {
            assert(ra[k].aliases@[t].element_alias@ == rb[k].aliases@[t].element_alias@);
        }
    }
    let (j, ce) = match resolve_target(known, t@, c as int) {
        TargetResolution::Element(j, ce) => (j, ce),
        _ => (0, 0),
    };
    assert(resolve_target(known, t@, c as int) matches TargetResolution::Element(_, _));
    assert(reported(known, present, j));
    assert(ce >= 0) by {
        let cc = parse_formula(known.names(), t@)->Ok_0;
        let share = crate::composition::compound_fractions(cc, known)[j] as int;
        assert(c * share >= 0) by (nonlinear_arith)
            requires
                c >= 0,
                share >= 0,
        {
        }
    }
    let idx = choose|idx: Seq<int>| report_indexed(known, fr, present, rb, idx);
    assert(idx.contains(j));
    let k = choose|k: int| 0 <= k < idx.len() && idx[k] == j;
    assert(entry_matches(known, j, fr[j], rb[k]));
    lemma_target_dose_inverts_result(ce, portion, container, fr[j] as int, vol);
    assert(y[k].element.name@ == known.elements@[j].name@);
}

} // verus!
