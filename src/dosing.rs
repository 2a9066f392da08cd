use vstd::prelude::*;
use crate::composition::{
    aliases_valid, compound_fractions, copy_element, counts_presence, is_report, presence_of_counts, reported,
    same_element, CompositionError, ElementsConcentrationsWithAliases,
};
use crate::compound::{Compound, PPB};
use crate::elements::{Element, KnownElements};
use crate::fertilizer::Fertilizer;
use crate::formula::{parse_formula, ParseError, ParseFault};
use crate::order::{lemma_precedes_order, precedes, precedes_exec};
use crate::tank::Tank;

verus! {

/// What a dosing request solves for.
#[derive(Clone, Copy, Debug, PartialEq, Eq)]
pub enum DiluteCalcType {
    /// The concentrations that a given amount of fertilizer makes.
    ResultOfDose,
    /// The amount of fertilizer that makes a target concentration of one element.
    TargetDose,
}

impl Default for DiluteCalcType {
    fn default() -> (r: Self)
        ensures
            r == DiluteCalcType::ResultOfDose,
    {
        DiluteCalcType::ResultOfDose
    }
}

/// An alias's concentration in the tank, in nanograms per liter.
pub struct ElementAliasDose {
    pub element_alias: String,
    pub dose: u128,
}

/// An element's concentration in the tank (nanograms per liter), with each alias's.
pub struct ElementsDosesWithAliases {
    pub element: Element,
    pub dose: u128,
    pub aliases: Vec<ElementAliasDose>,
}

/// The outcome of a dosing calculation.
pub struct DiluteResult {
    /// Fertilizer amount in micrograms: added to the tank (dry) or dissolved in the container (solution).
    pub compound_dose: u64,
    /// Per-element concentrations, in display order.
    pub elements_dose: Vec<ElementsDosesWithAliases>,
}

/// Why a dosing calculation fails.
pub enum DoseError {
    /// The tank's usable volume is zero liters.
    InvalidTankSpec,
    /// The solution container or portion is zero milliliters.
    InvalidSolution,
    /// The fertilizer's composition report cannot be made.
    Composition(CompositionError),
    /// A target dose names no target element.
    NoTargetElement,
    /// The element that the target token resolves to is not among the fertilizer's reported
    /// elements (or the token holds no reported element).
    MissingTargetElement(String),
    /// The target token does not parse as a formula.
    InvalidTarget(ParseError),
    /// A quantity does not fit in 128 bits (or an amount in 64).
    Overflow,
}

/// Concentration (nanograms per liter) in `vol` liters of a share `f` (parts per billion) of
/// `amount` micrograms of fertilizer, of which the part `portion / container` goes in.
pub open spec fn dose_of(amount: int, portion: int, container: int, f: int, vol: int) -> int {
    amount * portion * f / (container * 1_000_000 * vol)
}

/// The amount (micrograms) of a fertilizer holding a share `f` of the target element that brings
/// `vol` liters to `c` nanograms per liter of it, when the part `portion / container` goes in.
pub open spec fn target_amount(c: int, portion: int, container: int, f: int, vol: int) -> int {
    c * 1_000_000 * vol * container / (f * portion)
}

pub open spec fn target_fits(c: int, portion: int, container: int, f: int, vol: int) -> bool {
    &&& c * 1_000_000 * vol * container <= u128::MAX
    &&& target_amount(c, portion, container, f, vol) <= u64::MAX
}

pub open spec fn den_fits(container: int, vol: int) -> bool {
    container * 1_000_000 * vol <= u128::MAX
}

/// Every element and alias concentration of the report can be computed in 128 bits.
pub open spec fn all_doses_fit(report: Seq<ElementsConcentrationsWithAliases>, amount: int, portion: int) -> bool {
    forall|k: int|
        0 <= k < report.len() ==> {
            &&& amount * portion * (#[trigger] report[k]).concentration <= u128::MAX
            &&& forall|t: int|
                0 <= t < report[k].aliases@.len() ==> amount * portion * (#[trigger] report[k].aliases@[t]).concentration
                    <= u128::MAX
        }
}

/// `doses` gives, entry by entry, the concentrations that `amount` makes of the shares in `report`.
pub open spec fn doses_match(
    report: Seq<ElementsConcentrationsWithAliases>,
    doses: Seq<ElementsDosesWithAliases>,
    amount: int,
    portion: int,
    container: int,
    vol: int,
) -> bool {
    &&& doses.len() == report.len()
    &&& forall|k: int|
        0 <= k < report.len() ==> {
            &&& same_element((#[trigger] doses[k]).element, report[k].element)
            &&& doses[k].dose == dose_of(amount, portion, container, report[k].concentration as int, vol)
            &&& doses[k].aliases@.len() == report[k].aliases@.len()
            &&& forall|t: int|
                0 <= t < report[k].aliases@.len() ==> {
                    &&& (#[trigger] doses[k].aliases@[t]).element_alias@ == report[k].aliases@[t].element_alias@
                    &&& doses[k].aliases@[t].dose == dose_of(
                        amount,
                        portion,
                        container,
                        report[k].aliases@[t].concentration as int,
                        vol,
                    )
                }
        }
}

/// `amount * portion * f / (container * 1_000_000 * vol)`, where the numerator fits.
fn dose_exec(amount: u64, portion: u32, f: u128, den: u128, Ghost(container): Ghost<int>, Ghost(vol): Ghost<int>) -> (r: Option<u128>)
    requires
        den == container * 1_000_000 * vol,
        den > 0,
    ensures
        amount * portion * f <= u128::MAX ==> r == Some(dose_of(amount as int, portion as int, container, f as int, vol) as u128),
        amount * portion * f > u128::MAX ==> r is None,
        r matches Some(v) ==> v == dose_of(amount as int, portion as int, container, f as int, vol),
{
    let a: u128 = amount as u128;
    let p: u128 = portion as u128;
    assert(a * p <= u64::MAX * u32::MAX) by (nonlinear_arith)
        requires
            a <= u64::MAX,
            p <= u32::MAX,
    {
    }
    let ap: u128 = a * p;
    match ap.checked_mul(f) {
        None => None,
        Some(num) => {
            assert(num / den <= num) by (nonlinear_arith)
                requires
                    den > 0,
                    num >= 0,
            {
            }
            Some(num / den)
        },
    }
}

/// The concentrations that `amount` micrograms make of each share in `report`.
pub fn dilute_fertilizer(
    report: &Vec<ElementsConcentrationsWithAliases>,
    amount: u64,
    portion: u32,
    den: u128,
    Ghost(container): Ghost<int>,
    Ghost(vol): Ghost<int>,
) -> (r: Option<Vec<ElementsDosesWithAliases>>)
    requires
        den == container * 1_000_000 * vol,
        den > 0,
    ensures
        r is Some <==> all_doses_fit(report@, amount as int, portion as int),
        r matches Some(d) ==> doses_match(report@, d@, amount as int, portion as int, container, vol),
{
    let mut out: Vec<ElementsDosesWithAliases> = Vec::new();
    let mut k: usize = 0;
    while k < report.len()
        invariant
            den == container * 1_000_000 * vol,
            den > 0,
            k <= report@.len(),
            out@.len() == k,
            all_doses_fit(report@.subrange(0, k as int), amount as int, portion as int),
            doses_match(report@.subrange(0, k as int), out@, amount as int, portion as int, container, vol),
        decreases report@.len() - k,
    {
        let entry = &report[k];
        let dose = match dose_exec(amount, portion, entry.concentration as u128, den, Ghost(container), Ghost(vol)) {
            Some(v) => v,
            None => {
                assert(!all_doses_fit(report@, amount as int, portion as int)) by {
                    assert(report@[k as int] == *entry);
                }
                return None;
            },
        };
        let mut aliases: Vec<ElementAliasDose> = Vec::new();
        let mut t: usize = 0;
        while t < entry.aliases.len()
            invariant
                den == container * 1_000_000 * vol,
                den > 0,
                k < report@.len(),
                *entry == report@[k as int],
                t <= entry.aliases@.len(),
                aliases@.len() == t,
                forall|u: int|
                    0 <= u < t ==> amount * portion * (#[trigger] entry.aliases@[u]).concentration <= u128::MAX,
                forall|u: int|
                    0 <= u < t ==> {
                        &&& (#[trigger] aliases@[u]).element_alias@ == entry.aliases@[u].element_alias@
                        &&& aliases@[u].dose == dose_of(
                            amount as int,
                            portion as int,
                            container,
                            entry.aliases@[u].concentration as int,
                            vol,
                        )
                    },
            decreases entry.aliases@.len() - t,
        {
            let alias = &entry.aliases[t];
            match dose_exec(amount, portion, alias.concentration, den, Ghost(container), Ghost(vol)) {
                Some(v) => {
                    aliases.push(ElementAliasDose { element_alias: alias.element_alias.clone(), dose: v });
                },
                None => {
                    assert(!all_doses_fit(report@, amount as int, portion as int)) by {
                        assert(report@[k as int].aliases@[t as int] == *alias);
                    }
                    return None;
                },
            }
            t += 1;
        }
        let ghost prev = out@;
        out.push(ElementsDosesWithAliases { element: copy_element(&entry.element), dose, aliases });
        proof {
            let rk = report@.subrange(0, k as int + 1);
            assert(rk =~= report@.subrange(0, k as int).push(*entry));
            assert(all_doses_fit(rk, amount as int, portion as int)) by {
                assert forall|q: int| 0 <= q < rk.len() implies {
                    &&& amount * portion * (#[trigger] rk[q]).concentration <= u128::MAX
                    &&& forall|t: int|
                        0 <= t < rk[q].aliases@.len() ==> amount * portion * (#[trigger] rk[q].aliases@[t]).concentration
                            <= u128::MAX
                } by {
                    if q < k {
                        assert(rk[q] == report@.subrange(0, k as int)[q]);
                    }
                }
            }
            assert(doses_match(rk, out@, amount as int, portion as int, container, vol)) by {
                assert forall|q: int| 0 <= q < rk.len() implies {
                    &&& same_element((#[trigger] out@[q]).element, rk[q].element)
                    &&& out@[q].dose == dose_of(amount as int, portion as int, container, rk[q].concentration as int, vol)
                    &&& out@[q].aliases@.len() == rk[q].aliases@.len()
                    &&& forall|t: int|
                        0 <= t < rk[q].aliases@.len() ==> {
                            &&& (#[trigger] out@[q].aliases@[t]).element_alias@ == rk[q].aliases@[t].element_alias@
                            &&& out@[q].aliases@[t].dose == dose_of(
                                amount as int,
                                portion as int,
                                container,
                                rk[q].aliases@[t].concentration as int,
                                vol,
                            )
                        }
                } by {
                    if q < k {
                        assert(rk[q] == report@.subrange(0, k as int)[q]);
                        assert(out@[q] == prev[q]);
                    }
                }
            }
        }
        k += 1;
    }
    assert(report@.subrange(0, report@.len() as int) =~= report@);
    Some(out)
}

/// What a request asks of the fertilizer amount, before the per-element concentrations.
pub enum AmountPlan {
    /// This many micrograms.
    Amount(int),
    /// A target dose without a target element.
    NoTarget,
    /// The target element is not reported for the fertilizer.
    MissingTarget,
    /// The target token does not parse.
    InvalidTarget(ParseFault),
    /// The amount does not fit.
    TooLarge,
}

/// The fertilizer amount of a request: the input itself, or the amount that makes the target
/// concentration `input` (nanograms per liter of the target token's molecule) of the element that
/// the token resolves to.
pub open spec fn amount_for(
    known: KnownElements,
    fr: Seq<u64>,
    present: Seq<bool>,
    input: u64,
    what: DiluteCalcType,
    target: Option<String>,
    portion: int,
    container: int,
    vol: int,
) -> AmountPlan {
    match what {
        DiluteCalcType::ResultOfDose => AmountPlan::Amount(input as int),
        DiluteCalcType::TargetDose => match target {
            None => AmountPlan::NoTarget,
            Some(t) => match resolve_target(known, t@, input as int) {
                TargetResolution::Unparsed(f) => AmountPlan::InvalidTarget(f),
                TargetResolution::NoElement => AmountPlan::MissingTarget,
                TargetResolution::Element(j, ce) => if reported(known, present, j) {
                    if fr[j] > 0 && target_fits(ce, portion, container, fr[j] as int, vol) {
                        AmountPlan::Amount(target_amount(ce, portion, container, fr[j] as int, vol))
                    } else {
                        AmountPlan::TooLarge
                    }
                } else {
                    AmountPlan::MissingTarget
                },
            },
        },
    }
}

/// Every reported element's aliases re-express it.
pub open spec fn composition_ok(known: KnownElements, present: Seq<bool>) -> bool {
    forall|j: int| 0 <= j < known.len() && reported(known, present, j) ==> aliases_valid(known, j)
}

/// The outcome of a request on `vol` liters, where the part `portion / container` of the amount goes in.
pub open spec fn dilute_outcome(
    r: Result<DiluteResult, DoseError>,
    known: KnownElements,
    fr: Seq<u64>,
    present: Seq<bool>,
    input: u64,
    what: DiluteCalcType,
    target: Option<String>,
    portion: int,
    container: int,
    vol: int,
) -> bool {
    let plan = amount_for(known, fr, present, input, what, target, portion, container, vol);
    let ok = composition_ok(known, present);
    &&& (r matches Err(DoseError::Composition(_))) <==> !ok
    &&& (r matches Err(DoseError::NoTargetElement)) <==> ok && plan is NoTarget
    &&& (r matches Err(DoseError::MissingTargetElement(_))) <==> ok && plan is MissingTarget
    &&& (r matches Err(DoseError::MissingTargetElement(s)) ==> target matches Some(t) && s@ == t@)
    &&& (r matches Err(DoseError::InvalidTarget(_))) <==> ok && plan is InvalidTarget
    &&& (r matches Err(DoseError::InvalidTarget(e)) ==> plan matches AmountPlan::InvalidTarget(f) && e@ == f)
    &&& (r is Ok ==> {
        &&& ok
        &&& plan matches AmountPlan::Amount(a)
        &&& r->Ok_0.compound_dose == a
        &&& exists|rep: Seq<ElementsConcentrationsWithAliases>|
            is_report(known, fr, present, rep) && doses_match(rep, r->Ok_0.elements_dose@, a, portion, container, vol)
    })
    &&& (r matches Err(DoseError::Overflow) ==> ok && (plan is TooLarge || (plan matches AmountPlan::Amount(a) && (
    !den_fits(container, vol) || exists|rep: Seq<ElementsConcentrationsWithAliases>|
        is_report(known, fr, present, rep) && !all_doses_fit(rep, a, portion)))))
    &&& (ok && (plan matches AmountPlan::Amount(a) && den_fits(container, vol) && forall|
        rep: Seq<ElementsConcentrationsWithAliases>,
    | is_report(known, fr, present, rep) ==> all_doses_fit(rep, a, portion)) ==> r is Ok)
    &&& !(r matches Err(DoseError::InvalidTankSpec))
    &&& !(r matches Err(DoseError::InvalidSolution))
}

/// `target_amount`, where it fits.
fn target_amount_exec(c: u64, portion: u32, container: u32, f: u64, vol: u128) -> (r: Option<u64>)
    requires
        portion > 0,
        container > 0,
        f > 0,
        vol > 0,
    ensures
        target_fits(c as int, portion as int, container as int, f as int, vol as int) ==> r == Some(
            target_amount(c as int, portion as int, container as int, f as int, vol as int) as u64,
        ),
        !target_fits(c as int, portion as int, container as int, f as int, vol as int) ==> r is None,
        r matches Some(a) ==> a == target_amount(c as int, portion as int, container as int, f as int, vol as int),
{
    let c1: u128 = c as u128 * 1_000_000;
    let c2: u128 = match c1.checked_mul(vol) {
        Some(v) => v,
        None => {
            assert(c1 * vol * container >= c1 * vol) by (nonlinear_arith)
                requires
                    container >= 1,
                    c1 * vol >= 0,
            {
            }
            return None;
        },
    };
    let num: u128 = match c2.checked_mul(container as u128) {
        Some(v) => v,
        None => {
            return None;
        },
    };
    assert(f * portion <= u64::MAX * u32::MAX) by (nonlinear_arith)
        requires
            f <= u64::MAX,
            portion <= u32::MAX,
    {
    }
    assert(f * portion > 0) by (nonlinear_arith)
        requires
            f > 0,
            portion > 0,
    {
    }
    let den: u128 = f as u128 * portion as u128;
    let a: u128 = num / den;
    if a > u64::MAX as u128 {
        return None;
    }
    Some(a as u64)
}

/// The dosing engine: `input` is micrograms of fertilizer, or, for a target dose, the target
/// element's concentration in nanograms per liter; the part `portion / container` reaches the tank.
fn dilute_with(
    fertilizer: &Fertilizer,
    known: &KnownElements,
    vol: u128,
    input: u64,
    what: DiluteCalcType,
    target: &Option<String>,
    portion: u32,
    container: u32,
) -> (r: Result<DiluteResult, DoseError>)
    requires
        known.wf(),
        fertilizer.wf(known),
        vol > 0,
        portion > 0,
        container > 0,
    ensures
        dilute_outcome(
            r,
            *known,
            fertilizer.fractions(*known),
            fertilizer.presence(),
            input,
            what,
            *target,
            portion as int,
            container as int,
            vol as int,
        ),
{
    let ghost fr_s = fertilizer.fractions(*known);
    let ghost present_s = fertilizer.presence();
    let report = match fertilizer.components_percentage(known) {
        Ok(rep) => rep,
        Err(e) => {
            return Err(DoseError::Composition(e));
        },
    };
    let ghost plan = amount_for(*known, fr_s, present_s, input, what, *target, portion as int, container as int, vol as int);
    let amount: u64 = match what {
        DiluteCalcType::ResultOfDose => input,
        DiluteCalcType::TargetDose => {
            let t = match target {
                None => {
                    return Err(DoseError::NoTargetElement);
                },
                Some(t) => t,
            };
            let (j, ce) = match resolve_target_exec(known, t.as_str(), input) {
                Err(TargetError::Parse(e)) => {
                    return Err(DoseError::InvalidTarget(e));
                },
                Err(TargetError::NoElement) => {
                    return Err(DoseError::MissingTargetElement(t.clone()));
                },
                Ok(p) => p,
            };
            let fr = fertilizer.fractions_exec(known);
            let present = fertilizer.presence_exec();
            if !present[j] || known.elements[j].insignificant {
                return Err(DoseError::MissingTargetElement(t.clone()));
            }
            if fr[j] == 0 {
                return Err(DoseError::Overflow);
            }
            match target_amount_exec(ce, portion, container, fr[j], vol) {
                None => {
                    return Err(DoseError::Overflow);
                },
                Some(a) => a,
            }
        },
    };
    assert(plan matches AmountPlan::Amount(a) && a == amount);
    let c1: u128 = container as u128 * 1_000_000;
    let den: u128 = match c1.checked_mul(vol) {
        Some(d) => d,
        None => {
            return Err(DoseError::Overflow);
        },
    };
    assert(den > 0) by (nonlinear_arith)
        requires
            den == container * 1_000_000 * vol,
            container > 0,
            vol > 0,
    {
    }
    match dilute_fertilizer(&report, amount, portion, den, Ghost(container as int), Ghost(vol as int)) {
        None => {
            return Err(DoseError::Overflow);
        },
        Some(doses) => {
            assert(is_report(*known, fr_s, present_s, report@) && doses_match(report@, doses@, amount as int, portion as int, container as int, vol as int));
            Ok(DiluteResult { compound_dose: amount, elements_dose: doses })
        },
    }
}

/// Dry dosing: fertilizer added straight to the tank.
pub struct DryDosing {
    /// Micrograms of fertilizer, or, for a target dose, the target concentration of the target
    /// token in nanograms per liter.
    pub dilute_input: u64,
    pub what: DiluteCalcType,
    /// The element or molecule (e.g. `N` or `NO3`) whose concentration a target dose sets.
    pub target_element: Option<String>,
}

impl DryDosing {
    /// Doses `fertilizer` into `tank`.
    pub fn dilute(&self, fertilizer: &Fertilizer, known: &KnownElements, tank: &Tank) -> (r: Result<DiluteResult, DoseError>)
        requires
            known.wf(),
            fertilizer.wf(known),
        ensures
            (r matches Err(DoseError::InvalidTankSpec)) <==> tank.spec_effective_volume() == 0,
            tank.spec_effective_volume() > 0 ==> dilute_outcome(
                r,
                *known,
                fertilizer.fractions(*known),
                fertilizer.presence(),
                self.dilute_input,
                self.what,
                self.target_element,
                1,
                1,
                tank.spec_effective_volume(),
            ),
    {
        let vol = tank.effective_volume();
        if vol == 0 {
            return Err(DoseError::InvalidTankSpec);
        }
        dilute_with(fertilizer, known, vol, self.dilute_input, self.what, &self.target_element, 1, 1)
    }
}

/// Solution dosing: fertilizer dissolved in a container, of which a portion goes to the tank.
pub struct SolutionDosing {
    /// Container volume in milliliters.
    pub container_volume: u32,
    /// Portion volume in milliliters.
    pub portion_volume: u32,
    /// Micrograms dissolved, or, for a target dose, the target concentration of the target token in
    /// nanograms per liter.
    pub dose: u64,
    pub what: DiluteCalcType,
    /// The element or molecule (e.g. `N` or `NO3`) whose concentration a target dose sets.
    pub target_element: Option<String>,
}

impl SolutionDosing {
    /// Doses a portion of a solution of `fertilizer` into `tank`.
    pub fn dilute(&self, fertilizer: &Fertilizer, known: &KnownElements, tank: &Tank) -> (r: Result<DiluteResult, DoseError>)
        requires
            known.wf(),
            fertilizer.wf(known),
        ensures
            (r matches Err(DoseError::InvalidTankSpec)) <==> tank.spec_effective_volume() == 0,
            (r matches Err(DoseError::InvalidSolution)) <==> tank.spec_effective_volume() > 0 && (
            self.container_volume == 0 || self.portion_volume == 0),
            tank.spec_effective_volume() > 0 && self.container_volume > 0 && self.portion_volume > 0 ==> dilute_outcome(
                r,
                *known,
                fertilizer.fractions(*known),
                fertilizer.presence(),
                self.dose,
                self.what,
                self.target_element,
                self.portion_volume as int,
                self.container_volume as int,
                tank.spec_effective_volume(),
            ),
    {
        let vol = tank.effective_volume();
        if vol == 0 {
            return Err(DoseError::InvalidTankSpec);
        }
        if self.container_volume == 0 || self.portion_volume == 0 {
            return Err(DoseError::InvalidSolution);
        }
        dilute_with(
            fertilizer,
            known,
            vol,
            self.dose,
            self.what,
            &self.target_element,
            self.portion_volume,
            self.container_volume,
        )
    }
}

/// Element `j` is the first reported one in display order.
pub open spec fn leads(known: KnownElements, present: Seq<bool>, j: int) -> bool {
    &&& 0 <= j < known.len()
    &&& reported(known, present, j)
    &&& forall|k: int|
        0 <= k < known.len() && reported(known, present, k) && k != j ==> precedes(known.elements@[j], known.elements@[k])
}

/// The first reported element in display order, if any element is reported.
pub open spec fn first_reported(known: KnownElements, present: Seq<bool>) -> Option<int> {
    if exists|j: int| leads(known, present, j) {
        Some(choose|j: int| leads(known, present, j))
    } else {
        None
    }
}

/// What a target token (an element or a molecule such as `NO3`) resolves to.
pub enum TargetResolution {
    /// The token does not parse.
    Unparsed(ParseFault),
    /// The token holds no reported element.
    NoElement,
    /// The token's first reported element, and the concentration of it in nanograms per liter.
    Element(int, int),
}

/// A concentration `conc` (nanograms per liter) of the molecule `token`, as a concentration of the
/// token's first reported element: `conc` times that element's share in the molecule.
pub open spec fn resolve_target(known: KnownElements, token: Seq<char>, conc: int) -> TargetResolution {
    match parse_formula(known.names(), token) {
        Err(f) => TargetResolution::Unparsed(f),
        Ok(c) => match first_reported(known, counts_presence(c)) {
            None => TargetResolution::NoElement,
            Some(j) => TargetResolution::Element(j, conc * compound_fractions(c, known)[j] / PPB as int),
        },
    }
}

/// `first_reported`, computed.
fn first_reported_exec(known: &KnownElements, present: &Vec<bool>) -> (r: Option<usize>)
    requires
        known.wf(),
        present@.len() == known.len(),
    ensures
        match r {
            Some(i) => i < known.len() && first_reported(*known, present@) == Some(i as int),
            None => first_reported(*known, present@) is None,
        },
{
    let n = present.len();
    let mut best: Option<usize> = None;
    let mut j: usize = 0;
    while j < n
        invariant
            known.wf(),
            n == known.len(),
            n == present@.len(),
            j <= n,
            best is None ==> forall|a: int| 0 <= a < j ==> !reported(*known, present@, a),
            best matches Some(b) ==> {
                &&& b < j
                &&& reported(*known, present@, b as int)
                &&& forall|a: int|
                    0 <= a < j && reported(*known, present@, a) && a != b ==> precedes(
                        known.elements@[b as int],
                        known.elements@[a],
                    )
            },
        decreases n - j,
    {
        if present[j] && !known.elements[j].insignificant {
            match best {
                None => {
                    best = Some(j);
                },
                Some(b) => {
                    if precedes_exec(&known.elements[j], &known.elements[b]) {
                        proof {
                            assert forall|a: int|
                                0 <= a < j + 1 && reported(*known, present@, a) && a != j implies precedes(
                                known.elements@[j as int],
                                known.elements@[a],
                            ) by {
                                if a != b {
                                    lemma_precedes_order(
                                        known.elements@[j as int],
                                        known.elements@[b as int],
                                        known.elements@[a],
                                    );
                                }
                            }
                        }
                        best = Some(j);
                    } else {
                        proof {
                            lemma_precedes_order(known.elements@[j as int], known.elements@[b as int], known.elements@[b as int]);
                            assert(known.elements@[j as int].name@ != known.elements@[b as int].name@);
                        }
                    }
                },
            }
        }
        j += 1;
    }
    match best {
        None => {
            assert(!exists|i: int| leads(*known, present@, i));
            None
        },
        Some(b) => {
            proof {
                assert(leads(*known, present@, b as int));
                let c = choose|i: int| leads(*known, present@, i);
                if c != b as int {
                    lemma_precedes_order(known.elements@[c], known.elements@[b as int], known.elements@[c]);
                }
            }
            Some(b)
        },
    }
}

/// Why a target token cannot be resolved to an element.
pub enum TargetError {
    /// The token does not parse.
    Parse(ParseError),
    /// The token holds no reported element.
    NoElement,
}

/// `resolve_target`, computed: the element's position and its concentration.
fn resolve_target_exec(known: &KnownElements, token: &str, conc: u64) -> (r: Result<(usize, u64), TargetError>)
    requires
        known.wf(),
    ensures
        match resolve_target(*known, token@, conc as int) {
            TargetResolution::Unparsed(f) => r matches Err(TargetError::Parse(e)) && e@ == f,
            TargetResolution::NoElement => r matches Err(TargetError::NoElement),
            TargetResolution::Element(j, ce) => r matches Ok((i, v)) && i as int == j && v as int == ce && j
                < known.len(),
        },
{
    let molecule = match Compound::new(token, known) {
        Ok(c) => c,
        Err(e) => {
            return Err(TargetError::Parse(e));
        },
    };
    let present = presence_of_counts(&molecule.elements);
    let j = match first_reported_exec(known, &present) {
        None => {
            return Err(TargetError::NoElement);
        },
        Some(j) => j,
    };
    let f = molecule.fraction_at(known, j);
    proof {
        assert(compound_fractions(molecule.elements@, *known)[j as int] == f);
    }
    assert(conc * f <= u64::MAX * PPB) by (nonlinear_arith)
        requires
            conc <= u64::MAX,
            f <= PPB,
    {
    }
    let v: u128 = conc as u128 * f as u128 / PPB as u128;
    assert(v <= u64::MAX) by (nonlinear_arith)
        requires
            v == conc * f / PPB as int,
            f <= PPB,
            conc <= u64::MAX,
    {
    }
    Ok((j, v as u64))
}

/// Resolves a target given as an element or a molecule or ion (e.g. `NO3`) to the token's first
/// reported element in display order, and converts `concentration` (nanograms per liter of the
/// token's molecule) into that element's.
pub fn element_dose_target(token: &str, concentration: u64, known: &KnownElements) -> (r: Result<(String, u64), TargetError>)
    requires
        known.wf(),
    ensures
        match resolve_target(*known, token@, concentration as int) {
            TargetResolution::Unparsed(f) => r matches Err(TargetError::Parse(e)) && e@ == f,
            TargetResolution::NoElement => r matches Err(TargetError::NoElement),
            TargetResolution::Element(j, ce) => r matches Ok((name, v)) && name@ == known.names()[j] && v == ce,
        },
{
    match resolve_target_exec(known, token, concentration) {
        Err(e) => Err(e),
        Ok((j, v)) => Ok((known.elements[j].name.clone(), v)),
    }
}

} // verus!
