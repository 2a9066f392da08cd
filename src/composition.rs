use vstd::prelude::*;
use crate::compound::{element_fraction_of, lemma_molar_mass_bounds, molar_mass_of, Compound, PPB};
use crate::elements::{chars_of, find_name, Element, KnownElements};
use crate::formula::{parse_formula, ParseError};
use crate::order::{lemma_precedes_order, precedes, precedes_exec, sorted_positions};

verus! {

/// The fraction of the alias molecule that carries an element fraction `f` of element `j`:
/// `f` times the alias's molar mass over the mass of element `j` in one alias molecule.
/// `None` where the alias does not parse or lacks the element.
pub open spec fn alias_fraction(known: KnownElements, j: int, alias: Seq<char>, f: int) -> Option<int> {
    match parse_formula(known.names(), alias) {
        Ok(c) => if c[j] > 0 {
            Some(f * molar_mass_of(c, known) / (c[j] * known.mass(j)))
        } else {
            None
        },
        Err(_) => None,
    }
}

/// Why an alias cannot re-express an element.
pub enum AliasError {
    /// The alias formula does not parse.
    InvalidFormula(ParseError),
    /// The alias molecule does not hold the element.
    MissingElement,
}

impl Element {
    /// The mass fraction (parts per billion) of this element in the molecule `alias`.
    pub fn element_from_alias_rate(&self, alias: &str, known: &KnownElements) -> (r: Result<u64, AliasError>)
        requires
            known.wf(),
        ensures
            match parse_formula(known.names(), alias@) {
                Err(f) => r matches Err(AliasError::InvalidFormula(e)) && e@ == f,
                Ok(c) => match find_name(known.names(), self.name@) {
                    Some(j) if c[j] > 0 => r == Ok::<u64, AliasError>(element_fraction_of(c, *known, j) as u64),
                    _ => r matches Err(AliasError::MissingElement),
                },
            },
    {
        let molecule = match Compound::new(alias, known) {
            Ok(c) => c,
            Err(e) => {
                return Err(AliasError::InvalidFormula(e));
            },
        };
        match molecule.element_fraction(known, self) {
            Some(f) => Ok(f),
            None => Err(AliasError::MissingElement),
        }
    }

    /// How many parts per billion of the molecule `alias` one whole of this element makes.
    pub fn element_to_alias_rate(&self, alias: &str, known: &KnownElements) -> (r: Result<u128, AliasError>)
        requires
            known.wf(),
        ensures
            match find_name(known.names(), self.name@) {
                Some(j) => match alias_fraction(*known, j, alias@, PPB as int) {
                    Some(v) => r == Ok::<u128, AliasError>(v as u128),
                    None => r is Err,
                },
                None => r is Err,
            },
    {
        let name = chars_of(self.name.as_str());
        match known.find(&name) {
            None => Err(AliasError::MissingElement),
            Some(j) => match alias_fraction_exec(known, j, alias, PPB) {
                Some(v) => Ok(v),
                None => Err(AliasError::MissingElement),
            },
        }
    }
}

/// `alias_fraction`, computed.
pub fn alias_fraction_exec(known: &KnownElements, j: usize, alias: &str, f: u64) -> (r: Option<u128>)
    requires
        known.wf(),
        j < known.len(),
        f <= PPB,
    ensures
        match alias_fraction(*known, j as int, alias@, f as int) {
            Some(v) => r == Some(v as u128) && 0 <= v <= u128::MAX,
            None => r is None,
        },
{
    let molecule = match Compound::new(alias, known) {
        Ok(c) => c,
        Err(_) => {
            return None;
        },
    };
    if molecule.elements[j] == 0 {
        return None;
    }
    let total = molecule.molar_mass(known);
    proof {
        lemma_molar_mass_bounds(molecule.elements@, *known);
    }
    assert(f * total <= 1_000_000_000 * (u32::MAX * u64::MAX)) by (nonlinear_arith)
        requires
            f <= 1_000_000_000,
            total <= u32::MAX * u64::MAX,
    {
    }
    let num: u128 = f as u128 * total;
    let cnt: u128 = molecule.elements[j] as u128;
    let mass: u128 = known.elements[j].molar_mass as u128;
    assert(cnt * mass <= u32::MAX * u64::MAX) by (nonlinear_arith)
        requires
            cnt <= u32::MAX,
            mass <= u64::MAX,
    {
    }
    assert(cnt * mass > 0) by (nonlinear_arith)
        requires
            cnt > 0,
            mass > 0,
    {
    }
    let den: u128 = cnt * mass;
    assert(num / den <= num) by (nonlinear_arith)
        requires
            den > 0,
            num >= 0,
    {
    }
    Some(num / den)
}

/// An element's share of a fertilizer, in parts per billion.
pub struct ElementConcentrationAlias {
    /// The alias formula.
    pub element_alias: String,
    /// Share of the fertilizer expressed as the alias molecule, in parts per billion.
    pub concentration: u128,
}

/// One element of a composition report, with its share expressed through each alias.
pub struct ElementsConcentrationsWithAliases {
    pub element: Element,
    /// Mass fraction in parts per billion.
    pub concentration: u64,
    pub aliases: Vec<ElementConcentrationAlias>,
}

/// Why a composition report cannot be made.
pub enum CompositionError {
    /// This alias of a reported element does not parse or lacks the element.
    InvalidAlias(String),
}

/// Field-by-field equality of elements.
pub open spec fn same_element(a: Element, b: Element) -> bool {
    &&& a.name@ == b.name@
    &&& a.molar_mass == b.molar_mass
    &&& a.insignificant == b.insignificant
    &&& a.priority == b.priority
    &&& a.aliases@ == b.aliases@
}

/// A copy of an element.
pub fn copy_element(e: &Element) -> (r: Element)
    ensures
        same_element(r, *e),
{
    let mut aliases: Vec<String> = Vec::new();
    let mut t: usize = 0;
    while t < e.aliases.len()
        invariant
            t <= e.aliases@.len(),
            aliases@ == e.aliases@.subrange(0, t as int),
        decreases e.aliases@.len() - t,
    {
        aliases.push(e.aliases[t].clone());
        t += 1;
        assert(aliases@ =~= e.aliases@.subrange(0, t as int));
    }
    assert(aliases@ =~= e.aliases@);
    Element {
        name: e.name.clone(),
        molar_mass: e.molar_mass,
        insignificant: e.insignificant,
        priority: e.priority,
        aliases,
    }
}

/// Element `j` is reported: it is present and significant.
pub open spec fn reported(known: KnownElements, present: Seq<bool>, j: int) -> bool {
    present[j] && !known.elements@[j].insignificant
}

/// Every alias of element `j` re-expresses it.
pub open spec fn aliases_valid(known: KnownElements, j: int) -> bool {
    forall|t: int|
        0 <= t < known.elements@[j].aliases@.len() ==> (#[trigger] alias_fraction(
            known,
            j,
            known.elements@[j].aliases@[t]@,
            0,
        )) is Some
}

/// `e` reports element `j` at fraction `f`, with each alias's share.
pub open spec fn entry_matches(known: KnownElements, j: int, f: u64, e: ElementsConcentrationsWithAliases) -> bool {
    let elt = known.elements@[j];
    &&& same_element(e.element, elt)
    &&& e.concentration == f
    &&& e.aliases@.len() == elt.aliases@.len()
    &&& forall|t: int|
        0 <= t < elt.aliases@.len() ==> {
            &&& (#[trigger] e.aliases@[t]).element_alias@ == elt.aliases@[t]@
            &&& alias_fraction(known, j, elt.aliases@[t]@, f as int) == Some(e.aliases@[t].concentration as int)
        }
}

/// `out` reports, through the positions `idx`, each reported element once, in display order.
pub open spec fn report_indexed(
    known: KnownElements,
    fr: Seq<u64>,
    present: Seq<bool>,
    out: Seq<ElementsConcentrationsWithAliases>,
    idx: Seq<int>,
) -> bool {
    &&& idx.len() == out.len()
    &&& forall|k: int| 0 <= k < idx.len() ==> 0 <= #[trigger] idx[k] < known.len()
    &&& forall|k: int| 0 <= k < idx.len() ==> reported(known, present, #[trigger] idx[k])
    &&& forall|k: int| 0 <= k < idx.len() ==> entry_matches(known, idx[k], fr[idx[k]], #[trigger] out[k])
    &&& forall|j: int| 0 <= j < known.len() && reported(known, present, j) ==> idx.contains(j)
    &&& sorted_positions(known, idx)
}

/// The composition report of fractions `fr` (one per catalog position, parts per billion) over
/// the elements marked present in `present`.
pub open spec fn is_report(
    known: KnownElements,
    fr: Seq<u64>,
    present: Seq<bool>,
    out: Seq<ElementsConcentrationsWithAliases>,
) -> bool {
    exists|idx: Seq<int>| report_indexed(known, fr, present, out, idx)
}

/// The report entry of element `j` at fraction `f`.
fn build_entry(known: &KnownElements, j: usize, f: u64) -> (r: Result<ElementsConcentrationsWithAliases, CompositionError>)
    requires
        known.wf(),
        j < known.len(),
        f <= PPB,
    ensures
        r is Ok <==> aliases_valid(*known, j as int),
        r is Ok ==> entry_matches(*known, j as int, f, r->Ok_0),
{
    let elt = &known.elements[j];
    let mut aliases: Vec<ElementConcentrationAlias> = Vec::new();
    let mut t: usize = 0;
    while t < elt.aliases.len()
        invariant
            known.wf(),
            j < known.len(),
            f <= PPB,
            elt == known.elements@[j as int],
            t <= elt.aliases@.len(),
            aliases@.len() == t,
            forall|u: int| 0 <= u < t ==> (#[trigger] alias_fraction(*known, j as int, elt.aliases@[u]@, 0)) is Some,
            forall|u: int|
                0 <= u < t ==> {
                    &&& (#[trigger] aliases@[u]).element_alias@ == elt.aliases@[u]@
                    &&& alias_fraction(*known, j as int, elt.aliases@[u]@, f as int) == Some(aliases@[u].concentration as int)
                },
        decreases elt.aliases@.len() - t,
    {
        let alias = &elt.aliases[t];
        match alias_fraction_exec(known, j, alias.as_str(), f) {
            None => {
                assert(alias_fraction(*known, j as int, elt.aliases@[t as int]@, 0) is None);
                return Err(CompositionError::InvalidAlias(alias.clone()));
            },
            Some(v) => {
                assert(alias_fraction(*known, j as int, elt.aliases@[t as int]@, 0) is Some);
                let ghost before = aliases@;
                aliases.push(ElementConcentrationAlias { element_alias: alias.clone(), concentration: v });
                assert(forall|u: int| 0 <= u < t ==> aliases@[u] == before[u]);
                assert(aliases@[t as int].element_alias@ == elt.aliases@[t as int]@);
                assert(alias_fraction(*known, j as int, elt.aliases@[t as int]@, f as int) == Some(
                    aliases@[t as int].concentration as int,
                ));
            },
        }
        t += 1;
    }
    Ok(ElementsConcentrationsWithAliases { element: copy_element(elt), concentration: f, aliases })
}

/// Where element `j` goes among the entries `out`, listed in display order.
fn insert_position(known: &KnownElements, j: usize, out: &Vec<ElementsConcentrationsWithAliases>, Ghost(idx): Ghost<Seq<int>>) -> (p: usize)
    requires
        known.wf(),
        j < known.len(),
        idx.len() == out@.len(),
        forall|k: int| 0 <= k < idx.len() ==> 0 <= #[trigger] idx[k] < known.len(),
        forall|k: int| 0 <= k < idx.len() ==> same_element((#[trigger] out@[k]).element, known.elements@[idx[k]]),
    ensures
        p <= out@.len(),
        forall|k: int| 0 <= k < p ==> !precedes(known.elements@[j as int], known.elements@[#[trigger] idx[k]]),
        p < out@.len() ==> precedes(known.elements@[j as int], known.elements@[idx[p as int]]),
{
    let mut p: usize = 0;
    while p < out.len()
        invariant
            j < known.elements@.len(),
            p <= out@.len(),
            idx.len() == out@.len(),
            forall|k: int| 0 <= k < idx.len() ==> same_element((#[trigger] out@[k]).element, known.elements@[idx[k]]),
            forall|k: int| 0 <= k < p ==> !precedes(known.elements@[j as int], known.elements@[#[trigger] idx[k]]),
        decreases out@.len() - p,
    {
        if precedes_exec(&known.elements[j], &out[p].element) {
            return p;
        }
        p += 1;
    }
    p
}

/// The composition report for the fractions `fractions` (one per catalog position, parts per
/// billion): each present, significant element with its share through each alias, in display order.
pub fn composition_report(
    known: &KnownElements,
    fractions: &Vec<u64>,
    present: &Vec<bool>,
) -> (r: Result<Vec<ElementsConcentrationsWithAliases>, CompositionError>)
    requires
        known.wf(),
        fractions@.len() == known.len(),
        present@.len() == known.len(),
        forall|j: int| 0 <= j < fractions@.len() ==> fractions@[j] <= PPB,
    ensures
        r is Ok <==> forall|j: int| 0 <= j < known.len() && reported(*known, present@, j) ==> aliases_valid(*known, j),
        r is Ok ==> is_report(*known, fractions@, present@, r->Ok_0@),
{
    let n = fractions.len();
    let mut out: Vec<ElementsConcentrationsWithAliases> = Vec::new();
    let ghost mut idx: Seq<int> = Seq::empty();
    let mut j: usize = 0;
    while j < n
        invariant
            known.wf(),
            n == known.len(),
            n == fractions@.len(),
            n == present@.len(),
            forall|a: int| 0 <= a < fractions@.len() ==> fractions@[a] <= PPB,
            j <= n,
            idx.len() == out@.len(),
            forall|k: int| 0 <= k < idx.len() ==> 0 <= #[trigger] idx[k] < j,
            forall|k: int| 0 <= k < idx.len() ==> reported(*known, present@, #[trigger] idx[k]),
            forall|k: int| 0 <= k < idx.len() ==> entry_matches(*known, idx[k], fractions@[idx[k]], #[trigger] out@[k]),
            forall|a: int| 0 <= a < j && reported(*known, present@, a) ==> idx.contains(a),
            forall|a: int| 0 <= a < j && reported(*known, present@, a) ==> aliases_valid(*known, a),
            sorted_positions(*known, idx),
        decreases n - j,
    {
        let f = fractions[j];
        if present[j] && !known.elements[j].insignificant {
            let entry = match build_entry(known, j, f) {
                Ok(e) => e,
                Err(e) => {
                    return Err(e);
                },
            };
            let p = insert_position(known, j, &out, Ghost(idx));
            let ghost old_idx = idx;
            proof {
                let x = known.elements@[j as int];
                assert forall|a: int, b: int| 0 <= a < b < old_idx.len() + 1 implies precedes(
                    known.elements@[old_idx.insert(p as int, j as int)[a]],
                    known.elements@[old_idx.insert(p as int, j as int)[b]],
                ) by {
                    let ni = old_idx.insert(p as int, j as int);
                    if a == p {
                        if b > p + 1 {
                            lemma_precedes_order(x, known.elements@[old_idx[p as int]], known.elements@[ni[b]]);
                        }
                    } else if b == p {
                        let y = known.elements@[ni[a]];
                        lemma_precedes_order(x, y, x);
                        assert(ni[a] != j);
                        assert(y.name@ != x.name@);
                    }
                }
                idx = old_idx.insert(p as int, j as int);
            }
            out.insert(p, entry);
            proof {
                assert forall|a: int| 0 <= a < j + 1 && reported(*known, present@, a) implies idx.contains(a) by {
                    if a < j {
                        assert(old_idx.contains(a));
                        let k = choose|k: int| 0 <= k < old_idx.len() && old_idx[k] == a;
                        if k < p {
                            assert(idx[k] == a);
                        } else {
                            assert(idx[k + 1] == a);
                        }
                    } else {
                        assert(idx[p as int] == a);
                    }
                }
            }
        }
        j += 1;
    }
    proof {
        assert(report_indexed(*known, fractions@, present@, out@, idx));
    }
    Ok(out)
}

/// The mass fractions (parts per billion) of each catalog element in a molecule with these counts.
/// The elements present in a molecule with these counts.
pub open spec fn counts_presence(counts: Seq<u32>) -> Seq<bool> {
    Seq::new(counts.len(), |j: int| counts[j] > 0)
}

/// The elements present in a blend with these fractions.
pub open spec fn fractions_presence(fr: Seq<u64>) -> Seq<bool> {
    Seq::new(fr.len(), |j: int| fr[j] > 0)
}

/// `counts_presence`, computed.
pub fn presence_of_counts(counts: &Vec<u32>) -> (r: Vec<bool>)
    ensures
        r@ == counts_presence(counts@),
{
    let mut r: Vec<bool> = Vec::new();
    let mut j: usize = 0;
    while j < counts.len()
        invariant
            j <= counts@.len(),
            r@ == counts_presence(counts@.subrange(0, j as int)),
        decreases counts@.len() - j,
    {
        r.push(counts[j] > 0);
        j += 1;
        assert(r@ =~= counts_presence(counts@.subrange(0, j as int)));
    }
    assert(counts@.subrange(0, counts@.len() as int) =~= counts@);
    r
}

/// `fractions_presence`, computed.
pub fn presence_of_fractions(fr: &Vec<u64>) -> (r: Vec<bool>)
    ensures
        r@ == fractions_presence(fr@),
{
    let mut r: Vec<bool> = Vec::new();
    let mut j: usize = 0;
    while j < fr.len()
        invariant
            j <= fr@.len(),
            r@ == fractions_presence(fr@.subrange(0, j as int)),
        decreases fr@.len() - j,
    {
        r.push(fr[j] > 0);
        j += 1;
        assert(r@ =~= fractions_presence(fr@.subrange(0, j as int)));
    }
    assert(fr@.subrange(0, fr@.len() as int) =~= fr@);
    r
}

pub open spec fn compound_fractions(counts: Seq<u32>, known: KnownElements) -> Seq<u64> {
    Seq::new(
        known.len(),
        |j: int|
            if counts[j] > 0 {
                element_fraction_of(counts, known, j) as u64
            } else {
                0
            },
    )
}

impl Compound {
    /// The mass fraction of each catalog element, in parts per billion.
    pub fn fractions(&self, known: &KnownElements) -> (r: Vec<u64>)
        requires
            known.wf(),
            self.wf(known),
        ensures
            r@ == compound_fractions(self.elements@, *known),
            forall|j: int| 0 <= j < r@.len() ==> r@[j] <= PPB,
    {
        let n = self.elements.len();
        let mut r: Vec<u64> = Vec::new();
        let mut j: usize = 0;
        while j < n
            invariant
                known.wf(),
                self.wf(known),
                n == known.len(),
                j <= n,
                r@.len() == j,
                forall|a: int| 0 <= a < j ==> r@[a] == compound_fractions(self.elements@, *known)[a],
                forall|a: int| 0 <= a < j ==> r@[a] <= PPB,
            decreases n - j,
        {
            if self.elements[j] > 0 {
                let f = self.fraction_at(known, j);
                r.push(f);
            } else {
                r.push(0);
            }
            j += 1;
        }
        assert(r@ =~= compound_fractions(self.elements@, *known));
        r
    }

    /// The composition report: each significant element's mass fraction, with its aliases, in display order.
    pub fn components_percentage(&self, known: &KnownElements) -> (r: Result<Vec<ElementsConcentrationsWithAliases>, CompositionError>)
        requires
            known.wf(),
            self.wf(known),
        ensures
            r is Ok <==> forall|j: int|
                0 <= j < known.len() && reported(*known, counts_presence(self.elements@), j) ==> aliases_valid(*known, j),
            r is Ok ==> is_report(
                *known,
                compound_fractions(self.elements@, *known),
                counts_presence(self.elements@),
                r->Ok_0@,
            ),
    {
        let fr = self.fractions(known);
        let present = presence_of_counts(&self.elements);
        composition_report(known, &fr, &present)
    }
}

} // verus!
