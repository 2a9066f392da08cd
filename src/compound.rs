use vstd::prelude::*;
use crate::elements::{chars_of, mass_sum, Element, KnownElements};
use crate::formula::{all_zero, parse_counts, parse_formula, ParseError};

verus! {

/// The whole, in parts per billion.
pub const PPB: u64 = 1_000_000_000;

/// Sum of `counts[i] * molar_mass[i]` over the first `n` elements.
pub open spec fn weighted_mass(counts: Seq<u32>, elts: Seq<Element>, n: int) -> int
    decreases n,
{
    if n <= 0 {
        0
    } else {
        weighted_mass(counts, elts, n - 1) + counts[n - 1] * elts[n - 1].molar_mass
    }
}

/// The molar mass of a molecule with these atom counts, in micrograms per mole.
pub open spec fn molar_mass_of(counts: Seq<u32>, known: KnownElements) -> int {
    weighted_mass(counts, known.elements@, known.len() as int)
}

/// The mass fraction (parts per billion) of `count` atoms of mass `mass` in a molecule of mass `total`.
pub open spec fn fraction_of(count: int, mass: int, total: int) -> int {
    count * mass * PPB / total
}

/// The mass fraction of element `j` in a molecule with these counts.
pub open spec fn element_fraction_of(counts: Seq<u32>, known: KnownElements, j: int) -> int {
    fraction_of(counts[j] as int, known.mass(j) as int, molar_mass_of(counts, known))
}

pub proof fn lemma_weighted_mass_bounds(counts: Seq<u32>, elts: Seq<Element>, n: int)
    requires
        0 <= n <= counts.len(),
        n <= elts.len(),
    ensures
        0 <= weighted_mass(counts, elts, n) <= u32::MAX * mass_sum(elts, n),
        forall|j: int| 0 <= j < n ==> counts[j] * elts[j].molar_mass <= weighted_mass(counts, elts, n),
        (exists|j: int| 0 <= j < n && counts[j] > 0 && elts[j].molar_mass > 0) ==> weighted_mass(counts, elts, n) > 0,
    decreases n,
{
    if n > 0 {
        lemma_weighted_mass_bounds(counts, elts, n - 1);
        let c = counts[n - 1] as int;
        let m = elts[n - 1].molar_mass as int;
        assert(0 <= c * m <= u32::MAX * m) by (nonlinear_arith)
            requires
                0 <= c <= u32::MAX,
                0 <= m,
        {
        }
        assert(c > 0 && m > 0 ==> c * m > 0) by (nonlinear_arith);
        assert(u32::MAX * mass_sum(elts, n - 1) + u32::MAX * m == u32::MAX * mass_sum(elts, n)) by (nonlinear_arith)
            requires
                mass_sum(elts, n) == mass_sum(elts, n - 1) + m,
        {
        }
        assert forall|j: int| 0 <= j < n implies counts[j] * elts[j].molar_mass <= weighted_mass(counts, elts, n) by {
            if j < n - 1 {
                assert(counts[j] * elts[j].molar_mass <= weighted_mass(counts, elts, n - 1));
            }
        }
    }
}

/// The molar mass of a catalog-compatible molecule fits in 96 bits.
pub proof fn lemma_molar_mass_bounds(counts: Seq<u32>, known: KnownElements)
    requires
        known.wf(),
        counts.len() == known.len(),
    ensures
        0 <= molar_mass_of(counts, known) <= u32::MAX * u64::MAX,
        forall|j: int| 0 <= j < known.len() ==> counts[j] * known.mass(j) <= molar_mass_of(counts, known),
        !all_zero(counts) ==> molar_mass_of(counts, known) > 0,
{
    let n = known.len() as int;
    lemma_weighted_mass_bounds(counts, known.elements@, n);
    assert(u32::MAX * mass_sum(known.elements@, n) <= u32::MAX * u64::MAX) by (nonlinear_arith)
        requires
            mass_sum(known.elements@, n) <= u64::MAX,
    {
    }
    if !all_zero(counts) {
        let j = choose|j: int| 0 <= j < counts.len() && counts[j] != 0;
        assert(counts[j] > 0 && known.elements@[j].molar_mass > 0);
    }
}

/// A molecule: its atom counts, one per catalog position, and its formula text.
pub struct Compound {
    /// Atom count of each catalog element (zero where the element is absent).
    pub elements: Vec<u32>,
    /// The formula it was parsed from.
    pub name: String,
}

impl Compound {
    /// The counts fit the catalog and hold at least one atom.
    pub open spec fn wf(&self, known: &KnownElements) -> bool {
        &&& self.elements@.len() == known.len()
        &&& !all_zero(self.elements@)
    }

    /// Parses `formula` against the catalog.
    pub fn new(formula: &str, known: &KnownElements) -> (r: Result<Compound, ParseError>)
        requires
            known.wf(),
        ensures
            match parse_formula(known.names(), formula@) {
                Ok(c) => r is Ok && r->Ok_0.elements@ == c && r->Ok_0.name@ == formula@,
                Err(f) => r is Err && r->Err_0@ == f,
            },
            r is Ok ==> r->Ok_0.wf(known),
    {
        let chars = chars_of(formula);
        match parse_counts(known, &chars) {
            Ok(elements) => Ok(Compound { elements, name: formula.to_owned() }),
            Err(e) => Err(e),
        }
    }

    /// The molar mass in micrograms per mole.
    pub fn molar_mass(&self, known: &KnownElements) -> (r: u128)
        requires
            known.wf(),
            self.wf(known),
        ensures
            r == molar_mass_of(self.elements@, *known),
            r > 0,
    {
        proof {
            lemma_molar_mass_bounds(self.elements@, *known);
        }
        let n = self.elements.len();
        let mut total: u128 = 0;
        let mut i: usize = 0;
        while i < n
            invariant
                known.wf(),
                self.wf(known),
                n == known.len(),
                i <= n,
                total == weighted_mass(self.elements@, known.elements@, i as int),
            decreases n - i,
        {
            proof {
                lemma_weighted_mass_bounds(self.elements@, known.elements@, i as int + 1);
                lemma_weighted_mass_bounds(self.elements@, known.elements@, n as int);
                lemma_weighted_mass_monotone(self.elements@, known.elements@, i as int + 1, n as int);
            }
            let term: u128 = self.elements[i] as u128 * known.elements[i].molar_mass as u128;
            total = total + term;
            i += 1;
        }
        total
    }

    /// The mass fraction of `element` in parts per billion, or `None` where the compound lacks it.
    pub fn element_fraction(&self, known: &KnownElements, element: &Element) -> (r: Option<u64>)
        requires
            known.wf(),
            self.wf(known),
        ensures
            match crate::elements::find_name(known.names(), element.name@) {
                Some(j) => if self.elements@[j] > 0 {
                    r == Some(element_fraction_of(self.elements@, *known, j) as u64)
                } else {
                    r is None
                },
                None => r is None,
            },
            r matches Some(f) ==> f <= PPB,
    {
        let name = chars_of(element.name.as_str());
        match known.find(&name) {
            None => None,
            Some(j) => {
                if self.elements[j] == 0 {
                    None
                } else {
                    Some(self.fraction_at(known, j))
                }
            },
        }
    }

    /// The mass fraction of the element at catalog position `j`, in parts per billion.
    pub fn fraction_at(&self, known: &KnownElements, j: usize) -> (r: u64)
        requires
            known.wf(),
            self.wf(known),
            j < known.len(),
        ensures
            r == element_fraction_of(self.elements@, *known, j as int),
            r <= PPB,
    {
        let total = self.molar_mass(known);
        proof {
            lemma_molar_mass_bounds(self.elements@, *known);
        }
        let part: u128 = self.elements[j] as u128 * known.elements[j].molar_mass as u128;
        assert(part * 1_000_000_000 <= total * 1_000_000_000) by (nonlinear_arith)
            requires
                part <= total,
        {
        }
        assert(total * 1_000_000_000 <= u32::MAX * u64::MAX * 1_000_000_000) by (nonlinear_arith)
            requires
                total <= u32::MAX * u64::MAX,
        {
        }
        let scaled: u128 = part * 1_000_000_000;
        let f: u128 = scaled / total;
        assert(f <= 1_000_000_000) by (nonlinear_arith)
            requires
                f == scaled / total,
                scaled <= total * 1_000_000_000,
                total > 0,
        {
        }
        f as u64
    }
}

pub proof fn lemma_weighted_mass_monotone(counts: Seq<u32>, elts: Seq<Element>, a: int, b: int)
    requires
        0 <= a <= b <= counts.len(),
        b <= elts.len(),
    ensures
        weighted_mass(counts, elts, a) <= weighted_mass(counts, elts, b),
    decreases b - a,
{
    if a < b {
        lemma_weighted_mass_monotone(counts, elts, a, b - 1);
        assert(counts[b - 1] * elts[b - 1].molar_mass >= 0) by (nonlinear_arith);
    }
}

} // verus!
