use vstd::prelude::*;
use crate::composition::{
    aliases_valid, composition_report, compound_fractions, fractions_presence, is_report, presence_of_fractions, reported,
    CompositionError, ElementsConcentrationsWithAliases,
};
use crate::compound::{element_fraction_of, Compound, PPB};
use crate::elements::{find_name, str_eq_chars, string_of_chars, KnownElements};
use crate::formula::{parse_formula, ParseError, ParseFault};

verus! {

/// A whole hundred percent, in thousandths of a percent.
pub const WHOLE_PERCENT: u64 = 100_000;

/// A pre-mixed blend: the mass fraction of each catalog element, in parts per billion.
pub struct MixedFertilizer {
    /// Fraction of each catalog element (zero where the blend lacks it).
    pub elements_composition: Vec<u64>,
    pub name: String,
    pub description: String,
}

/// Macro-nutrient declaration of a blend, in thousandths of a percent: nitrogen as the
/// element, phosphorus, potassium and magnesium as the oxides P2O5, K2O and MgO.
pub struct MacroElements {
    pub nitrogen_percentage: u64,
    pub p2o5_percentage: u64,
    pub k2o_percentage: u64,
    pub mgo_percentage: u64,
}

/// Why a blend cannot be built.
pub enum MixError {
    /// The catalog lacks this element.
    MissingElement(String),
    /// The element lacks this oxide among its aliases.
    MissingAlias(String),
    /// The oxide formula does not parse or lacks its element.
    InvalidOxide(String),
    /// A declared percentage is over a hundred.
    PercentageOutOfRange,
    /// A component formula does not parse.
    InvalidCompound(String, ParseError),
    /// A summed fraction is over the whole.
    FractionOutOfRange,
}

impl MixedFertilizer {
    /// One fraction per catalog element, none over the whole.
    pub open spec fn wf(&self, known: &KnownElements) -> bool {
        &&& self.elements_composition@.len() == known.len()
        &&& forall|j: int| 0 <= j < self.elements_composition@.len() ==> self.elements_composition@[j] <= PPB
    }
}

pub open spec fn nitrogen() -> Seq<char> {
    seq!['N']
}

pub open spec fn phosphorus() -> Seq<char> {
    seq!['P']
}

pub open spec fn potassium() -> Seq<char> {
    seq!['K']
}

pub open spec fn magnesium() -> Seq<char> {
    seq!['M', 'g']
}

pub open spec fn p2o5() -> Seq<char> {
    seq!['P', '2', 'O', '5']
}

pub open spec fn k2o() -> Seq<char> {
    seq!['K', '2', 'O']
}

pub open spec fn mgo() -> Seq<char> {
    seq!['M', 'g', 'O']
}

/// The element named `el` is in the catalog and lists `alias` among its aliases.
pub open spec fn has_alias(known: KnownElements, el: Seq<char>, alias: Seq<char>) -> bool {
    match find_name(known.names(), el) {
        Some(j) => exists|t: int|
            0 <= t < known.elements@[j].aliases@.len() && #[trigger] known.elements@[j].aliases@[t]@ == alias,
        None => false,
    }
}

/// The catalog holds N, and P, K and Mg with their oxides as aliases.
pub open spec fn sane_elements(known: KnownElements) -> bool {
    &&& find_name(known.names(), nitrogen()) is Some
    &&& has_alias(known, phosphorus(), p2o5())
    &&& has_alias(known, potassium(), k2o())
    &&& has_alias(known, magnesium(), mgo())
}

/// The mass fraction of element `j` in the molecule `oxide`, where the oxide parses and holds it.
pub open spec fn oxide_fraction(known: KnownElements, j: int, oxide: Seq<char>) -> Option<int> {
    match parse_formula(known.names(), oxide) {
        Ok(c) => if c[j] > 0 {
            Some(element_fraction_of(c, known, j))
        } else {
            None
        },
        Err(_) => None,
    }
}

/// An oxide percentage can be converted: it is zero, or the oxide holds its element.
pub open spec fn oxide_ok(known: KnownElements, el: Seq<char>, oxide: Seq<char>, pct: u64) -> bool {
    pct == 0 || oxide_fraction(known, find_name(known.names(), el)->Some_0, oxide) is Some
}

/// The element fraction (parts per billion) declared by `pct` thousandths of a percent of `oxide`.
pub open spec fn oxide_share(known: KnownElements, el: Seq<char>, oxide: Seq<char>, pct: u64) -> int {
    oxide_fraction(known, find_name(known.names(), el)->Some_0, oxide)->Some_0 * pct / WHOLE_PERCENT as int
}

/// What `new_from_npk` accepts.
pub open spec fn npk_ok(known: KnownElements, m: MacroElements) -> bool {
    &&& sane_elements(known)
    &&& m.nitrogen_percentage <= WHOLE_PERCENT
    &&& m.p2o5_percentage <= WHOLE_PERCENT
    &&& m.k2o_percentage <= WHOLE_PERCENT
    &&& m.mgo_percentage <= WHOLE_PERCENT
    &&& oxide_ok(known, phosphorus(), p2o5(), m.p2o5_percentage)
    &&& oxide_ok(known, potassium(), k2o(), m.k2o_percentage)
    &&& oxide_ok(known, magnesium(), mgo(), m.mgo_percentage)
}

/// The blend declared by `m`: nitrogen directly, the others converted from their oxides.
pub open spec fn npk_composition(known: KnownElements, m: MacroElements) -> Seq<u64> {
    let names = known.names();
    Seq::new(
        known.len(),
        |j: int|
            if Some(j) == find_name(names, nitrogen()) && m.nitrogen_percentage > 0 {
                (m.nitrogen_percentage * 10_000) as u64
            } else if Some(j) == find_name(names, phosphorus()) && m.p2o5_percentage > 0 {
                oxide_share(known, phosphorus(), p2o5(), m.p2o5_percentage) as u64
            } else if Some(j) == find_name(names, potassium()) && m.k2o_percentage > 0 {
                oxide_share(known, potassium(), k2o(), m.k2o_percentage) as u64
            } else if Some(j) == find_name(names, magnesium()) && m.mgo_percentage > 0 {
                oxide_share(known, magnesium(), mgo(), m.mgo_percentage) as u64
            } else {
                0
            },
    )
}

/// The decimal digits of `n`.
pub open spec fn decimal(n: nat) -> Seq<char>
    decreases n,
{
    if n < 10 {
        seq![digit_char(n)]
    } else {
        decimal(n / 10).push(digit_char(n % 10))
    }
}

pub open spec fn digit_char(d: nat) -> char {
    ((d % 10) + '0' as nat) as char
}

/// A percentage given in thousandths, written in decimal without trailing zeros (`2500` is `2.5`).
pub open spec fn percent_text(p: nat) -> Seq<char> {
    let whole = decimal(p / 1000);
    let frac = p % 1000;
    if frac == 0 {
        whole
    } else if frac % 100 == 0 {
        whole + seq!['.', digit_char(frac / 100)]
    } else if frac % 10 == 0 {
        whole + seq!['.', digit_char(frac / 100), digit_char(frac / 10 % 10)]
    } else {
        whole + seq!['.', digit_char(frac / 100), digit_char(frac / 10 % 10), digit_char(frac % 10)]
    }
}

/// The trivial name of a blend: `NPK-24:8:16`, or `NPK+Mg-11:9:30+2.5` where MgO is declared.
pub open spec fn npk_name(m: MacroElements) -> Seq<char> {
    let npk = percent_text(m.nitrogen_percentage as nat) + seq![':'] + percent_text(m.p2o5_percentage as nat)
        + seq![':'] + percent_text(m.k2o_percentage as nat);
    if m.mgo_percentage > 0 {
        seq!['N', 'P', 'K', '+', 'M', 'g', '-'] + npk + seq!['+'] + percent_text(m.mgo_percentage as nat)
    } else {
        seq!['N', 'P', 'K', '-'] + npk
    }
}

fn push_digit(out: &mut Vec<char>, d: u64)
    requires
        d < 10,
    ensures
        final(out)@ == old(out)@.push(digit_char(d as nat)),
{
    let c = ((d as u32) + ('0' as u32)) as u8 as char;
    assert(c == digit_char(d as nat));
    out.push(c);
}

/// Appends the decimal digits of `n`.
fn push_decimal(out: &mut Vec<char>, n: u64)
    ensures
        final(out)@ == old(out)@ + decimal(n as nat),
    decreases n,
{
    if n >= 10 {
        push_decimal(out, n / 10);
    }
    push_digit(out, n % 10);
    assert(final(out)@ =~= old(out)@ + decimal(n as nat));
}

/// Appends `percent_text(p)`.
fn push_percent(out: &mut Vec<char>, p: u64)
    ensures
        final(out)@ == old(out)@ + percent_text(p as nat),
{
    push_decimal(out, p / 1000);
    let frac = p % 1000;
    if frac != 0 {
        out.push('.');
        push_digit(out, frac / 100);
        if frac % 100 != 0 {
            push_digit(out, frac / 10 % 10);
            if frac % 10 != 0 {
                push_digit(out, frac % 10);
            }
        }
    }
    assert(final(out)@ =~= old(out)@ + percent_text(p as nat));
}

impl MacroElements {
    /// The trivial name of the blend.
    #[verifier::rlimit(50)]
    pub fn name_from_npk(&self) -> (r: String)
        ensures
            r@ == npk_name(*self),
    {
        let mut out: Vec<char> = Vec::new();
        out.push('N');
        out.push('P');
        out.push('K');
        if self.mgo_percentage > 0 {
            out.push('+');
            out.push('M');
            out.push('g');
        }
        out.push('-');
        let ghost head = out@;
        push_percent(&mut out, self.nitrogen_percentage);
        out.push(':');
        push_percent(&mut out, self.p2o5_percentage);
        out.push(':');
        push_percent(&mut out, self.k2o_percentage);
        if self.mgo_percentage > 0 {
            out.push('+');
            push_percent(&mut out, self.mgo_percentage);
        }
        assert(out@ =~= npk_name(*self));
        string_of_chars(&out)
    }
}

/// Position of the element named by `el`, checking that it lists the alias `oxide` (when given).
fn find_with_alias(known: &KnownElements, el: &Vec<char>, oxide: Option<&Vec<char>>) -> (r: Result<usize, MixError>)
    requires
        known.wf(),
    ensures
        match oxide {
            None => match find_name(known.names(), el@) {
                Some(j) => r == Ok::<usize, MixError>(j as usize) && j < known.len(),
                None => r matches Err(MixError::MissingElement(s)) && s@ == el@,
            },
            Some(o) => match find_name(known.names(), el@) {
                Some(j) => if has_alias(*known, el@, o@) {
                    r == Ok::<usize, MixError>(j as usize) && j < known.len()
                } else {
                    r matches Err(MixError::MissingAlias(s)) && s@ == o@
                },
                None => r matches Err(MixError::MissingElement(s)) && s@ == el@,
            },
        },
{
    let j = match known.find(el) {
        Some(j) => j,
        None => {
            return Err(MixError::MissingElement(string_of_chars(el)));
        },
    };
    match oxide {
        None => Ok(j),
        Some(o) => {
            let aliases = &known.elements[j].aliases;
            let mut t: usize = 0;
            while t < aliases.len()
                invariant
                    known.wf(),
                    j < known.len(),
                    aliases == known.elements@[j as int].aliases,
                    find_name(known.names(), el@) == Some(j as int),
                    oxide == Some(o),
                    t <= aliases@.len(),
                    forall|u: int| 0 <= u < t ==> aliases@[u]@ != o@,
                decreases aliases@.len() - t,
            {
                if str_eq_chars(aliases[t].as_str(), o) {
                    proof {
                        let jj = find_name(known.names(), el@)->Some_0;
                        assert(jj == j as int);
                        assert(0 <= t < known.elements@[jj].aliases@.len());
                        assert(known.elements@[jj].aliases@[t as int]@ == o@);
                    }
                    assert(has_alias(*known, el@, o@));
                    return Ok(j);
                }
                t += 1;
            }
            Err(MixError::MissingAlias(string_of_chars(o)))
        },
    }
}

/// Checks that the catalog can take a macro-nutrient declaration.
pub fn is_sane_elements(known: &KnownElements) -> (r: Result<(), MixError>)
    requires
        known.wf(),
    ensures
        r is Ok <==> sane_elements(*known),
        r is Err ==> (r matches Err(MixError::MissingElement(_)) || r matches Err(MixError::MissingAlias(_))),
{
    let n = vec!['N'];
    let p = vec!['P'];
    let k = vec!['K'];
    let mg = vec!['M', 'g'];
    let p2o5v = vec!['P', '2', 'O', '5'];
    let k2ov = vec!['K', '2', 'O'];
    let mgov = vec!['M', 'g', 'O'];
    assert(n@ =~= nitrogen() && p@ =~= phosphorus() && k@ =~= potassium() && mg@ =~= magnesium());
    assert(p2o5v@ =~= p2o5() && k2ov@ =~= k2o() && mgov@ =~= mgo());
    match find_with_alias(known, &n, None) {
        Err(e) => {
            return Err(e);
        },
        Ok(_) => {},
    }
    match find_with_alias(known, &p, Some(&p2o5v)) {
        Err(e) => {
            return Err(e);
        },
        Ok(_) => {},
    }
    match find_with_alias(known, &k, Some(&k2ov)) {
        Err(e) => {
            return Err(e);
        },
        Ok(_) => {},
    }
    match find_with_alias(known, &mg, Some(&mgov)) {
        Err(e) => {
            return Err(e);
        },
        Ok(_) => {},
    }
    Ok(())
}

/// The element fraction declared by `pct` thousandths of a percent of `oxide`, for element `j`.
fn oxide_share_exec(known: &KnownElements, j: usize, oxide: &str, pct: u64) -> (r: Option<u64>)
    requires
        known.wf(),
        j < known.len(),
        pct <= WHOLE_PERCENT,
    ensures
        match oxide_fraction(*known, j as int, oxide@) {
            Some(f) => r == Some((f * pct / WHOLE_PERCENT as int) as u64) && 0 <= f * pct / WHOLE_PERCENT as int <= PPB,
            None => r is None,
        },
{
    let molecule = match Compound::new(oxide, known) {
        Ok(c) => c,
        Err(_) => {
            return None;
        },
    };
    if molecule.elements[j] == 0 {
        return None;
    }
    let f = molecule.fraction_at(known, j);
    assert(f * pct <= PPB * WHOLE_PERCENT) by (nonlinear_arith)
        requires
            f <= PPB,
            pct <= WHOLE_PERCENT,
    {
    }
    assert(0 <= f * pct / WHOLE_PERCENT as int <= PPB) by (nonlinear_arith)
        requires
            f * pct <= PPB * WHOLE_PERCENT,
            0 <= f,
            0 <= pct,
    {
    }
    let v: u128 = f as u128 * pct as u128 / WHOLE_PERCENT as u128;
    Some(v as u64)
}

impl MixedFertilizer {
    /// A blend from a macro-nutrient declaration, named after it.
    pub fn new_from_npk(macros: &MacroElements, known: &KnownElements) -> (r: Result<MixedFertilizer, MixError>)
        requires
            known.wf(),
        ensures
            r is Ok <==> npk_ok(*known, *macros),
            (r matches Err(MixError::MissingElement(_)) || r matches Err(MixError::MissingAlias(_))) <==> !sane_elements(
                *known,
            ),
            (r matches Err(MixError::PercentageOutOfRange)) <==> sane_elements(*known) && (macros.nitrogen_percentage
                > WHOLE_PERCENT || macros.p2o5_percentage > WHOLE_PERCENT || macros.k2o_percentage > WHOLE_PERCENT
                || macros.mgo_percentage > WHOLE_PERCENT),
            r is Ok ==> {
                &&& r->Ok_0.elements_composition@ == npk_composition(*known, *macros)
                &&& r->Ok_0.name@ == npk_name(*macros)
                &&& r->Ok_0.description@ == Seq::<char>::empty()
                &&& r->Ok_0.wf(known)
            },
    {
        match is_sane_elements(known) {
            Err(e) => {
                return Err(e);
            },
            Ok(_) => {},
        }
        if macros.nitrogen_percentage > WHOLE_PERCENT || macros.p2o5_percentage > WHOLE_PERCENT
            || macros.k2o_percentage > WHOLE_PERCENT || macros.mgo_percentage > WHOLE_PERCENT {
            return Err(MixError::PercentageOutOfRange);
        }
        let nv = vec!['N'];
        let pv = vec!['P'];
        let kv = vec!['K'];
        let mgv = vec!['M', 'g'];
        assert(nv@ =~= nitrogen() && pv@ =~= phosphorus() && kv@ =~= potassium() && mgv@ =~= magnesium());
        let jn = known.find(&nv).unwrap();
        let jp = known.find(&pv).unwrap();
        let jk = known.find(&kv).unwrap();
        let jmg = known.find(&mgv).unwrap();
        proof {
            reveal_strlit("P2O5");
            reveal_strlit("K2O");
            reveal_strlit("MgO");
            assert("P2O5"@ =~= p2o5());
            assert("K2O"@ =~= k2o());
            assert("MgO"@ =~= mgo());
            assert(nitrogen()[0] != phosphorus()[0] && nitrogen()[0] != potassium()[0] && nitrogen()[0] != magnesium()[0]);
            assert(phosphorus()[0] != potassium()[0] && phosphorus()[0] != magnesium()[0] && potassium()[0] != magnesium()[0]);
            assert(jn != jp && jn != jk && jn != jmg && jp != jk && jp != jmg && jk != jmg);
        }
        let n = known.elements.len();
        let mut comp: Vec<u64> = Vec::new();
        let mut j: usize = 0;
        while j < n
            invariant
                n == known.len(),
                j <= n,
                comp@ == Seq::new(j as nat, |a: int| 0u64),
            decreases n - j,
        {
            comp.push(0);
            j += 1;
            assert(comp@ =~= Seq::new(j as nat, |a: int| 0u64));
        }
        if macros.nitrogen_percentage > 0 {
            comp.set(jn, macros.nitrogen_percentage * 10_000);
        }
        if macros.p2o5_percentage > 0 {
            match oxide_share_exec(known, jp, "P2O5", macros.p2o5_percentage) {
                Some(v) => comp.set(jp, v),
                None => {
                    return Err(MixError::InvalidOxide(String::from_str("P2O5")));
                },
            }
        }
        if macros.k2o_percentage > 0 {
            match oxide_share_exec(known, jk, "K2O", macros.k2o_percentage) {
                Some(v) => comp.set(jk, v),
                None => {
                    return Err(MixError::InvalidOxide(String::from_str("K2O")));
                },
            }
        }
        if macros.mgo_percentage > 0 {
            match oxide_share_exec(known, jmg, "MgO", macros.mgo_percentage) {
                Some(v) => comp.set(jmg, v),
                None => {
                    return Err(MixError::InvalidOxide(String::from_str("MgO")));
                },
            }
        }
        assert(comp@ =~= npk_composition(*known, *macros));
        assert forall|a: int| 0 <= a < comp@.len() implies comp@[a] <= PPB by {
            let m = *macros;
            if a == jn && m.nitrogen_percentage > 0 {
                assert(m.nitrogen_percentage * 10_000 <= PPB);
            } else if a == jp && m.p2o5_percentage > 0 {
                assert(0 <= oxide_share(*known, phosphorus(), p2o5(), m.p2o5_percentage) <= PPB);
            } else if a == jk && m.k2o_percentage > 0 {
                assert(0 <= oxide_share(*known, potassium(), k2o(), m.k2o_percentage) <= PPB);
            } else if a == jmg && m.mgo_percentage > 0 {
                assert(0 <= oxide_share(*known, magnesium(), mgo(), m.mgo_percentage) <= PPB);
            }
        }
        let name = macros.name_from_npk();
        assert(name@ == npk_name(*macros));
        Ok(MixedFertilizer { elements_composition: comp, name, description: String::new() })
    }
}

/// The mathematical counterpart of the errors of `new_from_compounds`.
pub enum MixFault {
    InvalidCompound(Seq<char>, ParseFault),
    PercentageOutOfRange,
    FractionOutOfRange,
}

/// The share of a component's element `j` that a blend takes in: zero for insignificant elements.
pub open spec fn significant_fraction(known: KnownElements, c: Seq<u32>, j: int) -> int {
    if known.elements@[j].insignificant {
        0
    } else {
        compound_fractions(c, known)[j] as int
    }
}

/// The blend fractions after adding `portion` thousandths of a percent of the molecule `c`.
pub open spec fn mix_step(known: KnownElements, acc: Seq<u64>, c: Seq<u32>, portion: u64) -> Seq<int> {
    Seq::new(known.len(), |j: int| acc[j] + significant_fraction(known, c, j) * portion / WHOLE_PERCENT as int)
}

/// The blend fractions of the first `k` components (formula, portion in thousandths of a percent).
pub open spec fn mix_fold(known: KnownElements, comps: Seq<(String, u64)>, k: int) -> Result<Seq<u64>, MixFault>
    decreases k,
{
    if k <= 0 {
        Ok(Seq::new(known.len(), |j: int| 0u64))
    } else {
        match mix_fold(known, comps, k - 1) {
            Err(e) => Err(e),
            Ok(acc) => {
                let formula = comps[k - 1].0@;
                let portion = comps[k - 1].1;
                if portion > WHOLE_PERCENT {
                    Err(MixFault::PercentageOutOfRange)
                } else {
                    match parse_formula(known.names(), formula) {
                        Err(f) => Err(MixFault::InvalidCompound(formula, f)),
                        Ok(c) => {
                            let next = mix_step(known, acc, c, portion);
                            if forall|j: int| 0 <= j < next.len() ==> #[trigger] next[j] <= PPB {
                                Ok(Seq::new(known.len(), |j: int| next[j] as u64))
                            } else {
                                Err(MixFault::FractionOutOfRange)
                            }
                        },
                    }
                }
            },
        }
    }
}

/// Whether an executable outcome matches the mathematical one.
pub open spec fn same_mix_outcome(r: Result<Vec<u64>, MixError>, m: Result<Seq<u64>, MixFault>) -> bool {
    match m {
        Ok(v) => r is Ok && r->Ok_0@ == v,
        Err(MixFault::InvalidCompound(s, f)) => r matches Err(MixError::InvalidCompound(s2, e)) && s2@ == s && e@ == f,
        Err(MixFault::PercentageOutOfRange) => r matches Err(MixError::PercentageOutOfRange),
        Err(MixFault::FractionOutOfRange) => r matches Err(MixError::FractionOutOfRange),
    }
}

/// A failed prefix fails the whole fold the same way.
proof fn lemma_mix_fold_err(known: KnownElements, comps: Seq<(String, u64)>, k: int, m: int)
    requires
        0 <= k <= m,
        mix_fold(known, comps, k) is Err,
    ensures
        mix_fold(known, comps, m) == mix_fold(known, comps, k),
    decreases m - k,
{
    if k < m {
        lemma_mix_fold_err(known, comps, k, m - 1);
    }
}

/// `portion` thousandths of a percent of a fraction `f`.
fn portion_share(f: u64, portion: u64) -> (r: u64)
    requires
        f <= PPB,
        portion <= WHOLE_PERCENT,
    ensures
        r == f * portion / WHOLE_PERCENT as int,
        r <= PPB,
{
    assert(f * portion <= PPB * WHOLE_PERCENT) by (nonlinear_arith)
        requires
            f <= PPB,
            portion <= WHOLE_PERCENT,
    {
    }
    assert(0 <= f * portion / WHOLE_PERCENT as int <= PPB) by (nonlinear_arith)
        requires
            f * portion <= PPB * WHOLE_PERCENT,
            0 <= f,
            0 <= portion,
    {
    }
    (f as u128 * portion as u128 / WHOLE_PERCENT as u128) as u64
}

/// The blend fractions of `compounds` (formula, portion in thousandths of a percent).
fn mix_fractions(known: &KnownElements, compounds: &Vec<(String, u64)>) -> (r: Result<Vec<u64>, MixError>)
    requires
        known.wf(),
    ensures
        same_mix_outcome(r, mix_fold(*known, compounds@, compounds@.len() as int)),
        r is Ok ==> r->Ok_0@.len() == known.len() && forall|j: int| 0 <= j < known.len() ==> r->Ok_0@[j] <= PPB,
{
    let n = known.elements.len();
    let mut acc: Vec<u64> = Vec::new();
    let mut j: usize = 0;
    while j < n
        invariant
            n == known.len(),
            j <= n,
            acc@ == Seq::new(j as nat, |a: int| 0u64),
        decreases n - j,
    {
        acc.push(0);
        j += 1;
        assert(acc@ =~= Seq::new(j as nat, |a: int| 0u64));
    }
    let mut k: usize = 0;
    while k < compounds.len()
        invariant
            known.wf(),
            n == known.len(),
            k <= compounds@.len(),
            acc@.len() == n,
            forall|a: int| 0 <= a < n ==> acc@[a] <= PPB,
            mix_fold(*known, compounds@, k as int) == Ok::<Seq<u64>, MixFault>(acc@),
        decreases compounds@.len() - k,
    {
        let formula = &compounds[k].0;
        let portion = compounds[k].1;
        if portion > WHOLE_PERCENT {
            proof {
                lemma_mix_fold_err(*known, compounds@, k as int + 1, compounds@.len() as int);
            }
            return Err(MixError::PercentageOutOfRange);
        }
        let molecule = match Compound::new(formula.as_str(), known) {
            Ok(c) => c,
            Err(e) => {
                proof {
                    lemma_mix_fold_err(*known, compounds@, k as int + 1, compounds@.len() as int);
                }
                return Err(MixError::InvalidCompound(formula.clone(), e));
            },
        };
        let fr = molecule.fractions(known);
        let ghost before = acc@;
        let ghost next = mix_step(*known, before, molecule.elements@, portion);
        let mut j: usize = 0;
        while j < n
            invariant
                known.wf(),
                n == known.len(),
                j <= n,
                acc@.len() == n,
                before.len() == n,
                fr@ == compound_fractions(molecule.elements@, *known),
                forall|a: int| 0 <= a < n ==> fr@[a] <= PPB,
                portion <= WHOLE_PERCENT,
                next == mix_step(*known, before, molecule.elements@, portion),
                k < compounds@.len(),
                compounds@[k as int].1 == portion,
                compounds@[k as int].0@ == formula@,
                mix_fold(*known, compounds@, k as int) == Ok::<Seq<u64>, MixFault>(before),
                parse_formula(known.names(), formula@) == Ok::<Seq<u32>, ParseFault>(molecule.elements@),
                forall|a: int| 0 <= a < j ==> next[a] <= PPB && acc@[a] == next[a],
                forall|a: int| j <= a < n ==> acc@[a] == before[a],
                forall|a: int| 0 <= a < n ==> before[a] <= PPB,
            decreases n - j,
        {
            let share: u64 = if known.elements[j].insignificant {
                0
            } else {
                portion_share(fr[j], portion)
            };
            assert(share == significant_fraction(*known, molecule.elements@, j as int) * portion / WHOLE_PERCENT as int);
            assert(share <= PPB);
            assert(before[j as int] <= PPB);
            assert(acc@[j as int] == before[j as int]);
            let v: u64 = acc[j] + share;
            if v > PPB {
                proof {
                    assert(!(next[j as int] <= PPB));
                    lemma_mix_fold_err(*known, compounds@, k as int + 1, compounds@.len() as int);
                }
                return Err(MixError::FractionOutOfRange);
            }
            acc.set(j, v);
            j += 1;
        }
        proof {
            assert(forall|a: int| 0 <= a < next.len() ==> #[trigger] next[a] <= PPB);
            assert(acc@ =~= Seq::new(known.len(), |a: int| next[a] as u64));
        }
        k += 1;
    }
    Ok(acc)
}

impl MixedFertilizer {
    /// A blend of compounds, each given as a formula and its portion in thousandths of a percent.
    pub fn new_from_compounds(
        name: &str,
        description: &str,
        compounds: &Vec<(String, u64)>,
        known: &KnownElements,
    ) -> (r: Result<MixedFertilizer, MixError>)
        requires
            known.wf(),
        ensures
            match mix_fold(*known, compounds@, compounds@.len() as int) {
                Ok(v) => r is Ok && r->Ok_0.elements_composition@ == v && r->Ok_0.name@ == name@
                    && r->Ok_0.description@ == description@,
                Err(MixFault::InvalidCompound(s, f)) => r matches Err(MixError::InvalidCompound(s2, e)) && s2@ == s && e@ == f,
                Err(MixFault::PercentageOutOfRange) => r matches Err(MixError::PercentageOutOfRange),
                Err(MixFault::FractionOutOfRange) => r matches Err(MixError::FractionOutOfRange),
            },
            r is Ok ==> r->Ok_0.wf(known),
    {
        match mix_fractions(known, compounds) {
            Ok(v) => Ok(MixedFertilizer { elements_composition: v, name: name.to_owned(), description: description.to_owned() }),
            Err(e) => Err(e),
        }
    }

    /// The composition report: each significant element's fraction, with its aliases, in display order.
    pub fn components_percentage(&self, known: &KnownElements) -> (r: Result<Vec<ElementsConcentrationsWithAliases>, CompositionError>)
        requires
            known.wf(),
            self.wf(known),
        ensures
            r is Ok <==> forall|j: int|
                0 <= j < known.len() && reported(*known, fractions_presence(self.elements_composition@), j) ==> aliases_valid(
                    *known,
                    j,
                ),
            r is Ok ==> is_report(
                *known,
                self.elements_composition@,
                fractions_presence(self.elements_composition@),
                r->Ok_0@,
            ),
    {
        let present = presence_of_fractions(&self.elements_composition);
        composition_report(known, &self.elements_composition, &present)
    }
}

} // verus!
