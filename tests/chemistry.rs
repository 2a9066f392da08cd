use fertilizer_dosing::catalog::{CatalogEntry, FertilizerDbError, FertilizersDb};
use fertilizer_dosing::compound::Compound;
use fertilizer_dosing::dosing::{
    element_dose_target, DiluteCalcType, DiluteResult, DoseError, DryDosing, SolutionDosing,
};
use fertilizer_dosing::elements::{CatalogError, Element, KnownElements};
use fertilizer_dosing::fertilizer::Fertilizer;
use fertilizer_dosing::formula::ParseError;
use fertilizer_dosing::mix::{MacroElements, MixError, MixedFertilizer};
use fertilizer_dosing::tank::Tank;

const MOLAR_MASS_EPSILON: f64 = 0.001;

fn assert_delta_eq(x: f64, y: f64, d: f64) {
    assert!((x - y).abs() < d, "{} != {} (within {})", x, y, d);
}

fn element(name: &str, grams_per_mole: f64, insignificant: bool, priority: u32, aliases: &[&str]) -> Element {
    Element {
        name: name.to_string(),
        molar_mass: (grams_per_mole * 1_000_000.0).round() as u64,
        insignificant,
        priority,
        aliases: aliases.iter().map(|a| a.to_string()).collect(),
    }
}

fn load_known_elements() -> KnownElements {
    let elements = vec![
        element("H", 1.0078, true, 0, &[]),
        element("O", 15.999, true, 0, &[]),
        element("C", 12.011, true, 0, &[]),
        element("N", 14.007, false, 10, &["NO3"]),
        element("P", 30.973762, false, 9, &["PO4", "P2O5"]),
        element("K", 39.0983, false, 8, &["K2O"]),
        element("Mg", 24.305, false, 7, &["MgO"]),
        element("Ca", 40.078, false, 6, &[]),
        element("S", 32.06, false, 5, &["SO4"]),
    ];
    match KnownElements::new(elements) {
        Ok(k) => k,
        Err(_) => panic!("invalid element catalog"),
    }
}

fn molar_mass(formula: &str, known: &KnownElements) -> f64 {
    let c = Compound::new(formula, known).ok().unwrap();
    c.molar_mass(known) as f64 / 1_000_000.0
}

fn count(c: &Compound, known: &KnownElements, name: &str) -> u32 {
    let i = known.elements.iter().position(|e| e.name == name).unwrap();
    c.elements[i]
}

fn sample_tank() -> Tank {
    Tank::new_volume(200_000, false)
}

fn mg_per_l(ng_per_l: u128) -> f64 {
    ng_per_l as f64 / 1_000_000.0
}

fn fraction(ppb: u64) -> f64 {
    ppb as f64 / 1_000_000_000.0
}

fn kno3(known: &KnownElements) -> Fertilizer {
    Fertilizer::Compound(Compound::new("KNO3", known).ok().unwrap())
}

fn dose_of_element(r: &DiluteResult, name: &str) -> f64 {
    let e = r.elements_dose.iter().find(|e| e.element.name == name).unwrap();
    mg_per_l(e.dose)
}

#[test]
fn parse_simple() {
    let known_elements = load_known_elements();
    assert_delta_eq(molar_mass("KNO3", &known_elements), 101.1032, MOLAR_MASS_EPSILON);
    assert_delta_eq(molar_mass("KH2PO4", &known_elements), 136.084, MOLAR_MASS_EPSILON);
    assert_delta_eq(molar_mass("K2H100", &known_elements), 178.977, MOLAR_MASS_EPSILON);
    assert_delta_eq(molar_mass("K", &known_elements), 39.098, MOLAR_MASS_EPSILON);
}

#[test]
fn parse_invalid() {
    let known_elements = load_known_elements();
    assert!(Compound::new("2KO", &known_elements).is_err());
    assert!(Compound::new("Ololo", &known_elements).is_err());
    assert!(Compound::new("(((Ca(((", &known_elements).is_err());
}

#[test]
fn parse_braced() {
    let known_elements = load_known_elements();
    assert_delta_eq(molar_mass("Ca(NO3)2", &known_elements), 164.086, MOLAR_MASS_EPSILON);
    assert_delta_eq(molar_mass("(Ca)(NO3)2", &known_elements), 164.086, MOLAR_MASS_EPSILON);
    assert_delta_eq(molar_mass("(Ca)1(NO3)2", &known_elements), 164.086, MOLAR_MASS_EPSILON);
    assert_delta_eq(molar_mass("(((Ca)))", &known_elements), 40.078, MOLAR_MASS_EPSILON);
    assert_delta_eq(molar_mass("(((Ca)))2", &known_elements), 40.078 * 2.0, MOLAR_MASS_EPSILON);
}

#[test]
fn parse_counts_exact() {
    let known = load_known_elements();
    let c = Compound::new("KNO3", &known).ok().unwrap();
    assert_eq!((count(&c, &known, "K"), count(&c, &known, "N"), count(&c, &known, "O")), (1, 1, 3));
    let c = Compound::new("Ca(NO3)2", &known).ok().unwrap();
    assert_eq!((count(&c, &known, "Ca"), count(&c, &known, "N"), count(&c, &known, "O")), (1, 2, 6));
    let c = Compound::new("(((Ca)))2", &known).ok().unwrap();
    assert_eq!(count(&c, &known, "Ca"), 2);
    assert_eq!(c.name, "(((Ca)))2");
}

#[test]
fn parse_digit_tops_up_registered_element() {
    let known = load_known_elements();
    let c = Compound::new("H2O", &known).ok().unwrap();
    assert_eq!((count(&c, &known, "H"), count(&c, &known, "O")), (2, 1));
    let c = Compound::new("K2H100", &known).ok().unwrap();
    assert_eq!((count(&c, &known, "K"), count(&c, &known, "H")), (2, 100));
    let c = Compound::new("KOK3", &known).ok().unwrap();
    assert_eq!(count(&c, &known, "K"), 4);
}

#[test]
fn parse_hydrate_adds_water() {
    let known = load_known_elements();
    let dry = Compound::new("MgSO4", &known).ok().unwrap();
    let wet = Compound::new("MgSO4*7H2O", &known).ok().unwrap();
    assert_eq!(count(&wet, &known, "Mg"), count(&dry, &known, "Mg"));
    assert_eq!(count(&wet, &known, "S"), count(&dry, &known, "S"));
    assert_eq!(count(&wet, &known, "H"), count(&dry, &known, "H") + 7 * 2);
    assert_eq!(count(&wet, &known, "O"), count(&dry, &known, "O") + 7);
    let x = Compound::new("CaSO4*5H2O", &known).ok().unwrap();
    assert_eq!((count(&x, &known, "Ca"), count(&x, &known, "H"), count(&x, &known, "O")), (1, 10, 9));
    let plain = Compound::new("KNO3*H2O", &known).ok().unwrap();
    assert_eq!((count(&plain, &known, "H"), count(&plain, &known, "O")), (2, 4));
}

#[test]
fn parse_errors_are_typed() {
    let known = load_known_elements();
    assert!(matches!(Compound::new("2KO", &known), Err(ParseError::DanglingMultiplier)));
    match Compound::new("Ololo", &known) {
        Err(ParseError::UnknownElement(s)) => assert_eq!(s, "Ololo"),
        _ => panic!("expected an unknown element"),
    }
    assert!(matches!(Compound::new("", &known), Err(ParseError::EmptyCompound)));
    assert!(matches!(Compound::new("(Ca)0", &known), Err(ParseError::EmptyCompound)));
    assert!(matches!(Compound::new("(((Ca(((", &known), Err(ParseError::EmptyCompound)));
    let open_group = Compound::new("K(O", &known).ok().unwrap();
    assert_eq!((count(&open_group, &known, "K"), count(&open_group, &known, "O")), (1, 0));
    assert!(matches!(Compound::new("K99999999999", &known), Err(ParseError::CountOverflow)));
}

#[test]
fn element_fraction_and_alias_rates() {
    let known = load_known_elements();
    let c = Compound::new("KNO3", &known).ok().unwrap();
    let n = &known.elements[3];
    let f = c.element_fraction(&known, n).unwrap();
    assert_delta_eq(fraction(f), 14.007 / 101.1023, 1e-6);
    let ca = &known.elements[7];
    assert!(c.element_fraction(&known, ca).is_none());
    let p = &known.elements[4];
    let rate = p.element_from_alias_rate("P2O5", &known).ok().unwrap();
    assert_delta_eq(fraction(rate), 0.43643, 1e-4);
    let to = n.element_to_alias_rate("NO3", &known).ok().unwrap();
    assert_delta_eq(to as f64 / 1e9, 62.004 / 14.007, 1e-4);
    assert!(n.element_from_alias_rate("K2O", &known).is_err());
}

#[test]
fn components_percentage_sorted_and_filtered() {
    let known = load_known_elements();
    let c = Compound::new("Ca(NO3)2", &known).ok().unwrap();
    let rep = c.components_percentage(&known).ok().unwrap();
    let names: Vec<&str> = rep.iter().map(|e| e.element.name.as_str()).collect();
    assert_eq!(names, vec!["N", "Ca"]);
    assert_delta_eq(fraction(rep[0].concentration), 28.014 / 164.086, 1e-6);
    assert_eq!(rep[0].aliases.len(), 1);
    assert_eq!(rep[0].aliases[0].element_alias, "NO3");
    assert_delta_eq(rep[0].aliases[0].concentration as f64 / 1e9, 124.008 / 164.086, 1e-5);
}

#[test]
fn catalog_rejects_duplicates() {
    let elements = vec![element("K", 39.0983, false, 0, &[]), element("K", 39.0983, false, 0, &[])];
    assert!(matches!(KnownElements::new(elements), Err(CatalogError::DuplicateElement(_))));
    let elements = vec![element("K", 0.0, false, 0, &[])];
    assert!(matches!(KnownElements::new(elements), Err(CatalogError::ZeroMolarMass(_))));
}

#[test]
fn test_kno3_dry() {
    let tank = sample_tank();
    let known_elts = load_known_elements();
    let compound = kno3(&known_elts);
    let dosing = DryDosing { dilute_input: 1_000_000, what: DiluteCalcType::ResultOfDose, target_element: None };
    let results = dosing.dilute(&compound, &known_elts, &tank).ok().unwrap();
    assert!(!results.elements_dose.is_empty());
    assert_eq!(results.elements_dose[0].element.name.as_str(), "N");
    assert_delta_eq(mg_per_l(results.elements_dose[0].dose), 0.815, MOLAR_MASS_EPSILON);
    assert_eq!(results.elements_dose[1].element.name.as_str(), "K");
    assert_delta_eq(mg_per_l(results.elements_dose[1].dose), 2.275, MOLAR_MASS_EPSILON);
}

#[test]
fn test_kno3_solution() {
    let tank = sample_tank();
    let known_elts = load_known_elements();
    let compound = kno3(&known_elts);
    let dosing = SolutionDosing {
        dose: 10_000_000,
        container_volume: 1000,
        portion_volume: 100,
        what: DiluteCalcType::ResultOfDose,
        target_element: None,
    };
    let results = dosing.dilute(&compound, &known_elts, &tank).ok().unwrap();
    assert!(!results.elements_dose.is_empty());
    assert_eq!(results.elements_dose[0].element.name.as_str(), "N");
    assert_delta_eq(mg_per_l(results.elements_dose[0].dose), 0.815, MOLAR_MASS_EPSILON);
    assert_eq!(results.elements_dose[1].element.name.as_str(), "K");
    assert_delta_eq(mg_per_l(results.elements_dose[1].dose), 2.275, MOLAR_MASS_EPSILON);
}

#[test]
fn solution_matches_dry_exactly() {
    let tank = sample_tank();
    let known = load_known_elements();
    let compound = kno3(&known);
    let dry = DryDosing { dilute_input: 1_000_000, what: DiluteCalcType::ResultOfDose, target_element: None };
    let sol = SolutionDosing {
        dose: 10_000_000,
        container_volume: 1000,
        portion_volume: 100,
        what: DiluteCalcType::ResultOfDose,
        target_element: None,
    };
    let a = dry.dilute(&compound, &known, &tank).ok().unwrap();
    let b = sol.dilute(&compound, &known, &tank).ok().unwrap();
    assert_eq!(a.elements_dose.len(), b.elements_dose.len());
    for (x, y) in a.elements_dose.iter().zip(b.elements_dose.iter()) {
        assert_eq!(x.dose, y.dose);
        for (p, q) in x.aliases.iter().zip(y.aliases.iter()) {
            assert_eq!(p.dose, q.dose);
        }
    }
    assert_eq!(a.compound_dose, 1_000_000);
    assert_eq!(b.compound_dose, 10_000_000);
}

#[test]
fn dry_dose_alias_and_exact_value() {
    let tank = sample_tank();
    let known = load_known_elements();
    let compound = kno3(&known);
    let dosing = DryDosing { dilute_input: 1_000_000, what: DiluteCalcType::ResultOfDose, target_element: None };
    let r = dosing.dilute(&compound, &known, &tank).ok().unwrap();
    let n = &r.elements_dose[0];
    assert_eq!(n.aliases[0].element_alias, "NO3");
    assert_delta_eq(mg_per_l(n.aliases[0].dose), 0.815 * 62.004 / 14.007, 0.01);
    let f = compound_fraction(&known, "KNO3", "N");
    assert_eq!(n.dose, 1_000_000u128 * f as u128 / (1_000_000 * 170));
}

fn compound_fraction(known: &KnownElements, formula: &str, name: &str) -> u64 {
    let c = Compound::new(formula, known).ok().unwrap();
    let e = known.elements.iter().find(|e| e.name == name).unwrap();
    c.element_fraction(known, e).unwrap()
}

#[test]
fn target_dose_inverts_result_of_dose() {
    let tank = sample_tank();
    let known = load_known_elements();
    let compound = kno3(&known);
    let target = DryDosing {
        dilute_input: 10_000_000,
        what: DiluteCalcType::TargetDose,
        target_element: Some("N".to_string()),
    };
    let t = target.dilute(&compound, &known, &tank).ok().unwrap();
    let back = DryDosing { dilute_input: t.compound_dose, what: DiluteCalcType::ResultOfDose, target_element: None };
    let r = back.dilute(&compound, &known, &tank).ok().unwrap();
    assert_delta_eq(dose_of_element(&r, "N"), 10.0, MOLAR_MASS_EPSILON);
    assert_delta_eq(dose_of_element(&t, "N"), 10.0, MOLAR_MASS_EPSILON);
    assert_delta_eq(t.compound_dose as f64 / 1e6, 10.0 * 170.0 * 101.1023 / 14.007 / 1000.0, 1e-4);
}

#[test]
fn solution_target_dose_inverts() {
    let tank = sample_tank();
    let known = load_known_elements();
    let compound = kno3(&known);
    let target = SolutionDosing {
        dose: 2_000_000,
        container_volume: 500,
        portion_volume: 20,
        what: DiluteCalcType::TargetDose,
        target_element: Some("K".to_string()),
    };
    let t = target.dilute(&compound, &known, &tank).ok().unwrap();
    assert_delta_eq(dose_of_element(&t, "K"), 2.0, MOLAR_MASS_EPSILON);
    assert_delta_eq(t.compound_dose as f64 / 1e6, 2.0 * 170.0 / (39.0983 / 101.1023) * 500.0 / 20.0 / 1000.0, 1e-3);
}

#[test]
fn dosing_errors() {
    let known = load_known_elements();
    let compound = kno3(&known);
    let tank = sample_tank();
    let no_target = DryDosing { dilute_input: 1, what: DiluteCalcType::TargetDose, target_element: None };
    assert!(matches!(no_target.dilute(&compound, &known, &tank), Err(DoseError::NoTargetElement)));
    let missing = DryDosing { dilute_input: 1, what: DiluteCalcType::TargetDose, target_element: Some("Ca".to_string()) };
    match missing.dilute(&compound, &known, &tank) {
        Err(DoseError::MissingTargetElement(s)) => assert_eq!(s, "Ca"),
        _ => panic!("expected a missing target"),
    }
    let insignificant = DryDosing { dilute_input: 1, what: DiluteCalcType::TargetDose, target_element: Some("O".to_string()) };
    assert!(matches!(insignificant.dilute(&compound, &known, &tank), Err(DoseError::MissingTargetElement(_))));
    let tiny = Tank::new_volume(500, false);
    let dry = DryDosing { dilute_input: 1, what: DiluteCalcType::ResultOfDose, target_element: None };
    assert!(matches!(dry.dilute(&compound, &known, &tiny), Err(DoseError::InvalidTankSpec)));
    let sol = SolutionDosing { dose: 1, container_volume: 0, portion_volume: 1, what: DiluteCalcType::ResultOfDose, target_element: None };
    assert!(matches!(sol.dilute(&compound, &known, &tank), Err(DoseError::InvalidSolution)));
    let huge = DryDosing { dilute_input: u64::MAX, what: DiluteCalcType::TargetDose, target_element: Some("N".to_string()) };
    assert!(matches!(huge.dilute(&compound, &known, &tank), Err(DoseError::Overflow)));
}

#[test]
fn dose_target_from_ion() {
    let known = load_known_elements();
    let (name, target) = element_dose_target("NO3", 10_000_000, &known).ok().unwrap();
    assert_eq!(name, "N");
    assert_delta_eq(target as f64 / 1e6, 10.0 * 14.007 / 62.004, 1e-5);
}

#[test]
fn default_calc_type_is_result_of_dose() {
    assert_eq!(DiluteCalcType::default(), DiluteCalcType::ResultOfDose);
}

fn npk(n: u64, p: u64, k: u64, mg: u64) -> MacroElements {
    MacroElements { nitrogen_percentage: n, p2o5_percentage: p, k2o_percentage: k, mgo_percentage: mg }
}

#[test]
fn miracle_gro() {
    let known_elements = load_known_elements();
    let fert = MixedFertilizer::new_from_npk(&npk(24_000, 8_000, 16_000, 0), &known_elements).ok().unwrap();
    assert_eq!(fert.name, "NPK-24:8:16");
    let percentages = fert.components_percentage(&known_elements).ok().unwrap();
    assert_eq!(percentages[0].element.name, "N");
    assert_delta_eq(fraction(percentages[0].concentration), 24.0 / 100.0, MOLAR_MASS_EPSILON);
    assert_eq!(percentages[1].element.name, "P");
    assert_delta_eq(fraction(percentages[1].concentration), 3.5 / 100.0, MOLAR_MASS_EPSILON);
    assert_eq!(percentages[2].element.name, "K");
    assert_delta_eq(fraction(percentages[2].concentration), 13.3 / 100.0, MOLAR_MASS_EPSILON);
}

#[test]
fn chempak_tomato() {
    let known_elements = load_known_elements();
    let fert = MixedFertilizer::new_from_npk(&npk(11_000, 9_000, 30_000, 2_500), &known_elements).ok().unwrap();
    assert_eq!(fert.name, "NPK+Mg-11:9:30+2.5");
    let percentages = fert.components_percentage(&known_elements).ok().unwrap();
    assert_eq!(percentages[0].element.name, "N");
    assert_delta_eq(fraction(percentages[0].concentration), 11.0 / 100.0, MOLAR_MASS_EPSILON);
    assert_eq!(percentages[1].element.name, "P");
    assert_delta_eq(fraction(percentages[1].concentration), 3.9 / 100.0, MOLAR_MASS_EPSILON);
    assert_eq!(percentages[2].element.name, "K");
    assert_delta_eq(fraction(percentages[2].concentration), 24.9 / 100.0, MOLAR_MASS_EPSILON);
    assert_eq!(percentages[3].element.name, "Mg");
    assert_delta_eq(fraction(percentages[3].concentration), 1.5 / 100.0, MOLAR_MASS_EPSILON);
}

#[test]
fn mgo_changes_only_magnesium() {
    let known = load_known_elements();
    let a = MixedFertilizer::new_from_npk(&npk(11_000, 9_000, 30_000, 0), &known).ok().unwrap();
    let b = MixedFertilizer::new_from_npk(&npk(11_000, 9_000, 30_000, 2_500), &known).ok().unwrap();
    for i in 0..known.elements.len() {
        if known.elements[i].name == "Mg" {
            assert_eq!(a.elements_composition[i], 0);
            assert_delta_eq(fraction(b.elements_composition[i]), 0.025 * 24.305 / 40.304, 1e-6);
        } else {
            assert_eq!(a.elements_composition[i], b.elements_composition[i]);
        }
    }
}

#[test]
fn npk_errors_and_names() {
    let known = load_known_elements();
    assert!(matches!(MixedFertilizer::new_from_npk(&npk(100_001, 0, 0, 0), &known), Err(MixError::PercentageOutOfRange)));
    let fert = MixedFertilizer::new_from_npk(&npk(12_345, 0, 7_050, 0), &known).ok().unwrap();
    assert_eq!(fert.name, "NPK-12.345:0:7.05");
    let bare = match KnownElements::new(vec![element("N", 14.007, false, 0, &[])]) {
        Ok(k) => k,
        Err(_) => panic!("invalid element catalog"),
    };
    assert!(matches!(MixedFertilizer::new_from_npk(&npk(1_000, 0, 0, 0), &bare), Err(MixError::MissingElement(_))));
}

#[test]
fn mix_from_compounds() {
    let known = load_known_elements();
    let parts = vec![("KNO3".to_string(), 50_000u64), ("Ca(NO3)2".to_string(), 50_000u64)];
    let mix = MixedFertilizer::new_from_compounds("blend", "half and half", &parts, &known).ok().unwrap();
    let n = known.elements.iter().position(|e| e.name == "N").unwrap();
    let o = known.elements.iter().position(|e| e.name == "O").unwrap();
    let expected = 0.5 * 14.007 / 101.1023 + 0.5 * 28.014 / 164.086;
    assert_delta_eq(fraction(mix.elements_composition[n]), expected, 1e-6);
    assert_eq!(mix.elements_composition[o], 0);
    assert_eq!(mix.description, "half and half");
    let over = vec![("K".to_string(), 100_000u64), ("K".to_string(), 60_000u64)];
    assert!(matches!(MixedFertilizer::new_from_compounds("x", "", &over, &known), Err(MixError::FractionOutOfRange)));
    let bad = vec![("Xx".to_string(), 1_000u64)];
    assert!(matches!(MixedFertilizer::new_from_compounds("x", "", &bad, &known), Err(MixError::InvalidCompound(_, _))));
}

fn entry(name: &str, formula: Option<&str>, compounds: Option<Vec<(String, u64)>>) -> CatalogEntry {
    CatalogEntry {
        name: name.to_string(),
        formula: formula.map(|f| f.to_string()),
        compounds,
        description: None,
    }
}

#[test]
fn catalog_load_and_override() {
    let known = load_known_elements();
    let mut db = FertilizersDb::new();
    let first = vec![entry("Saltpeter", Some("KNO3"), None), entry("Urea", Some("CO(NH2)2"), None)];
    assert!(db.load_db(&first, &known).is_ok());
    let second = vec![entry("Saltpeter", Some("NaNO3"), None)];
    assert!(db.load_db(&second, &known).is_err());
    match db.get("Saltpeter") {
        Some(Fertilizer::Compound(c)) => assert_eq!(c.name, "KNO3"),
        _ => panic!("expected the first entry to stay"),
    }
    let third = vec![
        entry("Saltpeter", Some("Ca(NO3)2"), None),
        entry("Mix", None, Some(vec![("KNO3".to_string(), 100_000u64)])),
    ];
    assert!(db.load_db(&third, &known).is_ok());
    match db.get("Saltpeter") {
        Some(f) => assert_eq!(f.name(), "Ca(NO3)2"),
        None => panic!("expected an entry"),
    }
    match db.get("Urea") {
        Some(f) => assert_eq!(f.description(), "Compound: CO(NH2)2"),
        None => panic!("expected an entry"),
    }
    assert!(matches!(db.get("Mix"), Some(Fertilizer::Mix(_))));
    assert_eq!(db.names().len(), 3);
}

#[test]
fn catalog_rejects_shapeless_entry() {
    let known = load_known_elements();
    let mut db = FertilizersDb::new();
    let entries = vec![entry("Saltpeter", Some("KNO3"), None), entry("Nothing", None, None)];
    match db.load_db(&entries, &known) {
        Err(FertilizerDbError::InvalidCatalogEntry(name)) => assert_eq!(name, "Nothing"),
        _ => panic!("expected an invalid entry"),
    }
    assert!(db.get("Saltpeter").is_none());
}

#[test]
fn test_tanks_linear() {
    let tank = Tank::new_linear(500, 900, 500, false);
    assert_eq!(tank.metric_volume(), 225);
    assert_eq!(tank.effective_volume(), 191);
    let tank = Tank::new_linear(500, 900, 500, true);
    assert_eq!(tank.effective_volume(), 225);
}

#[test]
fn test_tanks_volume() {
    let tank = Tank::new_volume(200_000, false);
    assert_eq!(tank.metric_volume(), 200);
    assert_eq!(tank.effective_volume(), 170);
    let tank = Tank::new_volume(200_999, true);
    assert_eq!(tank.metric_volume(), 200);
    assert_eq!(tank.effective_volume(), 200);
}

#[test]
fn lookup_prefers_catalog_then_formula() {
    let known = load_known_elements();
    let mut db = FertilizersDb::new();
    assert!(db.load_db(&vec![entry("Saltpeter", Some("KNO3"), None)], &known).is_ok());
    match db.lookup_or_parse("Saltpeter", &known) {
        Ok(Fertilizer::Compound(c)) => assert_eq!(c.name, "KNO3"),
        _ => panic!("expected the catalog entry"),
    }
    match db.lookup_or_parse("K2SO4", &known) {
        Ok(Fertilizer::Compound(c)) => assert_eq!(count(&c, &known, "S"), 1),
        _ => panic!("expected a parsed formula"),
    }
    assert!(db.lookup_or_parse("Nonsense", &known).is_err());
}

#[test]
fn target_dose_by_ion_dry() {
    let known = load_known_elements();
    let compound = kno3(&known);
    let tank = sample_tank();
    let dosing = DryDosing { dilute_input: 10_000_000, what: DiluteCalcType::TargetDose, target_element: Some("NO3".to_string()) };
    let r = dosing.dilute(&compound, &known, &tank).ok().unwrap();
    assert_delta_eq(r.compound_dose as f64 / 1e6, 2.772, MOLAR_MASS_EPSILON);
    assert_delta_eq(dose_of_element(&r, "N"), 10.0 * 14.007 / 62.004, MOLAR_MASS_EPSILON);
}

#[test]
fn target_dose_by_ion_solution() {
    let known = load_known_elements();
    let compound = kno3(&known);
    let tank = sample_tank();
    let dosing = SolutionDosing {
        dose: 10_000_000,
        container_volume: 1000,
        portion_volume: 20,
        what: DiluteCalcType::TargetDose,
        target_element: Some("NO3".to_string()),
    };
    let r = dosing.dilute(&compound, &known, &tank).ok().unwrap();
    assert_delta_eq(r.compound_dose as f64 / 1e6, 138.599, 0.01);
}

#[test]
fn target_token_errors() {
    let known = load_known_elements();
    let compound = kno3(&known);
    let tank = sample_tank();
    let bad = DryDosing { dilute_input: 1, what: DiluteCalcType::TargetDose, target_element: Some("2KO".to_string()) };
    assert!(matches!(bad.dilute(&compound, &known, &tank), Err(DoseError::InvalidTarget(ParseError::DanglingMultiplier))));
    let lacking = DryDosing { dilute_input: 1, what: DiluteCalcType::TargetDose, target_element: Some("SO4".to_string()) };
    match lacking.dilute(&compound, &known, &tank) {
        Err(DoseError::MissingTargetElement(s)) => assert_eq!(s, "SO4"),
        _ => panic!("expected a missing target"),
    }
}

#[test]
fn report_keeps_elements_with_tiny_share() {
    let known = load_known_elements();
    let c = Compound::new("NC4000000000", &known).ok().unwrap();
    let rep = c.components_percentage(&known).ok().unwrap();
    assert_eq!(rep.len(), 1);
    assert_eq!(rep[0].element.name, "N");
    assert_eq!(rep[0].concentration, 0);
}
