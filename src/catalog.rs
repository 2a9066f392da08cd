use vstd::prelude::*;
use crate::compound::Compound;
use crate::elements::{chars_of, str_eq_chars, KnownElements};
use crate::fertilizer::Fertilizer;
use crate::formula::{parse_formula, ParseError};
use crate::mix::{mix_fold, MixError, MixedFertilizer};

verus! {

/// One named entry of a fertilizer catalog source: a formula, or a blend of compounds
/// (formula and portion in thousandths of a percent) with an optional description.
pub struct CatalogEntry {
    pub name: String,
    pub formula: Option<String>,
    pub compounds: Option<Vec<(String, u64)>>,
    pub description: Option<String>,
}

/// Why a catalog source is rejected as a whole.
pub enum FertilizerDbError {
    /// The named entry has neither `formula` nor `compounds`.
    InvalidCatalogEntry(String),
    /// The named entry's formula does not parse.
    InvalidFormula(String, ParseError),
    /// The named entry's blend cannot be built.
    InvalidMix(String, MixError),
}

/// The description an entry gives its blend.
pub open spec fn entry_description(e: CatalogEntry) -> Seq<char> {
    match e.description {
        Some(d) => d@,
        None => Seq::empty(),
    }
}

/// The entry has a shape and its fertilizer can be built.
pub open spec fn entry_ok(known: KnownElements, e: CatalogEntry) -> bool {
    match e.compounds {
        Some(cs) => mix_fold(known, cs@, cs@.len() as int) is Ok,
        None => match e.formula {
            Some(f) => parse_formula(known.names(), f@) is Ok,
            None => false,
        },
    }
}

/// `f` is the fertilizer that entry `e` describes.
pub open spec fn built_from(known: KnownElements, e: CatalogEntry, f: Fertilizer) -> bool {
    match e.compounds {
        Some(cs) => f matches Fertilizer::Mix(m) && m.elements_composition@ == mix_fold(known, cs@, cs@.len() as int)->Ok_0
            && m.name@ == e.name@ && m.description@ == entry_description(e),
        None => match e.formula {
            Some(fo) => f matches Fertilizer::Compound(c) && c.elements@ == parse_formula(known.names(), fo@)->Ok_0
                && c.name@ == fo@,
            None => false,
        },
    }
}

/// The fertilizer filed under `name`, if any.
pub open spec fn lookup(db: Seq<(String, Fertilizer)>, name: Seq<char>) -> Option<Fertilizer> {
    if exists|i: int| 0 <= i < db.len() && db[i].0@ == name {
        Some(db[choose|i: int| 0 <= i < db.len() && db[i].0@ == name].1)
    } else {
        None
    }
}

/// Named fertilizers.
pub struct FertilizersDb {
    pub known_fertilizers: Vec<(String, Fertilizer)>,
}

impl FertilizersDb {
    /// Names are unique and every fertilizer fits the catalog.
    pub open spec fn wf(&self, known: &KnownElements) -> bool {
        &&& forall|i: int, j: int|
            0 <= i < j < self.known_fertilizers@.len() ==> self.known_fertilizers@[i].0@ != self.known_fertilizers@[j].0@
        &&& forall|i: int| 0 <= i < self.known_fertilizers@.len() ==> (#[trigger] self.known_fertilizers@[i]).1.wf(known)
    }

    pub open spec fn spec_get(&self, name: Seq<char>) -> Option<Fertilizer> {
        lookup(self.known_fertilizers@, name)
    }

    /// An empty catalog.
    pub fn new() -> (r: FertilizersDb)
        ensures
            r.known_fertilizers@.len() == 0,
    {
        FertilizersDb { known_fertilizers: Vec::new() }
    }

    /// The fertilizer filed under `name`.
    pub fn get(&self, name: &str) -> (r: Option<&Fertilizer>)
        requires
            forall|i: int, j: int|
                0 <= i < j < self.known_fertilizers@.len() ==> self.known_fertilizers@[i].0@ != self.known_fertilizers@[j].0@,
        ensures
            match self.spec_get(name@) {
                Some(f) => r == Some(&f),
                None => r is None,
            },
    {
        let nc = chars_of(name);
        let mut i: usize = 0;
        while i < self.known_fertilizers.len()
            invariant
                nc@ == name@,
                i <= self.known_fertilizers@.len(),
                forall|a: int, b: int|
                    0 <= a < b < self.known_fertilizers@.len() ==> self.known_fertilizers@[a].0@ != self.known_fertilizers@[b].0@,
                forall|a: int| 0 <= a < i ==> self.known_fertilizers@[a].0@ != name@,
            decreases self.known_fertilizers@.len() - i,
        {
            if str_eq_chars(self.known_fertilizers[i].0.as_str(), &nc) {
                proof {
                    let k = choose|k: int| 0 <= k < self.known_fertilizers@.len() && self.known_fertilizers@[k].0@ == name@;
                    assert(k == i as int);
                }
                return Some(&self.known_fertilizers[i].1);
            }
            i += 1;
        }
        None
    }
}

/// The fertilizer an entry describes.
fn build_fertilizer(known: &KnownElements, e: &CatalogEntry) -> (r: Result<Fertilizer, FertilizerDbError>)
    requires
        known.wf(),
    ensures
        r is Ok <==> entry_ok(*known, *e),
        r matches Ok(f) ==> built_from(*known, *e, f) && f.wf(known),
{
    match &e.compounds {
        Some(cs) => {
            let description: String = match &e.description {
                Some(d) => d.clone(),
                None => String::new(),
            };
            match MixedFertilizer::new_from_compounds(e.name.as_str(), description.as_str(), cs, known) {
                Ok(m) => Ok(Fertilizer::Mix(m)),
                Err(err) => Err(FertilizerDbError::InvalidMix(e.name.clone(), err)),
            }
        },
        None => match &e.formula {
            Some(f) => match Compound::new(f.as_str(), known) {
                Ok(c) => Ok(Fertilizer::Compound(c)),
                Err(err) => Err(FertilizerDbError::InvalidFormula(e.name.clone(), err)),
            },
            None => Err(FertilizerDbError::InvalidCatalogEntry(e.name.clone())),
        },
    }
}

impl FertilizersDb {
    /// Files `f` under `name`, replacing what was filed there.
    fn upsert(&mut self, name: String, f: Fertilizer, Ghost(known): Ghost<KnownElements>)
        requires
            old(self).wf(&known),
            f.wf(&known),
        ensures
            final(self).wf(&known),
            final(self).spec_get(name@) == Some(f),
            forall|other: Seq<char>| other != name@ ==> final(self).spec_get(other) == old(self).spec_get(other),
    {
        let nc = chars_of(name.as_str());
        let mut i: usize = 0;
        while i < self.known_fertilizers.len()
            invariant
                nc@ == name@,
                self == old(self),
                self.wf(&known),
                f.wf(&known),
                i <= self.known_fertilizers@.len(),
                forall|a: int| 0 <= a < i ==> self.known_fertilizers@[a].0@ != name@,
            decreases self.known_fertilizers@.len() - i,
        {
            if str_eq_chars(self.known_fertilizers[i].0.as_str(), &nc) {
                let ghost before = self.known_fertilizers@;
                let ghost g = f;
                self.known_fertilizers.set(i, (name, f));
                proof {
                    let db = self.known_fertilizers@;
                    assert(db[i as int].0@ == name@);
                    assert(forall|a: int| 0 <= a < db.len() && a != i ==> db[a] == before[a]);
                    assert(forall|a: int| 0 <= a < db.len() ==> db[a].0@ == before[a].0@);
                    assert(db[i as int].1 == g);
                    assert forall|a: int| 0 <= a < db.len() implies (#[trigger] db[a]).1.wf(&known) by {
                        if a != i {
                            assert(db[a] == before[a]);
                        }
                    }
                    assert forall|other: Seq<char>| other != name@ implies lookup(db, other) == lookup(before, other) by {
                        if exists|k: int| 0 <= k < before.len() && before[k].0@ == other {
                            let k = choose|k: int| 0 <= k < before.len() && before[k].0@ == other;
                            assert(db[k].0@ == other);
                        }
                        if exists|k: int| 0 <= k < db.len() && db[k].0@ == other {
                            let k = choose|k: int| 0 <= k < db.len() && db[k].0@ == other;
                            assert(before[k].0@ == other);
                        }
                    }
                    let k = choose|k: int| 0 <= k < db.len() && db[k].0@ == name@;
                    assert(k == i as int);
                    assert(lookup(db, name@) == Some(g));
                }
                return;
            }
            i += 1;
        }
        let ghost before = self.known_fertilizers@;
        let ghost g = f;
        self.known_fertilizers.push((name, f));
        proof {
            let db = self.known_fertilizers@;
            assert forall|other: Seq<char>| other != name@ implies lookup(db, other) == lookup(before, other) by {
                if exists|k: int| 0 <= k < before.len() && before[k].0@ == other {
                    let k = choose|k: int| 0 <= k < before.len() && before[k].0@ == other;
                    assert(db[k].0@ == other);
                }
                if exists|k: int| 0 <= k < db.len() && db[k].0@ == other {
                    let k = choose|k: int| 0 <= k < db.len() && db[k].0@ == other;
                    assert(before[k].0@ == other);
                }
            }
            assert(db[before.len() as int].0@ == name@);
            let k = choose|k: int| 0 <= k < db.len() && db[k].0@ == name@;
            assert(k == before.len());
        }
    }

    /// Loads one catalog source: each entry becomes a compound (`formula`) or a blend (`compounds`),
    /// filed under its name; later entries replace earlier ones. Nothing changes unless every entry
    /// is valid.
    pub fn load_db(&mut self, entries: &Vec<CatalogEntry>, known: &KnownElements) -> (r: Result<(), FertilizerDbError>)
        requires
            known.wf(),
            old(self).wf(known),
        ensures
            r is Ok <==> forall|k: int| 0 <= k < entries@.len() ==> entry_ok(*known, #[trigger] entries@[k]),
            r is Err ==> *final(self) == *old(self),
            r is Ok ==> {
                &&& final(self).wf(known)
                &&& forall|k: int|
                    0 <= k < entries@.len() && (forall|k2: int| k < k2 < entries@.len() ==> entries@[k2].name@ != entries@[k].name@)
                        ==> (#[trigger] final(self).spec_get(entries@[k].name@) matches Some(f) && built_from(*known, entries@[k], f))
                &&& forall|name: Seq<char>|
                    (forall|k: int| 0 <= k < entries@.len() ==> entries@[k].name@ != name) ==> #[trigger] final(self).spec_get(name)
                        == old(self).spec_get(name)
            },
    {
        let mut built: Vec<(String, Fertilizer)> = Vec::new();
        let mut k: usize = 0;
        while k < entries.len()
            invariant
                known.wf(),
                k <= entries@.len(),
                built@.len() == k,
                forall|a: int| 0 <= a < k ==> entry_ok(*known, #[trigger] entries@[a]),
                forall|a: int|
                    0 <= a < k ==> (#[trigger] built@[a]).0@ == entries@[a].name@ && built_from(*known, entries@[a], built@[a].1)
                        && built@[a].1.wf(known),
            decreases entries@.len() - k,
        {
            let e = &entries[k];
            match build_fertilizer(known, e) {
                Ok(f) => {
                    built.push((e.name.clone(), f));
                },
                Err(err) => {
                    return Err(err);
                },
            }
            k += 1;
        }
        let ghost start = *self;
        let ghost all = built@;
        let n = built.len();
        let mut i: usize = 0;
        while i < n
            invariant
                known.wf(),
                self.wf(known),
                all.len() == entries@.len(),
                n == all.len(),
                i <= n,
                built@ == all.subrange(i as int, n as int),
                forall|a: int|
                    0 <= a < all.len() ==> (#[trigger] all[a]).0@ == entries@[a].name@ && built_from(*known, entries@[a], all[a].1)
                        && all[a].1.wf(known),
                forall|a: int|
                    0 <= a < i && (forall|k2: int| a < k2 < i ==> entries@[k2].name@ != entries@[a].name@)
                        ==> (#[trigger] self.spec_get(entries@[a].name@) matches Some(f) && built_from(*known, entries@[a], f)),
                forall|name: Seq<char>|
                    (forall|a: int| 0 <= a < i ==> entries@[a].name@ != name) ==> #[trigger] self.spec_get(name) == start.spec_get(name),
            decreases n - i,
        {
            let (name, f) = built.remove(0);
            assert(all[i as int] == (name, f));
            self.upsert(name, f, Ghost(*known));
            i += 1;
            assert(built@ =~= all.subrange(i as int, n as int));
        }
        Ok(())
    }

    /// The names in the catalog, e.g. for completion.
    pub fn names(&self) -> (r: Vec<String>)
        ensures
            r@.len() == self.known_fertilizers@.len(),
            forall|i: int| 0 <= i < r@.len() ==> r@[i] == self.known_fertilizers@[i].0,
    {
        let mut r: Vec<String> = Vec::new();
        let mut i: usize = 0;
        while i < self.known_fertilizers.len()
            invariant
                i <= self.known_fertilizers@.len(),
                r@.len() == i,
                forall|a: int| 0 <= a < i ==> r@[a] == self.known_fertilizers@[a].0,
            decreases self.known_fertilizers@.len() - i,
        {
            r.push(self.known_fertilizers[i].0.clone());
            i += 1;
        }
        r
    }
}

/// `a` and `b` hold the same values.
pub open spec fn same_fertilizer(a: Fertilizer, b: Fertilizer) -> bool {
    match (a, b) {
        (Fertilizer::Compound(x), Fertilizer::Compound(y)) => x.elements@ == y.elements@ && x.name@ == y.name@,
        (Fertilizer::Mix(x), Fertilizer::Mix(y)) => x.elements_composition@ == y.elements_composition@ && x.name@ == y.name@
            && x.description@ == y.description@,
        _ => false,
    }
}

/// A copy of a fertilizer.
pub fn copy_fertilizer(f: &Fertilizer) -> (r: Fertilizer)
    ensures
        same_fertilizer(r, *f),
{
    match f {
        Fertilizer::Compound(c) => Fertilizer::Compound(Compound { elements: c.elements.clone(), name: c.name.clone() }),
        Fertilizer::Mix(m) => Fertilizer::Mix(
            MixedFertilizer {
                elements_composition: m.elements_composition.clone(),
                name: m.name.clone(),
                description: m.description.clone(),
            },
        ),
    }
}

impl FertilizersDb {
    /// The fertilizer filed under `name`, or else the compound that `name` spells as a formula.
    pub fn lookup_or_parse(&self, name: &str, known: &KnownElements) -> (r: Result<Fertilizer, ParseError>)
        requires
            known.wf(),
            self.wf(known),
        ensures
            match self.spec_get(name@) {
                Some(f) => r matches Ok(g) && same_fertilizer(g, f),
                None => match parse_formula(known.names(), name@) {
                    Ok(c) => r matches Ok(Fertilizer::Compound(g)) && g.elements@ == c && g.name@ == name@,
                    Err(e) => r matches Err(err) && err@ == e,
                },
            },
            r matches Ok(g) ==> g.wf(known),
    {
        match self.get(name) {
            Some(f) => {
                proof {
                    let k = choose|k: int| 0 <= k < self.known_fertilizers@.len() && self.known_fertilizers@[k].0@ == name@;
                    assert(self.known_fertilizers@[k].1.wf(known));
                }
                Ok(copy_fertilizer(f))
            },
            None => match Compound::new(name, known) {
                Ok(c) => Ok(Fertilizer::Compound(c)),
                Err(e) => Err(e),
            },
        }
    }
}

} // verus!
