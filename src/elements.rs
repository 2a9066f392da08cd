use vstd::prelude::*;
use vstd::string::StrSliceExecFns;

verus! {

/// A tracked element (or nutrient unit) with its molar mass and display metadata.
pub struct Element {
    /// Unique name in the catalog, e.g. `K`.
    pub name: String,
    /// Molar mass in micrograms per mole.
    pub molar_mass: u64,
    /// Insignificant elements are left out of composition reports.
    pub insignificant: bool,
    /// Display priority: higher comes first.
    pub priority: u32,
    /// Formulas of molecules or ions that re-express this element (e.g. `NO3` for `N`).
    pub aliases: Vec<String>,
}

impl Element {
    pub fn is_insignificant(&self) -> (r: bool)
        ensures
            r == self.insignificant,
    {
        self.insignificant
    }

    pub fn priority(&self) -> (r: u32)
        ensures
            r == self.priority,
    {
        self.priority
    }
}

/// Sum of the molar masses of the first `n` elements.
pub open spec fn mass_sum(elts: Seq<Element>, n: int) -> int
    decreases n,
{
    if n <= 0 {
        0
    } else {
        mass_sum(elts, n - 1) + elts[n - 1].molar_mass
    }
}

/// The names of a sequence of elements.
pub open spec fn names_of(elts: Seq<Element>) -> Seq<Seq<char>> {
    Seq::new(elts.len(), |i: int| elts[i].name@)
}

/// Errors that building an element catalog can report.
pub enum CatalogError {
    /// Two elements carry this name.
    DuplicateElement(String),
    /// This element has a zero molar mass.
    ZeroMolarMass(String),
    /// The molar masses, summed, do not fit in 64 bits.
    MassOverflow,
}

/// The registry of known elements, addressed by position.
pub struct KnownElements {
    pub elements: Vec<Element>,
}

impl KnownElements {
    pub open spec fn names(&self) -> Seq<Seq<char>> {
        names_of(self.elements@)
    }

    pub open spec fn len(&self) -> nat {
        self.elements@.len()
    }

    pub open spec fn mass(&self, i: int) -> nat {
        self.elements@[i].molar_mass as nat
    }

    /// Names are unique, every molar mass is positive, and their sum fits in 64 bits.
    pub open spec fn wf(&self) -> bool {
        &&& forall|i: int, j: int|
            0 <= i < j < self.elements@.len() ==> self.elements@[i].name@ != self.elements@[j].name@
        &&& forall|i: int| 0 <= i < self.elements@.len() ==> self.elements@[i].molar_mass > 0
        &&& mass_sum(self.elements@, self.elements@.len() as int) <= u64::MAX
    }

    /// Builds a catalog, checking that it is well formed.
    pub fn new(elements: Vec<Element>) -> (r: Result<KnownElements, CatalogError>)
        ensures
            r is Ok <==> (KnownElements { elements }).wf(),
            r is Ok ==> r->Ok_0.elements@ == elements@,
            r matches Err(CatalogError::DuplicateElement(s)) ==> exists|i: int, j: int|
                0 <= i < j < elements@.len() && elements@[i].name@ == s@ && elements@[j].name@ == s@,
            r matches Err(CatalogError::ZeroMolarMass(s)) ==> exists|i: int|
                0 <= i < elements@.len() && elements@[i].name@ == s@ && elements@[i].molar_mass == 0,
            r matches Err(CatalogError::MassOverflow) ==> mass_sum(elements@, elements@.len() as int) > u64::MAX,
    {
        let n = elements.len();
        let mut total: u64 = 0;
        let mut i: usize = 0;
        while i < n
            invariant
                n == elements@.len(),
                i <= n,
                total == mass_sum(elements@, i as int),
                forall|a: int, b: int| 0 <= a < b < i ==> elements@[a].name@ != elements@[b].name@,
                forall|a: int| 0 <= a < i ==> elements@[a].molar_mass > 0,
            decreases n - i,
        {
            let e = &elements[i];
            if e.molar_mass == 0 {
                let name = e.name.clone();
                return Err(CatalogError::ZeroMolarMass(name));
            }
            if total > u64::MAX - e.molar_mass {
                proof {
                    lemma_mass_sum_monotone(elements@, i as int + 1, n as int);
                }
                return Err(CatalogError::MassOverflow);
            }
            let mut j: usize = 0;
            while j < i
                invariant
                    i < n,
                    n == elements@.len(),
                    j <= i,
                    forall|b: int| 0 <= b < j ==> elements@[b].name@ != elements@[i as int].name@,
                decreases i - j,
            {
                if elements[j].name == elements[i].name {
                    let name = elements[i].name.clone();
                    return Err(CatalogError::DuplicateElement(name));
                }
                j += 1;
            }
            total = total + e.molar_mass;
            i += 1;
        }
        Ok(KnownElements { elements })
    }

    /// Position of the element whose name is `name`.
    pub fn find(&self, name: &Vec<char>) -> (r: Option<usize>)
        requires
            self.wf(),
        ensures
            match r {
                Some(i) => i < self.elements@.len() && find_name(self.names(), name@) == Some(i as int),
                None => find_name(self.names(), name@) is None,
            },
    {
        let n = self.elements.len();
        let mut i: usize = 0;
        while i < n
            invariant
                self.wf(),
                n == self.elements@.len(),
                i <= n,
                forall|j: int| 0 <= j < i ==> self.names()[j] != name@,
            decreases n - i,
        {
            if str_eq_chars(self.elements[i].name.as_str(), name) {
                proof {
                    let ghost k = choose|j: int| 0 <= j < self.names().len() && self.names()[j] == name@;
                    assert(self.names()[i as int] == name@);
                    assert(k == i);
                }
                return Some(i);
            }
            i += 1;
        }
        None
    }
}

pub proof fn lemma_mass_sum_monotone(elts: Seq<Element>, a: int, b: int)
    requires
        0 <= a <= b <= elts.len(),
    ensures
        mass_sum(elts, a) <= mass_sum(elts, b),
    decreases b - a,
{
    if a < b {
        lemma_mass_sum_monotone(elts, a, b - 1);
    }
}

/// The position of the name `name` in `names`, if it is there (names are unique in a catalog).
pub open spec fn find_name(names: Seq<Seq<char>>, name: Seq<char>) -> Option<int> {
    if exists|j: int| 0 <= j < names.len() && names[j] == name {
        Some(choose|j: int| 0 <= j < names.len() && names[j] == name)
    } else {
        None
    }
}

/// Whether the text `s` spells the characters `v`.
pub fn str_eq_chars(s: &str, v: &Vec<char>) -> (r: bool)
    ensures
        r == (s@ == v@),
{
    let n = s.unicode_len();
    if n != v.len() {
        return false;
    }
    let mut i: usize = 0;
    while i < n
        invariant
            n == s@.len(),
            n == v@.len(),
            i <= n,
            forall|j: int| 0 <= j < i ==> s@[j] == v@[j],
        decreases n - i,
    {
        if s.get_char(i) != v[i] {
            return false;
        }
        i += 1;
    }
    assert(s@ =~= v@);
    true
}

/// The characters of `s`, in order.
pub fn chars_of(s: &str) -> (r: Vec<char>)
    ensures
        r@ == s@,
{
    let n = s.unicode_len();
    let mut r: Vec<char> = Vec::new();
    let mut i: usize = 0;
    while i < n
        invariant
            n == s@.len(),
            i <= n,
            r@ == s@.subrange(0, i as int),
        decreases n - i,
    {
        r.push(s.get_char(i));
        i += 1;
    }
    assert(r@ =~= s@);
    r
}

/// Relies on std's `FromIterator<char>` for `String`: collecting characters keeps them in order.
#[verifier::external_body]
pub(crate) fn string_of_chars(v: &Vec<char>) -> (r: String)
    ensures
        r@ == v@,
{
    v.iter().collect()
}

} // verus!
