use vstd::prelude::*;
use vstd::string::StringExecFns;
use crate::composition::{
    aliases_valid, compound_fractions, counts_presence, fractions_presence, is_report, presence_of_counts,
    presence_of_fractions, reported, CompositionError, ElementsConcentrationsWithAliases,
};
use crate::compound::{Compound, PPB};
use crate::elements::KnownElements;
use crate::mix::MixedFertilizer;

verus! {

/// Anything that exposes an elemental composition: a single compound or a blend.
pub enum Fertilizer {
    Compound(Compound),
    Mix(MixedFertilizer),
}

impl Fertilizer {
    pub open spec fn wf(&self, known: &KnownElements) -> bool {
        match self {
            Fertilizer::Compound(c) => c.wf(known),
            Fertilizer::Mix(m) => m.wf(known),
        }
    }

    /// The mass fraction of each catalog element, in parts per billion.
    pub open spec fn fractions(&self, known: KnownElements) -> Seq<u64> {
        match self {
            Fertilizer::Compound(c) => compound_fractions(c.elements@, known),
            Fertilizer::Mix(m) => m.elements_composition@,
        }
    }

    /// The elements present: atoms of a compound, non-zero fractions of a blend.
    pub open spec fn presence(&self) -> Seq<bool> {
        match self {
            Fertilizer::Compound(c) => counts_presence(c.elements@),
            Fertilizer::Mix(m) => fractions_presence(m.elements_composition@),
        }
    }

    /// `presence`, computed.
    pub fn presence_exec(&self) -> (r: Vec<bool>)
        ensures
            r@ == self.presence(),
    {
        match self {
            Fertilizer::Compound(c) => presence_of_counts(&c.elements),
            Fertilizer::Mix(m) => presence_of_fractions(&m.elements_composition),
        }
    }

    pub open spec fn spec_name(&self) -> Seq<char> {
        match self {
            Fertilizer::Compound(c) => c.name@,
            Fertilizer::Mix(m) => m.name@,
        }
    }

    /// The composition report: each significant element's fraction, with its aliases, in display order.
    pub fn components_percentage(&self, known: &KnownElements) -> (r: Result<Vec<ElementsConcentrationsWithAliases>, CompositionError>)
        requires
            known.wf(),
            self.wf(known),
        ensures
            r is Ok <==> forall|j: int|
                0 <= j < known.len() && reported(*known, self.presence(), j) ==> aliases_valid(*known, j),
            r is Ok ==> is_report(*known, self.fractions(*known), self.presence(), r->Ok_0@),
    {
        match self {
            Fertilizer::Compound(c) => c.components_percentage(known),
            Fertilizer::Mix(m) => m.components_percentage(known),
        }
    }

    /// The fraction of each catalog element, in parts per billion, none over the whole.
    pub fn fractions_exec(&self, known: &KnownElements) -> (r: Vec<u64>)
        requires
            known.wf(),
            self.wf(known),
        ensures
            r@ == self.fractions(*known),
            r@.len() == known.len(),
            forall|j: int| 0 <= j < r@.len() ==> r@[j] <= PPB,
    {
        match self {
            Fertilizer::Compound(c) => c.fractions(known),
            Fertilizer::Mix(m) => m.elements_composition.clone(),
        }
    }

    pub fn name(&self) -> (r: &str)
        ensures
            r@ == self.spec_name(),
    {
        match self {
            Fertilizer::Compound(c) => c.name.as_str(),
            Fertilizer::Mix(m) => m.name.as_str(),
        }
    }

    /// A one-line description: `Compound: <formula>` for a compound, the blend's own text for a mix.
    pub fn description(&self) -> (r: String)
        ensures
            r@ == match self {
                Fertilizer::Compound(c) => "Compound: "@ + c.name@,
                Fertilizer::Mix(m) => m.description@,
            },
    {
        match self {
            Fertilizer::Compound(c) => String::from_str("Compound: ").concat(c.name.as_str()),
            Fertilizer::Mix(m) => m.description.clone(),
        }
    }
}

} // verus!
