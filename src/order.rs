use vstd::prelude::*;
use vstd::string::StrSliceExecFns;
use crate::elements::{Element, KnownElements};

verus! {

/// Lexicographic order of `a` and `b` from position `i` on (strict, by code point).
pub open spec fn name_before_from(a: Seq<char>, b: Seq<char>, i: int) -> bool
    decreases a.len() - i,
{
    if i < 0 || i >= a.len() {
        0 <= i < b.len()
    } else if i >= b.len() {
        false
    } else if a[i] != b[i] {
        a[i] < b[i]
    } else {
        name_before_from(a, b, i + 1)
    }
}

/// `a` comes strictly before `b` in lexicographic order.
pub open spec fn name_before(a: Seq<char>, b: Seq<char>) -> bool {
    name_before_from(a, b, 0)
}

/// Display order of elements: higher priority first, then by name.
pub open spec fn precedes(a: Element, b: Element) -> bool {
    if a.priority == b.priority {
        name_before(a.name@, b.name@)
    } else {
        a.priority > b.priority
    }
}

proof fn lemma_name_irreflexive(a: Seq<char>, i: int)
    requires
        0 <= i,
    ensures
        !name_before_from(a, a, i),
    decreases a.len() - i,
{
    if i < a.len() {
        lemma_name_irreflexive(a, i + 1);
    }
}

proof fn lemma_name_total(a: Seq<char>, b: Seq<char>, i: int)
    requires
        0 <= i <= a.len(),
        i <= b.len(),
        a.subrange(i, a.len() as int) != b.subrange(i, b.len() as int),
    ensures
        name_before_from(a, b, i) || name_before_from(b, a, i),
    decreases a.len() - i,
{
    if i < a.len() && i < b.len() && a[i] == b[i] {
        if a.subrange(i + 1, a.len() as int) == b.subrange(i + 1, b.len() as int) {
            assert(a.subrange(i, a.len() as int) =~= seq![a[i]] + a.subrange(i + 1, a.len() as int));
            assert(b.subrange(i, b.len() as int) =~= seq![b[i]] + b.subrange(i + 1, b.len() as int));
        }
        lemma_name_total(a, b, i + 1);
    } else if i == a.len() && i == b.len() {
        assert(a.subrange(i, a.len() as int) =~= b.subrange(i, b.len() as int));
    }
}

proof fn lemma_name_transitive(a: Seq<char>, b: Seq<char>, c: Seq<char>, i: int)
    requires
        0 <= i,
        name_before_from(a, b, i),
        name_before_from(b, c, i),
    ensures
        name_before_from(a, c, i),
    decreases a.len() - i,
{
    if i < a.len() && i < b.len() && i < c.len() && a[i] == b[i] && b[i] == c[i] {
        lemma_name_transitive(a, b, c, i + 1);
    }
}

proof fn lemma_name_asymmetric(a: Seq<char>, b: Seq<char>, i: int)
    requires
        0 <= i,
        name_before_from(a, b, i),
    ensures
        !name_before_from(b, a, i),
    decreases a.len() - i,
{
    if i < a.len() && i < b.len() && a[i] == b[i] {
        lemma_name_asymmetric(a, b, i + 1);
    }
}

/// The display order is a strict total order on elements with distinct names.
pub proof fn lemma_precedes_order(a: Element, b: Element, c: Element)
    ensures
        !precedes(a, a),
        precedes(a, b) ==> !precedes(b, a),
        a.name@ != b.name@ ==> precedes(a, b) || precedes(b, a),
        precedes(a, b) && precedes(b, c) ==> precedes(a, c),
{
    lemma_name_irreflexive(a.name@, 0);
    if precedes(a, b) && a.priority == b.priority {
        lemma_name_asymmetric(a.name@, b.name@, 0);
    }
    if a.name@ != b.name@ {
        assert(a.name@.subrange(0, a.name@.len() as int) =~= a.name@);
        assert(b.name@.subrange(0, b.name@.len() as int) =~= b.name@);
        lemma_name_total(a.name@, b.name@, 0);
    }
    if precedes(a, b) && precedes(b, c) && a.priority == b.priority && b.priority == c.priority {
        lemma_name_transitive(a.name@, b.name@, c.name@, 0);
    }
}

/// Whether name `a` comes strictly before name `b`.
pub fn name_before_exec(a: &str, b: &str) -> (r: bool)
    ensures
        r == name_before(a@, b@),
{
    let na = a.unicode_len();
    let nb = b.unicode_len();
    let mut i: usize = 0;
    while i < na && i < nb
        invariant
            na == a@.len(),
            nb == b@.len(),
            i <= na,
            i <= nb,
            name_before_from(a@, b@, 0) == name_before_from(a@, b@, i as int),
        decreases na - i,
    {
        let ca = a.get_char(i);
        let cb = b.get_char(i);
        if ca != cb {
            return ca < cb;
        }
        i += 1;
    }
    i < nb
}

/// Whether element `a` comes before element `b` in display order.
pub fn precedes_exec(a: &Element, b: &Element) -> (r: bool)
    ensures
        r == precedes(*a, *b),
{
    if a.priority == b.priority {
        name_before_exec(a.name.as_str(), b.name.as_str())
    } else {
        a.priority > b.priority
    }
}

/// Catalog positions whose elements are in display order.
pub open spec fn sorted_positions(known: KnownElements, idx: Seq<int>) -> bool {
    forall|a: int, b: int|
        0 <= a < b < idx.len() ==> precedes(known.elements@[idx[a]], known.elements@[idx[b]])
}

} // verus!
