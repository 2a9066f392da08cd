use vstd::prelude::*;
use crate::elements::{find_name, string_of_chars, KnownElements};

verus! {

/// Why a formula could not be parsed.
pub enum ParseError {
    /// The name is not in the element catalog.
    UnknownElement(String),
    /// A multiplier stands with no element or group before it.
    DanglingMultiplier,
    /// The formula holds no atom.
    EmptyCompound,
    /// An atom count does not fit in 32 bits.
    CountOverflow,
}

/// The mathematical counterpart of `ParseError`.
pub enum ParseFault {
    UnknownElement(Seq<char>),
    DanglingMultiplier,
    EmptyCompound,
    CountOverflow,
}

impl View for ParseError {
    type V = ParseFault;

    open spec fn view(&self) -> ParseFault {
        match self {
            ParseError::UnknownElement(s) => ParseFault::UnknownElement(s@),
            ParseError::DanglingMultiplier => ParseFault::DanglingMultiplier,
            ParseError::EmptyCompound => ParseFault::EmptyCompound,
            ParseError::CountOverflow => ParseFault::CountOverflow,
        }
    }
}

/// Atom counts, one per catalog position.
pub type Counts = Seq<u32>;

/// The state of the left-to-right scan of one formula level.
pub struct ScanState {
    /// Counts registered so far.
    pub counts: Counts,
    /// Name accumulator (or, inside a group, the group's text).
    pub acc: Seq<char>,
    /// The element registered last, waiting for a multiplier.
    pub last_elt: Option<int>,
    /// The group parsed last, waiting to be merged.
    pub last_sub: Option<Counts>,
    /// The pending multiplier.
    pub last_cnt: Option<u32>,
    /// Opening parentheses seen in the current group.
    pub open: nat,
    /// Closing parentheses seen in the current group.
    pub close: nat,
}

pub open spec fn initial_state(n: nat) -> ScanState {
    ScanState {
        counts: Seq::new(n, |i: int| 0u32),
        acc: Seq::empty(),
        last_elt: None,
        last_sub: None,
        last_cnt: None,
        open: 0,
        close: 0,
    }
}

pub open spec fn is_upper(c: char) -> bool {
    'A' <= c && c <= 'Z'
}

pub open spec fn is_lower(c: char) -> bool {
    'a' <= c && c <= 'z'
}

pub open spec fn is_digit(c: char) -> bool {
    '0' <= c && c <= '9'
}

pub open spec fn digit_value(c: char) -> u32 {
    (c as u32 - '0' as u32) as u32
}

/// Registers one atom of the element named `name`; returns the counts and its position.
pub open spec fn add_atom(names: Seq<Seq<char>>, counts: Counts, name: Seq<char>) -> Result<(Counts, int), ParseFault> {
    match find_name(names, name) {
        None => Err(ParseFault::UnknownElement(name)),
        Some(e) => if counts[e] < u32::MAX {
            Ok((counts.update(e, (counts[e] + 1) as u32), e))
        } else {
            Err(ParseFault::CountOverflow)
        },
    }
}

/// Every count of `counts` plus `k` times that of `sub` fits in 32 bits.
pub open spec fn merge_fits(counts: Counts, sub: Counts, k: u32) -> bool {
    forall|j: int| 0 <= j < counts.len() ==> counts[j] + sub[j] * k <= u32::MAX
}

/// `counts` plus `k` times `sub`, position by position.
pub open spec fn merged(counts: Counts, sub: Counts, k: u32) -> Counts {
    Seq::new(counts.len(), |j: int| (counts[j] + sub[j] * k) as u32)
}

pub open spec fn merge_scaled(counts: Counts, sub: Counts, k: u32) -> Result<Counts, ParseFault> {
    if merge_fits(counts, sub, k) {
        Ok(merged(counts, sub, k))
    } else {
        Err(ParseFault::CountOverflow)
    }
}

/// The count of an element registered once, topped up to the literal multiplier `d`.
pub open spec fn topped_up(count: u32, d: u32) -> int {
    if count + d >= 1 {
        count + d - 1
    } else {
        0
    }
}

/// Resolves the pending multiplier, element and group into the counts.
/// Returns the new counts and whether anything was pending.
pub open spec fn flush(st: ScanState) -> Result<(Counts, bool), ParseFault> {
    match st.last_sub {
        Some(sub) => {
            let k: u32 = match st.last_cnt {
                Some(d) => d,
                None => 1,
            };
            match merge_scaled(st.counts, sub, k) {
                Ok(c) => Ok((c, true)),
                Err(f) => Err(f),
            }
        },
        None => match st.last_cnt {
            Some(d) => match st.last_elt {
                Some(e) => {
                    let v = topped_up(st.counts[e], d);
                    if v <= u32::MAX {
                        Ok((st.counts.update(e, v as u32), true))
                    } else {
                        Err(ParseFault::CountOverflow)
                    }
                },
                None => Err(ParseFault::DanglingMultiplier),
            },
            None => Ok((st.counts, false)),
        },
    }
}

/// The state after a flush: pending items are dropped once resolved.
pub open spec fn after_flush(st: ScanState, counts: Counts, flushed: bool) -> ScanState {
    if flushed {
        ScanState { counts, last_elt: None, last_sub: None, last_cnt: None, ..st }
    } else {
        ScanState { counts, ..st }
    }
}

/// One step of the scan outside any group, on a character other than `*`.
pub open spec fn step(names: Seq<Seq<char>>, st: ScanState, c: char) -> Result<ScanState, ParseFault> {
    if is_upper(c) {
        match flush(st) {
            Err(f) => Err(f),
            Ok((counts, fl)) => {
                let st1 = after_flush(st, counts, fl);
                if st1.acc.len() > 0 {
                    match add_atom(names, st1.counts, st1.acc) {
                        Err(f) => Err(f),
                        Ok((c2, e)) => Ok(ScanState { counts: c2, last_elt: Some(e), acc: seq![c], ..st1 }),
                    }
                } else {
                    Ok(ScanState { acc: seq![c], ..st1 })
                }
            },
        }
    } else if is_lower(c) {
        Ok(ScanState { acc: st.acc.push(c), ..st })
    } else if is_digit(c) {
        let prev: u32 = match st.last_cnt {
            Some(x) => x,
            None => 0,
        };
        let v = prev * 10 + digit_value(c);
        if st.last_sub is None && st.acc.len() > 0 {
            match add_atom(names, st.counts, st.acc) {
                Err(f) => Err(f),
                Ok((c2, e)) => if v <= u32::MAX {
                    Ok(ScanState { counts: c2, last_elt: Some(e), acc: Seq::empty(), last_cnt: Some(v as u32), ..st })
                } else {
                    Err(ParseFault::CountOverflow)
                },
            }
        } else if v <= u32::MAX {
            Ok(ScanState { last_cnt: Some(v as u32), ..st })
        } else {
            Err(ParseFault::CountOverflow)
        }
    } else if c == '(' {
        match flush(st) {
            Err(f) => Err(f),
            Ok((counts, fl)) => {
                let opened = ScanState {
                    counts,
                    acc: Seq::empty(),
                    last_elt: None,
                    last_sub: None,
                    last_cnt: None,
                    open: 1,
                    close: 0,
                };
                if !fl && st.acc.len() > 0 {
                    match add_atom(names, counts, st.acc) {
                        Err(f) => Err(f),
                        Ok((c2, _e)) => Ok(ScanState { counts: c2, ..opened }),
                    }
                } else {
                    Ok(opened)
                }
            },
        }
    } else {
        Ok(st)
    }
}

/// Whether every count is zero.
pub open spec fn all_zero(counts: Counts) -> bool {
    forall|j: int| 0 <= j < counts.len() ==> counts[j] == 0
}

/// The end of a scan: a last flush, the leftover name (the text of a group left open is dropped),
/// and the emptiness check.
pub open spec fn finish(names: Seq<Seq<char>>, st: ScanState) -> Result<Counts, ParseFault> {
    match flush(st) {
        Err(f) => Err(f),
        Ok((counts, fl)) => {
            let last = if !fl && st.open == 0 && st.acc.len() > 0 {
                match add_atom(names, counts, st.acc) {
                    Err(f) => Err(f),
                    Ok((c2, _e)) => Ok(c2),
                }
            } else {
                Ok(counts)
            };
            match last {
                Err(f) => Err(f),
                Ok(c) => if all_zero(c) {
                    Err(ParseFault::EmptyCompound)
                } else {
                    Ok(c)
                },
            }
        },
    }
}

/// The multiplier of a hydrate part: its leading digit, or 1.
pub open spec fn hydrate_mult(rest: Seq<char>) -> u32 {
    if rest.len() > 0 && is_digit(rest[0]) {
        digit_value(rest[0])
    } else {
        1
    }
}

/// The formula of a hydrate part, after its leading digit.
pub open spec fn hydrate_body(rest: Seq<char>) -> Seq<char> {
    if rest.len() > 0 && is_digit(rest[0]) {
        rest.subrange(1, rest.len() as int)
    } else {
        rest
    }
}

/// The atom counts of the formula `s` over the catalog names `names`.
pub open spec fn parse_formula(names: Seq<Seq<char>>, s: Seq<char>) -> Result<Counts, ParseFault>
    decreases s.len(), 1nat, 0nat,
{
    scan(names, s, 0, initial_state(names.len()))
}

/// The scan of `s` from position `i` in state `st`.
pub open spec fn scan(names: Seq<Seq<char>>, s: Seq<char>, i: nat, st: ScanState) -> Result<Counts, ParseFault>
    decreases s.len(), 0nat, s.len() - i,
{
    if i >= s.len() {
        finish(names, st)
    } else {
        let c = s[i as int];
        if st.open > 0 {
            let open = if c == '(' { st.open + 1 } else { st.open };
            let close = if c == ')' { st.close + 1 } else { st.close };
            if open != close {
                scan(names, s, i + 1, ScanState { acc: st.acc.push(c), open, close, ..st })
            } else if st.acc.len() < s.len() {
                // Always taken: a group's text is a proper part of the formula.
                match parse_formula(names, st.acc) {
                    Err(f) => Err(f),
                    Ok(sub) => scan(
                        names,
                        s,
                        i + 1,
                        ScanState { acc: Seq::empty(), last_sub: Some(sub), open: 0, close: 0, ..st },
                    ),
                }
            } else {
                Err(ParseFault::EmptyCompound)
            }
        } else if c == '*' {
            let rest = s.subrange(i + 1 as int, s.len() as int);
            match parse_formula(names, hydrate_body(rest)) {
                Err(f) => Err(f),
                Ok(h) => match merge_scaled(st.counts, h, hydrate_mult(rest)) {
                    Err(f) => Err(f),
                    Ok(counts) => finish(names, ScanState { counts, ..st }),
                },
            }
        } else {
            match step(names, st, c) {
                Err(f) => Err(f),
                Ok(st2) => scan(names, s, i + 1, st2),
            }
        }
    }
}

pub open spec fn opt_index(o: Option<usize>) -> Option<int> {
    match o {
        Some(e) => Some(e as int),
        None => None,
    }
}

pub open spec fn opt_counts(o: Option<Vec<u32>>) -> Option<Counts> {
    match o {
        Some(v) => Some(v@),
        None => None,
    }
}

/// Whether an executable count vector matches the mathematical outcome.
pub open spec fn same_counts(r: Result<Vec<u32>, ParseError>, m: Result<Counts, ParseFault>) -> bool {
    match m {
        Ok(c) => r is Ok && r->Ok_0@ == c,
        Err(f) => r is Err && r->Err_0@ == f,
    }
}

/// The executable scan state.
struct Scanner {
    counts: Vec<u32>,
    acc: Vec<char>,
    last_elt: Option<usize>,
    last_sub: Option<Vec<u32>>,
    last_cnt: Option<u32>,
    open: usize,
    close: usize,
}

impl View for Scanner {
    type V = ScanState;

    closed spec fn view(&self) -> ScanState {
        ScanState {
            counts: self.counts@,
            acc: self.acc@,
            last_elt: opt_index(self.last_elt),
            last_sub: opt_counts(self.last_sub),
            last_cnt: self.last_cnt,
            open: self.open as nat,
            close: self.close as nat,
        }
    }
}

impl Scanner {
    spec fn wf(&self, n: nat) -> bool {
        &&& self.counts@.len() == n
        &&& (self.last_sub matches Some(v) ==> v@.len() == n)
        &&& (self.last_elt matches Some(e) ==> e < n)
    }

    fn new(n: usize) -> (r: Scanner)
        ensures
            r@ == initial_state(n as nat),
            r.wf(n as nat),
    {
        let mut counts: Vec<u32> = Vec::new();
        let mut i: usize = 0;
        while i < n
            invariant
                i <= n,
                counts@ == Seq::new(i as nat, |j: int| 0u32),
            decreases n - i,
        {
            counts.push(0);
            i += 1;
            assert(counts@ =~= Seq::new(i as nat, |j: int| 0u32));
        }
        let r = Scanner {
            counts,
            acc: Vec::new(),
            last_elt: None,
            last_sub: None,
            last_cnt: None,
            open: 0,
            close: 0,
        };
        assert(r@.acc =~= Seq::<char>::empty());
        r
    }

    /// Registers one atom of the element named by the accumulator.
    fn add_atom(&mut self, known: &KnownElements) -> (r: Result<usize, ParseError>)
        requires
            known.wf(),
            old(self).wf(known.len()),
        ensures
            final(self).wf(known.len()),
            final(self).acc == old(self).acc,
            final(self).last_elt == old(self).last_elt,
            final(self).last_sub == old(self).last_sub,
            final(self).last_cnt == old(self).last_cnt,
            final(self).open == old(self).open,
            final(self).close == old(self).close,
            match add_atom(known.names(), old(self)@.counts, old(self)@.acc) {
                Ok((c, e)) => r is Ok && r->Ok_0 as int == e && final(self)@.counts == c,
                Err(f) => r is Err && r->Err_0@ == f,
            },
    {
        match known.find(&self.acc) {
            None => Err(ParseError::UnknownElement(string_of_chars(&self.acc))),
            Some(e) => {
                assert(find_name(known.names(), self.acc@) == Some(e as int));
                assert(0 <= e < known.len());
                if self.counts[e] < u32::MAX {
                    let v = self.counts[e] + 1;
                    self.counts.set(e, v);
                    Ok(e)
                } else {
                    Err(ParseError::CountOverflow)
                }
            },
        }
    }

    /// Adds `k` times `sub` to the counts; false when a count would not fit.
    fn merge(&mut self, sub: &Vec<u32>, k: u32) -> (r: bool)
        requires
            sub@.len() == old(self).counts@.len(),
        ensures
            final(self).counts@.len() == old(self).counts@.len(),
            final(self).acc == old(self).acc,
            final(self).last_elt == old(self).last_elt,
            final(self).last_sub == old(self).last_sub,
            final(self).last_cnt == old(self).last_cnt,
            final(self).open == old(self).open,
            final(self).close == old(self).close,
            r == merge_fits(old(self)@.counts, sub@, k),
            r ==> final(self)@.counts == merged(old(self)@.counts, sub@, k),
    {
        let ghost start = self.counts@;
        let n = self.counts.len();
        let mut j: usize = 0;
        while j < n
            invariant
                n == start.len(),
                n == sub@.len(),
                j <= n,
                self.counts@.len() == n,
                self.acc == old(self).acc,
                self.last_elt == old(self).last_elt,
                self.last_sub == old(self).last_sub,
                self.last_cnt == old(self).last_cnt,
                self.open == old(self).open,
                self.close == old(self).close,
                start == old(self).counts@,
                forall|a: int| 0 <= a < j ==> start[a] + sub@[a] * k <= u32::MAX,
                forall|a: int| 0 <= a < j ==> self.counts@[a] == (start[a] + sub@[a] * k) as u32,
                forall|a: int| j <= a < n ==> self.counts@[a] == start[a],
            decreases n - j,
        {
            let a: u64 = sub[j] as u64;
            let b: u64 = k as u64;
            assert(a * b <= 0xffff_fffe_0000_0001u64) by (nonlinear_arith)
                requires
                    a <= 0xffff_ffffu64,
                    b <= 0xffff_ffffu64,
            {
            }
            let prod: u64 = a * b;
            let v: u64 = self.counts[j] as u64 + prod;
            if v > u32::MAX as u64 {
                return false;
            }
            self.counts.set(j, v as u32);
            j += 1;
        }
        assert(self.counts@ =~= merged(start, sub@, k));
        true
    }

    /// Resolves what is pending; returns whether anything was.
    fn flush(&mut self) -> (r: Result<bool, ParseError>)
        requires
            old(self).wf(old(self).counts@.len()),
        ensures
            final(self).wf(old(self).counts@.len()),
            match flush(old(self)@) {
                Ok((c, fl)) => r == Ok::<bool, ParseError>(fl) && final(self)@ == after_flush(old(self)@, c, fl),
                Err(f) => r is Err && r->Err_0@ == f,
            },
    {
        let ghost n = self.counts@.len();
        let ghost st = self@;
        match self.last_sub.take() {
            Some(sub) => {
                let k: u32 = match self.last_cnt {
                    Some(d) => d,
                    None => 1,
                };
                if !self.merge(&sub, k) {
                    return Err(ParseError::CountOverflow);
                }
                self.last_elt = None;
                self.last_cnt = None;
                Ok(true)
            },
            None => match self.last_cnt {
                Some(d) => match self.last_elt {
                    Some(e) => {
                        let v: u64 = self.counts[e] as u64 + d as u64;
                        let v: u64 = if v >= 1 { v - 1 } else { 0 };
                        if v > u32::MAX as u64 {
                            return Err(ParseError::CountOverflow);
                        }
                        self.counts.set(e, v as u32);
                        self.last_elt = None;
                        self.last_cnt = None;
                        Ok(true)
                    },
                    None => Err(ParseError::DanglingMultiplier),
                },
                None => Ok(false),
            },
        }
    }
}

/// Whether every count is zero.
fn is_all_zero(v: &Vec<u32>) -> (r: bool)
    ensures
        r == all_zero(v@),
{
    let mut j: usize = 0;
    while j < v.len()
        invariant
            j <= v@.len(),
            forall|a: int| 0 <= a < j ==> v@[a] == 0,
        decreases v@.len() - j,
    {
        if v[j] != 0 {
            return false;
        }
        j += 1;
    }
    true
}

/// The characters of `s` from position `from` on.
fn tail_of(s: &Vec<char>, from: usize) -> (r: Vec<char>)
    requires
        from <= s@.len(),
    ensures
        r@ == s@.subrange(from as int, s@.len() as int),
{
    let mut r: Vec<char> = Vec::new();
    let mut j: usize = from;
    while j < s.len()
        invariant
            from <= j <= s@.len(),
            r@ == s@.subrange(from as int, j as int),
        decreases s@.len() - j,
    {
        r.push(s[j]);
        j += 1;
        assert(r@ =~= s@.subrange(from as int, j as int));
    }
    r
}

impl Scanner {
    /// One step outside any group, on a character other than `*`.
    fn step(&mut self, known: &KnownElements, c: char) -> (r: Result<(), ParseError>)
        requires
            known.wf(),
            old(self).wf(known.len()),
        ensures
            final(self).wf(known.len()),
            match step(known.names(), old(self)@, c) {
                Ok(st) => r is Ok && final(self)@ == st,
                Err(f) => r is Err && r->Err_0@ == f,
            },
    {
        if 'A' <= c && c <= 'Z' {
            match self.flush() {
                Err(e) => {
                    return Err(e);
                },
                Ok(_) => {},
            }
            if self.acc.len() > 0 {
                match self.add_atom(known) {
                    Err(e) => {
                        return Err(e);
                    },
                    Ok(e) => {
                        self.last_elt = Some(e);
                    },
                }
            }
            self.acc = Vec::new();
            self.acc.push(c);
            assert(self.acc@ =~= seq![c]);
            Ok(())
        } else if 'a' <= c && c <= 'z' {
            self.acc.push(c);
            Ok(())
        } else if '0' <= c && c <= '9' {
            let prev: u32 = match self.last_cnt {
                Some(x) => x,
                None => 0,
            };
            let v: u64 = prev as u64 * 10 + (c as u32 - '0' as u32) as u64;
            if self.last_sub.is_none() && self.acc.len() > 0 {
                match self.add_atom(known) {
                    Err(e) => {
                        return Err(e);
                    },
                    Ok(e) => {
                        if v > u32::MAX as u64 {
                            return Err(ParseError::CountOverflow);
                        }
                        self.last_elt = Some(e);
                        self.acc = Vec::new();
                        self.last_cnt = Some(v as u32);
                        assert(self.acc@ =~= Seq::<char>::empty());
                        Ok(())
                    },
                }
            } else if v <= u32::MAX as u64 {
                self.last_cnt = Some(v as u32);
                Ok(())
            } else {
                Err(ParseError::CountOverflow)
            }
        } else if c == '(' {
            let named = self.acc.len() > 0;
            let fl = match self.flush() {
                Err(e) => {
                    return Err(e);
                },
                Ok(fl) => fl,
            };
            self.last_elt = None;
            self.last_sub = None;
            self.last_cnt = None;
            self.open = 1;
            self.close = 0;
            if !fl && named {
                match self.add_atom(known) {
                    Err(e) => {
                        return Err(e);
                    },
                    Ok(_) => {},
                }
            }
            self.acc = Vec::new();
            assert(self.acc@ =~= Seq::<char>::empty());
            Ok(())
        } else {
            Ok(())
        }
    }

    /// The end of a scan level.
    fn finish(self, known: &KnownElements) -> (r: Result<Vec<u32>, ParseError>)
        requires
            known.wf(),
            self.wf(known.len()),
        ensures
            same_counts(r, finish(known.names(), self@)),
            r is Ok ==> r->Ok_0@.len() == known.len() && !all_zero(r->Ok_0@),
    {
        let mut sc = self;
        let named = sc.open == 0 && sc.acc.len() > 0;
        let fl = match sc.flush() {
            Err(e) => {
                return Err(e);
            },
            Ok(fl) => fl,
        };
        if !fl && named {
            match sc.add_atom(known) {
                Err(e) => {
                    return Err(e);
                },
                Ok(_) => {},
            }
        }
        if is_all_zero(&sc.counts) {
            Err(ParseError::EmptyCompound)
        } else {
            Ok(sc.counts)
        }
    }
}

/// Parses the formula `s` into atom counts, one per catalog position.
pub fn parse_counts(known: &KnownElements, s: &Vec<char>) -> (r: Result<Vec<u32>, ParseError>)
    requires
        known.wf(),
    ensures
        same_counts(r, parse_formula(known.names(), s@)),
        r is Ok ==> r->Ok_0@.len() == known.len() && !all_zero(r->Ok_0@),
    decreases s@.len(),
{
    let ghost names = known.names();
    let len = s.len();
    let mut sc = Scanner::new(known.elements.len());
    let mut i: usize = 0;
    while i < len
        invariant
            known.wf(),
            names == known.names(),
            len == s@.len(),
            i <= len,
            sc.wf(known.len()),
            sc.acc@.len() <= i,
            sc.open > 0 ==> sc.acc@.len() < i,
            sc.open <= i,
            sc.close <= i,
            scan(names, s@, i as nat, sc@) == parse_formula(names, s@),
        decreases len - i,
    {
        let c = s[i];
        if sc.open > 0 {
            let open = if c == '(' { sc.open + 1 } else { sc.open };
            let close = if c == ')' { sc.close + 1 } else { sc.close };
            if open != close {
                sc.acc.push(c);
                sc.open = open;
                sc.close = close;
            } else {
                let sub = match parse_counts(known, &sc.acc) {
                    Err(e) => {
                        return Err(e);
                    },
                    Ok(sub) => sub,
                };
                sc.acc = Vec::new();
                sc.last_sub = Some(sub);
                sc.open = 0;
                sc.close = 0;
                assert(sc.acc@ =~= Seq::<char>::empty());
            }
        } else if c == '*' {
            let ghost rest = s@.subrange(i + 1 as int, len as int);
            let digit = i + 1 < len && '0' <= s[i + 1] && s[i + 1] <= '9';
            let mult: u32 = if digit { s[i + 1] as u32 - '0' as u32 } else { 1 };
            let body = if digit { tail_of(s, i + 2) } else { tail_of(s, i + 1) };
            assert(body@ =~= hydrate_body(rest));
            assert(mult == hydrate_mult(rest));
            let h = match parse_counts(known, &body) {
                Err(e) => {
                    return Err(e);
                },
                Ok(h) => h,
            };
            if !sc.merge(&h, mult) {
                return Err(ParseError::CountOverflow);
            }
            return sc.finish(known);
        } else {
            match sc.step(known, c) {
                Err(e) => {
                    return Err(e);
                },
                Ok(_) => {},
            }
        }
        i += 1;
    }
    sc.finish(known)
}

} // verus!
