//! Formal tier: satisfiability checking of behavioral contracts.
//!
//! Each contract is a constraint expression over free variables. The
//! decision procedure understands a fragment: a bare variable (`x`, the
//! variable is nonzero), a negated variable (`not x`, the variable is
//! zero), and integer comparisons (`x > 0`, `x <= 12`, `x == 5`) with
//! space-separated tokens. Expressions containing the contradiction
//! markers `fail` or `false` are treated as unsatisfiable outright;
//! expressions outside the fragment constrain nothing. Variables are
//! integer-valued and independent, so the set is unsatisfiable exactly
//! when some variable's constraints admit no value.

use vstd::prelude::*;
use crate::text::{contains_seq, contains_str, string_views, split_on, split_on_exec};

verus! {

/// Comparison operators of the constraint fragment.
#[derive(Clone, Copy, Debug, PartialEq, Eq, Structural)]
pub enum CmpOp {
    Gt,
    Lt,
    Ge,
    Le,
    Eq,
}

/// One parsed constraint.
pub enum Atom {
    Marker,
    Truthy { var: String },
    Falsy { var: String },
    Cmp { var: String, op: CmpOp, bound: i64 },
    Unsupported,
}

/// Mathematical model of an [`Atom`].
pub enum SAtom {
    Marker,
    Truthy(Seq<char>),
    Falsy(Seq<char>),
    Cmp(Seq<char>, CmpOp, int),
    Unsupported,
}

impl View for Atom {
    type V = SAtom;

    open spec fn view(&self) -> SAtom {
        match *self {
            Atom::Marker => SAtom::Marker,
            Atom::Truthy { var } => SAtom::Truthy(var@),
            Atom::Falsy { var } => SAtom::Falsy(var@),
            Atom::Cmp { var, op, bound } => SAtom::Cmp(var@, op, bound as int),
            Atom::Unsupported => SAtom::Unsupported,
        }
    }
}

/// The views of a sequence of atoms.
pub open spec fn atom_views(s: Seq<Atom>) -> Seq<SAtom> {
    s.map_values(|a: Atom| a@)
}

/// The space-separated tokens of an expression.
pub open spec fn split_ws(s: Seq<char>) -> Seq<Seq<char>> {
    split_on(s, ' ')
}

/// Whether `c` may appear in an identifier.
pub open spec fn ident_char(c: char) -> bool {
    (97 <= c as u32 <= 122) || (65 <= c as u32 <= 90) || c == '_' || (48 <= c as u32 <= 57)
}

/// Whether `c` is a decimal digit.
pub open spec fn digit(c: char) -> bool {
    48 <= c as u32 <= 57
}

/// Whether a token is an identifier: identifier characters only, not
/// starting with a digit.
pub open spec fn is_ident(t: Seq<char>) -> bool {
    t.len() > 0 && !digit(t[0]) && forall|i: int| 0 <= i < t.len() ==> ident_char(#[trigger] t[i])
}

/// Whether every character of a token is a digit.
pub open spec fn all_digits(t: Seq<char>) -> bool {
    t.len() > 0 && forall|i: int| 0 <= i < t.len() ==> digit(#[trigger] t[i])
}

/// Whether a token is an integer literal the fragment accepts: at most 18
/// digits, with an optional leading minus sign.
pub open spec fn is_int_lit(t: Seq<char>) -> bool {
    (all_digits(t) && t.len() <= 18) || (t.len() >= 2 && t[0] == '-' && all_digits(t.skip(1))
        && t.len() <= 19)
}

/// The value of a digit string, most significant digit first.
pub open spec fn digits_val(t: Seq<char>) -> int
    decreases t,
{
    if t.len() == 0 {
        0
    } else {
        digits_val(t.drop_last()) * 10 + (t.last() as u32 - 48)
    }
}

/// The value of an integer literal.
pub open spec fn int_of(t: Seq<char>) -> int {
    if t.len() >= 1 && t[0] == '-' {
        -digits_val(t.skip(1))
    } else {
        digits_val(t)
    }
}

/// Whether a token is a comparison operator.
pub open spec fn is_op(t: Seq<char>) -> bool {
    t == ">"@ || t == "<"@ || t == ">="@ || t == "<="@ || t == "=="@
}

/// The operator a token denotes.
pub open spec fn op_of(t: Seq<char>) -> CmpOp {
    if t == ">"@ {
        CmpOp::Gt
    } else if t == "<"@ {
        CmpOp::Lt
    } else if t == ">="@ {
        CmpOp::Ge
    } else if t == "<="@ {
        CmpOp::Le
    } else {
        CmpOp::Eq
    }
}

/// The atom a token list denotes.
pub open spec fn atom_of_tokens(toks: Seq<Seq<char>>) -> SAtom {
    if toks.len() == 1 && is_ident(toks[0]) {
        SAtom::Truthy(toks[0])
    } else if toks.len() == 2 && toks[0] == "not"@ && is_ident(toks[1]) {
        SAtom::Falsy(toks[1])
    } else if toks.len() == 3 && is_ident(toks[0]) && is_op(toks[1]) && is_int_lit(toks[2]) {
        SAtom::Cmp(toks[0], op_of(toks[1]), int_of(toks[2]))
    } else {
        SAtom::Unsupported
    }
}

/// The atom an expression denotes: the contradiction markers win over the
/// grammar.
pub open spec fn spec_atom(s: Seq<char>) -> SAtom {
    if contains_seq(s, "fail"@) || contains_seq(s, "false"@) {
        SAtom::Marker
    } else {
        atom_of_tokens(split_ws(s))
    }
}

/// Ten to the `n`.
pub open spec fn pow10(n: nat) -> int
    decreases n,
{
    if n == 0 {
        1
    } else {
        10 * pow10((n - 1) as nat)
    }
}

/// A digit string's value is below ten to its length.
pub proof fn lemma_digits_val_bound(t: Seq<char>)
    requires
        forall|i: int| 0 <= i < t.len() ==> digit(#[trigger] t[i]),
    ensures
        0 <= digits_val(t) < pow10(t.len()),
    decreases t,
{
    if t.len() > 0 {
        lemma_digits_val_bound(t.drop_last());
    }
}

/// Decides whether a token is an identifier.
fn is_ident_exec(t: &String) -> (r: bool)
    ensures
        r == is_ident(t@),
{
    let s = t.as_str();
    let n = s.unicode_len();
    if n == 0 {
        return false;
    }
    let first = s.get_char(0);
    if 48 <= first as u32 && first as u32 <= 57 {
        return false;
    }
    let mut i: usize = 0;
    while i < n
        invariant
            s@ == t@,
            n == s@.len(),
            n > 0,
            i <= n,
            forall|k: int| 0 <= k < i ==> ident_char(#[trigger] s@[k]),
        decreases n - i,
    {
        let c = s.get_char(i);
        let u = c as u32;
        if !((97 <= u && u <= 122) || (65 <= u && u <= 90) || c == '_' || (48 <= u && u <= 57)) {
            assert(!ident_char(t@[i as int]));
            return false;
        }
        i = i + 1;
    }
    true
}

/// Recognizes a comparison-operator token.
fn op_of_exec(t: &String) -> (r: Option<CmpOp>)
    ensures
        is_op(t@) ==> r == Some(op_of(t@)),
        !is_op(t@) ==> r is None,
{
    if t.eq(&">".to_owned()) {
        Some(CmpOp::Gt)
    } else if t.eq(&"<".to_owned()) {
        Some(CmpOp::Lt)
    } else if t.eq(&">=".to_owned()) {
        Some(CmpOp::Ge)
    } else if t.eq(&"<=".to_owned()) {
        Some(CmpOp::Le)
    } else if t.eq(&"==".to_owned()) {
        Some(CmpOp::Eq)
    } else {
        None
    }
}

/// Parses an integer literal of the fragment.
fn parse_int_exec(t: &String) -> (r: Option<i64>)
    ensures
        is_int_lit(t@) ==> r == Some((int_of(t@)) as i64) && int_of(t@) == (int_of(t@) as i64)
            as int,
        !is_int_lit(t@) ==> r is None,
{
    let s = t.as_str();
    let n = s.unicode_len();
    if n == 0 {
        return None;
    }
    let neg = s.get_char(0) == '-';
    let from: usize = if neg {
        1
    } else {
        0
    };
    if n - from == 0 || n - from > 18 {
        proof {
            if is_int_lit(t@) {
                if t@[0] == '-' {
                    assert(t@.skip(1).len() == n - 1);
                } else {
                    assert(all_digits(t@));
                }
            }
        }
        return None;
    }
    let ghost body = if neg {
        t@.skip(1)
    } else {
        t@
    };
    let mut acc: u64 = 0;
    let mut i: usize = from;
    while i < n
        invariant
            s@ == t@,
            n == s@.len(),
            from <= i <= n,
            from <= 1,
            neg == (s@[0] == '-'),
            neg ==> from == 1,
            !neg ==> from == 0,
            body == if neg {
                s@.skip(1)
            } else {
                s@
            },
            n - from <= 18,
            forall|k: int| 0 <= k < i - from ==> digit(#[trigger] body[k]),
            acc == digits_val(body.take(i - from)),
            acc < pow10((i - from) as nat),
        decreases n - i,
    {
        let c = s.get_char(i);
        let u = c as u32;
        if !(48 <= u && u <= 57) {
            proof {
                if is_int_lit(t@) {
                    if neg {
                        assert(!digit(t@[0]));
                        assert(all_digits(t@.skip(1)));
                        assert(body[i - from] == s@[i as int]);
                        assert(digit(body[i - from]));
                    } else {
                        assert(t@[0] != '-');
                        assert(all_digits(t@));
                        assert(digit(body[i - from]));
                    }
                }
            }
            return None;
        }
        proof {
            assert(body.take(i - from + 1).drop_last() =~= body.take(i - from));
            assert(body.take(i - from + 1).last() == body[i - from]);
            lemma_digits_val_bound(body.take(i - from));
            lemma_pow10_concrete();
            assert(pow10((i - from) as nat) <= pow10(17)) by {
                lemma_pow10_mono((i - from) as nat, 17);
            }
        }
        acc = acc * 10 + ((u - 48) as u64);
        i = i + 1;
    }
    proof {
        assert(body.take(n - from) =~= body);
        lemma_digits_val_bound(body);
        lemma_pow10_concrete();
        lemma_pow10_mono(body.len(), 18);
    }
    if neg {
        let v: i64 = -(acc as i64);
        proof {
            assert(is_int_lit(t@));
            assert(int_of(t@) == -digits_val(body));
        }
        Some(v)
    } else {
        proof {
            assert(is_int_lit(t@));
            assert(t@[0] != '-');
            assert(int_of(t@) == digits_val(body));
        }
        Some(acc as i64)
    }
}

/// The concrete powers of ten the overflow argument needs.
pub proof fn lemma_pow10_concrete()
    ensures
        pow10(17) == 100000000000000000,
        pow10(18) == 1000000000000000000,
{
    reveal_with_fuel(pow10, 20);
}

/// Ten-to-the is monotone.
pub proof fn lemma_pow10_mono(a: nat, b: nat)
    requires
        a <= b,
    ensures
        pow10(a) <= pow10(b),
        pow10(a) >= 1,
    decreases b,
{
    if b > 0 {
        if a == b {
            lemma_pow10_mono((b - 1) as nat, (b - 1) as nat);
        } else {
            lemma_pow10_mono(a, (b - 1) as nat);
        }
    }
}

/// Below any bound the fragment can state.
pub const INIT_LO: i64 = -2000000000000000000;

/// Above any bound the fragment can state.
pub const INIT_HI: i64 = 2000000000000000000;

/// The larger of two integers.
pub open spec fn int_max(a: int, b: int) -> int {
    if a >= b {
        a
    } else {
        b
    }
}

/// The smaller of two integers.
pub open spec fn int_min(a: int, b: int) -> int {
    if a <= b {
        a
    } else {
        b
    }
}

/// Comparison bounds stay strictly inside the initial interval.
pub open spec fn satom_bounded(a: SAtom) -> bool {
    match a {
        SAtom::Cmp(_, _, k) => -1000000000000000000 < k < 1000000000000000000,
        _ => true,
    }
}

/// A parsed atom's bound always stays strictly inside the initial interval.
pub proof fn lemma_spec_atom_bounded(s: Seq<char>)
    ensures
        satom_bounded(spec_atom(s)),
{
    if !(contains_seq(s, "fail"@) || contains_seq(s, "false"@)) {
        let toks = split_ws(s);
        if toks.len() == 3 && is_ident(toks[0]) && is_op(toks[1]) && is_int_lit(toks[2]) {
            let t = toks[2];
            lemma_pow10_concrete();
            if t[0] == '-' {
                lemma_digits_val_bound(t.skip(1));
                lemma_pow10_mono(t.skip(1).len(), 18);
            } else {
                lemma_digits_val_bound(t);
                lemma_pow10_mono(t.len(), 18);
            }
        }
    }
}

/// The lower bound one atom places on variable `v` (the initial bound when
/// it places none).
pub open spec fn lo_bound(a: SAtom, v: Seq<char>) -> int {
    match a {
        SAtom::Falsy(w) => if w == v {
            0
        } else {
            INIT_LO as int
        },
        SAtom::Cmp(w, op, k) => if w == v {
            match op {
                CmpOp::Gt => k + 1,
                CmpOp::Ge => k,
                CmpOp::Eq => k,
                CmpOp::Lt => INIT_LO as int,
                CmpOp::Le => INIT_LO as int,
            }
        } else {
            INIT_LO as int
        },
        _ => INIT_LO as int,
    }
}

/// The upper bound one atom places on variable `v`.
pub open spec fn hi_bound(a: SAtom, v: Seq<char>) -> int {
    match a {
        SAtom::Falsy(w) => if w == v {
            0
        } else {
            INIT_HI as int
        },
        SAtom::Cmp(w, op, k) => if w == v {
            match op {
                CmpOp::Lt => k - 1,
                CmpOp::Le => k,
                CmpOp::Eq => k,
                CmpOp::Gt => INIT_HI as int,
                CmpOp::Ge => INIT_HI as int,
            }
        } else {
            INIT_HI as int
        },
        _ => INIT_HI as int,
    }
}

/// The strongest lower bound the atoms place on `v`.
pub open spec fn spec_lo(atoms: Seq<SAtom>, v: Seq<char>) -> int
    decreases atoms,
{
    if atoms.len() == 0 {
        INIT_LO as int
    } else {
        int_max(spec_lo(atoms.drop_last(), v), lo_bound(atoms.last(), v))
    }
}

/// The strongest upper bound the atoms place on `v`.
pub open spec fn spec_hi(atoms: Seq<SAtom>, v: Seq<char>) -> int
    decreases atoms,
{
    if atoms.len() == 0 {
        INIT_HI as int
    } else {
        int_min(spec_hi(atoms.drop_last(), v), hi_bound(atoms.last(), v))
    }
}

/// Whether some atom requires `v` to be nonzero.
pub open spec fn spec_nonzero(atoms: Seq<SAtom>, v: Seq<char>) -> bool
    decreases atoms,
{
    if atoms.len() == 0 {
        false
    } else {
        spec_nonzero(atoms.drop_last(), v) || atoms.last() == SAtom::Truthy(v)
    }
}

/// Whether some atom is a contradiction marker.
pub open spec fn has_marker(atoms: Seq<SAtom>) -> bool
    decreases atoms,
{
    if atoms.len() == 0 {
        false
    } else {
        has_marker(atoms.drop_last()) || atoms.last() is Marker
    }
}

/// The variable an atom constrains, if any.
pub open spec fn var_of(a: SAtom) -> Option<Seq<char>> {
    match a {
        SAtom::Truthy(w) => Some(w),
        SAtom::Falsy(w) => Some(w),
        SAtom::Cmp(w, _, _) => Some(w),
        _ => None,
    }
}

/// Whether the constraints on `v` admit no integer value: the interval is
/// empty, or it is exactly zero while `v` must be nonzero.
pub open spec fn var_conflict(atoms: Seq<SAtom>, v: Seq<char>) -> bool {
    spec_lo(atoms, v) > spec_hi(atoms, v) || (spec_nonzero(atoms, v) && spec_lo(atoms, v) == 0
        && spec_hi(atoms, v) == 0)
}

/// Whether the atom at `i` constrains a variable whose constraints admit no
/// value.
pub open spec fn conflict_at(atoms: Seq<SAtom>, i: int) -> bool {
    0 <= i < atoms.len() && match var_of(atoms[i]) {
        Some(v) => var_conflict(atoms, v),
        None => false,
    }
}

/// Whether the atom set admits an assignment: no contradiction marker, and
/// every constrained variable keeps at least one admissible value.
pub open spec fn spec_unsat(atoms: Seq<SAtom>) -> bool {
    has_marker(atoms) || exists|i: int| conflict_at(atoms, i)
}

/// The parsed atoms of a sequence of constraint expressions.
pub open spec fn atoms_of(exprs: Seq<Seq<char>>) -> Seq<SAtom> {
    exprs.map_values(|e: Seq<char>| spec_atom(e))
}

/// Whether a sequence of constraint expressions is satisfiable.
pub open spec fn spec_satisfiable(exprs: Seq<Seq<char>>) -> bool {
    !spec_unsat(atoms_of(exprs))
}

/// A marker stands among the atoms exactly when some position holds one.
pub proof fn lemma_has_marker_iff(atoms: Seq<SAtom>)
    ensures
        has_marker(atoms) <==> exists|i: int| 0 <= i < atoms.len() && (#[trigger] atoms[i])
            is Marker,
    decreases atoms,
{
    if atoms.len() > 0 {
        lemma_has_marker_iff(atoms.drop_last());
        if has_marker(atoms.drop_last()) {
            let i = choose|i: int| 0 <= i < atoms.drop_last().len() && (#[trigger] atoms.drop_last()[i]) is Marker;
            assert(atoms[i] is Marker);
        }
        if exists|i: int| 0 <= i < atoms.len() && (#[trigger] atoms[i]) is Marker {
            let i = choose|i: int| 0 <= i < atoms.len() && (#[trigger] atoms[i]) is Marker;
            if i < atoms.len() - 1 {
                assert(atoms.drop_last()[i] is Marker);
            }
        }
    }
}

/// A nonzero requirement at any position forces one over the whole set.
pub proof fn lemma_nonzero_from_index(atoms: Seq<SAtom>, i: int, v: Seq<char>)
    requires
        0 <= i < atoms.len(),
        atoms[i] == SAtom::Truthy(v),
    ensures
        spec_nonzero(atoms, v),
    decreases atoms,
{
    if i < atoms.len() - 1 {
        assert(atoms.drop_last()[i] == atoms[i]);
        lemma_nonzero_from_index(atoms.drop_last(), i, v);
    }
}

/// The folded bounds are at least as strong as any one atom's bounds.
pub proof fn lemma_atom_bounds(atoms: Seq<SAtom>, j: int, v: Seq<char>)
    requires
        0 <= j < atoms.len(),
    ensures
        spec_lo(atoms, v) >= lo_bound(atoms[j], v),
        spec_hi(atoms, v) <= hi_bound(atoms[j], v),
    decreases atoms,
{
    if j < atoms.len() - 1 {
        assert(atoms.drop_last()[j] == atoms[j]);
        lemma_atom_bounds(atoms.drop_last(), j, v);
    }
}

/// An empty contract list is always satisfiable.
pub proof fn lemma_empty_satisfiable()
    ensures
        spec_satisfiable(Seq::<Seq<char>>::empty()),
{
    let atoms = Seq::<Seq<char>>::empty().map_values(|e: Seq<char>| spec_atom(e));
    assert(atoms =~= Seq::<SAtom>::empty());
    assert(forall|i: int| !conflict_at(atoms, i));
}

/// A set holding a direct contradiction, a variable required nonzero and
/// the same variable required zero, is always unsatisfiable.
pub proof fn lemma_direct_contradiction_unsatisfiable(
    exprs: Seq<Seq<char>>,
    i: int,
    j: int,
    v: Seq<char>,
)
    requires
        0 <= i < exprs.len(),
        0 <= j < exprs.len(),
        spec_atom(exprs[i]) == SAtom::Truthy(v),
        spec_atom(exprs[j]) == SAtom::Falsy(v),
    ensures
        !spec_satisfiable(exprs),
{
    let atoms = exprs.map_values(|e: Seq<char>| spec_atom(e));
    assert(atoms[i] == SAtom::Truthy(v));
    assert(atoms[j] == SAtom::Falsy(v));
    lemma_nonzero_from_index(atoms, i, v);
    lemma_atom_bounds(atoms, j, v);
    assert(var_conflict(atoms, v));
    assert(conflict_at(atoms, i));
    assert(spec_unsat(atoms));
}

/// Whether one atom holds under an assignment of integers to variables.
pub open spec fn eval_atom(a: SAtom, env: spec_fn(Seq<char>) -> int) -> bool {
    match a {
        SAtom::Marker => false,
        SAtom::Truthy(v) => env(v) != 0,
        SAtom::Falsy(v) => env(v) == 0,
        SAtom::Cmp(v, op, k) => match op {
            CmpOp::Gt => env(v) > k,
            CmpOp::Lt => env(v) < k,
            CmpOp::Ge => env(v) >= k,
            CmpOp::Le => env(v) <= k,
            CmpOp::Eq => env(v) == k,
        },
        SAtom::Unsupported => true,
    }
}

/// Whether every atom holds under an assignment.
pub open spec fn eval_all(atoms: Seq<SAtom>, env: spec_fn(Seq<char>) -> int) -> bool {
    forall|i: int| 0 <= i < atoms.len() ==> eval_atom(#[trigger] atoms[i], env)
}

/// With bounded atoms, a folded bound is either still the initial one or
/// stays within the range a single comparison can state.
proof fn lemma_spec_bounds_range(atoms: Seq<SAtom>, v: Seq<char>)
    requires
        forall|p: int| 0 <= p < atoms.len() ==> satom_bounded(#[trigger] atoms[p]),
    ensures
        spec_lo(atoms, v) == INIT_LO || -1000000000000000000 <= spec_lo(atoms, v)
            <= 1000000000000000000,
        spec_hi(atoms, v) == INIT_HI || -1000000000000000000 <= spec_hi(atoms, v)
            <= 1000000000000000000,
    decreases atoms,
{
    if atoms.len() > 0 {
        assert(forall|p: int|
            0 <= p < atoms.drop_last().len() ==> atoms.drop_last()[p] == #[trigger] atoms[p]);
        lemma_spec_bounds_range(atoms.drop_last(), v);
        assert(satom_bounded(atoms[atoms.len() - 1]));
    }
}

/// Under a satisfying assignment, a variable respects every effective
/// folded bound and every nonzero requirement.
proof fn lemma_eval_env_bounds(atoms: Seq<SAtom>, env: spec_fn(Seq<char>) -> int, v: Seq<char>)
    requires
        eval_all(atoms, env),
    ensures
        spec_lo(atoms, v) > INIT_LO ==> env(v) >= spec_lo(atoms, v),
        spec_hi(atoms, v) < INIT_HI ==> env(v) <= spec_hi(atoms, v),
        spec_nonzero(atoms, v) ==> env(v) != 0,
    decreases atoms,
{
    if atoms.len() > 0 {
        assert(forall|p: int|
            0 <= p < atoms.drop_last().len() ==> atoms.drop_last()[p] == #[trigger] atoms[p]);
        assert(eval_all(atoms.drop_last(), env));
        lemma_eval_env_bounds(atoms.drop_last(), env, v);
        assert(eval_atom(atoms[atoms.len() - 1], env));
    }
}

/// Soundness of the decision procedure: where it reports the atoms
/// unsatisfiable, no assignment of integers to the free variables makes
/// every atom true.
pub proof fn lemma_unsat_soundness(atoms: Seq<SAtom>, env: spec_fn(Seq<char>) -> int)
    requires
        forall|p: int| 0 <= p < atoms.len() ==> satom_bounded(#[trigger] atoms[p]),
        spec_unsat(atoms),
    ensures
        !eval_all(atoms, env),
{
    if has_marker(atoms) {
        lemma_has_marker_iff(atoms);
        let i = choose|i: int| 0 <= i < atoms.len() && (#[trigger] atoms[i]) is Marker;
        assert(!eval_atom(atoms[i], env));
    } else {
        let i = choose|i: int| conflict_at(atoms, i);
        let v = var_of(atoms[i])->0;
        if eval_all(atoms, env) {
            lemma_eval_env_bounds(atoms, env, v);
            lemma_spec_bounds_range(atoms, v);
            if spec_lo(atoms, v) > spec_hi(atoms, v) {
                assert(spec_lo(atoms, v) > INIT_LO);
                assert(spec_hi(atoms, v) < INIT_HI);
                assert(false);
            } else {
                assert(spec_nonzero(atoms, v) && spec_lo(atoms, v) == 0 && spec_hi(atoms, v)
                    == 0);
                assert(false);
            }
        }
    }
}

/// The witness value for one variable when no conflict stands: an
/// effective nonzero lower bound itself, else a value inside the interval
/// that respects a nonzero requirement.
pub open spec fn witness_val(atoms: Seq<SAtom>, v: Seq<char>) -> int {
    let lo = spec_lo(atoms, v);
    let hi = spec_hi(atoms, v);
    if lo != INIT_LO && lo != 0 {
        lo
    } else if lo == 0 {
        if spec_nonzero(atoms, v) {
            1
        } else {
            0
        }
    } else {
        if hi >= 1 {
            1
        } else if hi == 0 {
            if spec_nonzero(atoms, v) {
                -1
            } else {
                0
            }
        } else {
            hi
        }
    }
}

/// Completeness of the decision procedure: where it reports the atoms
/// satisfiable, the witness assignment makes every atom true.
pub proof fn lemma_sat_completeness(atoms: Seq<SAtom>)
    requires
        forall|p: int| 0 <= p < atoms.len() ==> satom_bounded(#[trigger] atoms[p]),
        !spec_unsat(atoms),
    ensures
        exists|env: spec_fn(Seq<char>) -> int| eval_all(atoms, env),
{
    let env = |v: Seq<char>| witness_val(atoms, v);
    lemma_has_marker_iff(atoms);
    assert forall|i: int| 0 <= i < atoms.len() implies eval_atom(#[trigger] atoms[i], env) by {
        assert(!conflict_at(atoms, i));
        match var_of(atoms[i]) {
            Some(v) => {
                let lo = spec_lo(atoms, v);
                let hi = spec_hi(atoms, v);
                let nz = spec_nonzero(atoms, v);
                lemma_atom_bounds(atoms, i, v);
                lemma_spec_bounds_range(atoms, v);
                assert(!var_conflict(atoms, v));
                assert(env(v) == witness_val(atoms, v));
                // The witness lies within the effective interval and obeys
                // any nonzero requirement on v.
                assert(lo <= env(v) <= hi);
                if nz {
                    assert(env(v) != 0);
                }
                match atoms[i] {
                    SAtom::Truthy(_) => {
                        lemma_nonzero_from_index(atoms, i, v);
                    },
                    SAtom::Falsy(_) => {
                        assert(lo >= 0 && hi <= 0);
                        assert(lo == 0 && hi == 0);
                        assert(!nz);
                    },
                    SAtom::Cmp(_, op, k) => {
                        assert(env(v) >= lo_bound(atoms[i], v) || lo_bound(atoms[i], v)
                            == INIT_LO);
                        assert(env(v) >= lo_bound(atoms[i], v));
                        assert(env(v) <= hi_bound(atoms[i], v));
                    },
                    _ => {},
                }
            },
            None => {},
        }
    }
    assert(eval_all(atoms, env));
}

/// The decision procedure is exact over constraint expressions: it reports
/// a set satisfiable exactly when some assignment of integers to the free
/// variables makes every constraint true, each constraint read as its
/// parsed atom.
pub proof fn lemma_satisfiable_iff_assignment(exprs: Seq<Seq<char>>)
    ensures
        spec_satisfiable(exprs) <==> exists|env: spec_fn(Seq<char>) -> int|
            #[trigger] eval_all(atoms_of(exprs), env),
{
    let atoms = atoms_of(exprs);
    assert forall|p: int| 0 <= p < atoms.len() implies satom_bounded(#[trigger] atoms[p]) by {
        lemma_spec_atom_bounded(exprs[p]);
    }
    if spec_satisfiable(exprs) {
        lemma_sat_completeness(atoms);
    } else {
        assert forall|env: spec_fn(Seq<char>) -> int| !eval_all(atoms, env) by {
            lemma_unsat_soundness(atoms, env);
        }
    }
}

/// Computes the strongest lower bound the atoms place on `v`.
fn lo_of(atoms: &Vec<Atom>, v: &String) -> (lo: i64)
    requires
        forall|j: int| 0 <= j < atoms@.len() ==> satom_bounded(#[trigger] atom_views(atoms@)[j]),
    ensures
        lo as int == spec_lo(atom_views(atoms@), v@),
{
    let ghost views = atom_views(atoms@);
    let mut cur: i64 = INIT_LO;
    let mut j: usize = 0;
    while j < atoms.len()
        invariant
            views == atom_views(atoms@),
            forall|k: int| 0 <= k < views.len() ==> satom_bounded(#[trigger] views[k]),
            j <= atoms@.len(),
            cur as int == spec_lo(views.take(j as int), v@),
            INIT_LO <= cur <= INIT_HI,
        decreases atoms@.len() - j,
    {
        proof {
            assert(views.take(j + 1).drop_last() =~= views.take(j as int));
            assert(views.take(j + 1).last() == views[j as int]);
            assert(views[j as int] == atoms@[j as int]@);
        }
        let b: i64 = match &atoms[j] {
            Atom::Falsy { var } => if var.eq(v) {
                0
            } else {
                INIT_LO
            },
            Atom::Cmp { var, op, bound } => if var.eq(v) {
                match op {
                    CmpOp::Gt => *bound + 1,
                    CmpOp::Ge => *bound,
                    CmpOp::Eq => *bound,
                    CmpOp::Lt => INIT_LO,
                    CmpOp::Le => INIT_LO,
                }
            } else {
                INIT_LO
            },
            _ => INIT_LO,
        };
        assert(b as int == lo_bound(views[j as int], v@));
        if b > cur {
            cur = b;
        }
        j = j + 1;
    }
    proof {
        assert(views.take(atoms@.len() as int) =~= views);
    }
    cur
}

/// Computes the strongest upper bound the atoms place on `v`.
fn hi_of(atoms: &Vec<Atom>, v: &String) -> (hi: i64)
    requires
        forall|j: int| 0 <= j < atoms@.len() ==> satom_bounded(#[trigger] atom_views(atoms@)[j]),
    ensures
        hi as int == spec_hi(atom_views(atoms@), v@),
{
    let ghost views = atom_views(atoms@);
    let mut cur: i64 = INIT_HI;
    let mut j: usize = 0;
    while j < atoms.len()
        invariant
            views == atom_views(atoms@),
            forall|k: int| 0 <= k < views.len() ==> satom_bounded(#[trigger] views[k]),
            j <= atoms@.len(),
            cur as int == spec_hi(views.take(j as int), v@),
            INIT_LO <= cur <= INIT_HI,
        decreases atoms@.len() - j,
    {
        proof {
            assert(views.take(j + 1).drop_last() =~= views.take(j as int));
            assert(views.take(j + 1).last() == views[j as int]);
            assert(views[j as int] == atoms@[j as int]@);
        }
        let b: i64 = match &atoms[j] {
            Atom::Falsy { var } => if var.eq(v) {
                0
            } else {
                INIT_HI
            },
            Atom::Cmp { var, op, bound } => if var.eq(v) {
                match op {
                    CmpOp::Lt => *bound - 1,
                    CmpOp::Le => *bound,
                    CmpOp::Eq => *bound,
                    CmpOp::Gt => INIT_HI,
                    CmpOp::Ge => INIT_HI,
                }
            } else {
                INIT_HI
            },
            _ => INIT_HI,
        };
        assert(b as int == hi_bound(views[j as int], v@));
        if b < cur {
            cur = b;
        }
        j = j + 1;
    }
    proof {
        assert(views.take(atoms@.len() as int) =~= views);
    }
    cur
}

/// Decides whether some atom requires `v` to be nonzero.
fn nonzero_of(atoms: &Vec<Atom>, v: &String) -> (r: bool)
    ensures
        r == spec_nonzero(atom_views(atoms@), v@),
{
    let ghost views = atom_views(atoms@);
    let mut found = false;
    let mut j: usize = 0;
    while j < atoms.len()
        invariant
            views == atom_views(atoms@),
            j <= atoms@.len(),
            found == spec_nonzero(views.take(j as int), v@),
        decreases atoms@.len() - j,
    {
        proof {
            assert(views.take(j + 1).drop_last() =~= views.take(j as int));
            assert(views.take(j + 1).last() == views[j as int]);
            assert(views[j as int] == atoms@[j as int]@);
        }
        match &atoms[j] {
            Atom::Truthy { var } => if var.eq(v) {
                found = true;
            },
            _ => {},
        }
        j = j + 1;
    }
    proof {
        assert(views.take(atoms@.len() as int) =~= views);
    }
    found
}

/// The formal tier's decision procedure over contract expressions.
pub struct SmtVerifier {}

impl SmtVerifier {
    /// A fresh solver instance.
    pub fn new() -> (r: Self)
        ensures
            r == (SmtVerifier {  }),
    {
        SmtVerifier {  }
    }

    /// Decides whether a set of constraint expressions is satisfiable:
    /// `false` exactly when a contradiction marker occurs or some
    /// variable's constraints admit no integer value.
    pub fn verify_constraints(&self, constraints: Vec<String>) -> (r: bool)
        ensures
            r == spec_satisfiable(string_views(constraints@)),
    {
        let ghost target = string_views(constraints@).map_values(|e: Seq<char>| spec_atom(e));
        let mut atoms: Vec<Atom> = Vec::new();
        let mut i: usize = 0;
        while i < constraints.len()
            invariant
                target == string_views(constraints@).map_values(|e: Seq<char>| spec_atom(e)),
                i <= constraints@.len(),
                atom_views(atoms@) == target.take(i as int),
                forall|k: int| 0 <= k < i ==> satom_bounded(#[trigger] atom_views(atoms@)[k]),
            decreases constraints@.len() - i,
        {
            let a = parse_atom(&constraints[i]);
            let ghost av = a@;
            let ghost prev = atoms@;
            proof {
                lemma_spec_atom_bounded(constraints@[i as int]@);
                assert(target[i as int] == spec_atom(string_views(constraints@)[i as int]));
                assert(string_views(constraints@)[i as int] == constraints@[i as int]@);
            }
            atoms.push(a);
            proof {
                assert(atom_views(prev.push(a)) =~= atom_views(prev).push(av));
                assert(atom_views(atoms@) =~= target.take(i + 1));
            }
            i = i + 1;
        }
        proof {
            assert(target.take(constraints@.len() as int) =~= target);
        }
        let mut k: usize = 0;
        while k < atoms.len()
            invariant
                target == string_views(constraints@).map_values(|e: Seq<char>| spec_atom(e)),
                target == atom_views(atoms@),
                forall|p: int| 0 <= p < target.len() ==> satom_bounded(#[trigger] target[p]),
                k <= atoms@.len(),
                forall|p: int| 0 <= p < k ==> !((#[trigger] target[p]) is Marker),
                forall|p: int| 0 <= p < k ==> !conflict_at(target, p),
            decreases atoms@.len() - k,
        {
            proof {
                assert(target[k as int] == atoms@[k as int]@);
            }
            match &atoms[k] {
                Atom::Marker => {
                    proof {
                        lemma_has_marker_iff(target);
                    }
                    return false;
                },
                Atom::Unsupported => {
                    assert(!conflict_at(target, k as int));
                },
                Atom::Truthy { var } | Atom::Falsy { var } | Atom::Cmp { var, .. } => {
                    let lo = lo_of(&atoms, var);
                    let hi = hi_of(&atoms, var);
                    let nz = nonzero_of(&atoms, var);
                    if lo > hi || (nz && lo == 0 && hi == 0) {
                        assert(var_conflict(target, var@));
                        assert(conflict_at(target, k as int));
                        return false;
                    }
                    assert(!var_conflict(target, var@));
                    assert(!conflict_at(target, k as int));
                },
            }
            k = k + 1;
        }
        proof {
            lemma_has_marker_iff(target);
            assert(forall|p: int| !conflict_at(target, p));
        }
        true
    }
}

/// Parses one constraint expression into an atom.
pub fn parse_atom(s: &String) -> (a: Atom)
    ensures
        a@ == spec_atom(s@),
{
    if contains_str(s.as_str(), "fail") || contains_str(s.as_str(), "false") {
        return Atom::Marker;
    }
    let toks = split_on_exec(s.as_str(), ' ');
    let ghost tv = split_ws(s@);
    if toks.len() == 1 {
        if is_ident_exec(&toks[0]) {
            Atom::Truthy { var: toks[0].clone() }
        } else {
            Atom::Unsupported
        }
    } else if toks.len() == 2 {
        if toks[0].eq(&"not".to_owned()) && is_ident_exec(&toks[1]) {
            Atom::Falsy { var: toks[1].clone() }
        } else {
            Atom::Unsupported
        }
    } else if toks.len() == 3 {
        if is_ident_exec(&toks[0]) {
            match op_of_exec(&toks[1]) {
                Some(op) => match parse_int_exec(&toks[2]) {
                    Some(bound) => Atom::Cmp { var: toks[0].clone(), op, bound },
                    None => Atom::Unsupported,
                },
                None => Atom::Unsupported,
            }
        } else {
            Atom::Unsupported
        }
    } else {
        Atom::Unsupported
    }
}

} // verus!
