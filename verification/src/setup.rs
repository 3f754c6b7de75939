//! The initial parameters of a ceremony: the constraint system of a circuit,
//! evaluated at the secret point of the powers-of-tau transcript.

use crate::assembly::{
    assembly_wf, column_view, constraints_below, lc_view, lemma_column_terms_push, matrix_view,
    spec_enforce, AssemblyView, KeypairAssembly, TermView, Variable,
};
use crate::curve::{
    g1_generator_encoding, g1_identity_encoding, g1_scale, g1_sum, g2_generator_encoding,
    g2_identity_encoding, g2_scale, g2_sum, identity_flag, scalar_one_encoding, G1Point, G2Point,
    Scalar,
};
use crate::groth16::{Parameters, ParametersView, VerifyingKey, VerifyingKeyView};
use crate::wire::{
    g1_views, g2_views, read_g1, read_g1_list, read_g2, read_g2_list, spec_read_g1,
    spec_read_g1_list, spec_read_g2, spec_read_g2_list, ReadError,
};
use vstd::prelude::*;

verus! {

/// Why no initial parameters could be made.
#[derive(Clone, Copy, Debug, PartialEq, Eq, Structural)]
pub enum SetupError {
    /// An auxiliary variable occurs in no constraint.
    UnconstrainedVariable,
    /// The circuit has more constraints than the largest transcript serves.
    DomainTooLarge,
    /// The powers-of-tau transcript could not be read.
    Transcript(ReadError),
}

/// The largest exponent of a domain that a powers-of-tau transcript serves.
pub const MAX_EXPONENT: u32 = 21;

/// The largest number of constraints: two to the largest exponent.
pub const MAX_CONSTRAINTS: usize = 0x20_0000;

/// Two to the power `k`.
pub open spec fn two_to(k: nat) -> nat
    decreases k,
{
    if k == 0 {
        1
    } else {
        2 * two_to((k - 1) as nat)
    }
}

/// The exponent of the evaluation domain for `n` constraints: the least `k`
/// with `n` at most two to the `k`.
pub open spec fn domain_exponent(n: nat) -> nat
    decreases n,
{
    if n <= 1 {
        0
    } else {
        1 + domain_exponent((n + 1) / 2)
    }
}

/// Powers of two grow.
pub proof fn lemma_two_to_grows(a: nat, b: nat)
    requires
        a <= b,
    ensures
        1 <= two_to(a) <= two_to(b),
    decreases b,
{
    if b > 0 {
        if a < b {
            lemma_two_to_grows(a, (b - 1) as nat);
        } else {
            lemma_two_to_grows((a - 1) as nat, (b - 1) as nat);
        }
    }
}

/// The domain exponent is the only `k` for which two to the `k` is the least
/// power of two that is at least `n`.
pub proof fn lemma_domain_exponent(n: nat, k: nat)
    ensures
        (two_to(k) >= n && (k == 0 || two_to((k - 1) as nat) < n)) <==> k == domain_exponent(n),
    decreases n,
{
    lemma_two_to_grows(0, k);
    if n <= 1 {
        if k > 0 {
            lemma_two_to_grows(0, (k - 1) as nat);
        }
    } else {
        let half = (n + 1) / 2;
        if k == 0 {
            assert(domain_exponent(n) >= 1);
        } else {
            let j = (k - 1) as nat;
            lemma_domain_exponent(half, j);
            lemma_two_to_grows(0, j);
            if j > 0 {
                lemma_two_to_grows(0, (j - 1) as nat);
            }
        }
    }
}

/// Compute the size of the evaluation domain for `n` constraints, and its
/// exponent. The powers-of-tau ceremony cannot support more than two to the
/// 21 constraints.
pub fn domain(n: usize) -> (r: Result<(usize, u32), SetupError>)
    ensures
        match r {
            Ok((m, exp)) => {
                &&& n <= MAX_CONSTRAINTS
                &&& exp == domain_exponent(n as nat)
                &&& m == two_to(exp as nat)
                &&& exp <= MAX_EXPONENT
                &&& n <= m <= MAX_CONSTRAINTS
                &&& m >= 1
            },
            Err(e) => e == SetupError::DomainTooLarge && n > MAX_CONSTRAINTS,
        },
{
    let mut m: usize = 1;
    let mut exp: u32 = 0;
    proof {
        lemma_two_to_21();
    }
    while m < n
        invariant
            m == two_to(exp as nat),
            exp <= 21,
            1 <= m <= 0x20_0000,
            exp == 0 || two_to((exp - 1) as nat) < n,
            two_to(21) == 0x20_0000,
        decreases 22 - exp,
    {
        if exp >= 21 {
            return Err(SetupError::DomainTooLarge);
        }
        proof {
            lemma_two_to_grows((exp + 1) as nat, 21);
        }
        m = m * 2;
        exp = exp + 1;
    }
    proof {
        lemma_domain_exponent(n as nat, exp as nat);
    }
    Ok((m, exp))
}

/// Two to the 21.
pub proof fn lemma_two_to_21()
    ensures
        two_to(21) == 0x20_0000,
{
    reveal_with_fuel(two_to, 22);
}

/// The powers-of-tau transcript for a domain, as plain data.
pub struct Phase1View {
    pub alpha: Seq<u8>,
    pub beta_g1: Seq<u8>,
    pub beta_g2: Seq<u8>,
    pub coeffs_g1: Seq<Seq<u8>>,
    pub coeffs_g2: Seq<Seq<u8>>,
    pub alpha_coeffs_g1: Seq<Seq<u8>>,
    pub beta_coeffs_g1: Seq<Seq<u8>>,
    pub h: Seq<Seq<u8>>,
}

/// The powers-of-tau transcript for a domain of some size `m`: alpha and
/// beta, the Lagrange coefficients at tau in both groups, the same times
/// alpha and times beta in G1, and the `m - 1` elements of the H query.
#[derive(Debug)]
pub struct Phase1 {
    pub alpha: G1Point,
    pub beta_g1: G1Point,
    pub beta_g2: G2Point,
    pub coeffs_g1: Vec<G1Point>,
    pub coeffs_g2: Vec<G2Point>,
    pub alpha_coeffs_g1: Vec<G1Point>,
    pub beta_coeffs_g1: Vec<G1Point>,
    pub h: Vec<G1Point>,
}

impl View for Phase1 {
    type V = Phase1View;

    open spec fn view(&self) -> Phase1View {
        Phase1View {
            alpha: self.alpha@,
            beta_g1: self.beta_g1@,
            beta_g2: self.beta_g2@,
            coeffs_g1: g1_views(self.coeffs_g1@),
            coeffs_g2: g2_views(self.coeffs_g2@),
            alpha_coeffs_g1: g1_views(self.alpha_coeffs_g1@),
            beta_coeffs_g1: g1_views(self.beta_coeffs_g1@),
            h: g1_views(self.h@),
        }
    }
}

/// What reading the transcript for a domain of size `m` gives: alpha, beta in
/// G1 and in G2, four lists of `m` elements and one of `m - 1`, in this
/// order. No element is checked for being on the curve, and none may be the
/// identity. The first failure is the error.
pub open spec fn spec_read_phase1(bytes: Seq<u8>, m: nat) -> Result<Phase1View, ReadError> {
    match spec_read_g1(bytes, 0, false, true) {
        Err(e) => Err(e),
        Ok(alpha) => match spec_read_g1(bytes, 96, false, true) {
            Err(e) => Err(e),
            Ok(beta_g1) => match spec_read_g2(bytes, 192, false, true) {
                Err(e) => Err(e),
                Ok(beta_g2) => match spec_read_g1_list(bytes, 384, m, false) {
                    Err(e) => Err(e),
                    Ok(coeffs_g1) => match spec_read_g2_list(
                        bytes,
                        (384 + 96 * m) as int,
                        m,
                        false,
                    ) {
                        Err(e) => Err(e),
                        Ok(coeffs_g2) => match spec_read_g1_list(
                            bytes,
                            (384 + 288 * m) as int,
                            m,
                            false,
                        ) {
                            Err(e) => Err(e),
                            Ok(alpha_coeffs_g1) => match spec_read_g1_list(
                                bytes,
                                (384 + 384 * m) as int,
                                m,
                                false,
                            ) {
                                Err(e) => Err(e),
                                Ok(beta_coeffs_g1) => match spec_read_g1_list(
                                    bytes,
                                    (384 + 480 * m) as int,
                                    (m - 1) as nat,
                                    false,
                                ) {
                                    Err(e) => Err(e),
                                    Ok(h) => Ok(
                                        Phase1View {
                                            alpha,
                                            beta_g1,
                                            beta_g2,
                                            coeffs_g1,
                                            coeffs_g2,
                                            alpha_coeffs_g1,
                                            beta_coeffs_g1,
                                            h,
                                        },
                                    ),
                                },
                            },
                        },
                    },
                },
            },
        },
    }
}

impl Phase1 {
    /// Reads the transcript for a domain of size `m` from the start of
    /// `bytes`. What follows it is ignored.
    pub fn read(bytes: &[u8], m: usize) -> (r: Result<Phase1, ReadError>)
        requires
            1 <= m <= MAX_CONSTRAINTS,
        ensures
            match r {
                Ok(phase1) => {
                    &&& spec_read_phase1(bytes@, m as nat) == Ok::<Phase1View, ReadError>(
                        phase1@,
                    )
                    &&& phase1.coeffs_g1@.len() == m
                    &&& phase1.coeffs_g2@.len() == m
                    &&& phase1.alpha_coeffs_g1@.len() == m
                    &&& phase1.beta_coeffs_g1@.len() == m
                    &&& phase1.h@.len() == m - 1
                },
                Err(e) => spec_read_phase1(bytes@, m as nat) == Err::<Phase1View, ReadError>(e),
            },
    {
        assert(bytes.len() == bytes@.len());
        let alpha = match read_g1(bytes, 0, false, true) {
            Ok(point) => point,
            Err(e) => { return Err(e); },
        };
        let beta_g1 = match read_g1(bytes, 96, false, true) {
            Ok(point) => point,
            Err(e) => { return Err(e); },
        };
        let beta_g2 = match read_g2(bytes, 192, false, true) {
            Ok(point) => point,
            Err(e) => { return Err(e); },
        };
        let coeffs_g1 = match read_g1_list(bytes, 384, m, false) {
            Ok(points) => points,
            Err(e) => { return Err(e); },
        };
        let coeffs_g2 = match read_g2_list(bytes, 384 + 96 * m, m, false) {
            Ok(points) => points,
            Err(e) => { return Err(e); },
        };
        let alpha_coeffs_g1 = match read_g1_list(bytes, 384 + 288 * m, m, false) {
            Ok(points) => points,
            Err(e) => { return Err(e); },
        };
        let beta_coeffs_g1 = match read_g1_list(bytes, 384 + 384 * m, m, false) {
            Ok(points) => points,
            Err(e) => { return Err(e); },
        };
        let h = match read_g1_list(bytes, 384 + 480 * m, m - 1, false) {
            Ok(points) => points,
            Err(e) => { return Err(e); },
        };
        Ok(
            Phase1 {
                alpha,
                beta_g1,
                beta_g2,
                coeffs_g1,
                coeffs_g2,
                alpha_coeffs_g1,
                beta_coeffs_g1,
                h,
            },
        )
    }
}

/// `start` plus, for each term in order, the base that the term names times
/// its coefficient.
pub open spec fn lincomb_g1(start: Seq<u8>, bases: Seq<Seq<u8>>, terms: Seq<TermView>) -> Seq<u8>
    decreases terms.len(),
{
    if terms.len() == 0 {
        start
    } else {
        g1_sum(
            lincomb_g1(start, bases, terms.drop_last()),
            g1_scale(bases[terms.last().1 as int], terms.last().0),
        )
    }
}

/// `start` plus, for each term in order, the base that the term names times
/// its coefficient.
pub open spec fn lincomb_g2(start: Seq<u8>, bases: Seq<Seq<u8>>, terms: Seq<TermView>) -> Seq<u8>
    decreases terms.len(),
{
    if terms.len() == 0 {
        start
    } else {
        g2_sum(
            lincomb_g2(start, bases, terms.drop_last()),
            g2_scale(bases[terms.last().1 as int], terms.last().0),
        )
    }
}

/// Whether every term of a column names a base that exists.
pub open spec fn terms_below(terms: Seq<TermView>, bound: nat) -> bool {
    forall|k: int| 0 <= k < terms.len() ==> (#[trigger] terms[k]).1 < bound
}

/// Adds to `start` the bases that the terms name, each times its coefficient.
pub fn accumulate_g1(start: G1Point, bases: &Vec<G1Point>, terms: &Vec<(Scalar, usize)>) -> (r:
    G1Point)
    requires
        terms_below(column_view(*terms), bases@.len()),
    ensures
        r@ == lincomb_g1(start@, g1_views(bases@), column_view(*terms)),
{
    let mut acc = start;
    let mut k: usize = 0;
    let ghost all = column_view(*terms);
    assert(all.take(0) =~= Seq::<TermView>::empty());
    while k < terms.len()
        invariant
            k <= terms.len(),
            all == column_view(*terms),
            terms_below(all, bases@.len()),
            acc@ == lincomb_g1(start@, g1_views(bases@), all.take(k as int)),
        decreases terms.len() - k,
    {
        let (coeff, lag) = terms[k];
        assert(all[k as int] == (coeff@, lag as nat));
        assert(all.take(k + 1).drop_last() =~= all.take(k as int));
        let scaled = bases[lag].scale(&coeff);
        acc = acc.plus(&scaled);
        k = k + 1;
    }
    assert(all.take(terms.len() as int) =~= all);
    acc
}

/// Adds to `start` the bases that the terms name, each times its coefficient.
pub fn accumulate_g2(start: G2Point, bases: &Vec<G2Point>, terms: &Vec<(Scalar, usize)>) -> (r:
    G2Point)
    requires
        terms_below(column_view(*terms), bases@.len()),
    ensures
        r@ == lincomb_g2(start@, g2_views(bases@), column_view(*terms)),
{
    let mut acc = start;
    let mut k: usize = 0;
    let ghost all = column_view(*terms);
    assert(all.take(0) =~= Seq::<TermView>::empty());
    while k < terms.len()
        invariant
            k <= terms.len(),
            all == column_view(*terms),
            terms_below(all, bases@.len()),
            acc@ == lincomb_g2(start@, g2_views(bases@), all.take(k as int)),
        decreases terms.len() - k,
    {
        let (coeff, lag) = terms[k];
        assert(all[k as int] == (coeff@, lag as nat));
        assert(all.take(k + 1).drop_last() =~= all.take(k as int));
        let scaled = bases[lag].scale(&coeff);
        acc = acc.plus(&scaled);
        k = k + 1;
    }
    assert(all.take(terms.len() as int) =~= all);
    acc
}

/// The A polynomial of a variable at tau: the Lagrange coefficients that its
/// column names, each times its coefficient.
pub open spec fn eval_a(p: Phase1View, at: Seq<TermView>) -> Seq<u8> {
    lincomb_g1(g1_identity_encoding(), p.coeffs_g1, at)
}

/// The B polynomial of a variable at tau, in G1.
pub open spec fn eval_b_g1(p: Phase1View, bt: Seq<TermView>) -> Seq<u8> {
    lincomb_g1(g1_identity_encoding(), p.coeffs_g1, bt)
}

/// The B polynomial of a variable at tau, in G2.
pub open spec fn eval_b_g2(p: Phase1View, bt: Seq<TermView>) -> Seq<u8> {
    lincomb_g2(g2_identity_encoding(), p.coeffs_g2, bt)
}

/// Beta times the A polynomial of a variable, plus alpha times its B
/// polynomial, plus its C polynomial, at tau.
pub open spec fn eval_ext(p: Phase1View, at: Seq<TermView>, bt: Seq<TermView>, ct: Seq<TermView>)
    -> Seq<u8> {
    lincomb_g1(
        lincomb_g1(lincomb_g1(g1_identity_encoding(), p.beta_coeffs_g1, at), p.alpha_coeffs_g1, bt),
        p.coeffs_g1,
        ct,
    )
}

/// The evaluated polynomials of a run of variables, as plain data.
pub struct EvaluationView {
    pub a: Seq<Seq<u8>>,
    pub b_g1: Seq<Seq<u8>>,
    pub b_g2: Seq<Seq<u8>>,
    pub ext: Seq<Seq<u8>>,
}

/// The evaluated polynomials of a run of variables.
#[derive(Debug)]
pub struct Evaluation {
    pub a: Vec<G1Point>,
    pub b_g1: Vec<G1Point>,
    pub b_g2: Vec<G2Point>,
    pub ext: Vec<G1Point>,
}

impl View for Evaluation {
    type V = EvaluationView;

    open spec fn view(&self) -> EvaluationView {
        EvaluationView {
            a: g1_views(self.a@),
            b_g1: g1_views(self.b_g1@),
            b_g2: g2_views(self.b_g2@),
            ext: g1_views(self.ext@),
        }
    }
}

/// The polynomials of every variable of a run, evaluated at tau.
pub open spec fn spec_eval(
    p: Phase1View,
    at: Seq<Seq<TermView>>,
    bt: Seq<Seq<TermView>>,
    ct: Seq<Seq<TermView>>,
) -> EvaluationView {
    EvaluationView {
        a: Seq::new(at.len(), |v: int| eval_a(p, at[v])),
        b_g1: Seq::new(at.len(), |v: int| eval_b_g1(p, bt[v])),
        b_g2: Seq::new(at.len(), |v: int| eval_b_g2(p, bt[v])),
        ext: Seq::new(at.len(), |v: int| eval_ext(p, at[v], bt[v], ct[v])),
    }
}

/// The terms of one column of a matrix name constraints below the bound of
/// the matrix.
pub proof fn lemma_column_below(columns: Seq<Vec<(Scalar, usize)>>, v: int, bound: nat)
    requires
        0 <= v < columns.len(),
        constraints_below(matrix_view(columns), bound),
    ensures
        terms_below(column_view(columns[v]), bound),
{
    let column = column_view(columns[v]);
    assert forall|k: int| 0 <= k < column.len() implies (#[trigger] column[k]).1 < bound by {
        assert(matrix_view(columns)[v][k] == column[k]);
    }
}

/// Evaluates the QAP polynomials of a run of variables at tau, from the
/// columns of the three matrices.
pub fn eval(
    phase1: &Phase1,
    at: &Vec<Vec<(Scalar, usize)>>,
    bt: &Vec<Vec<(Scalar, usize)>>,
    ct: &Vec<Vec<(Scalar, usize)>>,
) -> (r: Evaluation)
    requires
        at@.len() == bt@.len(),
        at@.len() == ct@.len(),
        phase1.coeffs_g2@.len() == phase1.coeffs_g1@.len(),
        phase1.alpha_coeffs_g1@.len() == phase1.coeffs_g1@.len(),
        phase1.beta_coeffs_g1@.len() == phase1.coeffs_g1@.len(),
        constraints_below(matrix_view(at@), phase1.coeffs_g1@.len()),
        constraints_below(matrix_view(bt@), phase1.coeffs_g1@.len()),
        constraints_below(matrix_view(ct@), phase1.coeffs_g1@.len()),
    ensures
        r@ == spec_eval(phase1@, matrix_view(at@), matrix_view(bt@), matrix_view(ct@)),
{
    let mut a: Vec<G1Point> = Vec::new();
    let mut b_g1: Vec<G1Point> = Vec::new();
    let mut b_g2: Vec<G2Point> = Vec::new();
    let mut ext: Vec<G1Point> = Vec::new();
    let mut v: usize = 0;
    while v < at.len()
        invariant
            v <= at.len(),
            at@.len() == bt@.len(),
            at@.len() == ct@.len(),
            phase1.coeffs_g2@.len() == phase1.coeffs_g1@.len(),
            phase1.alpha_coeffs_g1@.len() == phase1.coeffs_g1@.len(),
            phase1.beta_coeffs_g1@.len() == phase1.coeffs_g1@.len(),
            constraints_below(matrix_view(at@), phase1.coeffs_g1@.len()),
            constraints_below(matrix_view(bt@), phase1.coeffs_g1@.len()),
            constraints_below(matrix_view(ct@), phase1.coeffs_g1@.len()),
            a@.len() == v,
            b_g1@.len() == v,
            b_g2@.len() == v,
            ext@.len() == v,
            forall|j: int| 0 <= j < v ==> (#[trigger] a@[j])@ == eval_a(phase1@, column_view(at@[j])),
            forall|j: int|
                0 <= j < v ==> (#[trigger] b_g1@[j])@ == eval_b_g1(phase1@, column_view(bt@[j])),
            forall|j: int|
                0 <= j < v ==> (#[trigger] b_g2@[j])@ == eval_b_g2(phase1@, column_view(bt@[j])),
            forall|j: int|
                0 <= j < v ==> (#[trigger] ext@[j])@ == eval_ext(
                    phase1@,
                    column_view(at@[j]),
                    column_view(bt@[j]),
                    column_view(ct@[j]),
                ),
        decreases at.len() - v,
    {
        proof {
            lemma_column_below(at@, v as int, phase1.coeffs_g1@.len());
            lemma_column_below(bt@, v as int, phase1.coeffs_g1@.len());
            lemma_column_below(ct@, v as int, phase1.coeffs_g1@.len());
        }
        let a_v = accumulate_g1(G1Point::identity(), &phase1.coeffs_g1, &at[v]);
        let ext_a = accumulate_g1(G1Point::identity(), &phase1.beta_coeffs_g1, &at[v]);
        let b_g1_v = accumulate_g1(G1Point::identity(), &phase1.coeffs_g1, &bt[v]);
        let b_g2_v = accumulate_g2(G2Point::identity(), &phase1.coeffs_g2, &bt[v]);
        let ext_b = accumulate_g1(ext_a, &phase1.alpha_coeffs_g1, &bt[v]);
        let ext_v = accumulate_g1(ext_b, &phase1.coeffs_g1, &ct[v]);
        a.push(a_v);
        b_g1.push(b_g1_v);
        b_g2.push(b_g2_v);
        ext.push(ext_v);
        v = v + 1;
    }
    let result = Evaluation { a, b_g1, b_g2, ext };
    proof {
        let want = spec_eval(phase1@, matrix_view(at@), matrix_view(bt@), matrix_view(ct@));
        assert(result@.a =~= want.a);
        assert(result@.b_g1 =~= want.b_g1);
        assert(result@.b_g2 =~= want.b_g2);
        assert(result@.ext =~= want.ext);
    }
    result
}

/// The elements of a list that are not the identity, in their order.
pub open spec fn drop_identities(points: Seq<Seq<u8>>) -> Seq<Seq<u8>>
    decreases points.len(),
{
    if points.len() == 0 {
        Seq::empty()
    } else {
        let before = drop_identities(points.drop_last());
        if identity_flag(points.last()) {
            before
        } else {
            before.push(points.last())
        }
    }
}

/// Appends to `out` the elements of `points` that are not the identity.
pub fn append_without_identities_g1(out: &mut Vec<G1Point>, points: &Vec<G1Point>)
    ensures
        g1_views(final(out)@) == g1_views(old(out)@) + drop_identities(g1_views(points@)),
{
    let mut i: usize = 0;
    let ghost all = g1_views(points@);
    assert(all.take(0) =~= Seq::<Seq<u8>>::empty());
    assert(g1_views(out@) =~= g1_views(old(out)@) + drop_identities(all.take(0)));
    while i < points.len()
        invariant
            i <= points.len(),
            all == g1_views(points@),
            g1_views(out@) == g1_views(old(out)@) + drop_identities(all.take(i as int)),
        decreases points.len() - i,
    {
        let ghost before = out@;
        assert(all.take(i + 1).drop_last() =~= all.take(i as int));
        assert(all.take(i + 1).last() == points@[i as int]@);
        if !points[i].is_identity() {
            out.push(points[i]);
            assert(g1_views(out@) =~= g1_views(before).push(points@[i as int]@));
        }
        assert(g1_views(out@) =~= g1_views(old(out)@) + drop_identities(all.take(i + 1)));
        i = i + 1;
    }
    assert(all.take(points.len() as int) =~= all);
}

/// Appends to `out` the elements of `points` that are not the identity.
pub fn append_without_identities_g2(out: &mut Vec<G2Point>, points: &Vec<G2Point>)
    ensures
        g2_views(final(out)@) == g2_views(old(out)@) + drop_identities(g2_views(points@)),
{
    let mut i: usize = 0;
    let ghost all = g2_views(points@);
    assert(all.take(0) =~= Seq::<Seq<u8>>::empty());
    assert(g2_views(out@) =~= g2_views(old(out)@) + drop_identities(all.take(0)));
    while i < points.len()
        invariant
            i <= points.len(),
            all == g2_views(points@),
            g2_views(out@) == g2_views(old(out)@) + drop_identities(all.take(i as int)),
        decreases points.len() - i,
    {
        let ghost before = out@;
        assert(all.take(i + 1).drop_last() =~= all.take(i as int));
        assert(all.take(i + 1).last() == points@[i as int]@);
        if !points[i].is_identity() {
            out.push(points[i]);
            assert(g2_views(out@) =~= g2_views(before).push(points@[i as int]@));
        }
        assert(g2_views(out@) =~= g2_views(old(out)@) + drop_identities(all.take(i + 1)));
        i = i + 1;
    }
    assert(all.take(points.len() as int) =~= all);
}

/// Whether some element of a list is the identity.
pub open spec fn some_identity(points: Seq<Seq<u8>>) -> bool {
    exists|v: int| 0 <= v < points.len() && identity_flag(#[trigger] points[v])
}

/// Whether some element of a list is the identity.
pub fn has_identity(points: &Vec<G1Point>) -> (r: bool)
    ensures
        r == some_identity(g1_views(points@)),
{
    let mut i: usize = 0;
    while i < points.len()
        invariant
            i <= points.len(),
            forall|v: int| 0 <= v < i ==> !identity_flag(#[trigger] g1_views(points@)[v]),
        decreases points.len() - i,
    {
        if points[i].is_identity() {
            assert(identity_flag(g1_views(points@)[i as int]));
            return true;
        }
        i = i + 1;
    }
    false
}

/// The Groth16 parameters that a constraint system and a transcript give,
/// before any contribution: gamma and both deltas are the generators, IC and
/// L hold one element per input and per auxiliary variable, and A and B hold
/// the polynomials that do not vanish, inputs first. An auxiliary variable
/// whose element of L is the identity is unconstrained.
pub open spec fn spec_initial_parameters(cs: AssemblyView, p: Phase1View) -> Result<
    ParametersView,
    SetupError,
> {
    let inputs = spec_eval(p, cs.at_inputs, cs.bt_inputs, cs.ct_inputs);
    let aux = spec_eval(p, cs.at_aux, cs.bt_aux, cs.ct_aux);
    if some_identity(aux.ext) {
        Err(SetupError::UnconstrainedVariable)
    } else {
        Ok(
            ParametersView {
                vk: VerifyingKeyView {
                    alpha_g1: p.alpha,
                    beta_g1: p.beta_g1,
                    beta_g2: p.beta_g2,
                    gamma_g2: g2_generator_encoding(),
                    delta_g1: g1_generator_encoding(),
                    delta_g2: g2_generator_encoding(),
                    ic: inputs.ext,
                },
                h: p.h,
                l: aux.ext,
                a: drop_identities(inputs.a) + drop_identities(aux.a),
                b_g1: drop_identities(inputs.b_g1) + drop_identities(aux.b_g1),
                b_g2: drop_identities(inputs.b_g2) + drop_identities(aux.b_g2),
            },
        )
    }
}

/// Evaluates the constraint system at the transcript and assembles the
/// initial Groth16 parameters.
pub fn initial_parameters(assembly: &KeypairAssembly, phase1: Phase1) -> (r: Result<
    Parameters,
    SetupError,
>)
    requires
        assembly.wf(),
        assembly@.num_constraints <= phase1.coeffs_g1@.len(),
        phase1.coeffs_g2@.len() == phase1.coeffs_g1@.len(),
        phase1.alpha_coeffs_g1@.len() == phase1.coeffs_g1@.len(),
        phase1.beta_coeffs_g1@.len() == phase1.coeffs_g1@.len(),
    ensures
        match r {
            Ok(params) => spec_initial_parameters(assembly@, phase1@) == Ok::<
                ParametersView,
                SetupError,
            >(params@),
            Err(e) => spec_initial_parameters(assembly@, phase1@) == Err::<
                ParametersView,
                SetupError,
            >(e),
        },
{
    let (at_inputs, bt_inputs, ct_inputs) = assembly.input_columns();
    let (at_aux, bt_aux, ct_aux) = assembly.aux_columns();
    proof {
        let m = phase1.coeffs_g1@.len();
        lemma_below_grows(assembly@.at_inputs, assembly@.num_constraints, m);
        lemma_below_grows(assembly@.bt_inputs, assembly@.num_constraints, m);
        lemma_below_grows(assembly@.ct_inputs, assembly@.num_constraints, m);
        lemma_below_grows(assembly@.at_aux, assembly@.num_constraints, m);
        lemma_below_grows(assembly@.bt_aux, assembly@.num_constraints, m);
        lemma_below_grows(assembly@.ct_aux, assembly@.num_constraints, m);
    }
    // Evaluate for inputs.
    let inputs = eval(&phase1, at_inputs, bt_inputs, ct_inputs);
    // Evaluate for auxiliary variables.
    let aux = eval(&phase1, at_aux, bt_aux, ct_aux);
    // Don't allow any elements be unconstrained, so that the L query is
    // always fully dense.
    if has_identity(&aux.ext) {
        return Err(SetupError::UnconstrainedVariable);
    }
    // Filter points at infinity away from the A and B queries.
    let mut a: Vec<G1Point> = Vec::new();
    let mut b_g1: Vec<G1Point> = Vec::new();
    let mut b_g2: Vec<G2Point> = Vec::new();
    assert(g1_views(a@) =~= Seq::<Seq<u8>>::empty());
    assert(g1_views(b_g1@) =~= Seq::<Seq<u8>>::empty());
    assert(g2_views(b_g2@) =~= Seq::<Seq<u8>>::empty());
    append_without_identities_g1(&mut a, &inputs.a);
    append_without_identities_g1(&mut a, &aux.a);
    append_without_identities_g1(&mut b_g1, &inputs.b_g1);
    append_without_identities_g1(&mut b_g1, &aux.b_g1);
    append_without_identities_g2(&mut b_g2, &inputs.b_g2);
    append_without_identities_g2(&mut b_g2, &aux.b_g2);
    let vk = VerifyingKey {
        alpha_g1: phase1.alpha,
        beta_g1: phase1.beta_g1,
        beta_g2: phase1.beta_g2,
        gamma_g2: G2Point::generator(),
        delta_g1: G1Point::generator(),
        delta_g2: G2Point::generator(),
        ic: inputs.ext,
    };
    let params = Parameters { vk, h: phase1.h, l: aux.ext, a, b_g1, b_g2 };
    proof {
        let want = spec_initial_parameters(assembly@, phase1@);
        assert(params@.a =~= want->Ok_0.a);
        assert(params@.b_g1 =~= want->Ok_0.b_g1);
        assert(params@.b_g2 =~= want->Ok_0.b_g2);
        assert(params@.vk =~= want->Ok_0.vk);
        assert(params@ =~= want->Ok_0);
    }
    Ok(params)
}

/// Entries below a bound are below every larger bound.
pub proof fn lemma_below_grows(columns: Seq<Seq<TermView>>, bound: nat, larger: nat)
    requires
        constraints_below(columns, bound),
        bound <= larger,
    ensures
        constraints_below(columns, larger),
{
    assert forall|v: int, k: int|
        0 <= v < columns.len() && 0 <= k < columns[v].len() implies (#[trigger] columns[v][k]).1
        < larger by {
        assert(columns[v][k].1 < bound);
    }
}

/// The collector after the first `count` inputs were given their sentinel
/// constraint `input * 0 = 0`, which puts the input into the A matrix with
/// coefficient one.
pub open spec fn sentinels_upto(cs: AssemblyView, count: nat) -> AssemblyView {
    AssemblyView {
        num_constraints: cs.num_constraints + count,
        at_inputs: Seq::new(
            cs.at_inputs.len(),
            |i: int|
                if i < count {
                    cs.at_inputs[i].push((scalar_one_encoding(), (cs.num_constraints + i) as nat))
                } else {
                    cs.at_inputs[i]
                },
        ),
        ..cs
    }
}

/// The collector after every input was given its sentinel constraint, so
/// that no element of the IC query is left empty.
pub open spec fn with_sentinels(cs: AssemblyView) -> AssemblyView {
    sentinels_upto(cs, cs.num_inputs)
}

/// Enforcing `input * 0 = 0` adds one entry to the A column of that input and
/// nothing else.
pub proof fn lemma_enforce_sentinel(cs: AssemblyView, i: nat)
    requires
        assembly_wf(cs),
        i < cs.num_inputs,
        cs.num_inputs <= usize::MAX,
    ensures
        spec_enforce(
            cs,
            seq![(Variable::Input(i as usize), scalar_one_encoding())],
            Seq::empty(),
            Seq::empty(),
        ) == (AssemblyView {
            num_constraints: cs.num_constraints + 1,
            at_inputs: cs.at_inputs.update(
                i as int,
                cs.at_inputs[i as int].push((scalar_one_encoding(), cs.num_constraints)),
            ),
            ..cs
        }),
{
    let one = scalar_one_encoding();
    let n = cs.num_constraints;
    let term = (Variable::Input(i as usize), one);
    let a = seq![term];
    let none = Seq::<(Variable, Seq<u8>)>::empty();
    let after = spec_enforce(cs, a, none, none);
    assert(a =~= none.push(term));
    assert forall|v: int| 0 <= v < cs.at_inputs.len() implies #[trigger] after.at_inputs[v]
        == cs.at_inputs.update(i as int, cs.at_inputs[i as int].push((one, n)))[v] by {
        lemma_column_terms_push(none, term, Variable::Input(v as usize), n);
        if v == i {
            assert(cs.at_inputs[v] + seq![(one, n)] =~= cs.at_inputs[v].push((one, n)));
        } else {
            assert(cs.at_inputs[v] + Seq::<TermView>::empty() =~= cs.at_inputs[v]);
        }
    }
    assert(after.at_inputs =~= cs.at_inputs.update(
        i as int,
        cs.at_inputs[i as int].push((one, n)),
    ));
    assert forall|v: int| 0 <= v < cs.at_aux.len() implies #[trigger] after.at_aux[v]
        == cs.at_aux[v] by {
        lemma_column_terms_push(none, term, Variable::Aux(v as usize), n);
        assert(cs.at_aux[v] + Seq::<TermView>::empty() =~= cs.at_aux[v]);
    }
    assert(after.at_aux =~= cs.at_aux);
    assert forall|v: int| 0 <= v < cs.bt_inputs.len() implies #[trigger] after.bt_inputs[v]
        == cs.bt_inputs[v] by {
        assert(cs.bt_inputs[v] + Seq::<TermView>::empty() =~= cs.bt_inputs[v]);
    }
    assert(after.bt_inputs =~= cs.bt_inputs);
    assert forall|v: int| 0 <= v < cs.ct_inputs.len() implies #[trigger] after.ct_inputs[v]
        == cs.ct_inputs[v] by {
        assert(cs.ct_inputs[v] + Seq::<TermView>::empty() =~= cs.ct_inputs[v]);
    }
    assert(after.ct_inputs =~= cs.ct_inputs);
    assert forall|v: int| 0 <= v < cs.bt_aux.len() implies #[trigger] after.bt_aux[v]
        == cs.bt_aux[v] by {
        assert(cs.bt_aux[v] + Seq::<TermView>::empty() =~= cs.bt_aux[v]);
    }
    assert(after.bt_aux =~= cs.bt_aux);
    assert forall|v: int| 0 <= v < cs.ct_aux.len() implies #[trigger] after.ct_aux[v]
        == cs.ct_aux[v] by {
        assert(cs.ct_aux[v] + Seq::<TermView>::empty() =~= cs.ct_aux[v]);
    }
    assert(after.ct_aux =~= cs.ct_aux);
}

/// Gives every input its sentinel constraint `input * 0 = 0`, to ensure full
/// density of the IC query.
pub fn add_sentinels(assembly: &mut KeypairAssembly)
    requires
        old(assembly).wf(),
        old(assembly)@.num_constraints + old(assembly)@.num_inputs <= usize::MAX,
    ensures
        final(assembly).wf(),
        final(assembly)@ == with_sentinels(old(assembly)@),
{
    let num_inputs = assembly.num_inputs();
    let mut i: usize = 0;
    assert(assembly@ =~= sentinels_upto(old(assembly)@, 0)) by {
        assert(assembly@.at_inputs =~= sentinels_upto(old(assembly)@, 0).at_inputs);
    }
    while i < num_inputs
        invariant
            i <= num_inputs,
            num_inputs == old(assembly)@.num_inputs,
            old(assembly).wf(),
            old(assembly)@.num_constraints + old(assembly)@.num_inputs <= usize::MAX,
            assembly.wf(),
            assembly@ == sentinels_upto(old(assembly)@, i as nat),
        decreases num_inputs - i,
    {
        let mut a: Vec<(Variable, Scalar)> = Vec::new();
        a.push((Variable::Input(i), Scalar::one()));
        let b: Vec<(Variable, Scalar)> = Vec::new();
        let c: Vec<(Variable, Scalar)> = Vec::new();
        let ghost before = assembly@;
        proof {
            assert(lc_view(a@) =~= seq![(Variable::Input(i), scalar_one_encoding())]);
            assert(lc_view(b@) =~= Seq::<(Variable, Seq<u8>)>::empty());
            assert(lc_view(c@) =~= Seq::<(Variable, Seq<u8>)>::empty());
            lemma_enforce_sentinel(before, i as nat);
        }
        assembly.enforce(&a, &b, &c);
        proof {
            let want = sentinels_upto(old(assembly)@, (i + 1) as nat);
            assert(assembly@.at_inputs =~= want.at_inputs);
            assert(assembly@ =~= want);
        }
        i = i + 1;
    }
}

} // verus!
