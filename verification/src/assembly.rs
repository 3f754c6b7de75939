//! The constraint collector: it takes the constraints of a circuit and keeps,
//! for every variable, where and with which coefficient it occurs in the
//! A, B and C matrices.

use crate::curve::Scalar;
use vstd::prelude::*;

verus! {

/// A variable of a constraint system: a public input or an auxiliary
/// variable, by its index. Input 0 is the constant one.
#[derive(Clone, Copy, Debug, PartialEq, Eq, Structural)]
pub enum Variable {
    Input(usize),
    Aux(usize),
}

/// One entry of a column as plain data: the coefficient and the constraint.
pub type TermView = (Seq<u8>, nat);

/// The collector as plain data.
pub struct AssemblyView {
    pub num_inputs: nat,
    pub num_aux: nat,
    pub num_constraints: nat,
    pub at_inputs: Seq<Seq<TermView>>,
    pub bt_inputs: Seq<Seq<TermView>>,
    pub ct_inputs: Seq<Seq<TermView>>,
    pub at_aux: Seq<Seq<TermView>>,
    pub bt_aux: Seq<Seq<TermView>>,
    pub ct_aux: Seq<Seq<TermView>>,
}

/// The collector of the constraints of a circuit.
#[derive(Debug)]
pub struct KeypairAssembly {
    num_inputs: usize,
    num_aux: usize,
    num_constraints: usize,
    at_inputs: Vec<Vec<(Scalar, usize)>>,
    bt_inputs: Vec<Vec<(Scalar, usize)>>,
    ct_inputs: Vec<Vec<(Scalar, usize)>>,
    at_aux: Vec<Vec<(Scalar, usize)>>,
    bt_aux: Vec<Vec<(Scalar, usize)>>,
    ct_aux: Vec<Vec<(Scalar, usize)>>,
}

/// A column as plain data.
pub open spec fn column_view(column: Vec<(Scalar, usize)>) -> Seq<TermView> {
    Seq::new(column@.len(), |i: int| (column@[i].0@, column@[i].1 as nat))
}

/// The columns of a matrix as plain data.
pub open spec fn matrix_view(columns: Seq<Vec<(Scalar, usize)>>) -> Seq<Seq<TermView>> {
    Seq::new(columns.len(), |i: int| column_view(columns[i]))
}

/// A linear combination as plain data: variables with their coefficients.
pub open spec fn lc_view(lc: Seq<(Variable, Scalar)>) -> Seq<(Variable, Seq<u8>)> {
    Seq::new(lc.len(), |i: int| (lc[i].0, lc[i].1@))
}

/// What a linear combination adds to the column of `variable` when it is
/// enforced as constraint `constraint`: one entry for each of its terms in
/// that variable, in their order.
pub open spec fn column_terms(
    lc: Seq<(Variable, Seq<u8>)>,
    variable: Variable,
    constraint: nat,
) -> Seq<TermView>
    decreases lc.len(),
{
    if lc.len() == 0 {
        Seq::empty()
    } else {
        let before = column_terms(lc.drop_last(), variable, constraint);
        if lc.last().0 == variable {
            before.push((lc.last().1, constraint))
        } else {
            before
        }
    }
}

/// Whether every variable of a linear combination has been allocated.
pub open spec fn lc_allocated(lc: Seq<(Variable, Seq<u8>)>, num_inputs: nat, num_aux: nat)
    -> bool {
    forall|i: int|
        0 <= i < lc.len() ==> match (#[trigger] lc[i]).0 {
            Variable::Input(id) => id < num_inputs,
            Variable::Aux(id) => id < num_aux,
        }
}

/// The columns of a matrix after a linear combination was enforced: each
/// column has gained the terms of its variable.
pub open spec fn columns_after(
    columns: Seq<Seq<TermView>>,
    lc: Seq<(Variable, Seq<u8>)>,
    is_input: bool,
    constraint: nat,
) -> Seq<Seq<TermView>> {
    Seq::new(
        columns.len(),
        |v: int|
            columns[v] + column_terms(
                lc,
                if is_input {
                    Variable::Input(v as usize)
                } else {
                    Variable::Aux(v as usize)
                },
                constraint,
            ),
    )
}

/// The collector after the constraint `a * b = c` was enforced.
pub open spec fn spec_enforce(
    cs: AssemblyView,
    a: Seq<(Variable, Seq<u8>)>,
    b: Seq<(Variable, Seq<u8>)>,
    c: Seq<(Variable, Seq<u8>)>,
) -> AssemblyView {
    AssemblyView {
        num_inputs: cs.num_inputs,
        num_aux: cs.num_aux,
        num_constraints: cs.num_constraints + 1,
        at_inputs: columns_after(cs.at_inputs, a, true, cs.num_constraints),
        bt_inputs: columns_after(cs.bt_inputs, b, true, cs.num_constraints),
        ct_inputs: columns_after(cs.ct_inputs, c, true, cs.num_constraints),
        at_aux: columns_after(cs.at_aux, a, false, cs.num_constraints),
        bt_aux: columns_after(cs.bt_aux, b, false, cs.num_constraints),
        ct_aux: columns_after(cs.ct_aux, c, false, cs.num_constraints),
    }
}

/// Whether every entry of every column names a constraint below `bound`.
pub open spec fn constraints_below(columns: Seq<Seq<TermView>>, bound: nat) -> bool {
    forall|v: int, k: int|
        0 <= v < columns.len() && 0 <= k < columns[v].len() ==> (#[trigger] columns[v][k]).1
            < bound
}

/// Whether a collector, as plain data, is consistent: each matrix has one
/// column per variable, and every entry names a constraint that exists.
pub open spec fn assembly_wf(cs: AssemblyView) -> bool {
    &&& cs.at_inputs.len() == cs.num_inputs
    &&& cs.bt_inputs.len() == cs.num_inputs
    &&& cs.ct_inputs.len() == cs.num_inputs
    &&& cs.at_aux.len() == cs.num_aux
    &&& cs.bt_aux.len() == cs.num_aux
    &&& cs.ct_aux.len() == cs.num_aux
    &&& constraints_below(cs.at_inputs, cs.num_constraints)
    &&& constraints_below(cs.bt_inputs, cs.num_constraints)
    &&& constraints_below(cs.ct_inputs, cs.num_constraints)
    &&& constraints_below(cs.at_aux, cs.num_constraints)
    &&& constraints_below(cs.bt_aux, cs.num_constraints)
    &&& constraints_below(cs.ct_aux, cs.num_constraints)
}

/// The terms of a linear combination for one variable all carry the
/// constraint they were enforced as.
pub proof fn lemma_column_terms(lc: Seq<(Variable, Seq<u8>)>, variable: Variable, constraint: nat)
    ensures
        forall|k: int|
            0 <= k < column_terms(lc, variable, constraint).len() ==> (#[trigger] column_terms(
                lc,
                variable,
                constraint,
            )[k]).1 == constraint,
    decreases lc.len(),
{
    if lc.len() > 0 {
        lemma_column_terms(lc.drop_last(), variable, constraint);
        let before = column_terms(lc.drop_last(), variable, constraint);
        let all = column_terms(lc, variable, constraint);
        assert forall|k: int| 0 <= k < all.len() implies (#[trigger] all[k]).1 == constraint by {
            if k < before.len() {
                assert(all[k] == before[k]);
            }
        }
    }
}

/// What one more term at the end of a linear combination adds to a column.
pub proof fn lemma_column_terms_push(
    lc: Seq<(Variable, Seq<u8>)>,
    term: (Variable, Seq<u8>),
    variable: Variable,
    constraint: nat,
)
    ensures
        column_terms(lc.push(term), variable, constraint) == if term.0 == variable {
            column_terms(lc, variable, constraint).push((term.1, constraint))
        } else {
            column_terms(lc, variable, constraint)
        },
{
    assert(lc.push(term).drop_last() =~= lc);
}

/// Appends one entry to the column at `id`.
fn push_term(columns: &mut Vec<Vec<(Scalar, usize)>>, id: usize, term: (Scalar, usize))
    requires
        id < old(columns)@.len(),
    ensures
        final(columns)@.len() == old(columns)@.len(),
        final(columns)@[id as int]@ == old(columns)@[id as int]@.push(term),
        forall|v: int|
            0 <= v < old(columns)@.len() && v != id ==> final(columns)@[v] == old(columns)@[v],
{
    columns[id].push(term);
}

/// Adds the terms of a linear combination to the columns of their variables.
fn eval(
    lc: &Vec<(Variable, Scalar)>,
    inputs: &mut Vec<Vec<(Scalar, usize)>>,
    aux: &mut Vec<Vec<(Scalar, usize)>>,
    this_constraint: usize,
)
    requires
        lc_allocated(lc_view(lc@), old(inputs)@.len() as nat, old(aux)@.len() as nat),
    ensures
        matrix_view(final(inputs)@) == columns_after(
            matrix_view(old(inputs)@),
            lc_view(lc@),
            true,
            this_constraint as nat,
        ),
        matrix_view(final(aux)@) == columns_after(
            matrix_view(old(aux)@),
            lc_view(lc@),
            false,
            this_constraint as nat,
        ),
{
    let mut i: usize = 0;
    let ghost all = lc_view(lc@);
    assert(all.take(0) =~= Seq::<(Variable, Seq<u8>)>::empty());
    assert(matrix_view(inputs@) =~= columns_after(
        matrix_view(old(inputs)@),
        all.take(0),
        true,
        this_constraint as nat,
    ));
    assert(matrix_view(aux@) =~= columns_after(
        matrix_view(old(aux)@),
        all.take(0),
        false,
        this_constraint as nat,
    ));
    while i < lc.len()
        invariant
            i <= lc.len(),
            all == lc_view(lc@),
            inputs@.len() == old(inputs)@.len(),
            aux@.len() == old(aux)@.len(),
            lc_allocated(all, inputs@.len() as nat, aux@.len() as nat),
            matrix_view(inputs@) == columns_after(
                matrix_view(old(inputs)@),
                all.take(i as int),
                true,
                this_constraint as nat,
            ),
            matrix_view(aux@) == columns_after(
                matrix_view(old(aux)@),
                all.take(i as int),
                false,
                this_constraint as nat,
            ),
        decreases lc.len() - i,
    {
        let (variable, coeff) = lc[i];
        let ghost inputs_before = inputs@;
        let ghost aux_before = aux@;
        assert(all[i as int] == (variable, coeff@));
        assert(all.take(i + 1) =~= all.take(i as int).push(all[i as int]));
        assert(inputs@.len() == inputs.len() && aux@.len() == aux.len());
        assert forall|v: int| 0 <= v < inputs_before.len() implies #[trigger] columns_after(
            matrix_view(old(inputs)@),
            all.take(i + 1),
            true,
            this_constraint as nat,
        )[v] == matrix_view(inputs_before)[v] + (if variable == Variable::Input(v as usize) {
            seq![(coeff@, this_constraint as nat)]
        } else {
            Seq::<TermView>::empty()
        }) by {
            lemma_column_terms_push(
                all.take(i as int),
                all[i as int],
                Variable::Input(v as usize),
                this_constraint as nat,
            );
        }
        assert forall|v: int| 0 <= v < aux_before.len() implies #[trigger] columns_after(
            matrix_view(old(aux)@),
            all.take(i + 1),
            false,
            this_constraint as nat,
        )[v] == matrix_view(aux_before)[v] + (if variable == Variable::Aux(v as usize) {
            seq![(coeff@, this_constraint as nat)]
        } else {
            Seq::<TermView>::empty()
        }) by {
            lemma_column_terms_push(
                all.take(i as int),
                all[i as int],
                Variable::Aux(v as usize),
                this_constraint as nat,
            );
        }
        match variable {
            Variable::Input(id) => {
                push_term(inputs, id, (coeff, this_constraint));
                assert(column_view(inputs@[id as int]) =~= column_view(
                    inputs_before[id as int],
                ) + seq![(coeff@, this_constraint as nat)]);
            },
            Variable::Aux(id) => {
                push_term(aux, id, (coeff, this_constraint));
                assert(column_view(aux@[id as int]) =~= column_view(aux_before[id as int]) + seq![
                    (coeff@, this_constraint as nat),
                ]);
            },
        }
        assert forall|v: int| 0 <= v < inputs@.len() implies #[trigger] matrix_view(inputs@)[v]
            == columns_after(
            matrix_view(old(inputs)@),
            all.take(i + 1),
            true,
            this_constraint as nat,
        )[v] by {
            if variable != Variable::Input(v as usize) {
                assert(inputs@[v] == inputs_before[v]);
                assert(matrix_view(inputs_before)[v] + Seq::<TermView>::empty()
                    =~= matrix_view(inputs_before)[v]);
            }
        }
        assert forall|v: int| 0 <= v < aux@.len() implies #[trigger] matrix_view(aux@)[v]
            == columns_after(
            matrix_view(old(aux)@),
            all.take(i + 1),
            false,
            this_constraint as nat,
        )[v] by {
            if variable != Variable::Aux(v as usize) {
                assert(aux@[v] == aux_before[v]);
                assert(matrix_view(aux_before)[v] + Seq::<TermView>::empty() =~= matrix_view(
                    aux_before,
                )[v]);
            }
        }
        assert(matrix_view(inputs@) =~= columns_after(
            matrix_view(old(inputs)@),
            all.take(i + 1),
            true,
            this_constraint as nat,
        ));
        assert(matrix_view(aux@) =~= columns_after(
            matrix_view(old(aux)@),
            all.take(i + 1),
            false,
            this_constraint as nat,
        ));
        i = i + 1;
    }
    assert(all.take(lc.len() as int) =~= all);
}

impl View for KeypairAssembly {
    type V = AssemblyView;

    closed spec fn view(&self) -> AssemblyView {
        AssemblyView {
            num_inputs: self.num_inputs as nat,
            num_aux: self.num_aux as nat,
            num_constraints: self.num_constraints as nat,
            at_inputs: matrix_view(self.at_inputs@),
            bt_inputs: matrix_view(self.bt_inputs@),
            ct_inputs: matrix_view(self.ct_inputs@),
            at_aux: matrix_view(self.at_aux@),
            bt_aux: matrix_view(self.bt_aux@),
            ct_aux: matrix_view(self.ct_aux@),
        }
    }
}

impl KeypairAssembly {
    /// Whether the collector is consistent. Every collector made by `new` and
    /// changed by the methods below is.
    pub open spec fn wf(&self) -> bool {
        assembly_wf(self@)
    }

    /// A collector for a circuit: no constraint yet, and one public input,
    /// the constant one.
    pub fn new() -> (r: KeypairAssembly)
        ensures
            r.wf(),
            r@ == (AssemblyView {
                num_inputs: 1,
                num_aux: 0,
                num_constraints: 0,
                at_inputs: seq![Seq::empty()],
                bt_inputs: seq![Seq::empty()],
                ct_inputs: seq![Seq::empty()],
                at_aux: Seq::empty(),
                bt_aux: Seq::empty(),
                ct_aux: Seq::empty(),
            }),
    {
        let mut assembly = KeypairAssembly {
            num_inputs: 0,
            num_aux: 0,
            num_constraints: 0,
            at_inputs: Vec::new(),
            bt_inputs: Vec::new(),
            ct_inputs: Vec::new(),
            at_aux: Vec::new(),
            bt_aux: Vec::new(),
            ct_aux: Vec::new(),
        };
        assert(matrix_view(assembly.at_inputs@) =~= Seq::<Seq<TermView>>::empty());
        assert(matrix_view(assembly.at_aux@) =~= Seq::<Seq<TermView>>::empty());
        // Allocate the "one" input variable.
        assembly.alloc_input();
        assert(assembly@.at_inputs =~= seq![Seq::<TermView>::empty()]);
        assert(assembly@.bt_inputs =~= seq![Seq::<TermView>::empty()]);
        assert(assembly@.ct_inputs =~= seq![Seq::<TermView>::empty()]);
        assembly
    }

    /// The number of public inputs allocated.
    pub fn num_inputs(&self) -> (r: usize)
        ensures
            r == self@.num_inputs,
    {
        self.num_inputs
    }

    /// The number of auxiliary variables allocated.
    pub fn num_aux(&self) -> (r: usize)
        ensures
            r == self@.num_aux,
    {
        self.num_aux
    }

    /// The number of constraints enforced.
    pub fn num_constraints(&self) -> (r: usize)
        ensures
            r == self@.num_constraints,
    {
        self.num_constraints
    }

    /// Allocates an auxiliary variable. There is no assignment: only the
    /// shape of the constraint system matters.
    pub fn alloc_aux(&mut self) -> (r: Variable)
        requires
            old(self).wf(),
            old(self)@.num_aux < usize::MAX,
        ensures
            final(self).wf(),
            r == Variable::Aux(old(self)@.num_aux as usize),
            final(self)@ == (AssemblyView {
                num_aux: old(self)@.num_aux + 1,
                at_aux: old(self)@.at_aux.push(Seq::empty()),
                bt_aux: old(self)@.bt_aux.push(Seq::empty()),
                ct_aux: old(self)@.ct_aux.push(Seq::empty()),
                ..old(self)@
            }),
    {
        let index = self.num_aux;
        self.num_aux = self.num_aux + 1;
        self.at_aux.push(Vec::new());
        self.bt_aux.push(Vec::new());
        self.ct_aux.push(Vec::new());
        proof {
            let empty: Vec<(Scalar, usize)> = self.at_aux@.last();
            assert(column_view(self.at_aux@.last()) =~= Seq::<TermView>::empty());
            assert(column_view(self.bt_aux@.last()) =~= Seq::<TermView>::empty());
            assert(column_view(self.ct_aux@.last()) =~= Seq::<TermView>::empty());
            assert(matrix_view(self.at_aux@) =~= old(self)@.at_aux.push(Seq::empty()));
            assert(matrix_view(self.bt_aux@) =~= old(self)@.bt_aux.push(Seq::empty()));
            assert(matrix_view(self.ct_aux@) =~= old(self)@.ct_aux.push(Seq::empty()));
        }
        Variable::Aux(index)
    }

    /// Allocates a public input. There is no assignment: only the shape of
    /// the constraint system matters.
    pub fn alloc_input(&mut self) -> (r: Variable)
        requires
            old(self).wf(),
            old(self)@.num_inputs < usize::MAX,
        ensures
            final(self).wf(),
            r == Variable::Input(old(self)@.num_inputs as usize),
            final(self)@ == (AssemblyView {
                num_inputs: old(self)@.num_inputs + 1,
                at_inputs: old(self)@.at_inputs.push(Seq::empty()),
                bt_inputs: old(self)@.bt_inputs.push(Seq::empty()),
                ct_inputs: old(self)@.ct_inputs.push(Seq::empty()),
                ..old(self)@
            }),
    {
        let index = self.num_inputs;
        self.num_inputs = self.num_inputs + 1;
        self.at_inputs.push(Vec::new());
        self.bt_inputs.push(Vec::new());
        self.ct_inputs.push(Vec::new());
        proof {
            assert(column_view(self.at_inputs@.last()) =~= Seq::<TermView>::empty());
            assert(column_view(self.bt_inputs@.last()) =~= Seq::<TermView>::empty());
            assert(column_view(self.ct_inputs@.last()) =~= Seq::<TermView>::empty());
            assert(matrix_view(self.at_inputs@) =~= old(self)@.at_inputs.push(Seq::empty()));
            assert(matrix_view(self.bt_inputs@) =~= old(self)@.bt_inputs.push(Seq::empty()));
            assert(matrix_view(self.ct_inputs@) =~= old(self)@.ct_inputs.push(Seq::empty()));
        }
        Variable::Input(index)
    }

    /// Enforces the constraint `a * b = c` of three linear combinations over
    /// allocated variables: every term is entered in the column of its
    /// variable, under the number of this constraint.
    pub fn enforce(
        &mut self,
        a: &Vec<(Variable, Scalar)>,
        b: &Vec<(Variable, Scalar)>,
        c: &Vec<(Variable, Scalar)>,
    )
        requires
            old(self).wf(),
            old(self)@.num_constraints < usize::MAX,
            lc_allocated(lc_view(a@), old(self)@.num_inputs, old(self)@.num_aux),
            lc_allocated(lc_view(b@), old(self)@.num_inputs, old(self)@.num_aux),
            lc_allocated(lc_view(c@), old(self)@.num_inputs, old(self)@.num_aux),
        ensures
            final(self).wf(),
            final(self)@ == spec_enforce(old(self)@, lc_view(a@), lc_view(b@), lc_view(c@)),
    {
        let this_constraint = self.num_constraints;
        eval(a, &mut self.at_inputs, &mut self.at_aux, this_constraint);
        eval(b, &mut self.bt_inputs, &mut self.bt_aux, this_constraint);
        eval(c, &mut self.ct_inputs, &mut self.ct_aux, this_constraint);
        self.num_constraints = self.num_constraints + 1;
        proof {
            let n = this_constraint as nat;
            lemma_columns_after_below(old(self)@.at_inputs, lc_view(a@), true, n);
            lemma_columns_after_below(old(self)@.bt_inputs, lc_view(b@), true, n);
            lemma_columns_after_below(old(self)@.ct_inputs, lc_view(c@), true, n);
            lemma_columns_after_below(old(self)@.at_aux, lc_view(a@), false, n);
            lemma_columns_after_below(old(self)@.bt_aux, lc_view(b@), false, n);
            lemma_columns_after_below(old(self)@.ct_aux, lc_view(c@), false, n);
        }
    }

    /// The columns of the A, B and C matrices for the public inputs.
    pub fn input_columns(&self) -> (r: (
        &Vec<Vec<(Scalar, usize)>>,
        &Vec<Vec<(Scalar, usize)>>,
        &Vec<Vec<(Scalar, usize)>>,
    ))
        ensures
            matrix_view(r.0@) == self@.at_inputs,
            matrix_view(r.1@) == self@.bt_inputs,
            matrix_view(r.2@) == self@.ct_inputs,
    {
        (&self.at_inputs, &self.bt_inputs, &self.ct_inputs)
    }

    /// The columns of the A, B and C matrices for the auxiliary variables.
    pub fn aux_columns(&self) -> (r: (
        &Vec<Vec<(Scalar, usize)>>,
        &Vec<Vec<(Scalar, usize)>>,
        &Vec<Vec<(Scalar, usize)>>,
    ))
        ensures
            matrix_view(r.0@) == self@.at_aux,
            matrix_view(r.1@) == self@.bt_aux,
            matrix_view(r.2@) == self@.ct_aux,
    {
        (&self.at_aux, &self.bt_aux, &self.ct_aux)
    }
}

/// Enforcing constraint `constraint` keeps every entry at or below it.
pub proof fn lemma_columns_after_below(
    columns: Seq<Seq<TermView>>,
    lc: Seq<(Variable, Seq<u8>)>,
    is_input: bool,
    constraint: nat,
)
    requires
        constraints_below(columns, constraint),
    ensures
        constraints_below(columns_after(columns, lc, is_input, constraint), constraint + 1),
{
    let after = columns_after(columns, lc, is_input, constraint);
    assert forall|v: int, k: int| 0 <= v < after.len() && 0 <= k < after[v].len() implies (
    #[trigger] after[v][k]).1 < constraint + 1 by {
        let variable = if is_input {
            Variable::Input(v as usize)
        } else {
            Variable::Aux(v as usize)
        };
        lemma_column_terms(lc, variable, constraint);
        if k < columns[v].len() {
            assert(after[v][k] == columns[v][k]);
        } else {
            assert(after[v][k] == column_terms(lc, variable, constraint)[k - columns[v].len()]);
        }
    }
}

} // verus!
