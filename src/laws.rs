//! Laws of the binary operators, proved from their definitions.
use vstd::prelude::*;
use crate::expr::{BatchContext, Expr, batch_resolved, eval, type_def_of};
use crate::kind::{Kind, kind_none, kind_subset};
use crate::op::{Op, Opcode, eval_op, numeric, op_type_def};
use crate::value::{Val, Value, is_falsy};

verus! {

/// A batch made of copies of one record resolves every slot alike, to what
/// evaluating the record alone yields.
pub proof fn lemma_batch_of_copies(e: Expr, before: BatchContext, after: BatchContext, t: Seq<Val>)
    requires
        before.wf(),
        forall|i: int| 0 <= i < before.size() ==> #[trigger] before.targets@[i]@ == t,
        batch_resolved(e, before, after),
    ensures
        forall|i: int| 0 <= i < after.size() ==> #[trigger] after.slot(i) == eval(e, t),
        forall|i: int, j: int|
            0 <= i < after.size() && 0 <= j < after.size() ==> #[trigger] after.slot(i)
                == #[trigger] after.slot(j),
{
    assert forall|i: int| 0 <= i < after.size() implies #[trigger] after.slot(i) == eval(e, t) by {
        assert(before.targets@[i]@ == t);
    }
}

/// `lhs ?? rhs` yields what `lhs` yields once `lhs` succeeds, whatever
/// `rhs` is: the right side is not evaluated.
pub proof fn lemma_coalesce_skips_rhs(lhs: Expr, rhs: Expr, t: Seq<Val>)
    requires
        eval(lhs, t).0 is Ok,
    ensures
        eval_op(Op { lhs: Box::new(lhs), rhs: Box::new(rhs), opcode: Opcode::Coalesce }, t) == eval(
            lhs,
            t,
        ),
{
}

/// `lhs && rhs` is false once `lhs` yields null or false, whatever `rhs` is:
/// the right side is not evaluated.
pub proof fn lemma_and_skips_rhs(lhs: Expr, rhs: Expr, t: Seq<Val>)
    requires
        eval(lhs, t).0 matches Ok(v) && is_falsy(v),
    ensures
        eval_op(Op { lhs: Box::new(lhs), rhs: Box::new(rhs), opcode: Opcode::And }, t) == (
        Ok::<Val, crate::value::ValueError>(Val::Boolean(false)),
        eval(lhs, t).1,
        ),
{
}

/// `lhs || rhs` yields the value of `lhs` when it is neither null nor false,
/// whatever `rhs` is: the right side is not evaluated.
pub proof fn lemma_or_skips_rhs(lhs: Expr, rhs: Expr, t: Seq<Val>)
    requires
        eval(lhs, t).0 matches Ok(v) && !is_falsy(v),
    ensures
        eval_op(Op { lhs: Box::new(lhs), rhs: Box::new(rhs), opcode: Opcode::Or }, t) == eval(
            lhs,
            t,
        ),
{
}

/// Division by a nonzero literal of a numeric left side cannot fail; by a
/// zero literal it can.
pub proof fn lemma_div_by_literal(lhs: Expr, divisor: Value)
    requires
        divisor@ is Integer || divisor@ is Float,
    ensures
        ({
            let td = op_type_def(
                Op { lhs: Box::new(lhs), rhs: Box::new(Expr::Literal(divisor)), opcode: Opcode::Div },
            );
            &&& td.kind == Kind { float: true, ..kind_none() }
            &&& (divisor@ != Val::Integer(0) && divisor@ != Val::Float(0) && kind_subset(
                type_def_of(lhs).kind,
                numeric(),
            )) ==> !td.fallible
            &&& (divisor@ == Val::Integer(0) || divisor@ == Val::Float(0)) ==> td.fallible
        }),
{
}

/// The remainder by a nonzero integer literal is an integer and cannot
/// fail; by a zero integer literal it is an integer and can fail.
pub proof fn lemma_rem_by_integer_literal(lhs: Expr, divisor: Value)
    requires
        divisor@ is Integer,
    ensures
        ({
            let td = op_type_def(
                Op { lhs: Box::new(lhs), rhs: Box::new(Expr::Literal(divisor)), opcode: Opcode::Rem },
            );
            &&& td.kind == Kind { integer: true, ..kind_none() }
            &&& td.fallible == (divisor@ == Val::Integer(0))
        }),
{
}

/// The result of a slot depends on its own record alone: two batches that
/// hold the same record at a position resolve that position alike, whatever
/// the other records are and whichever of them fail.
pub proof fn lemma_batch_slots_independent(
    e: Expr,
    before1: BatchContext,
    after1: BatchContext,
    before2: BatchContext,
    after2: BatchContext,
    i: int,
)
    requires
        before1.wf(),
        before2.wf(),
        batch_resolved(e, before1, after1),
        batch_resolved(e, before2, after2),
        0 <= i < before1.size(),
        0 <= i < before2.size(),
        before1.targets@[i]@ == before2.targets@[i]@,
    ensures
        after1.slot(i) == after2.slot(i),
{
}

} // verus!
