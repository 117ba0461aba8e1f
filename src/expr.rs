//! Expression nodes, the record they run against, and batches of records.
use vstd::prelude::*;
use crate::kind::{Kind, TypeDef};
use crate::op::{Op, eval_op, op_type_def};
use crate::value::{Val, Value, ValueError, kind_of, outcome};

verus! {

broadcast use {vstd::std_specs::vec::group_vec_axioms, vstd::seq::group_seq_axioms};

/// The record an expression reads and writes: a fixed row of fields.
#[derive(Debug)]
pub struct Target {
    pub fields: Vec<Value>,
}

impl View for Target {
    type V = Seq<Val>;

    open spec fn view(&self) -> Seq<Val> {
        self.fields@.map_values(|v: Value| v@)
    }
}

impl Target {
    pub fn new(fields: Vec<Value>) -> (r: Target)
        ensures
            r.fields == fields,
    {
        Target { fields }
    }
}

/// An expression node.
#[derive(Debug)]
pub enum Expr {
    /// A value known before evaluation.
    Literal(Value),
    /// Reads a field of the record; a field past the end reads as null.
    Field(usize),
    /// Evaluates the expression, stores its value in the field (when the
    /// record has it) and yields the value.
    Assign(usize, Box<Expr>),
    /// A binary operation.
    Op(Op),
}

/// What evaluating `e` against a record yields, with the record afterwards.
pub open spec fn eval(e: Expr, t: Seq<Val>) -> (Result<Val, ValueError>, Seq<Val>)
    decreases e,
{
    match e {
        Expr::Literal(v) => (Ok(v@), t),
        Expr::Field(i) => (
            Ok(
                if i < t.len() {
                    t[i as int]
                } else {
                    Val::Null
                },
            ),
            t,
        ),
        Expr::Assign(i, inner) => {
            let (r, t1) = eval(*inner, t);
            match r {
                Ok(v) => (
                    Ok(v),
                    if i < t1.len() {
                        t1.update(i as int, v)
                    } else {
                        t1
                    },
                ),
                Err(x) => (Err(x), t1),
            }
        },
        Expr::Op(op) => eval_op(op, t),
    }
}

/// The static type of an expression.
pub open spec fn type_def_of(e: Expr) -> TypeDef
    decreases e,
{
    match e {
        Expr::Literal(v) => TypeDef { kind: kind_of(v@), fallible: false },
        Expr::Field(_) => TypeDef {
            kind: Kind {
                null: true,
                boolean: true,
                integer: true,
                float: true,
                bytes: true,
                timestamp: true,
                regex: true,
                object: true,
                array: true,
            },
            fallible: false,
        },
        Expr::Assign(_, inner) => type_def_of(*inner),
        Expr::Op(op) => op_type_def(op),
    }
}

/// A batch of records with one pending result each.
#[derive(Debug)]
pub struct BatchContext {
    pub resolved: Vec<Result<Value, ValueError>>,
    pub targets: Vec<Target>,
}

impl BatchContext {
    pub open spec fn wf(&self) -> bool {
        self.resolved.len() == self.targets.len()
    }

    pub open spec fn size(&self) -> int {
        self.targets.len() as int
    }

    /// The outcome and the record of slot `i`.
    pub open spec fn slot(&self, i: int) -> (Result<Val, ValueError>, Seq<Val>) {
        (outcome(self.resolved@[i]), self.targets@[i]@)
    }

    /// A batch over the records, each result pending as null.
    pub fn new(targets: Vec<Target>) -> (r: BatchContext)
        ensures
            r.wf(),
            r.targets == targets,
            forall|i: int| 0 <= i < r.size() ==> #[trigger] r.resolved@[i] == Ok::<Value, ValueError>(Value::Null),
    {
        let mut resolved: Vec<Result<Value, ValueError>> = Vec::new();
        let mut i: usize = 0;
        while i < targets.len()
            invariant
                i <= targets.len(),
                resolved.len() == i,
                forall|j: int| 0 <= j < i ==> #[trigger] resolved@[j] == Ok::<Value, ValueError>(Value::Null),
            decreases targets.len() - i,
        {
            resolved.push(Ok(Value::Null));
            i += 1;
        }
        BatchContext { resolved, targets }
    }

    pub fn len(&self) -> (r: usize)
        ensures
            r == self.size(),
    {
        self.targets.len()
    }
}

/// `after` holds, slot by slot, what evaluating `e` alone on each record of
/// `before` yields.
pub open spec fn batch_resolved(e: Expr, before: BatchContext, after: BatchContext) -> bool {
    &&& after.wf()
    &&& after.size() == before.size()
    &&& forall|i: int| 0 <= i < before.size() ==> #[trigger] after.slot(i) == eval(e, before.targets@[i]@)
}

impl Expr {
    /// Evaluates the expression against one record.
    pub fn resolve(&self, ctx: &mut Target) -> (r: Result<Value, ValueError>)
        ensures
            (outcome(r), final(ctx)@) == eval(*self, old(ctx)@),
        decreases self,
    {
        match self {
            Expr::Literal(v) => Ok(v.duplicate()),
            Expr::Field(i) => {
                if *i < ctx.fields.len() {
                    Ok(ctx.fields[*i].duplicate())
                } else {
                    Ok(Value::Null)
                }
            },
            Expr::Assign(i, inner) => {
                let r = inner.resolve(ctx);
                match r {
                    Ok(v) => {
                        if *i < ctx.fields.len() {
                            let ghost before = ctx@;
                            let stored = v.duplicate();
                            ctx.fields.set(*i, stored);
                            assert(ctx@ =~= before.update(*i as int, v@));
                        }
                        Ok(v)
                    },
                    Err(x) => Err(x),
                }
            },
            Expr::Op(op) => op.resolve(ctx),
        }
    }

    /// Evaluates the expression against every record of the batch, as if on
    /// each record alone.
    pub fn resolve_batch(&self, ctx: &mut BatchContext)
        requires
            old(ctx).wf(),
        ensures
            batch_resolved(*self, *old(ctx), *final(ctx)),
        decreases self,
    {
        match self {
            Expr::Op(op) => op.resolve_batch(ctx),
            _ => {
                let ghost before = *ctx;
                let mut i: usize = 0;
                while i < ctx.targets.len()
                    invariant
                        ctx.wf(),
                        ctx.size() == before.size(),
                        i <= ctx.size(),
                        forall|j: int| 0 <= j < i ==> #[trigger] ctx.slot(j) == eval(*self, before.targets@[j]@),
                        forall|j: int| i <= j < ctx.size() ==> #[trigger] ctx.targets@[j] == before.targets@[j],
                    decreases ctx.size() - i,
                {
                    let ghost prev = *ctx;
                    let mut t = Target { fields: Vec::new() };
                    ctx.targets.set_and_swap(i, &mut t);
                    let r = self.resolve(&mut t);
                    ctx.targets.set_and_swap(i, &mut t);
                    ctx.resolved.set(i, r);
                    assert forall|j: int| 0 <= j < ctx.size() && j != i implies #[trigger] ctx.slot(j)
                        == prev.slot(j) by {}
                    i += 1;
                }
            },
        }
    }

    /// The static type of the expression.
    pub fn type_def(&self) -> (r: TypeDef)
        ensures
            r == type_def_of(*self),
        decreases self,
    {
        match self {
            Expr::Literal(v) => TypeDef::new(v.kind(), false),
            Expr::Field(_) => TypeDef::new(Kind::any(), false),
            Expr::Assign(_, inner) => inner.type_def(),
            Expr::Op(op) => op.type_def(),
        }
    }

    /// The value of a literal node; none for every other node.
    pub fn as_value(&self) -> (r: Option<&Value>)
        ensures
            match *self {
                Expr::Literal(v) => r == Some(&v),
                _ => r is None,
            },
    {
        match self {
            Expr::Literal(v) => Some(v),
            _ => None,
        }
    }
}

} // verus!
