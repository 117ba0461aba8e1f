//! The binary operator node: construction checks, evaluation of one record
//! and of a batch, and static type inference.
use vstd::prelude::*;
use crate::expr::{BatchContext, Expr, Target, batch_resolved, eval, type_def_of};
use crate::kind::{Kind, TypeDef, kind_none, kind_subset, kind_union};
use crate::value::{
    Val,
    Value,
    ValueError,
    and_value,
    and_values,
    combine,
    combine_values,
    is_falsy,
    outcome,
};

verus! {

broadcast use {vstd::std_specs::vec::group_vec_axioms, vstd::seq::group_seq_axioms};

/// The binary operators.
#[derive(Clone, Copy, Debug, PartialEq, Eq, Structural)]
pub enum Opcode {
    Mul,
    Div,
    Add,
    Sub,
    Rem,
    Or,
    And,
    /// `??`: the left value, or the right one where the left fails.
    Coalesce,
    Ne,
    Eq,
    Ge,
    Gt,
    Le,
    Lt,
    /// `|`: object merge.
    Merge,
}

pub open spec fn is_comparison(opcode: Opcode) -> bool {
    opcode is Eq || opcode is Ne || opcode is Lt || opcode is Le || opcode is Gt || opcode is Ge
}

impl Opcode {
    pub fn is_comparison(&self) -> (r: bool)
        ensures
            r == is_comparison(*self),
    {
        match self {
            Opcode::Eq | Opcode::Ne | Opcode::Lt | Opcode::Le | Opcode::Gt | Opcode::Ge => true,
            _ => false,
        }
    }
}

/// A region of source text, by byte offsets.
#[derive(Clone, Copy, Debug, PartialEq, Eq, Structural)]
pub struct Span {
    pub start: usize,
    pub end: usize,
}

/// A parsed item with the span it came from.
#[derive(Debug)]
pub struct Node<T> {
    pub span: Span,
    pub inner: T,
}

impl<T> Node<T> {
    pub fn new(span: Span, inner: T) -> (r: Node<T>)
        ensures
            r.span == span,
            r.inner == inner,
    {
        Node { span, inner }
    }

    pub fn take(self) -> (r: (Span, T))
        ensures
            r == (self.span, self.inner),
    {
        (self.span, self.inner)
    }
}

/// A binary operation over two owned operands.
#[derive(Debug)]
pub struct Op {
    pub lhs: Box<Expr>,
    pub rhs: Box<Expr>,
    pub opcode: Opcode,
}

/// What evaluating the operation against a record yields, with the record
/// afterwards.
pub open spec fn eval_op(op: Op, t: Seq<Val>) -> (Result<Val, ValueError>, Seq<Val>)
    decreases op,
{
    let (l, t1) = eval(*op.lhs, t);
    match op.opcode {
        Opcode::Coalesce => match l {
            Ok(_) => (l, t1),
            Err(_) => eval(*op.rhs, t1),
        },
        Opcode::Or => match l {
            Err(e) => (Err(e), t1),
            Ok(v) => if is_falsy(v) {
                eval(*op.rhs, t1)
            } else {
                (Ok(v), t1)
            },
        },
        Opcode::And => match l {
            Err(e) => (Err(e), t1),
            Ok(v) => if is_falsy(v) {
                (Ok(Val::Boolean(false)), t1)
            } else {
                let (r, t2) = eval(*op.rhs, t1);
                match r {
                    Err(e) => (Err(e), t2),
                    Ok(w) => (and_values(v, w), t2),
                }
            },
        },
        _ => match l {
            Err(e) => (Err(e), t1),
            Ok(v) => {
                let (r, t2) = eval(*op.rhs, t1);
                match r {
                    Err(e) => (Err(e), t2),
                    Ok(w) => (combine(op.opcode, v, w), t2),
                }
            },
        },
    }
}

pub open spec fn null_or_boolean() -> Kind {
    Kind { null: true, boolean: true, ..kind_none() }
}

pub open spec fn numeric() -> Kind {
    Kind { integer: true, float: true, ..kind_none() }
}

/// `fallible_unless` on a type definition.
pub open spec fn unless(td: TypeDef, allowed: Kind) -> TypeDef {
    TypeDef { kind: td.kind, fallible: td.fallible || !kind_subset(td.kind, allowed) }
}

/// `merge_deep` on two type definitions.
pub open spec fn deep(a: TypeDef, b: TypeDef) -> TypeDef {
    TypeDef { kind: kind_union(a.kind, b.kind), fallible: a.fallible || b.fallible }
}

/// A literal right operand that division or remainder cannot fail on.
pub open spec fn nonzero_literal(e: Expr) -> bool {
    match e {
        Expr::Literal(v) => match v@ {
            Val::Integer(n) => n != 0,
            Val::Float(f) => f != 0,
            _ => false,
        },
        _ => false,
    }
}

/// The static type of `+`, `-` and `*`.
pub open spec fn arith_type(opcode: Opcode, l: TypeDef, r: TypeDef) -> TypeDef {
    let integer = Kind { integer: true, ..kind_none() };
    let float = Kind { float: true, ..kind_none() };
    let bytes = Kind { bytes: true, ..kind_none() };
    let null = Kind { null: true, ..kind_none() };
    if opcode is Add && (l.kind == bytes || r.kind == bytes) {
        TypeDef {
            kind: bytes,
            ..deep(unless(l, kind_union(bytes, null)), unless(r, kind_union(bytes, null)))
        }
    } else if l.kind == float || r.kind == float {
        TypeDef { kind: float, ..deep(unless(l, numeric()), unless(r, numeric())) }
    } else if l.kind == integer && r.kind == integer {
        TypeDef { kind: integer, ..deep(l, r) }
    } else if opcode is Mul && (l.kind == bytes && r.kind == integer || l.kind == integer
        && r.kind == bytes) {
        TypeDef { kind: bytes, ..deep(l, r) }
    } else if opcode is Sub {
        TypeDef { kind: numeric(), fallible: true }
    } else {
        TypeDef { kind: kind_union(bytes, numeric()), fallible: true }
    }
}

/// The static type of an operation, from those of its operands.
pub open spec fn op_type_def(op: Op) -> TypeDef
    decreases op,
{
    let l = type_def_of(*op.lhs);
    let r = type_def_of(*op.rhs);
    let boolean = Kind { boolean: true, ..kind_none() };
    let integer = Kind { integer: true, ..kind_none() };
    let float = Kind { float: true, ..kind_none() };
    let bytes = Kind { bytes: true, ..kind_none() };
    let null = Kind { null: true, ..kind_none() };
    match op.opcode {
        Opcode::Coalesce => if !r.fallible {
            TypeDef { fallible: false, ..deep(l, r) }
        } else {
            deep(l, r)
        },
        Opcode::Or => if l.kind == null {
            r
        } else if !(l.kind.null || l.kind.boolean) {
            l
        } else if l.kind != boolean {
            deep(TypeDef { kind: Kind { null: false, ..l.kind }, ..l }, r)
        } else {
            deep(l, r)
        },
        Opcode::Merge => deep(l, r),
        Opcode::And => if l.kind == null {
            TypeDef { kind: boolean, ..unless(r, null_or_boolean()) }
        } else {
            TypeDef {
                kind: boolean,
                ..deep(unless(l, null_or_boolean()), unless(r, null_or_boolean()))
            }
        },
        Opcode::Eq | Opcode::Ne => TypeDef { kind: boolean, ..deep(l, r) },
        Opcode::Gt | Opcode::Ge | Opcode::Lt | Opcode::Le => if l.kind == bytes && r.kind
            == bytes {
            TypeDef { kind: boolean, ..deep(l, r) }
        } else {
            TypeDef { kind: boolean, ..deep(unless(l, numeric()), unless(r, numeric())) }
        },
        Opcode::Div => TypeDef {
            kind: float,
            fallible: !(nonzero_literal(*op.rhs) && kind_subset(l.kind, numeric())),
        },
        Opcode::Rem => match *op.rhs {
            Expr::Literal(v) => match v@ {
                Val::Float(f) => TypeDef { kind: float, fallible: f == 0 },
                Val::Integer(n) => TypeDef { kind: integer, fallible: n == 0 },
                _ => TypeDef { kind: numeric(), fallible: true },
            },
            _ => TypeDef { kind: numeric(), fallible: true },
        },
        _ => arith_type(op.opcode, l, r),
    }
}

fn arith_type_def(opcode: Opcode, lhs_def: &TypeDef, rhs_def: &TypeDef) -> (r: TypeDef)
    requires
        opcode is Add || opcode is Sub || opcode is Mul,
    ensures
        r == arith_type(opcode, *lhs_def, *rhs_def),
{
    let numbers = Kind::integer().union(&Kind::float());
    let bytes_or_null = Kind::bytes().union(&Kind::null());
    if opcode == Opcode::Add && (lhs_def.kind.is_bytes()
        || rhs_def.kind.is_bytes()) {
        lhs_def.fallible_unless(&bytes_or_null).merge_deep(
            &rhs_def.fallible_unless(&bytes_or_null),
        ).with_kind(Kind::bytes())
    } else if lhs_def.kind.is_float() || rhs_def.kind.is_float() {
        lhs_def.fallible_unless(&numbers).merge_deep(
            &rhs_def.fallible_unless(&numbers),
        ).with_kind(Kind::float())
    } else if lhs_def.kind.is_integer() && rhs_def.kind.is_integer() {
        lhs_def.merge_deep(&rhs_def).with_kind(Kind::integer())
    } else if opcode == Opcode::Mul && (lhs_def.kind.is_bytes()
        && rhs_def.kind.is_integer() || lhs_def.kind.is_integer()
        && rhs_def.kind.is_bytes()) {
        lhs_def.merge_deep(&rhs_def).with_kind(Kind::bytes())
    } else if opcode == Opcode::Sub {
        lhs_def.merge_deep(&rhs_def).fallible().with_kind(numbers)
    } else {
        lhs_def.merge_deep(&rhs_def).fallible().with_kind(
            Kind::bytes().union(&numbers),
        )
    }
}

impl Op {
    /// Evaluates the operation against one record.
    pub fn resolve(&self, ctx: &mut Target) -> (r: Result<Value, ValueError>)
        ensures
            (outcome(r), final(ctx)@) == eval_op(*self, old(ctx)@),
        decreases self,
    {
        match self.opcode {
            Opcode::Coalesce => {
                let l = self.lhs.resolve(ctx);
                return match l {
                    Ok(v) => Ok(v),
                    Err(_) => self.rhs.resolve(ctx),
                };
            },
            Opcode::Or => {
                let l = self.lhs.resolve(ctx);
                return match l {
                    Err(e) => Err(e),
                    Ok(v) => if v.is_falsy() {
                        self.rhs.resolve(ctx)
                    } else {
                        Ok(v)
                    },
                };
            },
            Opcode::And => {
                let l = self.lhs.resolve(ctx);
                return match l {
                    Err(e) => Err(e),
                    Ok(v) => if v.is_falsy() {
                        Ok(Value::Boolean(false))
                    } else {
                        match self.rhs.resolve(ctx) {
                            Err(e) => Err(e),
                            Ok(w) => and_value(&v, &w),
                        }
                    },
                };
            },
            _ => {},
        }
        let l = self.lhs.resolve(ctx);
        let lv = match l {
            Ok(v) => v,
            Err(e) => return Err(e),
        };
        let r = self.rhs.resolve(ctx);
        let rv = match r {
            Ok(v) => v,
            Err(e) => return Err(e),
        };
        combine_values(self.opcode, &lv, &rv)
    }

    /// Evaluates the operation on each record of the batch alone, in place.
    fn resolve_each(&self, ctx: &mut BatchContext)
        requires
            old(ctx).wf(),
        ensures
            batch_resolved(Expr::Op(*self), *old(ctx), *final(ctx)),
    {
        let ghost before = *ctx;
        let mut i: usize = 0;
        while i < ctx.targets.len()
            invariant
                ctx.wf(),
                ctx.size() == before.size(),
                i <= ctx.size(),
                forall|j: int|
                    0 <= j < i ==> #[trigger] ctx.slot(j) == eval(
                        Expr::Op(*self),
                        before.targets@[j]@,
                    ),
                forall|j: int| i <= j < ctx.size() ==> #[trigger] ctx.targets@[j] == before.targets@[j],
            decreases ctx.size() - i,
        {
            let ghost prev = *ctx;
            let mut t = Target { fields: Vec::new() };
            ctx.targets.set_and_swap(i, &mut t);
            let r = self.resolve(&mut t);
            ctx.targets.set_and_swap(i, &mut t);
            ctx.resolved.set(i, r);
            assert forall|j: int| 0 <= j < ctx.size() && j != i implies #[trigger] ctx.slot(j)
                == prev.slot(j) by {}
            i += 1;
        }
    }

    /// Evaluates the operation over a batch, slot by slot as `resolve` would
    /// on each record alone. `??`, `||` and `&&` run record by record; the
    /// other operators evaluate the left operand over the whole batch, the
    /// right one over the records whose left side succeeded, and combine the
    /// records whose right side succeeded too, each result in its own slot.
    pub fn resolve_batch(&self, ctx: &mut BatchContext)
        requires
            old(ctx).wf(),
        ensures
            batch_resolved(Expr::Op(*self), *old(ctx), *final(ctx)),
        decreases self,
    {
        match self.opcode {
            Opcode::Coalesce | Opcode::Or | Opcode::And => {
                self.resolve_each(ctx);
                return ;
            },
            _ => {},
        }
        let ghost before = *ctx;
        assert(!(self.opcode is Coalesce || self.opcode is Or || self.opcode is And));
        self.lhs.resolve_batch(ctx);
        let ghost mid = *ctx;
        let n = ctx.targets.len();
        let mut ok_idx: Vec<usize> = Vec::new();
        let mut lhs_vals: Vec<Value> = Vec::new();
        let mut sub_targets: Vec<Target> = Vec::new();
        let ghost mut slot_of: Seq<int> = Seq::new(n as nat, |j: int| 0int);
        let mut i: usize = 0;
        while i < n
            invariant
                n == mid.size(),
                mid.wf(),
                ctx.wf(),
                ctx.size() == n,
                slot_of.len() == n,
                lhs_vals.len() == ok_idx.len(),
                sub_targets.len() == ok_idx.len(),
                i <= n,
                forall|k: int| 0 <= k < ok_idx.len() ==> #[trigger] ok_idx@[k] < i,
                forall|k: int, k2: int|
                    0 <= k < k2 < ok_idx.len() ==> #[trigger] ok_idx@[k] < #[trigger] ok_idx@[k2],
                forall|k: int|
                    0 <= k < ok_idx.len() ==> #[trigger] mid.slot(ok_idx@[k] as int).0 == Ok::<
                        Val,
                        ValueError,
                    >(lhs_vals@[k]@),
                forall|k: int|
                    0 <= k < ok_idx.len() ==> #[trigger] sub_targets@[k]@ == mid.slot(
                        ok_idx@[k] as int,
                    ).1,
                forall|j: int|
                    0 <= j < n && (i <= j || mid.slot(j).0 is Err) ==> #[trigger] ctx.slot(j)
                        == mid.slot(j),
                forall|j: int|
                    0 <= j < i && mid.slot(j).0 is Ok ==> 0 <= #[trigger] slot_of[j] < ok_idx.len()
                        && ok_idx@[slot_of[j]] == j,
            decreases n - i,
        {
            let ghost prev_idx = ok_idx@;
            let ghost prev_subs = sub_targets@;
            let ghost prev_ctx = *ctx;
            let ghost prev_slot = slot_of;
            assert(ctx.slot(i as int) == mid.slot(i as int));
            if ctx.resolved[i].is_ok() {
                assert(ctx.slot(i as int) == mid.slot(i as int));
                let mut r: Result<Value, ValueError> = Ok(Value::Null);
                ctx.resolved.set_and_swap(i, &mut r);
                let mut t = Target { fields: Vec::new() };
                ctx.targets.set_and_swap(i, &mut t);
                assert(outcome(r) == mid.slot(i as int).0);
                assert(t@ == mid.slot(i as int).1);
                match r {
                    Ok(v) => {
                        lhs_vals.push(v);
                    },
                    Err(_) => {},
                }
                assert(mid.slot(i as int).0 == Ok::<Val, ValueError>(lhs_vals@.last()@));
                proof {
                    slot_of = slot_of.update(i as int, ok_idx.len() as int);
                }
                ok_idx.push(i);
                sub_targets.push(t);
                assert forall|k: int| 0 <= k < ok_idx.len() implies #[trigger] mid.slot(
                    ok_idx@[k] as int,
                ).0 == Ok::<Val, ValueError>(lhs_vals@[k]@) && sub_targets@[k]@ == mid.slot(
                    ok_idx@[k] as int,
                ).1 by {
                    if k < ok_idx.len() - 1 {
                        assert(ok_idx@[k] == prev_idx[k]);
                        assert(sub_targets@[k] == prev_subs[k]);
                    }
                }
            }
            assert forall|j: int| 0 <= j < n && j != i implies #[trigger] ctx.slot(j) == prev_ctx.slot(
                j,
            ) by {}
            assert forall|j: int|
                0 <= j < i + 1 && mid.slot(j).0 is Ok implies 0 <= #[trigger] slot_of[j]
                < ok_idx.len() && ok_idx@[slot_of[j]] == j by {
                if j < i {
                    assert(slot_of[j] == prev_slot[j]);
                    assert(ok_idx@[slot_of[j]] == prev_idx[slot_of[j]]);
                }
            }
            i += 1;
        }
        let mut sub = BatchContext::new(sub_targets);
        let ghost sub_before = sub;
        self.rhs.resolve_batch(&mut sub);
        let ghost sub_after = sub;
        let m = ok_idx.len();
        let mut k: usize = 0;
        while k < m
            invariant
                n == mid.size(),
                mid.wf(),
                ctx.wf(),
                ctx.size() == n,
                m == ok_idx.len(),
                lhs_vals.len() == m,
                sub.wf(),
                sub.size() == m,
                sub_after.size() == m,
                sub_before.size() == m,
                k <= m,
                !(self.opcode is Coalesce || self.opcode is Or || self.opcode is And),
                forall|k1: int| 0 <= k1 < m ==> #[trigger] ok_idx@[k1] < n,
                forall|k1: int, k2: int|
                    0 <= k1 < k2 < m ==> #[trigger] ok_idx@[k1] < #[trigger] ok_idx@[k2],
                forall|k1: int|
                    0 <= k1 < m ==> #[trigger] mid.slot(ok_idx@[k1] as int).0 == Ok::<
                        Val,
                        ValueError,
                    >(lhs_vals@[k1]@),
                forall|k1: int|
                    0 <= k1 < m ==> #[trigger] sub_before.targets@[k1]@ == mid.slot(
                        ok_idx@[k1] as int,
                    ).1,
                forall|k1: int|
                    0 <= k1 < m ==> #[trigger] sub_after.slot(k1) == eval(
                        *self.rhs,
                        sub_before.targets@[k1]@,
                    ),
                forall|k1: int| k <= k1 < m ==> #[trigger] sub.slot(k1) == sub_after.slot(k1),
                forall|j: int|
                    0 <= j < n && mid.slot(j).0 is Err ==> #[trigger] ctx.slot(j) == mid.slot(j),
                forall|k1: int|
                    0 <= k1 < k ==> #[trigger] ctx.slot(ok_idx@[k1] as int) == eval_op(
                        *self,
                        before.targets@[ok_idx@[k1] as int]@,
                    ),
                forall|j: int|
                    0 <= j < n ==> #[trigger] mid.slot(j) == eval(*self.lhs, before.targets@[j]@),
            decreases m - k,
        {
            let ghost prev_sub = sub;
            let ghost prev_ctx = *ctx;
            assert(prev_sub.slot(k as int) == sub_after.slot(k as int));
            let mut r: Result<Value, ValueError> = Ok(Value::Null);
            sub.resolved.set_and_swap(k, &mut r);
            let mut t = Target { fields: Vec::new() };
            sub.targets.set_and_swap(k, &mut t);
            let j = ok_idx[k];
            proof {
                let t0 = before.targets@[j as int]@;
                assert(mid.slot(j as int) == eval(*self.lhs, t0));
                assert((outcome(r), t@) == sub_after.slot(k as int));
                assert(sub_after.slot(k as int) == eval(*self.rhs, mid.slot(j as int).1));
            }
            let res = match r {
                Ok(rv) => combine_values(self.opcode, &lhs_vals[k], &rv),
                Err(e) => Err(e),
            };
            ctx.resolved.set(j, res);
            ctx.targets.set_and_swap(j, &mut t);
            proof {
                assert(mid.slot(ok_idx@[k as int] as int).0 == Ok::<Val, ValueError>(
                    lhs_vals@[k as int]@,
                ));
                assert(!(self.opcode is Coalesce || self.opcode is Or || self.opcode is And));
                assert(ctx.slot(j as int) == eval_op(*self, before.targets@[j as int]@));
            }
            assert forall|k1: int| k < k1 < m implies #[trigger] sub.slot(k1) == prev_sub.slot(k1) by {}
            assert forall|j1: int| 0 <= j1 < n && j1 != j implies #[trigger] ctx.slot(j1)
                == prev_ctx.slot(j1) by {}
            assert forall|k1: int| 0 <= k1 < k + 1 implies #[trigger] ctx.slot(ok_idx@[k1] as int)
                == eval_op(*self, before.targets@[ok_idx@[k1] as int]@) by {
                if k1 < k {
                    assert(ok_idx@[k1] < ok_idx@[k as int]);
                    assert(ctx.slot(ok_idx@[k1] as int) == prev_ctx.slot(ok_idx@[k1] as int));
                }
            }
            k += 1;
        }
        assert forall|j: int| 0 <= j < before.size() implies #[trigger] ctx.slot(j) == eval(
            Expr::Op(*self),
            before.targets@[j]@,
        ) by {
            assert(eval(Expr::Op(*self), before.targets@[j]@) == eval_op(
                *self,
                before.targets@[j]@,
            ));
            if mid.slot(j).0 is Ok {
                assert(ok_idx@[slot_of[j]] == j);
                assert(ctx.slot(ok_idx@[slot_of[j]] as int) == eval_op(
                    *self,
                    before.targets@[ok_idx@[slot_of[j]] as int]@,
                ));
            }
        }
    }

    /// The static type of the operation.
    pub fn type_def(&self) -> (r: TypeDef)
        ensures
            r == op_type_def(*self),
        decreases self,
    {
        let lhs_def = self.lhs.type_def();
        let rhs_def = self.rhs.type_def();
        let null_or_bool = Kind::null().union(&Kind::boolean());
        let numbers = Kind::integer().union(&Kind::float());
        match self.opcode {
            Opcode::Coalesce => if rhs_def.is_infallible() {
                lhs_def.merge_deep(&rhs_def).infallible()
            } else {
                lhs_def.merge_deep(&rhs_def)
            },
            Opcode::Or => if lhs_def.kind.is_null() {
                rhs_def
            } else if !(lhs_def.kind.null || lhs_def.kind.boolean) {
                lhs_def
            } else if !lhs_def.kind.is_boolean() {
                lhs_def.remove_null().merge_deep(&rhs_def)
            } else {
                lhs_def.merge_deep(&rhs_def)
            },
            Opcode::Merge => lhs_def.merge_overwrite(&rhs_def),
            Opcode::And => if lhs_def.kind.is_null() {
                rhs_def.fallible_unless(&null_or_bool).with_kind(Kind::boolean())
            } else {
                lhs_def.fallible_unless(&null_or_bool).merge_deep(
                    &rhs_def.fallible_unless(&null_or_bool),
                ).with_kind(Kind::boolean())
            },
            Opcode::Eq | Opcode::Ne => lhs_def.merge_deep(&rhs_def).with_kind(Kind::boolean()),
            Opcode::Gt | Opcode::Ge | Opcode::Lt | Opcode::Le => if lhs_def.kind.is_bytes()
                && rhs_def.kind.is_bytes() {
                lhs_def.merge_deep(&rhs_def).with_kind(Kind::boolean())
            } else {
                lhs_def.fallible_unless(&numbers).merge_deep(
                    &rhs_def.fallible_unless(&numbers),
                ).with_kind(Kind::boolean())
            },
            Opcode::Div => {
                let literal_ok = match self.rhs.as_value() {
                    Some(Value::Integer(n)) => *n != 0,
                    Some(Value::Float(f)) => *f != 0,
                    _ => false,
                };
                TypeDef::new(Kind::float(), !(literal_ok && lhs_def.kind.is_subset(&numbers)))
            },
            Opcode::Rem => match self.rhs.as_value() {
                Some(Value::Float(f)) => TypeDef::new(Kind::float(), *f == 0),
                Some(Value::Integer(n)) => TypeDef::new(Kind::integer(), *n == 0),
                _ => TypeDef::new(numbers, true),
            },
            _ => arith_type_def(self.opcode, &lhs_def, &rhs_def),
        }
    }
}

/// A source label of a diagnostic.
#[derive(Debug, PartialEq)]
pub struct Label {
    pub message: String,
    pub span: Span,
    /// The primary label marks where the problem is; the others give context.
    pub primary: bool,
}

/// A note closing a diagnostic.
#[derive(Debug, PartialEq)]
pub enum Note {
    /// A topic of the language reference, and where to read it.
    SeeDocs(String, String),
}

/// The diagnostic of an operand's own error, carried unchanged.
#[derive(Debug, PartialEq)]
pub struct Diagnostic {
    pub code: usize,
    pub message: String,
    pub labels: Vec<Label>,
    pub notes: Vec<Note>,
}

/// Why a binary operation could not be built.
#[derive(Debug, PartialEq)]
#[allow(inconsistent_fields)]
pub enum Error {
    /// A comparison whose left operand is itself a comparison; the span is
    /// that of the inner comparison.
    ChainedComparison { span: Span },
    /// `??` after an operand that cannot fail.
    UnnecessaryCoalesce { lhs_span: Span, rhs_span: Span, op_span: Span },
    /// `|` on an operand that is not an object; a span for each such side.
    MergeNonObjects { lhs_span: Option<Span>, rhs_span: Option<Span> },
    /// An error of an operand.
    Expr(Diagnostic),
}

pub open spec fn object_kind() -> Kind {
    Kind { object: true, ..kind_none() }
}

/// The construction error of `lhs opcode rhs`, if any: chained comparisons
/// first, then a needless `??`, then a merge of non-objects.
pub open spec fn construction_error(lhs: Node<Expr>, opcode: Node<Opcode>, rhs: Node<Expr>) -> Option<
    Error,
> {
    let l = type_def_of(lhs.inner);
    let r = type_def_of(rhs.inner);
    if is_comparison(opcode.inner) && (lhs.inner is Op && is_comparison(lhs.inner->Op_0.opcode)) {
        Some(Error::ChainedComparison { span: lhs.span })
    } else if opcode.inner is Coalesce && !l.fallible {
        Some(Error::UnnecessaryCoalesce { lhs_span: lhs.span, rhs_span: rhs.span, op_span: opcode.span })
    } else if opcode.inner is Merge && !(l.kind == object_kind() && r.kind == object_kind()) {
        Some(
            Error::MergeNonObjects {
                lhs_span: if l.kind == object_kind() {
                    None
                } else {
                    Some(lhs.span)
                },
                rhs_span: if r.kind == object_kind() {
                    None
                } else {
                    Some(rhs.span)
                },
            },
        )
    } else {
        None
    }
}

pub open spec fn error_code(e: Error) -> usize {
    match e {
        Error::ChainedComparison { .. } => 650,
        Error::UnnecessaryCoalesce { .. } => 651,
        Error::MergeNonObjects { .. } => 652,
        Error::Expr(d) => d.code,
    }
}

pub open spec fn error_message(e: Error) -> Seq<char> {
    match e {
        Error::ChainedComparison { .. } => "comparison operators can't be chained together"@,
        Error::UnnecessaryCoalesce { .. } => "unnecessary error coalescing operation"@,
        Error::MergeNonObjects { .. } => "only objects can be merged"@,
        Error::Expr(d) => d.message@,
    }
}

pub open spec fn label_is(l: Label, message: Seq<char>, span: Span, primary: bool) -> bool {
    l.message@ == message && l.span == span && l.primary == primary
}

pub open spec fn object_label() -> Seq<char> {
    "this expression must resolve to an object"@
}

fn label(message: &str, span: Span, primary: bool) -> (r: Label)
    ensures
        label_is(r, message@, span, primary),
{
    Label { message: message.to_owned(), span, primary }
}

fn copy_label(l: &Label) -> (r: Label)
    ensures
        r == *l,
{
    Label { message: l.message.clone(), span: l.span, primary: l.primary }
}

fn copy_note(n: &Note) -> (r: Note)
    ensures
        r == *n,
{
    match n {
        Note::SeeDocs(topic, url) => Note::SeeDocs(topic.clone(), url.clone()),
    }
}

impl Error {
    /// The stable code of the diagnostic.
    pub fn code(&self) -> (r: usize)
        ensures
            r == error_code(*self),
    {
        match self {
            Error::ChainedComparison { .. } => 650,
            Error::UnnecessaryCoalesce { .. } => 651,
            Error::MergeNonObjects { .. } => 652,
            Error::Expr(d) => d.code,
        }
    }

    /// The short message of the diagnostic.
    pub fn message(&self) -> (r: String)
        ensures
            r@ == error_message(*self),
    {
        match self {
            Error::ChainedComparison { .. } => "comparison operators can't be chained together".to_owned(),
            Error::UnnecessaryCoalesce { .. } => "unnecessary error coalescing operation".to_owned(),
            Error::MergeNonObjects { .. } => "only objects can be merged".to_owned(),
            Error::Expr(d) => d.message.clone(),
        }
    }

    /// The source labels of the diagnostic.
    pub fn labels(&self) -> (r: Vec<Label>)
        ensures
            match *self {
                Error::ChainedComparison { span } => r@.len() == 1 && label_is(
                    r@[0],
                    ""@,
                    span,
                    true,
                ),
                Error::UnnecessaryCoalesce { lhs_span, rhs_span, op_span } => {
                    &&& r@.len() == 3
                    &&& label_is(r@[0], "this expression can't fail"@, lhs_span, true)
                    &&& label_is(r@[1], "this expression never resolves"@, rhs_span, false)
                    &&& label_is(r@[2], "remove this error coalescing operation"@, op_span, false)
                },
                Error::MergeNonObjects { lhs_span, rhs_span } => {
                    let spans = match (lhs_span, rhs_span) {
                        (Some(a), Some(b)) => seq![a, b],
                        (Some(a), None) => seq![a],
                        (None, Some(b)) => seq![b],
                        (None, None) => Seq::empty(),
                    };
                    &&& r@.len() == spans.len()
                    &&& forall|i: int|
                        0 <= i < spans.len() ==> label_is(
                            #[trigger] r@[i],
                            object_label(),
                            spans[i],
                            true,
                        )
                },
                Error::Expr(d) => r@ == d.labels@,
            },
    {
        match self {
            Error::ChainedComparison { span } => vec![label("", *span, true)],
            Error::UnnecessaryCoalesce { lhs_span, rhs_span, op_span } => vec![
                label("this expression can't fail", *lhs_span, true),
                label("this expression never resolves", *rhs_span, false),
                label("remove this error coalescing operation", *op_span, false),
            ],
            Error::MergeNonObjects { lhs_span, rhs_span } => {
                let mut labels: Vec<Label> = Vec::new();
                match lhs_span {
                    Some(s) => labels.push(label("this expression must resolve to an object", *s, true)),
                    None => {},
                }
                match rhs_span {
                    Some(s) => labels.push(label("this expression must resolve to an object", *s, true)),
                    None => {},
                }
                labels
            },
            Error::Expr(d) => {
                let mut labels: Vec<Label> = Vec::new();
                let mut i: usize = 0;
                while i < d.labels.len()
                    invariant
                        i <= d.labels.len(),
                        labels@ == d.labels@.take(i as int),
                    decreases d.labels.len() - i,
                {
                    labels.push(copy_label(&d.labels[i]));
                    i += 1;
                    assert(labels@ =~= d.labels@.take(i as int));
                }
                assert(d.labels@.take(d.labels.len() as int) =~= d.labels@);
                labels
            },
        }
    }

    /// The notes of the diagnostic.
    pub fn notes(&self) -> (r: Vec<Note>)
        ensures
            match *self {
                Error::ChainedComparison { .. } => r@.len() == 1 && (r@[0] matches Note::SeeDocs(
                    topic,
                    url,
                ) && topic@ == "comparisons"@ && url@
                    == "https://vector.dev/docs/reference/vrl/expressions/#comparison"@),
                Error::Expr(d) => r@ == d.notes@,
                _ => r@.len() == 0,
            },
    {
        match self {
            Error::ChainedComparison { .. } => vec![
                Note::SeeDocs(
                    "comparisons".to_owned(),
                    "https://vector.dev/docs/reference/vrl/expressions/#comparison".to_owned(),
                ),
            ],
            Error::Expr(d) => {
                let mut notes: Vec<Note> = Vec::new();
                let mut i: usize = 0;
                while i < d.notes.len()
                    invariant
                        i <= d.notes.len(),
                        notes@ == d.notes@.take(i as int),
                    decreases d.notes.len() - i,
                {
                    notes.push(copy_note(&d.notes[i]));
                    i += 1;
                    assert(notes@ =~= d.notes@.take(i as int));
                }
                assert(d.notes@.take(d.notes.len() as int) =~= d.notes@);
                notes
            },
            _ => Vec::new(),
        }
    }
}

impl Op {
    /// Builds `lhs opcode rhs`, refusing a chained comparison, a `??` whose
    /// left side cannot fail, and a merge of operands that are not objects.
    pub fn new(lhs: Node<Expr>, opcode: Node<Opcode>, rhs: Node<Expr>) -> (r: Result<Op, Error>)
        ensures
            match r {
                Ok(op) => {
                    &&& construction_error(lhs, opcode, rhs) is None
                    &&& op.opcode == opcode.inner
                    &&& *op.lhs == lhs.inner
                    &&& *op.rhs == rhs.inner
                },
                Err(e) => construction_error(lhs, opcode, rhs) == Some(e),
            },
    {
        let (op_span, opcode) = opcode.take();
        let (lhs_span, lhs) = lhs.take();
        let (rhs_span, rhs) = rhs.take();
        let lhs_def = lhs.type_def();
        if opcode.is_comparison() {
            match &lhs {
                Expr::Op(inner) => {
                    if inner.opcode.is_comparison() {
                        return Err(Error::ChainedComparison { span: lhs_span });
                    }
                },
                _ => {},
            }
        }
        if opcode == Opcode::Coalesce && lhs_def.is_infallible() {
            return Err(Error::UnnecessaryCoalesce { lhs_span, rhs_span, op_span });
        }
        if opcode == Opcode::Merge {
            let lhs_object = lhs_def.kind.is_object();
            let rhs_object = rhs.type_def().kind.is_object();
            if !(lhs_object && rhs_object) {
                return Err(
                    Error::MergeNonObjects {
                        lhs_span: if lhs_object {
                            None
                        } else {
                            Some(lhs_span)
                        },
                        rhs_span: if rhs_object {
                            None
                        } else {
                            Some(rhs_span)
                        },
                    },
                );
            }
        }
        Ok(Op { lhs: Box::new(lhs), rhs: Box::new(rhs), opcode })
    }
}

} // verus!
