//! The dynamic value model and the combinators that binary operators apply.
//!
//! Floats are modelled exactly as fixed-point numbers: `Float(n)` stands for
//! `n / FLOAT_SCALE`. Float arithmetic saturates at the bounds of `i64`;
//! integer arithmetic wraps.
use vstd::prelude::*;
use crate::kind::{Kind, kind_none};
use crate::op::Opcode;

verus! {

broadcast use {vstd::std_specs::vec::group_vec_axioms, vstd::seq::group_seq_axioms};

/// Units of a fixed-point float per whole number.
pub const FLOAT_SCALE: i64 = 1_000_000;

/// Longest byte string that a repetition may build.
pub const MAX_REPEAT_LEN: usize = 0x4000_0000;

/// A dynamic value. An object is an ordered list of key/value entries.
#[derive(Debug, PartialEq)]
pub enum Value {
    Null,
    Boolean(bool),
    Integer(i64),
    Float(i64),
    Bytes(Vec<u8>),
    Timestamp(i64),
    Object(Vec<(Vec<u8>, Value)>),
}

/// The mathematical content of a `Value`.
pub enum Val {
    Null,
    Boolean(bool),
    Integer(i64),
    Float(i64),
    Bytes(Seq<u8>),
    Timestamp(i64),
    Object(Seq<(Seq<u8>, Val)>),
}

/// The content of a value, entry by entry.
pub open spec fn value_view(v: Value) -> Val
    decreases v,
{
    match v {
        Value::Null => Val::Null,
        Value::Boolean(b) => Val::Boolean(b),
        Value::Integer(n) => Val::Integer(n),
        Value::Float(n) => Val::Float(n),
        Value::Bytes(b) => Val::Bytes(b@),
        Value::Timestamp(t) => Val::Timestamp(t),
        Value::Object(es) => Val::Object(
            Seq::new(
                es@.len(),
                |i: int|
                    if 0 <= i < es@.len() {
                        (es@[i].0@, value_view(es@[i].1))
                    } else {
                        (Seq::empty(), Val::Null)
                    },
            ),
        ),
    }
}

impl View for Value {
    type V = Val;

    open spec fn view(&self) -> Val {
        value_view(*self)
    }
}

/// A runtime failure of a value combinator.
#[derive(Clone, Copy, Debug, PartialEq, Eq, Structural)]
pub enum ValueError {
    /// The operator is not defined on values of these kinds.
    Unsupported { opcode: Opcode, lhs: Kind, rhs: Kind },
    DivideByZero,
    RemainderByZero,
    /// A repeated byte string would exceed `MAX_REPEAT_LEN`.
    TooLarge,
}

pub open spec fn kind_of(v: Val) -> Kind {
    match v {
        Val::Null => Kind { null: true, ..kind_none() },
        Val::Boolean(_) => Kind { boolean: true, ..kind_none() },
        Val::Integer(_) => Kind { integer: true, ..kind_none() },
        Val::Float(_) => Kind { float: true, ..kind_none() },
        Val::Bytes(_) => Kind { bytes: true, ..kind_none() },
        Val::Timestamp(_) => Kind { timestamp: true, ..kind_none() },
        Val::Object(_) => Kind { object: true, ..kind_none() },
    }
}

/// The view of an evaluation outcome.
pub open spec fn outcome(r: Result<Value, ValueError>) -> Result<Val, ValueError> {
    match r {
        Ok(v) => Ok(v@),
        Err(e) => Err(e),
    }
}

/// Null and `false` are the values that `&&` and `||` treat as false.
pub open spec fn is_falsy(v: Val) -> bool {
    v is Null || v == Val::Boolean(false)
}

pub open spec fn is_numeric(v: Val) -> bool {
    v is Integer || v is Float
}

/// Clamps to the range of `i64`.
pub open spec fn saturate(x: int) -> i64 {
    if x > i64::MAX {
        i64::MAX
    } else if x < i64::MIN {
        i64::MIN
    } else {
        x as i64
    }
}

pub open spec fn abs(x: int) -> nat {
    if x < 0 {
        (-x) as nat
    } else {
        x as nat
    }
}

/// Division rounding toward zero.
pub open spec fn trunc_div(a: int, b: int) -> int {
    let q = abs(a) / abs(b);
    if (a < 0) != (b < 0) {
        -q
    } else {
        q as int
    }
}

/// Remainder with the sign of the dividend.
pub open spec fn trunc_rem(a: int, b: int) -> int {
    let m = abs(a) % abs(b);
    if a < 0 {
        -m
    } else {
        m as int
    }
}

/// A numeric value as fixed-point units.
pub open spec fn fixed(v: Val) -> i64 {
    match v {
        Val::Integer(n) => saturate(n * FLOAT_SCALE),
        Val::Float(f) => f,
        _ => 0,
    }
}

/// `n` copies of `s`, one after another.
pub open spec fn repeat(s: Seq<u8>, n: nat) -> Seq<u8>
    decreases n,
{
    if n == 0 {
        Seq::empty()
    } else {
        repeat(s, (n - 1) as nat) + s
    }
}

/// `s` repeated `n` times (none for `n <= 0`), unless that is too long.
pub open spec fn repeat_bytes(s: Seq<u8>, n: i64) -> Result<Val, ValueError> {
    if n <= 0 {
        Ok(Val::Bytes(Seq::empty()))
    } else if s.len() * n > MAX_REPEAT_LEN {
        Err(ValueError::TooLarge)
    } else {
        Ok(Val::Bytes(repeat(s, n as nat)))
    }
}

/// Lexicographic comparison of byte strings: -1, 0 or 1.
pub open spec fn bytes_cmp(a: Seq<u8>, b: Seq<u8>) -> int
    decreases a.len(),
{
    if a.len() == 0 {
        if b.len() == 0 {
            0
        } else {
            -1
        }
    } else if b.len() == 0 {
        1
    } else if a[0] < b[0] {
        -1
    } else if a[0] > b[0] {
        1
    } else {
        bytes_cmp(a.drop_first(), b.drop_first())
    }
}

/// The key occurs among the entries.
pub open spec fn has_key(es: Seq<(Seq<u8>, Val)>, k: Seq<u8>) -> bool {
    exists|j: int| 0 <= j < es.len() && #[trigger] es[j].0 == k
}

/// The entries of `l` whose key `r` does not hold, in order.
pub open spec fn kept_entries(l: Seq<(Seq<u8>, Val)>, r: Seq<(Seq<u8>, Val)>) -> Seq<
    (Seq<u8>, Val),
>
    decreases l.len(),
{
    if l.len() == 0 {
        Seq::empty()
    } else {
        let rest = kept_entries(l.drop_last(), r);
        if has_key(r, l.last().0) {
            rest
        } else {
            rest.push(l.last())
        }
    }
}

/// `l | r` on objects: the right side's entries win on shared keys.
pub open spec fn merge_entries(l: Seq<(Seq<u8>, Val)>, r: Seq<(Seq<u8>, Val)>) -> Seq<
    (Seq<u8>, Val),
> {
    kept_entries(l, r) + r
}

/// Loose equality: integers and floats compare by number, all else by content.
pub open spec fn loose_eq(l: Val, r: Val) -> bool {
    if is_numeric(l) && is_numeric(r) && (l is Float || r is Float) {
        fixed(l) == fixed(r)
    } else {
        l == r
    }
}

/// The ordering of two values, where an ordered comparison is defined on them.
pub open spec fn ordering(l: Val, r: Val) -> Option<int> {
    match (l, r) {
        (Val::Integer(a), Val::Integer(b)) => Some(
            if a < b {
                -1
            } else if a > b {
                1
            } else {
                0
            },
        ),
        (Val::Bytes(a), Val::Bytes(b)) => Some(bytes_cmp(a, b)),
        _ => if is_numeric(l) && is_numeric(r) {
            let (a, b) = (fixed(l), fixed(r));
            Some(
                if a < b {
                    -1
                } else if a > b {
                    1
                } else {
                    0
                },
            )
        } else {
            None
        },
    }
}

pub open spec fn unsupported(opcode: Opcode, l: Val, r: Val) -> ValueError {
    ValueError::Unsupported { opcode, lhs: kind_of(l), rhs: kind_of(r) }
}

/// What `opcode` yields on two resolved operands, for the operators that
/// evaluate both sides unconditionally.
pub open spec fn combine(opcode: Opcode, l: Val, r: Val) -> Result<Val, ValueError> {
    match opcode {
        Opcode::Add => match (l, r) {
            (Val::Integer(a), Val::Integer(b)) => Ok(Val::Integer(a.wrapping_add(b))),
            (Val::Bytes(a), Val::Bytes(b)) => Ok(Val::Bytes(a + b)),
            (Val::Bytes(a), Val::Null) => Ok(Val::Bytes(a)),
            (Val::Null, Val::Bytes(b)) => Ok(Val::Bytes(b)),
            _ => if is_numeric(l) && is_numeric(r) {
                Ok(Val::Float(saturate(fixed(l) + fixed(r))))
            } else {
                Err(unsupported(opcode, l, r))
            },
        },
        Opcode::Sub => match (l, r) {
            (Val::Integer(a), Val::Integer(b)) => Ok(Val::Integer(a.wrapping_sub(b))),
            _ => if is_numeric(l) && is_numeric(r) {
                Ok(Val::Float(saturate(fixed(l) - fixed(r))))
            } else {
                Err(unsupported(opcode, l, r))
            },
        },
        Opcode::Mul => match (l, r) {
            (Val::Integer(a), Val::Integer(b)) => Ok(Val::Integer(a.wrapping_mul(b))),
            (Val::Bytes(a), Val::Integer(n)) => repeat_bytes(a, n),
            (Val::Integer(n), Val::Bytes(a)) => repeat_bytes(a, n),
            _ => if is_numeric(l) && is_numeric(r) {
                Ok(Val::Float(saturate(trunc_div(fixed(l) * fixed(r), FLOAT_SCALE as int))))
            } else {
                Err(unsupported(opcode, l, r))
            },
        },
        Opcode::Div => if is_numeric(l) && is_numeric(r) {
            if fixed(r) == 0 {
                Err(ValueError::DivideByZero)
            } else {
                Ok(Val::Float(saturate(trunc_div(fixed(l) * FLOAT_SCALE, fixed(r) as int))))
            }
        } else {
            Err(unsupported(opcode, l, r))
        },
        Opcode::Rem => match (l, r) {
            (Val::Integer(a), Val::Integer(b)) => if b == 0 {
                Err(ValueError::RemainderByZero)
            } else {
                Ok(Val::Integer(trunc_rem(a as int, b as int) as i64))
            },
            _ => if is_numeric(l) && is_numeric(r) {
                if fixed(r) == 0 {
                    Err(ValueError::RemainderByZero)
                } else {
                    Ok(Val::Float(trunc_rem(fixed(l) as int, fixed(r) as int) as i64))
                }
            } else {
                Err(unsupported(opcode, l, r))
            },
        },
        Opcode::Eq => Ok(Val::Boolean(loose_eq(l, r))),
        Opcode::Ne => Ok(Val::Boolean(!loose_eq(l, r))),
        Opcode::Gt => match ordering(l, r) {
            Some(c) => Ok(Val::Boolean(c > 0)),
            None => Err(unsupported(opcode, l, r)),
        },
        Opcode::Ge => match ordering(l, r) {
            Some(c) => Ok(Val::Boolean(c >= 0)),
            None => Err(unsupported(opcode, l, r)),
        },
        Opcode::Lt => match ordering(l, r) {
            Some(c) => Ok(Val::Boolean(c < 0)),
            None => Err(unsupported(opcode, l, r)),
        },
        Opcode::Le => match ordering(l, r) {
            Some(c) => Ok(Val::Boolean(c <= 0)),
            None => Err(unsupported(opcode, l, r)),
        },
        Opcode::Merge => match (l, r) {
            (Val::Object(a), Val::Object(b)) => Ok(Val::Object(merge_entries(a, b))),
            _ => Err(unsupported(opcode, l, r)),
        },
        _ => Err(unsupported(opcode, l, r)),
    }
}

/// `l && r` once `l` is known to be neither null nor false.
pub open spec fn and_values(l: Val, r: Val) -> Result<Val, ValueError> {
    match (l, r) {
        (Val::Boolean(a), Val::Null) => Ok(Val::Boolean(false)),
        (Val::Boolean(a), Val::Boolean(b)) => Ok(Val::Boolean(a && b)),
        _ => Err(unsupported(Opcode::And, l, r)),
    }
}


/// The views of a list of object entries.
pub open spec fn entries_of(es: Seq<(Vec<u8>, Value)>) -> Seq<(Seq<u8>, Val)> {
    Seq::new(es.len(), |i: int| (es[i].0@, es[i].1@))
}

pub proof fn lemma_object_view(es: Vec<(Vec<u8>, Value)>)
    ensures
        Value::Object(es)@ == Val::Object(entries_of(es@)),
{
    let v = Value::Object(es);
    assert(v@ is Object);
    assert(v@->Object_0.len() == es@.len());
    assert(forall|i: int| 0 <= i < es@.len() ==> v@->Object_0[i] == entries_of(es@)[i]);
    assert(v@->Object_0 =~= entries_of(es@));
}

pub fn copy_bytes(b: &Vec<u8>) -> (r: Vec<u8>)
    ensures
        r@ == b@,
{
    let mut out: Vec<u8> = Vec::new();
    let mut i: usize = 0;
    while i < b.len()
        invariant
            i <= b.len(),
            out@ == b@.take(i as int),
        decreases b.len() - i,
    {
        out.push(b[i]);
        i += 1;
        assert(out@ =~= b@.take(i as int));
    }
    assert(b@.take(b.len() as int) =~= b@);
    out
}

pub fn bytes_eq(a: &Vec<u8>, b: &Vec<u8>) -> (r: bool)
    ensures
        r == (a@ == b@),
{
    if a.len() != b.len() {
        return false;
    }
    let mut i: usize = 0;
    while i < a.len()
        invariant
            i <= a.len(),
            a.len() == b.len(),
            forall|j: int| 0 <= j < i ==> a@[j] == b@[j],
        decreases a.len() - i,
    {
        if a[i] != b[i] {
            return false;
        }
        i += 1;
    }
    assert(a@ =~= b@);
    true
}

/// Lexicographic comparison of two byte strings.
pub fn compare_bytes(a: &Vec<u8>, b: &Vec<u8>) -> (r: i8)
    ensures
        r as int == bytes_cmp(a@, b@),
{
    let mut i: usize = 0;
    assert(a@.skip(0) =~= a@);
    assert(b@.skip(0) =~= b@);
    while i < a.len() && i < b.len() && a[i] == b[i]
        invariant
            i <= a.len(),
            i <= b.len(),
            bytes_cmp(a@, b@) == bytes_cmp(a@.skip(i as int), b@.skip(i as int)),
        decreases a.len() - i,
    {
        assert(a@.skip(i as int).drop_first() =~= a@.skip(i + 1));
        assert(b@.skip(i as int).drop_first() =~= b@.skip(i + 1));
        i += 1;
    }
    if i == a.len() {
        if i == b.len() {
            0
        } else {
            -1
        }
    } else if i == b.len() {
        1
    } else if a[i] < b[i] {
        -1
    } else {
        1
    }
}

pub fn saturate_wide(x: i128) -> (r: i64)
    ensures
        r == saturate(x as int),
{
    if x > i64::MAX as i128 {
        i64::MAX
    } else if x < i64::MIN as i128 {
        i64::MIN
    } else {
        x as i64
    }
}

pub fn magnitude(x: i128) -> (r: u128)
    requires
        x > i128::MIN,
    ensures
        r as int == abs(x as int),
{
    if x < 0 {
        (-x) as u128
    } else {
        x as u128
    }
}

pub fn trunc_div_wide(a: i128, b: i128) -> (r: i128)
    requires
        b != 0,
        -0x4000_0000_0000_0000_0000_0000_0000_0000 <= a <= 0x4000_0000_0000_0000_0000_0000_0000_0000,
        -0x4000_0000_0000_0000_0000_0000_0000_0000 <= b <= 0x4000_0000_0000_0000_0000_0000_0000_0000,
    ensures
        r as int == trunc_div(a as int, b as int),
{
    let ua = magnitude(a);
    let ub = magnitude(b);
    let q = ua / ub;
    assert(q <= ua) by (nonlinear_arith)
        requires
            ub >= 1,
            q == ua / ub,
    ;
    if (a < 0) != (b < 0) {
        -(q as i128)
    } else {
        q as i128
    }
}

pub fn trunc_rem_wide(a: i128, b: i128) -> (r: i128)
    requires
        b != 0,
        -0x4000_0000_0000_0000_0000_0000_0000_0000 <= a <= 0x4000_0000_0000_0000_0000_0000_0000_0000,
        -0x4000_0000_0000_0000_0000_0000_0000_0000 <= b <= 0x4000_0000_0000_0000_0000_0000_0000_0000,
    ensures
        r as int == trunc_rem(a as int, b as int),
        abs(r as int) < abs(b as int),
{
    let ua = magnitude(a);
    let ub = magnitude(b);
    let m = ua % ub;
    if a < 0 {
        -(m as i128)
    } else {
        m as i128
    }
}

impl Value {
    pub fn kind(&self) -> (r: Kind)
        ensures
            r == kind_of(self@),
    {
        match self {
            Value::Null => Kind::null(),
            Value::Boolean(_) => Kind::boolean(),
            Value::Integer(_) => Kind::integer(),
            Value::Float(_) => Kind::float(),
            Value::Bytes(_) => Kind::bytes(),
            Value::Timestamp(_) => Kind::timestamp(),
            Value::Object(_) => Kind::object(),
        }
    }

    /// A copy with the same content.
    pub fn duplicate(&self) -> (r: Value)
        ensures
            r@ == self@,
        decreases self,
    {
        match self {
            Value::Null => Value::Null,
            Value::Boolean(b) => Value::Boolean(*b),
            Value::Integer(n) => Value::Integer(*n),
            Value::Float(n) => Value::Float(*n),
            Value::Bytes(b) => Value::Bytes(copy_bytes(b)),
            Value::Timestamp(t) => Value::Timestamp(*t),
            Value::Object(es) => {
                let mut out: Vec<(Vec<u8>, Value)> = Vec::new();
                let mut i: usize = 0;
                while i < es.len()
                    invariant
                        i <= es.len(),
                        *self == Value::Object(*es),
                        out.len() == i,
                        entries_of(out@) == entries_of(es@).take(i as int),
                    decreases es.len() - i,
                {
                    proof {
                        assert(decreases_to!(*self => self->Object_0));
                        assert(self->Object_0 == *es);
                        assert(decreases_to!(*es => es@));
                        assert(decreases_to!(es@ => es@[i as int]));
                        assert(decreases_to!(es@[i as int] => es@[i as int].1));
                    }
                    let k = copy_bytes(&es[i].0);
                    let v = es[i].1.duplicate();
                    out.push((k, v));
                    i += 1;
                    assert(entries_of(out@) =~= entries_of(es@).take(i as int));
                }
                assert(entries_of(es@).take(es.len() as int) =~= entries_of(es@));
                proof {
                    lemma_object_view(out);
                    lemma_object_view(*es);
                }
                Value::Object(out)
            },
        }
    }

    /// The two values have the same content.
    pub fn same(&self, other: &Value) -> (r: bool)
        ensures
            r == (self@ == other@),
        decreases self,
    {
        match (self, other) {
            (Value::Null, Value::Null) => true,
            (Value::Boolean(a), Value::Boolean(b)) => *a == *b,
            (Value::Integer(a), Value::Integer(b)) => *a == *b,
            (Value::Float(a), Value::Float(b)) => *a == *b,
            (Value::Bytes(a), Value::Bytes(b)) => bytes_eq(a, b),
            (Value::Timestamp(a), Value::Timestamp(b)) => *a == *b,
            (Value::Object(a), Value::Object(b)) => {
                proof {
                    lemma_object_view(*a);
                    lemma_object_view(*b);
                }
                if a.len() != b.len() {
                    assert(entries_of(a@).len() != entries_of(b@).len());
                    return false;
                }
                let mut i: usize = 0;
                while i < a.len()
                    invariant
                        i <= a.len(),
                        a.len() == b.len(),
                        *self == Value::Object(*a),
                        self@ == Val::Object(entries_of(a@)),
                        other@ == Val::Object(entries_of(b@)),
                        entries_of(a@).take(i as int) == entries_of(b@).take(i as int),
                    decreases a.len() - i,
                {
                    proof {
                        assert(decreases_to!(*self => *a));
                        assert(decreases_to!(*a => a@));
                        assert(decreases_to!(a@ => a@[i as int]));
                        assert(decreases_to!(a@[i as int] => a@[i as int].1));
                    }
                    let ek = bytes_eq(&a[i].0, &b[i].0);
                    if !ek {
                        assert(entries_of(a@)[i as int] != entries_of(b@)[i as int]);
                        return false;
                    }
                    let ev = a[i].1.same(&b[i].1);
                    if !ev {
                        assert(entries_of(a@)[i as int] != entries_of(b@)[i as int]);
                        return false;
                    }
                    assert(entries_of(a@)[i as int] == entries_of(b@)[i as int]);
                    assert(entries_of(a@).take(i + 1) =~= entries_of(a@).take(i as int).push(
                        entries_of(a@)[i as int],
                    ));
                    assert(entries_of(b@).take(i + 1) =~= entries_of(b@).take(i as int).push(
                        entries_of(b@)[i as int],
                    ));
                    i += 1;
                }
                assert(entries_of(a@).take(a.len() as int) =~= entries_of(a@));
                assert(entries_of(b@).take(b.len() as int) =~= entries_of(b@));
                true
            },
            _ => false,
        }
    }

    pub fn is_falsy(&self) -> (r: bool)
        ensures
            r == is_falsy(self@),
    {
        match self {
            Value::Null => true,
            Value::Boolean(b) => !*b,
            _ => false,
        }
    }

    pub fn is_numeric(&self) -> (r: bool)
        ensures
            r == is_numeric(self@),
    {
        match self {
            Value::Integer(_) | Value::Float(_) => true,
            _ => false,
        }
    }

    /// A numeric value as fixed-point units.
    pub fn fixed(&self) -> (r: i64)
        ensures
            r == fixed(self@),
    {
        match self {
            Value::Integer(n) => saturate_wide(*n as i128 * FLOAT_SCALE as i128),
            Value::Float(f) => *f,
            _ => 0,
        }
    }
}

fn unsupported_error(opcode: Opcode, l: &Value, r: &Value) -> (e: ValueError)
    ensures
        e == unsupported(opcode, l@, r@),
{
    ValueError::Unsupported { opcode, lhs: l.kind(), rhs: r.kind() }
}

fn sign_of(a: i64, b: i64) -> (r: i8)
    ensures
        r == (if a < b {
            -1int
        } else if a > b {
            1int
        } else {
            0int
        }),
{
    if a < b {
        -1
    } else if a > b {
        1
    } else {
        0
    }
}

/// The ordering of two values, where an ordered comparison is defined on them.
pub fn ordering_of(l: &Value, r: &Value) -> (res: Option<i8>)
    ensures
        match res {
            Some(c) => ordering(l@, r@) == Some(c as int),
            None => ordering(l@, r@) is None,
        },
{
    match (l, r) {
        (Value::Integer(a), Value::Integer(b)) => Some(sign_of(*a, *b)),
        (Value::Bytes(a), Value::Bytes(b)) => Some(compare_bytes(a, b)),
        _ => if l.is_numeric() && r.is_numeric() {
            Some(sign_of(l.fixed(), r.fixed()))
        } else {
            None
        },
    }
}

/// `s` repeated `n` times, refused past `MAX_REPEAT_LEN` bytes.
pub fn repeat_value(s: &Vec<u8>, n: i64) -> (res: Result<Value, ValueError>)
    ensures
        outcome(res) == repeat_bytes(s@, n),
{
    if n <= 0 {
        return Ok(Value::Bytes(Vec::new()));
    }
    let len = s.len() as u128;
    let count = n as u128;
    assert(len * count <= 0xffff_ffff_ffff_ffff * 0xffff_ffff_ffff_ffff) by (nonlinear_arith)
        requires
            len <= 0xffff_ffff_ffff_ffff,
            count <= 0xffff_ffff_ffff_ffff,
    ;
    if len * count > MAX_REPEAT_LEN as u128 {
        return Err(ValueError::TooLarge);
    }
    let mut out: Vec<u8> = Vec::new();
    let mut k: i64 = 0;
    while k < n
        invariant
            0 <= k <= n,
            s.len() * n <= MAX_REPEAT_LEN,
            out@ == repeat(s@, k as nat),
            out.len() == s.len() * k,
        decreases n - k,
    {
        let mut j: usize = 0;
        let ghost before = out@;
        while j < s.len()
            invariant
                j <= s.len(),
                before == repeat(s@, k as nat),
                out@ == before + s@.take(j as int),
            decreases s.len() - j,
        {
            out.push(s[j]);
            j += 1;
            assert(out@ =~= before + s@.take(j as int));
        }
        assert(s@.take(s.len() as int) =~= s@);
        assert(s.len() * (k + 1) <= s.len() * n && s.len() * (k + 1) == s.len() * k + s.len())
            by (nonlinear_arith)
            requires
                k + 1 <= n,
        ;
        k += 1;
    }
    Ok(Value::Bytes(out))
}

/// The key occurs among the entries.
fn find_key(es: &Vec<(Vec<u8>, Value)>, key: &Vec<u8>) -> (r: bool)
    ensures
        r == has_key(entries_of(es@), key@),
{
    let mut j: usize = 0;
    while j < es.len()
        invariant
            j <= es.len(),
            forall|m: int| 0 <= m < j ==> #[trigger] entries_of(es@)[m].0 != key@,
        decreases es.len() - j,
    {
        if bytes_eq(&es[j].0, key) {
            assert(entries_of(es@)[j as int].0 == key@);
            return true;
        }
        j += 1;
    }
    false
}

/// `l | r` on two objects.
pub fn merge_objects(l: &Vec<(Vec<u8>, Value)>, r: &Vec<(Vec<u8>, Value)>) -> (res: Value)
    ensures
        res@ == Val::Object(merge_entries(entries_of(l@), entries_of(r@))),
{
    let ghost le = entries_of(l@);
    let ghost re = entries_of(r@);
    let mut out: Vec<(Vec<u8>, Value)> = Vec::new();
    let mut i: usize = 0;
    while i < l.len()
        invariant
            i <= l.len(),
            le == entries_of(l@),
            re == entries_of(r@),
            entries_of(out@) == kept_entries(le.take(i as int), re),
        decreases l.len() - i,
    {
        let present = find_key(r, &l[i].0);
        assert(le.take(i + 1).drop_last() =~= le.take(i as int));
        if !present {
            let k = copy_bytes(&l[i].0);
            let v = l[i].1.duplicate();
            out.push((k, v));
            assert(entries_of(out@) =~= kept_entries(le.take(i as int), re).push(le[i as int]));
        }
        i += 1;
    }
    assert(le.take(l.len() as int) =~= le);
    let ghost kept = entries_of(out@);
    let mut j: usize = 0;
    while j < r.len()
        invariant
            j <= r.len(),
            re == entries_of(r@),
            out.len() == kept.len() + j,
            entries_of(out@) == kept + re.take(j as int),
        decreases r.len() - j,
    {
        let k = copy_bytes(&r[j].0);
        let v = r[j].1.duplicate();
        let ghost prev = out@;
        out.push((k, v));
        assert(entries_of(out@) =~= entries_of(prev).push(re[j as int]));
        assert(re.take(j + 1) =~= re.take(j as int).push(re[j as int]));
        j += 1;
        assert(entries_of(out@) =~= kept + re.take(j as int));
    }
    assert(re.take(r.len() as int) =~= re);
    proof {
        lemma_object_view(out);
    }
    Value::Object(out)
}

fn concat_bytes(a: &Vec<u8>, b: &Vec<u8>) -> (r: Vec<u8>)
    ensures
        r@ == a@ + b@,
{
    let mut out = copy_bytes(a);
    let mut j: usize = 0;
    while j < b.len()
        invariant
            j <= b.len(),
            out@ == a@ + b@.take(j as int),
        decreases b.len() - j,
    {
        out.push(b[j]);
        j += 1;
        assert(out@ =~= a@ + b@.take(j as int));
    }
    assert(b@.take(b.len() as int) =~= b@);
    out
}

/// The combinator of `opcode` on two resolved operands.
pub fn combine_values(opcode: Opcode, l: &Value, r: &Value) -> (res: Result<Value, ValueError>)
    ensures
        outcome(res) == combine(opcode, l@, r@),
{
    match opcode {
        Opcode::Add => match (l, r) {
            (Value::Integer(a), Value::Integer(b)) => Ok(Value::Integer(a.wrapping_add(*b))),
            (Value::Bytes(a), Value::Bytes(b)) => Ok(Value::Bytes(concat_bytes(a, b))),
            (Value::Bytes(a), Value::Null) => Ok(Value::Bytes(copy_bytes(a))),
            (Value::Null, Value::Bytes(b)) => Ok(Value::Bytes(copy_bytes(b))),
            _ => if l.is_numeric() && r.is_numeric() {
                Ok(Value::Float(saturate_wide(l.fixed() as i128 + r.fixed() as i128)))
            } else {
                Err(unsupported_error(opcode, l, r))
            },
        },
        Opcode::Sub => match (l, r) {
            (Value::Integer(a), Value::Integer(b)) => Ok(Value::Integer(a.wrapping_sub(*b))),
            _ => if l.is_numeric() && r.is_numeric() {
                Ok(Value::Float(saturate_wide(l.fixed() as i128 - r.fixed() as i128)))
            } else {
                Err(unsupported_error(opcode, l, r))
            },
        },
        Opcode::Mul => match (l, r) {
            (Value::Integer(a), Value::Integer(b)) => Ok(Value::Integer(a.wrapping_mul(*b))),
            (Value::Bytes(a), Value::Integer(n)) => repeat_value(a, *n),
            (Value::Integer(n), Value::Bytes(a)) => repeat_value(a, *n),
            _ => if l.is_numeric() && r.is_numeric() {
                let x = l.fixed() as i128;
                let y = r.fixed() as i128;
                assert(-0x4000_0000_0000_0000_0000_0000_0000_0000 <= x * y
                    <= 0x4000_0000_0000_0000_0000_0000_0000_0000) by (nonlinear_arith)
                    requires
                        i64::MIN <= x <= i64::MAX,
                        i64::MIN <= y <= i64::MAX,
                ;
                Ok(Value::Float(saturate_wide(trunc_div_wide(x * y, FLOAT_SCALE as i128))))
            } else {
                Err(unsupported_error(opcode, l, r))
            },
        },
        Opcode::Div => if l.is_numeric() && r.is_numeric() {
            let y = r.fixed();
            if y == 0 {
                Err(ValueError::DivideByZero)
            } else {
                let x = l.fixed() as i128;
                Ok(
                    Value::Float(
                        saturate_wide(trunc_div_wide(x * FLOAT_SCALE as i128, y as i128)),
                    ),
                )
            }
        } else {
            Err(unsupported_error(opcode, l, r))
        },
        Opcode::Rem => match (l, r) {
            (Value::Integer(a), Value::Integer(b)) => if *b == 0 {
                Err(ValueError::RemainderByZero)
            } else {
                let m = trunc_rem_wide(*a as i128, *b as i128);
                Ok(Value::Integer(m as i64))
            },
            _ => if l.is_numeric() && r.is_numeric() {
                let y = r.fixed();
                if y == 0 {
                    Err(ValueError::RemainderByZero)
                } else {
                    let m = trunc_rem_wide(l.fixed() as i128, y as i128);
                    Ok(Value::Float(m as i64))
                }
            } else {
                Err(unsupported_error(opcode, l, r))
            },
        },
        Opcode::Eq => Ok(Value::Boolean(loose_equal(l, r))),
        Opcode::Ne => Ok(Value::Boolean(!loose_equal(l, r))),
        Opcode::Gt | Opcode::Ge | Opcode::Lt | Opcode::Le => match ordering_of(l, r) {
            Some(c) => Ok(
                Value::Boolean(
                    match opcode {
                        Opcode::Gt => c > 0,
                        Opcode::Ge => c >= 0,
                        Opcode::Lt => c < 0,
                        _ => c <= 0,
                    },
                ),
            ),
            None => Err(unsupported_error(opcode, l, r)),
        },
        Opcode::Merge => match (l, r) {
            (Value::Object(a), Value::Object(b)) => {
                proof {
                    lemma_object_view(*a);
                    lemma_object_view(*b);
                }
                Ok(merge_objects(a, b))
            },
            _ => Err(unsupported_error(opcode, l, r)),
        },
        _ => Err(unsupported_error(opcode, l, r)),
    }
}

/// Loose equality of two values.
pub fn loose_equal(l: &Value, r: &Value) -> (res: bool)
    ensures
        res == loose_eq(l@, r@),
{
    match (l, r) {
        (Value::Integer(_), Value::Float(_)) | (Value::Float(_), Value::Integer(_)) | (
            Value::Float(_),
            Value::Float(_),
        ) => l.fixed() == r.fixed(),
        _ => l.same(r),
    }
}

/// `l && r` once `l` is known to be neither null nor false.
pub fn and_value(l: &Value, r: &Value) -> (res: Result<Value, ValueError>)
    ensures
        outcome(res) == and_values(l@, r@),
{
    match (l, r) {
        (Value::Boolean(_), Value::Null) => Ok(Value::Boolean(false)),
        (Value::Boolean(a), Value::Boolean(b)) => Ok(Value::Boolean(*a && *b)),
        _ => Err(unsupported_error(Opcode::And, l, r)),
    }
}

} // verus!
