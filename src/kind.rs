//! Kinds of values and static type definitions.
use vstd::prelude::*;

verus! {

/// A set of value kinds: one flag per category of the value model.
#[derive(Clone, Copy, Debug, PartialEq, Eq, Structural)]
pub struct Kind {
    pub null: bool,
    pub boolean: bool,
    pub integer: bool,
    pub float: bool,
    pub bytes: bool,
    pub timestamp: bool,
    pub regex: bool,
    pub object: bool,
    pub array: bool,
}

/// The empty kind set.
pub open spec fn kind_none() -> Kind {
    Kind {
        null: false,
        boolean: false,
        integer: false,
        float: false,
        bytes: false,
        timestamp: false,
        regex: false,
        object: false,
        array: false,
    }
}

/// Union of two kind sets.
pub open spec fn kind_union(a: Kind, b: Kind) -> Kind {
    Kind {
        null: a.null || b.null,
        boolean: a.boolean || b.boolean,
        integer: a.integer || b.integer,
        float: a.float || b.float,
        bytes: a.bytes || b.bytes,
        timestamp: a.timestamp || b.timestamp,
        regex: a.regex || b.regex,
        object: a.object || b.object,
        array: a.array || b.array,
    }
}

/// Every kind of `a` is a kind of `b`.
pub open spec fn kind_subset(a: Kind, b: Kind) -> bool {
    &&& a.null ==> b.null
    &&& a.boolean ==> b.boolean
    &&& a.integer ==> b.integer
    &&& a.float ==> b.float
    &&& a.bytes ==> b.bytes
    &&& a.timestamp ==> b.timestamp
    &&& a.regex ==> b.regex
    &&& a.object ==> b.object
    &&& a.array ==> b.array
}

impl Kind {
    pub fn never() -> (r: Kind)
        ensures
            r == kind_none(),
    {
        Kind {
            null: false,
            boolean: false,
            integer: false,
            float: false,
            bytes: false,
            timestamp: false,
            regex: false,
            object: false,
            array: false,
        }
    }

    /// Every kind of the value model.
    pub fn any() -> (r: Kind)
        ensures
            r == (Kind {
                null: true,
                boolean: true,
                integer: true,
                float: true,
                bytes: true,
                timestamp: true,
                regex: true,
                object: true,
                array: true,
            }),
    {
        Kind {
            null: true,
            boolean: true,
            integer: true,
            float: true,
            bytes: true,
            timestamp: true,
            regex: true,
            object: true,
            array: true,
        }
    }

    pub fn null() -> (r: Kind)
        ensures
            r == (Kind { null: true, ..kind_none() }),
    {
        Kind { null: true, ..Kind::never() }
    }

    pub fn boolean() -> (r: Kind)
        ensures
            r == (Kind { boolean: true, ..kind_none() }),
    {
        Kind { boolean: true, ..Kind::never() }
    }

    pub fn integer() -> (r: Kind)
        ensures
            r == (Kind { integer: true, ..kind_none() }),
    {
        Kind { integer: true, ..Kind::never() }
    }

    pub fn float() -> (r: Kind)
        ensures
            r == (Kind { float: true, ..kind_none() }),
    {
        Kind { float: true, ..Kind::never() }
    }

    pub fn bytes() -> (r: Kind)
        ensures
            r == (Kind { bytes: true, ..kind_none() }),
    {
        Kind { bytes: true, ..Kind::never() }
    }

    pub fn timestamp() -> (r: Kind)
        ensures
            r == (Kind { timestamp: true, ..kind_none() }),
    {
        Kind { timestamp: true, ..Kind::never() }
    }

    pub fn object() -> (r: Kind)
        ensures
            r == (Kind { object: true, ..kind_none() }),
    {
        Kind { object: true, ..Kind::never() }
    }

    pub fn union(&self, other: &Kind) -> (r: Kind)
        ensures
            r == kind_union(*self, *other),
    {
        Kind {
            null: self.null || other.null,
            boolean: self.boolean || other.boolean,
            integer: self.integer || other.integer,
            float: self.float || other.float,
            bytes: self.bytes || other.bytes,
            timestamp: self.timestamp || other.timestamp,
            regex: self.regex || other.regex,
            object: self.object || other.object,
            array: self.array || other.array,
        }
    }

    pub fn is_subset(&self, other: &Kind) -> (r: bool)
        ensures
            r == kind_subset(*self, *other),
    {
        (!self.null || other.null) && (!self.boolean || other.boolean) && (!self.integer
            || other.integer) && (!self.float || other.float) && (!self.bytes || other.bytes) && (
        !self.timestamp || other.timestamp) && (!self.regex || other.regex) && (!self.object
            || other.object) && (!self.array || other.array)
    }

    /// The set is exactly `{Null}`.
    pub fn is_null(&self) -> (r: bool)
        ensures
            r == (*self == Kind { null: true, ..kind_none() }),
    {
        *self == Kind::null()
    }

    /// The set is exactly `{Boolean}`.
    pub fn is_boolean(&self) -> (r: bool)
        ensures
            r == (*self == Kind { boolean: true, ..kind_none() }),
    {
        *self == Kind::boolean()
    }

    /// The set is exactly `{Integer}`.
    pub fn is_integer(&self) -> (r: bool)
        ensures
            r == (*self == Kind { integer: true, ..kind_none() }),
    {
        *self == Kind::integer()
    }

    /// The set is exactly `{Float}`.
    pub fn is_float(&self) -> (r: bool)
        ensures
            r == (*self == Kind { float: true, ..kind_none() }),
    {
        *self == Kind::float()
    }

    /// The set is exactly `{Bytes}`.
    pub fn is_bytes(&self) -> (r: bool)
        ensures
            r == (*self == Kind { bytes: true, ..kind_none() }),
    {
        *self == Kind::bytes()
    }

    /// The set is exactly `{Object}`.
    pub fn is_object(&self) -> (r: bool)
        ensures
            r == (*self == Kind { object: true, ..kind_none() }),
    {
        *self == Kind::object()
    }
}

/// What static checking knows of an expression: the kinds it may resolve to,
/// and whether it may fail instead.
#[derive(Clone, Copy, Debug, PartialEq, Eq, Structural)]
pub struct TypeDef {
    pub kind: Kind,
    pub fallible: bool,
}

impl TypeDef {
    pub fn new(kind: Kind, fallible: bool) -> (r: TypeDef)
        ensures
            r == (TypeDef { kind, fallible }),
    {
        TypeDef { kind, fallible }
    }

    pub fn is_infallible(&self) -> (r: bool)
        ensures
            r == !self.fallible,
    {
        !self.fallible
    }

    /// Union of the kinds; fallible when either side is.
    pub fn merge_deep(&self, other: &TypeDef) -> (r: TypeDef)
        ensures
            r == (TypeDef {
                kind: kind_union(self.kind, other.kind),
                fallible: self.fallible || other.fallible,
            }),
    {
        TypeDef { kind: self.kind.union(&other.kind), fallible: self.fallible || other.fallible }
    }

    /// The definition of `lhs | rhs` over two objects: with kinds that carry no
    /// inner shape, the right side's kinds join the left's.
    pub fn merge_overwrite(&self, other: &TypeDef) -> (r: TypeDef)
        ensures
            r == (TypeDef {
                kind: kind_union(self.kind, other.kind),
                fallible: self.fallible || other.fallible,
            }),
    {
        self.merge_deep(other)
    }

    /// Fallible, unless every kind of this definition is in `allowed`.
    pub fn fallible_unless(&self, allowed: &Kind) -> (r: TypeDef)
        ensures
            r == (TypeDef {
                kind: self.kind,
                fallible: self.fallible || !kind_subset(self.kind, *allowed),
            }),
    {
        TypeDef { kind: self.kind, fallible: self.fallible || !self.kind.is_subset(allowed) }
    }

    pub fn with_kind(&self, kind: Kind) -> (r: TypeDef)
        ensures
            r == (TypeDef { kind, fallible: self.fallible }),
    {
        TypeDef { kind, fallible: self.fallible }
    }

    pub fn remove_null(&self) -> (r: TypeDef)
        ensures
            r == (TypeDef { kind: Kind { null: false, ..self.kind }, fallible: self.fallible }),
    {
        TypeDef { kind: Kind { null: false, ..self.kind }, fallible: self.fallible }
    }

    pub fn infallible(&self) -> (r: TypeDef)
        ensures
            r == (TypeDef { kind: self.kind, fallible: false }),
    {
        TypeDef { kind: self.kind, fallible: false }
    }

    pub fn fallible(&self) -> (r: TypeDef)
        ensures
            r == (TypeDef { kind: self.kind, fallible: true }),
    {
        TypeDef { kind: self.kind, fallible: true }
    }
}

} // verus!
