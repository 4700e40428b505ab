//! A tagged value container: a value of one of a closed set of concrete
//! types, together with the tag that says which. Recovering a typed view is
//! a match on the tag, so a view of the wrong type is never produced.

use vstd::prelude::*;

verus! {

/// The runtime type tag of an erased value.
#[derive(Debug, Clone, Copy, PartialEq, Eq, Structural)]
pub enum ValueKind {
    Bool,
    U32,
    U64,
    I32,
    I64,
    Usize,
    Text,
}

/// The name under which a kind is reported in errors.
pub open spec fn kind_name_spec(k: ValueKind) -> Seq<char> {
    match k {
        ValueKind::Bool => "bool"@,
        ValueKind::U32 => "u32"@,
        ValueKind::U64 => "u64"@,
        ValueKind::I32 => "i32"@,
        ValueKind::I64 => "i64"@,
        ValueKind::Usize => "usize"@,
        ValueKind::Text => "String"@,
    }
}

impl ValueKind {
    /// The type name of this kind, as used in `TypeMismatch` errors.
    pub fn name(&self) -> (r: String)
        ensures
            r@ == kind_name_spec(*self),
    {
        match self {
            ValueKind::Bool => "bool".to_owned(),
            ValueKind::U32 => "u32".to_owned(),
            ValueKind::U64 => "u64".to_owned(),
            ValueKind::I32 => "i32".to_owned(),
            ValueKind::I64 => "i64".to_owned(),
            ValueKind::Usize => "usize".to_owned(),
            ValueKind::Text => "String".to_owned(),
        }
    }
}

/// An erased value: the payload and, implicitly, its runtime type tag.
#[derive(Debug, Clone, PartialEq, Eq)]
pub enum Value {
    Bool(bool),
    U32(u32),
    U64(u64),
    I32(i32),
    I64(i64),
    Usize(usize),
    Text(String),
}

impl Value {
    /// The runtime type tag of the value.
    pub open spec fn kind_spec(&self) -> ValueKind {
        match self {
            Value::Bool(_) => ValueKind::Bool,
            Value::U32(_) => ValueKind::U32,
            Value::U64(_) => ValueKind::U64,
            Value::I32(_) => ValueKind::I32,
            Value::I64(_) => ValueKind::I64,
            Value::Usize(_) => ValueKind::Usize,
            Value::Text(_) => ValueKind::Text,
        }
    }

    /// The runtime type tag of the value.
    pub fn kind(&self) -> (k: ValueKind)
        ensures
            k == self.kind_spec(),
    {
        match self {
            Value::Bool(_) => ValueKind::Bool,
            Value::U32(_) => ValueKind::U32,
            Value::U64(_) => ValueKind::U64,
            Value::I32(_) => ValueKind::I32,
            Value::I64(_) => ValueKind::I64,
            Value::Usize(_) => ValueKind::Usize,
            Value::Text(_) => ValueKind::Text,
        }
    }
}

/// A concrete type that an erased `Value` can hold.
pub trait Erasable: Sized {
    /// The tag of this type.
    spec fn kind_spec() -> ValueKind;

    /// The erased form of a value of this type.
    spec fn erase_spec(self) -> Value;

    /// Erasing keeps the tag of the type.
    proof fn lemma_erase_kind(x: Self)
        ensures
            x.erase_spec().kind_spec() == Self::kind_spec(),
    ;

    /// Distinct values erase to distinct values.
    proof fn lemma_erase_injective(x: Self, y: Self)
        ensures
            x.erase_spec() == y.erase_spec() ==> x == y,
    ;

    /// The tag of this type.
    fn kind() -> (k: ValueKind)
        ensures
            k == Self::kind_spec(),
    ;

    /// Wraps a value of this type.
    fn erase(self) -> (v: Value)
        ensures
            v == self.erase_spec(),
    ;

    /// A view of the payload, present exactly when the tag is this type's.
    fn view_in(v: &Value) -> (r: Option<&Self>)
        ensures
            r.is_some() == (v.kind_spec() == Self::kind_spec()),
            r.is_some() ==> r.unwrap().erase_spec() == *v,
    ;

    /// A mutable view of the payload, present exactly when the tag is this
    /// type's.
    fn view_in_mut(v: &mut Value) -> (r: Option<&mut Self>)
        ensures
            r.is_some() == (old(v).kind_spec() == Self::kind_spec()),
            r.is_some() ==> (*r.unwrap()).erase_spec() == *old(v),
            r is None ==> *final(v) == *old(v),
            r is Some ==> *final(v) == (*final(r.unwrap())).erase_spec(),
    ;

    /// The payload taken out, present exactly when the tag is this type's.
    fn take_from(v: Value) -> (r: Option<Self>)
        ensures
            r.is_some() == (v.kind_spec() == Self::kind_spec()),
            r.is_some() ==> r.unwrap().erase_spec() == v,
    ;
}

impl Erasable for u32 {
    open spec fn kind_spec() -> ValueKind {
        ValueKind::U32
    }

    open spec fn erase_spec(self) -> Value {
        Value::U32(self)
    }

    proof fn lemma_erase_kind(x: Self) {
    }

    proof fn lemma_erase_injective(x: Self, y: Self) {
    }

    fn kind() -> (k: ValueKind) {
        ValueKind::U32
    }

    fn erase(self) -> (v: Value) {
        Value::U32(self)
    }

    fn view_in(v: &Value) -> (r: Option<&Self>) {
        match v {
            Value::U32(x) => Some(x),
            _ => None,
        }
    }

    fn view_in_mut(v: &mut Value) -> (r: Option<&mut Self>) {
        match v {
            Value::U32(x) => Some(x),
            _ => None,
        }
    }

    fn take_from(v: Value) -> (r: Option<Self>) {
        match v {
            Value::U32(x) => Some(x),
            _ => None,
        }
    }
}

impl Erasable for bool {
    open spec fn kind_spec() -> ValueKind {
        ValueKind::Bool
    }

    open spec fn erase_spec(self) -> Value {
        Value::Bool(self)
    }

    proof fn lemma_erase_kind(x: Self) {
    }

    proof fn lemma_erase_injective(x: Self, y: Self) {
    }

    fn kind() -> (k: ValueKind) {
        ValueKind::Bool
    }

    fn erase(self) -> (v: Value) {
        Value::Bool(self)
    }

    fn view_in(v: &Value) -> (r: Option<&Self>) {
        match v {
            Value::Bool(x) => Some(x),
            _ => None,
        }
    }

    fn view_in_mut(v: &mut Value) -> (r: Option<&mut Self>) {
        match v {
            Value::Bool(x) => Some(x),
            _ => None,
        }
    }

    fn take_from(v: Value) -> (r: Option<Self>) {
        match v {
            Value::Bool(x) => Some(x),
            _ => None,
        }
    }
}

impl Erasable for u64 {
    open spec fn kind_spec() -> ValueKind {
        ValueKind::U64
    }

    open spec fn erase_spec(self) -> Value {
        Value::U64(self)
    }

    proof fn lemma_erase_kind(x: Self) {
    }

    proof fn lemma_erase_injective(x: Self, y: Self) {
    }

    fn kind() -> (k: ValueKind) {
        ValueKind::U64
    }

    fn erase(self) -> (v: Value) {
        Value::U64(self)
    }

    fn view_in(v: &Value) -> (r: Option<&Self>) {
        match v {
            Value::U64(x) => Some(x),
            _ => None,
        }
    }

    fn view_in_mut(v: &mut Value) -> (r: Option<&mut Self>) {
        match v {
            Value::U64(x) => Some(x),
            _ => None,
        }
    }

    fn take_from(v: Value) -> (r: Option<Self>) {
        match v {
            Value::U64(x) => Some(x),
            _ => None,
        }
    }
}

impl Erasable for i32 {
    open spec fn kind_spec() -> ValueKind {
        ValueKind::I32
    }

    open spec fn erase_spec(self) -> Value {
        Value::I32(self)
    }

    proof fn lemma_erase_kind(x: Self) {
    }

    proof fn lemma_erase_injective(x: Self, y: Self) {
    }

    fn kind() -> (k: ValueKind) {
        ValueKind::I32
    }

    fn erase(self) -> (v: Value) {
        Value::I32(self)
    }

    fn view_in(v: &Value) -> (r: Option<&Self>) {
        match v {
            Value::I32(x) => Some(x),
            _ => None,
        }
    }

    fn view_in_mut(v: &mut Value) -> (r: Option<&mut Self>) {
        match v {
            Value::I32(x) => Some(x),
            _ => None,
        }
    }

    fn take_from(v: Value) -> (r: Option<Self>) {
        match v {
            Value::I32(x) => Some(x),
            _ => None,
        }
    }
}

impl Erasable for i64 {
    open spec fn kind_spec() -> ValueKind {
        ValueKind::I64
    }

    open spec fn erase_spec(self) -> Value {
        Value::I64(self)
    }

    proof fn lemma_erase_kind(x: Self) {
    }

    proof fn lemma_erase_injective(x: Self, y: Self) {
    }

    fn kind() -> (k: ValueKind) {
        ValueKind::I64
    }

    fn erase(self) -> (v: Value) {
        Value::I64(self)
    }

    fn view_in(v: &Value) -> (r: Option<&Self>) {
        match v {
            Value::I64(x) => Some(x),
            _ => None,
        }
    }

    fn view_in_mut(v: &mut Value) -> (r: Option<&mut Self>) {
        match v {
            Value::I64(x) => Some(x),
            _ => None,
        }
    }

    fn take_from(v: Value) -> (r: Option<Self>) {
        match v {
            Value::I64(x) => Some(x),
            _ => None,
        }
    }
}

impl Erasable for usize {
    open spec fn kind_spec() -> ValueKind {
        ValueKind::Usize
    }

    open spec fn erase_spec(self) -> Value {
        Value::Usize(self)
    }

    proof fn lemma_erase_kind(x: Self) {
    }

    proof fn lemma_erase_injective(x: Self, y: Self) {
    }

    fn kind() -> (k: ValueKind) {
        ValueKind::Usize
    }

    fn erase(self) -> (v: Value) {
        Value::Usize(self)
    }

    fn view_in(v: &Value) -> (r: Option<&Self>) {
        match v {
            Value::Usize(x) => Some(x),
            _ => None,
        }
    }

    fn view_in_mut(v: &mut Value) -> (r: Option<&mut Self>) {
        match v {
            Value::Usize(x) => Some(x),
            _ => None,
        }
    }

    fn take_from(v: Value) -> (r: Option<Self>) {
        match v {
            Value::Usize(x) => Some(x),
            _ => None,
        }
    }
}

impl Erasable for String {
    open spec fn kind_spec() -> ValueKind {
        ValueKind::Text
    }

    open spec fn erase_spec(self) -> Value {
        Value::Text(self)
    }

    proof fn lemma_erase_kind(x: Self) {
    }

    proof fn lemma_erase_injective(x: Self, y: Self) {
    }

    fn kind() -> (k: ValueKind) {
        ValueKind::Text
    }

    fn erase(self) -> (v: Value) {
        Value::Text(self)
    }

    fn view_in(v: &Value) -> (r: Option<&Self>) {
        match v {
            Value::Text(x) => Some(x),
            _ => None,
        }
    }

    fn view_in_mut(v: &mut Value) -> (r: Option<&mut Self>) {
        match v {
            Value::Text(x) => Some(x),
            _ => None,
        }
    }

    fn take_from(v: Value) -> (r: Option<Self>) {
        match v {
            Value::Text(x) => Some(x),
            _ => None,
        }
    }
}

/// A handle that carries the runtime type tag of what it holds.
pub trait SafeDowncast {
    /// The erased content of the handle.
    spec fn content(&self) -> Value;

    /// The runtime type tag of the content.
    fn runtime_kind(&self) -> (k: ValueKind)
        ensures
            k == self.content().kind_spec(),
    ;
}

/// Checked views of a tagged handle as a concrete type. A view is granted
/// only when the runtime tag is the target type's, checked on every call.
pub trait Downcast: SafeDowncast {
    /// Whether the content is of type `T`.
    fn is<T: Erasable>(&self) -> (r: bool)
        ensures
            r == (self.content().kind_spec() == T::kind_spec()),
    ;

    /// A view of the content as `T`, present exactly when it is of type `T`.
    fn downcast_ref<T: Erasable>(&self) -> (r: Option<&T>)
        ensures
            r.is_some() == (self.content().kind_spec() == T::kind_spec()),
            r.is_some() ==> r.unwrap().erase_spec() == self.content(),
    ;

    /// A mutable view of the content as `T`, present exactly when it is of
    /// type `T`; what is written through it becomes the content.
    fn downcast_mut<T: Erasable>(&mut self) -> (r: Option<&mut T>)
        ensures
            r.is_some() == (old(self).content().kind_spec() == T::kind_spec()),
            r.is_some() ==> (*r.unwrap()).erase_spec() == old(self).content(),
            r is None ==> final(self).content() == old(self).content(),
            r is Some ==> final(self).content() == (*final(r.unwrap())).erase_spec(),
    ;
}

impl SafeDowncast for Value {
    open spec fn content(&self) -> Value {
        *self
    }

    fn runtime_kind(&self) -> (k: ValueKind) {
        self.kind()
    }
}

impl Downcast for Value {
    fn is<T: Erasable>(&self) -> (r: bool) {
        self.kind() == T::kind()
    }

    fn downcast_ref<T: Erasable>(&self) -> (r: Option<&T>) {
        if self.is::<T>() {
            T::view_in(self)
        } else {
            None
        }
    }

    fn downcast_mut<T: Erasable>(&mut self) -> (r: Option<&mut T>) {
        if self.is::<T>() {
            T::view_in_mut(self)
        } else {
            None
        }
    }
}

/// A checked view of the erasure of `x` as its own type holds a value equal
/// to `x`.
pub proof fn lemma_downcast_own_type<T: Erasable>(x: T, r: Option<T>)
    requires
        r.is_some() == (x.erase_spec().kind_spec() == T::kind_spec()),
        r.is_some() ==> r.unwrap().erase_spec() == x.erase_spec(),
    ensures
        r == Some(x),
{
    T::lemma_erase_kind(x);
    T::lemma_erase_injective(r.unwrap(), x);
}

/// A checked view of the erasure of `x` as a type with another tag is
/// absent.
pub proof fn lemma_downcast_other_type<T: Erasable, U: Erasable>(x: U, r: Option<T>)
    requires
        r.is_some() == (x.erase_spec().kind_spec() == T::kind_spec()),
        T::kind_spec() != U::kind_spec(),
    ensures
        r is None,
{
    U::lemma_erase_kind(x);
}

} // verus!
