//! Reflection: per-type descriptor tables of fields and methods, and
//! name-based access to field values through erased `Value`s.

use std::any::TypeId;
use vstd::prelude::*;
use crate::error::DynastyError;
use crate::table::{entry_for, has_key, lemma_entry_at, lemma_upsert, unique_keys, upsert};
use crate::value::{Erasable, Value, kind_name_spec};

verus! {

/// The model of a field descriptor.
pub struct FieldView {
    pub name: Seq<char>,
    pub type_id: TypeId,
    pub offset: usize,
}

/// The model of a method descriptor.
pub struct MethodView {
    pub name: Seq<char>,
    pub signature: Seq<char>,
}

/// Describes one field of a type: its name, the identity of its declared
/// type, and where it is stored.
pub struct FieldInfo {
    pub name: String,
    pub type_id: TypeId,
    pub offset: usize,
}

/// Describes one method of a type, for introspection only.
pub struct MethodInfo {
    pub name: String,
    pub signature: String,
}

impl View for FieldInfo {
    type V = FieldView;

    open spec fn view(&self) -> FieldView {
        FieldView { name: self.name@, type_id: self.type_id, offset: self.offset }
    }
}

impl View for MethodInfo {
    type V = MethodView;

    open spec fn view(&self) -> MethodView {
        MethodView { name: self.name@, signature: self.signature@ }
    }
}

impl Clone for FieldInfo {
    fn clone(&self) -> (r: Self)
        ensures
            r@ == self@,
    {
        FieldInfo { name: self.name.clone(), type_id: self.type_id, offset: self.offset }
    }
}

impl Clone for MethodInfo {
    fn clone(&self) -> (r: Self)
        ensures
            r@ == self@,
    {
        MethodInfo { name: self.name.clone(), signature: self.signature.clone() }
    }
}

/// Field descriptors are keyed by name.
pub open spec fn field_key() -> spec_fn(FieldView) -> Seq<char> {
    |f: FieldView| f.name
}

/// Method descriptors are keyed by name.
pub open spec fn method_key() -> spec_fn(MethodView) -> Seq<char> {
    |m: MethodView| m.name
}

/// The field and method descriptors of one type. Names are unique within
/// each table.
pub struct ReflectionData {
    fields: Vec<FieldInfo>,
    methods: Vec<MethodInfo>,
}

impl ReflectionData {
    /// The field descriptors, in table order.
    pub closed spec fn fields_view(&self) -> Seq<FieldView> {
        self.fields@.map_values(|f: FieldInfo| f@)
    }

    /// The method descriptors, in table order.
    pub closed spec fn methods_view(&self) -> Seq<MethodView> {
        self.methods@.map_values(|m: MethodInfo| m@)
    }

    /// Names are unique in both tables.
    pub open spec fn wf(&self) -> bool {
        &&& unique_keys(self.fields_view(), field_key())
        &&& unique_keys(self.methods_view(), method_key())
    }

    /// An empty table for the type `T`.
    pub fn new<T: 'static>() -> (r: Self)
        ensures
            r.wf(),
            r.fields_view() =~= Seq::<FieldView>::empty(),
            r.methods_view() =~= Seq::<MethodView>::empty(),
    {
        ReflectionData { fields: Vec::new(), methods: Vec::new() }
    }


    /// Adds the descriptor of field `name`, replacing one of the same name.
    pub fn add_field(&mut self, name: &str, type_id: TypeId, offset: usize)
        requires
            old(self).wf(),
        ensures
            final(self).wf(),
            final(self).fields_view() == upsert(
                old(self).fields_view(),
                field_key(),
                FieldView { name: name@, type_id, offset },
            ),
            final(self).methods_view() == old(self).methods_view(),
            entry_for(final(self).fields_view(), field_key(), name@) == Some(
                FieldView { name: name@, type_id, offset },
            ),
            forall|n: Seq<char>|
                n != name@ ==> entry_for(final(self).fields_view(), field_key(), n) == entry_for(
                    old(self).fields_view(),
                    field_key(),
                    n,
                ),
    {
        let key = name.to_owned();
        let info = FieldInfo { name: name.to_owned(), type_id, offset };
        let ghost f = info@;
        let ghost s = self.fields_view();
        proof {
            lemma_upsert(s, field_key(), f);
        }
        match self.field_position(&key) {
            Some(i) => {
                self.fields.set(i, info);
                proof {
                    assert(has_key(s, field_key(), f.name));
                    let c = choose|j: int| 0 <= j < s.len() && field_key()(s[j]) == f.name;
                    assert(c == i as int);
                    assert(self.fields_view() =~= upsert(s, field_key(), f));
                }
            },
            None => {
                self.fields.push(info);
                proof {
                    assert(self.fields_view() =~= upsert(s, field_key(), f));
                }
            },
        }
        proof {
            assert(self.methods_view() =~= old(self).methods_view());
        }
    }

    /// Adds the descriptor of method `name`, replacing one of the same name.
    pub fn add_method(&mut self, name: &str, signature: &str)
        requires
            old(self).wf(),
        ensures
            final(self).wf(),
            final(self).methods_view() == upsert(
                old(self).methods_view(),
                method_key(),
                MethodView { name: name@, signature: signature@ },
            ),
            final(self).fields_view() == old(self).fields_view(),
            entry_for(final(self).methods_view(), method_key(), name@) == Some(
                MethodView { name: name@, signature: signature@ },
            ),
            forall|n: Seq<char>|
                n != name@ ==> entry_for(final(self).methods_view(), method_key(), n) == entry_for(
                    old(self).methods_view(),
                    method_key(),
                    n,
                ),
    {
        let key = name.to_owned();
        let info = MethodInfo { name: name.to_owned(), signature: signature.to_owned() };
        let ghost m = info@;
        let ghost s = self.methods_view();
        proof {
            lemma_upsert(s, method_key(), m);
        }
        match self.method_position(&key) {
            Some(i) => {
                self.methods.set(i, info);
                proof {
                    assert(has_key(s, method_key(), m.name));
                    let c = choose|j: int| 0 <= j < s.len() && method_key()(s[j]) == m.name;
                    assert(c == i as int);
                    assert(self.methods_view() =~= upsert(s, method_key(), m));
                }
            },
            None => {
                self.methods.push(info);
                proof {
                    assert(self.methods_view() =~= upsert(s, method_key(), m));
                }
            },
        }
        proof {
            assert(self.fields_view() =~= old(self).fields_view());
        }
    }

    /// The descriptor of field `name`, if the table has one.
    pub fn field(&self, name: &str) -> (r: Option<&FieldInfo>)
        requires
            self.wf(),
        ensures
            match r {
                Some(f) => entry_for(self.fields_view(), field_key(), name@) == Some(f@),
                None => entry_for(self.fields_view(), field_key(), name@) is None,
            },
    {
        let key = name.to_owned();
        match self.field_position(&key) {
            Some(i) => {
                proof {
                    lemma_entry_at(self.fields_view(), field_key(), i as int);
                }
                Some(&self.fields[i])
            },
            None => None,
        }
    }

    /// The descriptor of method `name`, if the table has one.
    pub fn method(&self, name: &str) -> (r: Option<&MethodInfo>)
        requires
            self.wf(),
        ensures
            match r {
                Some(m) => entry_for(self.methods_view(), method_key(), name@) == Some(m@),
                None => entry_for(self.methods_view(), method_key(), name@) is None,
            },
    {
        let key = name.to_owned();
        match self.method_position(&key) {
            Some(i) => {
                proof {
                    lemma_entry_at(self.methods_view(), method_key(), i as int);
                }
                Some(&self.methods[i])
            },
            None => None,
        }
    }

    /// The number of field descriptors.
    pub fn field_count(&self) -> (r: usize)
        ensures
            r == self.fields_view().len(),
    {
        self.fields.len()
    }

    /// The number of method descriptors.
    pub fn method_count(&self) -> (r: usize)
        ensures
            r == self.methods_view().len(),
    {
        self.methods.len()
    }

    /// Index of the field named `name`.
    fn field_position(&self, name: &String) -> (r: Option<usize>)
        ensures
            match r {
                Some(i) => i < self.fields_view().len() && self.fields_view()[i as int].name == name@,
                None => forall|i: int|
                    0 <= i < self.fields_view().len() ==> self.fields_view()[i].name != name@,
            },
    {
        let mut i: usize = 0;
        while i < self.fields.len()
            invariant
                i <= self.fields@.len(),
                forall|j: int| 0 <= j < i ==> self.fields_view()[j].name != name@,
            decreases self.fields@.len() - i,
        {
            if self.fields[i].name == *name {
                return Some(i);
            }
            i = i + 1;
        }
        None
    }

    /// Index of the method named `name`.
    fn method_position(&self, name: &String) -> (r: Option<usize>)
        ensures
            match r {
                Some(i) => i < self.methods_view().len() && self.methods_view()[i as int].name
                    == name@,
                None => forall|i: int|
                    0 <= i < self.methods_view().len() ==> self.methods_view()[i].name != name@,
            },
    {
        let mut i: usize = 0;
        while i < self.methods.len()
            invariant
                i <= self.methods@.len(),
                forall|j: int| 0 <= j < i ==> self.methods_view()[j].name != name@,
            decreases self.methods@.len() - i,
        {
            if self.methods[i].name == *name {
                return Some(i);
            }
            i = i + 1;
        }
        None
    }
}

impl Clone for ReflectionData {
    fn clone(&self) -> (r: Self)
        ensures
            r.fields_view() == self.fields_view(),
            r.methods_view() == self.methods_view(),
    {
        let mut fields: Vec<FieldInfo> = Vec::new();
        let mut i: usize = 0;
        while i < self.fields.len()
            invariant
                i <= self.fields@.len(),
                fields@.len() == i,
                forall|j: int| 0 <= j < i ==> fields@[j]@ == self.fields@[j]@,
            decreases self.fields@.len() - i,
        {
            fields.push(self.fields[i].clone());
            i = i + 1;
        }
        let mut methods: Vec<MethodInfo> = Vec::new();
        let mut k: usize = 0;
        while k < self.methods.len()
            invariant
                k <= self.methods@.len(),
                methods@.len() == k,
                forall|j: int| 0 <= j < k ==> methods@[j]@ == self.methods@[j]@,
            decreases self.methods@.len() - k,
        {
            methods.push(self.methods[k].clone());
            k = k + 1;
        }
        let r = ReflectionData { fields, methods };
        assert(r.fields_view() =~= self.fields_view());
        assert(r.methods_view() =~= self.methods_view());
        r
    }
}

/// Name-based access to the fields of a value. Each type implements it by
/// hand, dispatching on the field name; `assign_field` does the checked
/// write of one field.
pub trait Reflect {
    /// The erased current value of field `name`, if the type has that field.
    fn get_field(&self, name: &str) -> Option<Value>;

    /// Moves `value` into field `name` when its type is the field's type;
    /// reports `FieldNotFound` or `TypeMismatch` and changes nothing
    /// otherwise.
    fn set_field(&mut self, name: &str, value: Value) -> Result<(), DynastyError>;
}

/// The error for a field name that a type does not have.
pub fn field_not_found(name: &str) -> (e: DynastyError)
    ensures
        e matches DynastyError::FieldNotFound(n) && n@ == name@,
{
    DynastyError::FieldNotFound(name.to_owned())
}

/// Moves `value` into the field `slot` when it holds a `T`; otherwise leaves
/// the field as it was and reports the mismatch.
pub fn assign_field<T: Erasable>(slot: &mut T, value: Value) -> (r: Result<(), DynastyError>)
    ensures
        r is Ok <==> value.kind_spec() == T::kind_spec(),
        r is Ok ==> final(slot).erase_spec() == value,
        r is Err ==> *final(slot) == *old(slot),
        r matches Err(DynastyError::TypeMismatch { expected, found }) ==> expected@
            == kind_name_spec(T::kind_spec()) && found@ == kind_name_spec(value.kind_spec()),
        r is Err ==> r matches Err(DynastyError::TypeMismatch { .. }),
{
    let found = value.kind();
    match T::take_from(value) {
        Some(x) => {
            *slot = x;
            Ok(())
        },
        None => Err(DynastyError::TypeMismatch { expected: T::kind().name(), found: found.name() }),
    }
}

/// Writing a field and reading it back yields the written value when the
/// types match; on a mismatch the field keeps its value and the error is a
/// `TypeMismatch` naming both types.
pub proof fn lemma_set_then_get<T: Erasable>(
    before: T,
    after: T,
    value: Value,
    r: Result<(), DynastyError>,
)
    requires
        r is Ok <==> value.kind_spec() == T::kind_spec(),
        r is Ok ==> after.erase_spec() == value,
        r is Err ==> after == before,
        r matches Err(DynastyError::TypeMismatch { expected, found }) ==> expected@
            == kind_name_spec(T::kind_spec()) && found@ == kind_name_spec(value.kind_spec()),
        r is Err ==> r matches Err(DynastyError::TypeMismatch { .. }),
    ensures
        value.kind_spec() == T::kind_spec() ==> after.erase_spec() == value,
        value.kind_spec() != T::kind_spec() ==> {
            &&& after.erase_spec() == before.erase_spec()
            &&& r matches Err(DynastyError::TypeMismatch { expected, found })
            &&& expected@ == kind_name_spec(before.erase_spec().kind_spec())
            &&& found@ == kind_name_spec(value.kind_spec())
        },
{
    T::lemma_erase_kind(before);
}

} // verus!
