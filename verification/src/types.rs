//! The data model of a dynamically composed schema: type references,
//! constant values, field and argument definitions, and the five kinds of
//! named type definitions (object, input object, enum, union, interface).
use vstd::prelude::*;

verus! {

/// A reference to a type as it appears in a field or argument position:
/// a bare name, a non-null wrapper, or a list wrapper.
pub enum TypeRef {
    Named(String),
    NonNull(Box<TypeRef>),
    List(Box<TypeRef>),
}

impl Clone for TypeRef {
    fn clone(&self) -> (r: Self)
        ensures
            r == *self,
        decreases self,
    {
        match self {
            TypeRef::Named(s) => TypeRef::Named(s.clone()),
            TypeRef::NonNull(inner) => TypeRef::NonNull(Box::new((**inner).clone())),
            TypeRef::List(inner) => TypeRef::List(Box::new((**inner).clone())),
        }
    }
}

/// A constant value, as used for argument defaults and enum items.
/// Scalars only; composite response values live in `resolve`.
#[derive(Clone)]
pub enum ConstValue {
    Null,
    Bool(bool),
    Int(i64),
    Str(String),
    EnumName(String),
}

/// An argument (or input object field) definition.
#[derive(Clone)]
pub struct InputValueDef {
    pub name: String,
    pub ty: TypeRef,
    pub default: Option<ConstValue>,
}

/// A field of an object or interface definition.
#[derive(Clone)]
pub struct FieldDef {
    pub name: String,
    pub ty: TypeRef,
    pub args: Vec<InputValueDef>,
}

/// A named object type: its fields and the interfaces it implements.
#[derive(Clone)]
pub struct ObjectDef {
    pub name: String,
    pub implements: Vec<String>,
    pub fields: Vec<FieldDef>,
}

/// A named input object type.
#[derive(Clone)]
pub struct InputObjectDef {
    pub name: String,
    pub fields: Vec<InputValueDef>,
    pub oneof: bool,
}

/// A named enum type and its items.
#[derive(Clone)]
pub struct EnumDef {
    pub name: String,
    pub items: Vec<String>,
}

/// A named union type and its member object type names.
#[derive(Clone)]
pub struct UnionDef {
    pub name: String,
    pub members: Vec<String>,
}

/// A named interface type: its fields and the interfaces it implements.
#[derive(Clone)]
pub struct InterfaceDef {
    pub name: String,
    pub implements: Vec<String>,
    pub fields: Vec<FieldDef>,
}

/// Spec-level image of an `ObjectDef`: the name as a character sequence,
/// the implemented interface names, and the field definitions themselves.
pub struct ObjectModel {
    pub name: Seq<char>,
    pub implements: Seq<Seq<char>>,
    pub fields: Seq<FieldDef>,
}

impl View for ObjectDef {
    type V = ObjectModel;

    open spec fn view(&self) -> ObjectModel {
        ObjectModel {
            name: self.name@,
            implements: self.implements@.map_values(|s: String| s@),
            fields: self.fields@,
        }
    }
}

impl ObjectDef {
    /// A fresh object definition with the given name and no fields.
    pub fn new(name: &str) -> (r: ObjectDef)
        ensures
            r@.name == name@,
            r@.implements == Seq::<Seq<char>>::empty(),
            r@.fields == Seq::<FieldDef>::empty(),
    {
        ObjectDef { name: name.to_owned(), implements: Vec::new(), fields: Vec::new() }
    }

    /// Append one field, keeping everything else.
    pub fn field(self, f: FieldDef) -> (r: ObjectDef)
        ensures
            r@.name == self@.name,
            r@.implements == self@.implements,
            r@.fields == self@.fields.push(f),
    {
        let mut s = self;
        s.fields.push(f);
        s
    }

    /// Declare that this object implements the named interface.
    pub fn implement(self, interface_name: &str) -> (r: ObjectDef)
        ensures
            r@.name == self@.name,
            r@.implements == self@.implements.push(interface_name@),
            r@.fields == self@.fields,
    {
        let mut s = self;
        s.implements.push(interface_name.to_owned());
        assert(s.implements@.map_values(|x: String| x@) =~= self.implements@.map_values(
            |x: String| x@,
        ).push(interface_name@));
        s
    }
}

impl FieldDef {
    /// A field with the given name and result type and no arguments.
    pub fn new(name: &str, ty: TypeRef) -> (r: FieldDef)
        ensures
            r.name@ == name@,
            r.ty == ty,
            r.args@ == Seq::<InputValueDef>::empty(),
    {
        FieldDef { name: name.to_owned(), ty, args: Vec::new() }
    }

    /// Append one argument.
    pub fn argument(self, arg: InputValueDef) -> (r: FieldDef)
        ensures
            r.name@ == self.name@,
            r.ty == self.ty,
            r.args@ == self.args@.push(arg),
    {
        let mut s = self;
        s.args.push(arg);
        s
    }
}

impl InputValueDef {
    /// An argument with no default value.
    pub fn new(name: &str, ty: TypeRef) -> (r: InputValueDef)
        ensures
            r.name@ == name@,
            r.ty == ty,
            r.default is None,
    {
        InputValueDef { name: name.to_owned(), ty, default: None }
    }

    /// The same argument with a default value.
    pub fn default_value(self, v: ConstValue) -> (r: InputValueDef)
        ensures
            r.name@ == self.name@,
            r.ty == self.ty,
            r.default == Some(v),
    {
        let mut s = self;
        s.default = Some(v);
        s
    }
}

impl EnumDef {
    /// A fresh enum definition with no items.
    pub fn new(name: &str) -> (r: EnumDef)
        ensures
            r.name@ == name@,
            r.items@ == Seq::<String>::empty(),
    {
        EnumDef { name: name.to_owned(), items: Vec::new() }
    }

    /// Append one item.
    pub fn item(self, item: &str) -> (r: EnumDef)
        ensures
            r.name@ == self.name@,
            r.items@.len() == self.items@.len() + 1,
            r.items@.drop_last() == self.items@,
            r.items@.last()@ == item@,
    {
        let mut s = self;
        s.items.push(item.to_owned());
        assert(s.items@.drop_last() =~= self.items@);
        s
    }
}

impl UnionDef {
    /// A fresh union definition with no members.
    pub fn new(name: &str) -> (r: UnionDef)
        ensures
            r.name@ == name@,
            r.members@ == Seq::<String>::empty(),
    {
        UnionDef { name: name.to_owned(), members: Vec::new() }
    }

    /// Declare one more possible member type.
    pub fn possible_type(self, member: &str) -> (r: UnionDef)
        ensures
            r.name@ == self.name@,
            r.members@.len() == self.members@.len() + 1,
            r.members@.drop_last() == self.members@,
            r.members@.last()@ == member@,
    {
        let mut s = self;
        s.members.push(member.to_owned());
        assert(s.members@.drop_last() =~= self.members@);
        s
    }
}

impl InterfaceDef {
    /// A fresh interface definition with no fields.
    pub fn new(name: &str) -> (r: InterfaceDef)
        ensures
            r.name@ == name@,
            r.implements@ == Seq::<String>::empty(),
            r.fields@ == Seq::<FieldDef>::empty(),
    {
        InterfaceDef { name: name.to_owned(), implements: Vec::new(), fields: Vec::new() }
    }

    /// Append one field declaration.
    pub fn field(self, f: FieldDef) -> (r: InterfaceDef)
        ensures
            r.name@ == self.name@,
            r.implements@ == self.implements@,
            r.fields@ == self.fields@.push(f),
    {
        let mut s = self;
        s.fields.push(f);
        s
    }

    /// Declare that this interface implements the named parent interface.
    pub fn implement(self, parent: &str) -> (r: InterfaceDef)
        ensures
            r.name@ == self.name@,
            r.fields@ == self.fields@,
            r.implements@.len() == self.implements@.len() + 1,
            r.implements@.drop_last() == self.implements@,
            r.implements@.last()@ == parent@,
    {
        let mut s = self;
        s.implements.push(parent.to_owned());
        assert(s.implements@.drop_last() =~= self.implements@);
        s
    }
}

impl InputObjectDef {
    /// A fresh input object definition with no fields.
    pub fn new(name: &str) -> (r: InputObjectDef)
        ensures
            r.name@ == name@,
            r.fields@ == Seq::<InputValueDef>::empty(),
            r.oneof == false,
    {
        InputObjectDef { name: name.to_owned(), fields: Vec::new(), oneof: false }
    }

    /// Append one input field.
    pub fn field(self, f: InputValueDef) -> (r: InputObjectDef)
        ensures
            r.name@ == self.name@,
            r.oneof == self.oneof,
            r.fields@ == self.fields@.push(f),
    {
        let mut s = self;
        s.fields.push(f);
        s
    }

    /// Mark the input object as accepting exactly one of its fields.
    pub fn oneof(self) -> (r: InputObjectDef)
        ensures
            r.name@ == self.name@,
            r.fields@ == self.fields@,
            r.oneof == true,
    {
        let mut s = self;
        s.oneof = true;
        s
    }
}

/// Holds when `r` is a bare named reference to `name`.
pub open spec fn is_named(r: TypeRef, name: Seq<char>) -> bool {
    &&& r matches TypeRef::Named(s)
    &&& s@ == name
}

/// Holds when `r` is the non-null form `name!` of a named reference.
pub open spec fn is_named_nn(r: TypeRef, name: Seq<char>) -> bool {
    &&& r matches TypeRef::NonNull(inner)
    &&& is_named(*inner, name)
}

/// Holds when `r` is the non-null list form `[name!]!`.
pub open spec fn is_list_nn(r: TypeRef, name: Seq<char>) -> bool {
    &&& r matches TypeRef::NonNull(o)
    &&& *o matches TypeRef::List(i)
    &&& is_named_nn(*i, name)
}

/// A field named `name` with result type `ty!` and no arguments.
pub open spec fn simple_field_nn(f: FieldDef, name: Seq<char>, ty: Seq<char>) -> bool {
    &&& f.name@ == name
    &&& is_named_nn(f.ty, ty)
    &&& f.args@.len() == 0
}

/// A field named `name` with nullable result type `ty` and no arguments.
pub open spec fn simple_field(f: FieldDef, name: Seq<char>, ty: Seq<char>) -> bool {
    &&& f.name@ == name
    &&& is_named(f.ty, ty)
    &&& f.args@.len() == 0
}

/// An argument named `name` of type `ty!` with no default.
pub open spec fn simple_arg_nn(a: InputValueDef, name: Seq<char>, ty: Seq<char>) -> bool {
    &&& a.name@ == name
    &&& is_named_nn(a.ty, ty)
    &&& a.default is None
}

/// An argument named `name` of nullable type `ty` with no default.
pub open spec fn simple_arg(a: InputValueDef, name: Seq<char>, ty: Seq<char>) -> bool {
    &&& a.name@ == name
    &&& is_named(a.ty, ty)
    &&& a.default is None
}

/// An argument named `name` of type `[ty!]!` with no default.
pub open spec fn list_arg_nn(a: InputValueDef, name: Seq<char>, ty: Seq<char>) -> bool {
    &&& a.name@ == name
    &&& is_list_nn(a.ty, ty)
    &&& a.default is None
}

/// A field named `name` with result type `rty!` and exactly one argument.
pub open spec fn one_arg_field_nn(f: FieldDef, name: Seq<char>, rty: Seq<char>) -> bool {
    &&& f.name@ == name
    &&& is_named_nn(f.ty, rty)
    &&& f.args@.len() == 1
}

impl TypeRef {
    /// A nullable reference to a named type, `Name`.
    pub fn named(name: &str) -> (r: TypeRef)
        ensures
            is_named(r, name@),
    {
        TypeRef::Named(name.to_owned())
    }

    /// The non-null form of a named type, `Name!`.
    pub fn named_nn(name: &str) -> (r: TypeRef)
        ensures
            is_named_nn(r, name@),
    {
        TypeRef::NonNull(Box::new(TypeRef::Named(name.to_owned())))
    }

    /// A non-null list of the given element reference, `[T]!`.
    pub fn list_nn(inner: TypeRef) -> (r: TypeRef)
        ensures
            r matches TypeRef::NonNull(o) && *o matches TypeRef::List(i) && *i == inner,
    {
        TypeRef::NonNull(Box::new(TypeRef::List(Box::new(inner))))
    }
}

} // verus!
