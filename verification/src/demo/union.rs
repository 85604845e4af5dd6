//! A closed union: two member objects, a query field returning either, and
//! tagged dispatch.  For a closed, enumerated set of variants, dispatch is
//! a direct pattern match producing the value together with its registered
//! type name.
use vstd::prelude::*;

use crate::anybox::AnyBox;
use crate::registry::{has_key, lemma_stuck_empty_iff, lemma_upsert_fresh, lemma_upsert_keys,
    spec_upsert, NamedDef, Object, PendingModel, Register, RegistrationFailure, Registry, Union};
use crate::schema::Schema;
use crate::types::{simple_field_nn, FieldDef, ObjectDef, ObjectModel, TypeRef, UnionDef};

verus! {

pub struct Foo {
    pub foo: String,
}

pub struct Bar {
    pub bar: String,
}

pub enum FooBar {
    Foo(Foo),
    Bar(Bar),
}

pub struct Query {
    pub foobar: FooBar,
}

/// The registered type name of the concrete variant.
pub open spec fn foobar_tag(v: FooBar) -> Seq<char> {
    match v {
        FooBar::Foo(_) => "Foo"@,
        FooBar::Bar(_) => "Bar"@,
    }
}

/// The definition this module registers for `Query`: exactly the fields
/// `foobar: FooBar!` and `new_foobar: FooBar!`.
pub open spec fn query_model(o: ObjectModel) -> bool {
    &&& o.name == "Query"@
    &&& o.implements.len() == 0
    &&& o.fields.len() == 2
    &&& simple_field_nn(o.fields[0], "foobar"@, "FooBar"@)
    &&& simple_field_nn(o.fields[1], "new_foobar"@, "FooBar"@)
}

/// The definition this module registers for `Foo`: exactly `foo: String!`.
pub open spec fn foo_model(o: ObjectModel) -> bool {
    &&& o.name == "Foo"@
    &&& o.implements.len() == 0
    &&& o.fields.len() == 1
    &&& simple_field_nn(o.fields[0], "foo"@, "String"@)
}

/// The definition this module registers for `Bar`: exactly `bar: String!`.
pub open spec fn bar_model(o: ObjectModel) -> bool {
    &&& o.name == "Bar"@
    &&& o.implements.len() == 0
    &&& o.fields.len() == 1
    &&& simple_field_nn(o.fields[0], "bar"@, "String"@)
}

/// The union definition this module registers: `FooBar = Foo | Bar`.
pub open spec fn foobar_union_model(u: UnionDef) -> bool {
    &&& u.name@ == "FooBar"@
    &&& u.members@.len() == 2
    &&& u.members@[0]@ == "Foo"@
    &&& u.members@[1]@ == "Bar"@
}

impl Foo {
    pub fn resolve_foo(&self) -> (r: &String)
        ensures
            r == &self.foo,
    {
        &self.foo
    }
}

impl Bar {
    pub fn resolve_bar(&self) -> (r: &String)
        ensures
            r == &self.bar,
    {
        &self.bar
    }
}

impl Query {
    pub fn resolve_foobar(&self) -> (r: &FooBar)
        ensures
            r == &self.foobar,
    {
        &self.foobar
    }

    /// A freshly constructed union value, always the `Bar` variant.
    pub fn resolve_new_foobar(&self) -> (r: FooBar)
        ensures
            r matches FooBar::Bar(b) && b.bar@ == "bar"@,
    {
        FooBar::Bar(Bar { bar: "bar".to_owned() })
    }
}

impl FooBar {
    /// Erase a consumed union value, tagging it with its variant's
    /// registered type name: a value built as `Bar` is tagged exactly
    /// `"Bar"`, so a fragment on `Bar` is selected and one on `Foo` is
    /// skipped.
    pub fn resolve_owned<'a>(self) -> (r: AnyBox<'a, FooBar>)
        ensures
            r is Owned,
            r.spec_value() == self,
            r.tag() == foobar_tag(self),
    {
        let tag: String = match &self {
            FooBar::Foo(_) => "Foo".to_owned(),
            FooBar::Bar(_) => "Bar".to_owned(),
        };
        AnyBox::new_owned(self, tag)
    }

    /// Erase a borrowed union value, with the same tag as the owned mode.
    pub fn resolve_ref<'a>(&'a self) -> (r: AnyBox<'a, FooBar>)
        ensures
            r is Borrowed,
            r.spec_value() == *self,
            r.tag() == foobar_tag(*self),
    {
        let tag: String = match self {
            FooBar::Foo(_) => "Foo".to_owned(),
            FooBar::Bar(_) => "Bar".to_owned(),
        };
        AnyBox::new_borrowed(self, tag)
    }
}

impl Object for Foo {
    open spec fn gql_name() -> Seq<char> {
        "Foo"@
    }

    fn gql_type_name() -> (r: String) {
        "Foo".to_owned()
    }
}

impl Object for Bar {
    open spec fn gql_name() -> Seq<char> {
        "Bar"@
    }

    fn gql_type_name() -> (r: String) {
        "Bar".to_owned()
    }
}

impl Object for Query {
    open spec fn gql_name() -> Seq<char> {
        "Query"@
    }

    fn gql_type_name() -> (r: String) {
        "Query".to_owned()
    }
}

impl Union for FooBar {
    open spec fn gql_name() -> Seq<char> {
        "FooBar"@
    }

    fn gql_type_name() -> (r: String) {
        "FooBar".to_owned()
    }
}

impl Register for Foo {
    fn register(registry: Registry) -> (r: Registry)
        ensures
            (exists|d: ObjectDef| #[trigger] foo_model(d@) && r.types@ == spec_upsert(
                registry.types@,
                d,
            )),
            !has_key(registry.types@, "Foo"@) ==> (r.types@ == registry.types@.push(
                r.types@.last(),
            ) && foo_model(r.types@.last()@)),
            has_key(r.types@, "Foo"@),
            forall|k: Seq<char>| has_key(registry.types@, k) ==> has_key(r.types@, k),
            r.pend() == registry.pend(),
            r.enums@ == registry.enums@,
            r.unions@ == registry.unions@,
            r.interfaces@ == registry.interfaces@,
            r.input_types@ == registry.input_types@,
            r.extend_types@ == registry.extend_types@,
    {
        let object_type = ObjectDef::new("Foo").field(
            FieldDef::new("foo", TypeRef::named_nn("String")),
        );
        let ghost d = object_type;
        let out = registry.register_object(object_type);
        proof {
            assert(foo_model(d@));
            lemma_upsert_keys(registry.types@, d);
            if !has_key(registry.types@, "Foo"@) {
                lemma_upsert_fresh(registry.types@, d);
            }
        }
        out
    }
}

impl Register for Bar {
    fn register(registry: Registry) -> (r: Registry)
        ensures
            (exists|d: ObjectDef| #[trigger] bar_model(d@) && r.types@ == spec_upsert(
                registry.types@,
                d,
            )),
            !has_key(registry.types@, "Bar"@) ==> (r.types@ == registry.types@.push(
                r.types@.last(),
            ) && bar_model(r.types@.last()@)),
            has_key(r.types@, "Bar"@),
            forall|k: Seq<char>| has_key(registry.types@, k) ==> has_key(r.types@, k),
            r.pend() == registry.pend(),
            r.enums@ == registry.enums@,
            r.unions@ == registry.unions@,
            r.interfaces@ == registry.interfaces@,
            r.input_types@ == registry.input_types@,
            r.extend_types@ == registry.extend_types@,
    {
        let object_type = ObjectDef::new("Bar").field(
            FieldDef::new("bar", TypeRef::named_nn("String")),
        );
        let ghost d = object_type;
        let out = registry.register_object(object_type);
        proof {
            assert(bar_model(d@));
            lemma_upsert_keys(registry.types@, d);
            if !has_key(registry.types@, "Bar"@) {
                lemma_upsert_fresh(registry.types@, d);
            }
        }
        out
    }
}

impl Register for FooBar {
    fn register(registry: Registry) -> (r: Registry)
        ensures
            (exists|d: UnionDef| #[trigger] foobar_union_model(d) && r.unions@ == spec_upsert(
                registry.unions@,
                d,
            )),
            !has_key(registry.unions@, "FooBar"@) ==> (r.unions@ == registry.unions@.push(
                r.unions@.last(),
            ) && foobar_union_model(r.unions@.last())),
            has_key(r.unions@, "FooBar"@),
            r.types@ == registry.types@,
            r.pend() == registry.pend(),
            r.enums@ == registry.enums@,
            r.interfaces@ == registry.interfaces@,
            r.input_types@ == registry.input_types@,
            r.extend_types@ == registry.extend_types@,
    {
        let union_type = UnionDef::new("FooBar").possible_type("Foo").possible_type("Bar");
        let ghost d = union_type;
        let out = registry.register_union(union_type);
        proof {
            assert(d.members@[0] == d.members@.drop_last()[0]);
            assert(foobar_union_model(d));
            lemma_upsert_keys(registry.unions@, d);
            if !has_key(registry.unions@, "FooBar"@) {
                lemma_upsert_fresh(registry.unions@, d);
            }
        }
        out
    }
}

impl Register for Query {
    fn register(registry: Registry) -> (r: Registry)
        ensures
            (exists|d: ObjectDef| #[trigger] query_model(d@) && r.types@ == spec_upsert(
                registry.types@,
                d,
            )),
            !has_key(registry.types@, "Query"@) ==> (r.types@ == registry.types@.push(
                r.types@.last(),
            ) && query_model(r.types@.last()@)),
            has_key(r.types@, "Query"@),
            forall|k: Seq<char>| has_key(registry.types@, k) ==> has_key(r.types@, k),
            r.pend() == registry.pend(),
            r.enums@ == registry.enums@,
            r.unions@ == registry.unions@,
            r.interfaces@ == registry.interfaces@,
            r.input_types@ == registry.input_types@,
            r.extend_types@ == registry.extend_types@,
    {
        let object_type = ObjectDef::new("Query").field(
            FieldDef::new("foobar", TypeRef::named_nn("FooBar")),
        ).field(FieldDef::new("new_foobar", TypeRef::named_nn("FooBar")));
        let ghost d = object_type;
        let out = registry.register_object(object_type);
        proof {
            assert(query_model(d@));
            lemma_upsert_keys(registry.types@, d);
            if !has_key(registry.types@, "Query"@) {
                lemma_upsert_fresh(registry.types@, d);
            }
        }
        out
    }
}

/// The schema this module assembles: the union and the three registered
/// objects, in registration order, and nothing else.
pub open spec fn assembled(s: Schema) -> bool {
    &&& s.query_name@ == "Query"@
    &&& s.mutation_name is None
    &&& s.enums@.len() == 0
    &&& s.unions@.len() == 1
    &&& foobar_union_model(s.unions@[0])
    &&& s.interfaces@.len() == 0
    &&& s.input_types@.len() == 0
    &&& s.extend_types@.len() == 0
    &&& s.types@.len() == 3
    &&& query_model(s.types@[0]@)
    &&& foo_model(s.types@[1]@)
    &&& bar_model(s.types@[2]@)
}

/// Assemble the schema for this module.  Nothing is pending, so the
/// assembly always succeeds, and the result holds exactly the registered
/// definitions.
pub fn create_schema() -> (r: Result<Schema, RegistrationFailure>)
    ensures
        r is Ok,
        r matches Ok(s) ==> assembled(s),
{
    let registry = Registry::new();
    let ghost t0 = registry.types@;
    let registry = Query::register(registry);
    let ghost t1 = registry.types@;
    proof {
        assert(!has_key(t0, "Query"@));
        assert(query_model(t1[0]@));
        reveal_strlit("Query");
        reveal_strlit("Foo");
        reveal_strlit("Bar");
        assert("Query"@.len() == 5);
        assert("Foo"@.len() == 3);
        assert("Bar"@.len() == 3);
        assert("Query"@ != "Foo"@ && "Query"@ != "Bar"@);
        assert("Foo"@[0] != "Bar"@[0]);
        assert(t1[0].key() == "Query"@);
        assert(!has_key(t1, "Foo"@));
    }
    let registry = Foo::register(registry);
    let ghost t2 = registry.types@;
    proof {
        assert(t2[0] == t1[0]);
        assert(query_model(t2[0]@) && foo_model(t2[1]@));
        assert(t2[0].key() != "Bar"@ && t2[1].key() != "Bar"@);
        assert(!has_key(t2, "Bar"@));
    }
    let registry = Bar::register(registry);
    let ghost t3 = registry.types@;
    proof {
        assert(t3[0] == t2[0] && t3[1] == t2[1]);
        assert(query_model(t3[0]@) && foo_model(t3[1]@) && bar_model(t3[2]@));
        assert(!has_key(registry.unions@, "FooBar"@));
    }
    let registry = FooBar::register(registry);
    proof {
        assert(registry.types@ == t3);
        assert(foobar_union_model(registry.unions@[0]));
        assert(registry.pend() =~= Seq::<PendingModel>::empty());
        lemma_stuck_empty_iff(registry.objs(), registry.pend());
        assert(crate::registry::inject_all(registry.objs(), registry.pend()) == registry.objs());
    }
    let ghost objs = registry.objs();
    let ghost unions0 = registry.unions@;
    let r = registry.build_schema("Query", None);
    proof {
        if r is Ok {
            let s = r->Ok_0;
            let m = s.types@.map_values(|o: ObjectDef| o@);
            assert(m == objs);
            assert(s.types@.len() == 3);
            assert(m[0] == s.types@[0]@ && m[1] == s.types@[1]@ && m[2] == s.types@[2]@);
            assert(objs[0] == t3[0]@ && objs[1] == t3[1]@ && objs[2] == t3[2]@);
            assert(s.unions@ == unions0);
            assert(assembled(s));
        }
    }
    r
}

} // verus!
