//! Resolvers that return results over lists: a field whose own resolver
//! can fail, and list elements whose resolvers can fail one by one.
use vstd::prelude::*;

use crate::registry::{has_key, lemma_stuck_empty_iff, lemma_upsert_fresh, lemma_upsert_keys,
    spec_upsert, NamedDef, Object, PendingModel, Register, RegistrationFailure, Registry};
use crate::resolve::FieldError;
use crate::schema::Schema;
use crate::types::{is_list_nn, simple_field_nn, FieldDef, ObjectDef, ObjectModel, TypeRef};

verus! {

/// The one domain error these resolvers raise.
pub enum MyError {
    Bar,
}

impl MyError {
    /// The error's message, as it is reported against the field.
    pub fn message(&self) -> (r: String)
        ensures
            r@ == "bar error"@,
    {
        "bar error".to_owned()
    }

    /// Convert the domain error into a field-scoped error.
    pub fn to_field_error(&self) -> (r: FieldError)
        ensures
            r.message@ == "bar error"@,
    {
        FieldError { message: self.message() }
    }
}

pub struct Query {
    pub foo: Foo,
}

pub struct Foo {
    pub error: bool,
    pub bars: Vec<Bar>,
}

pub struct Bar {
    pub error: bool,
    pub value: String,
}

impl Query {
    pub fn resolve_foo(&self) -> (r: &Foo)
        ensures
            r == &self.foo,
    {
        &self.foo
    }
}

impl Foo {
    /// The list of bars, or the domain error when this value is marked
    /// failing.
    pub fn resolve_bars(&self) -> (r: Result<&Vec<Bar>, FieldError>)
        ensures
            self.error ==> (r matches Err(e) && e.message@ == "bar error"@),
            !self.error ==> (r matches Ok(bars) && bars == &self.bars),
    {
        if self.error {
            Err(MyError::Bar.to_field_error())
        } else {
            Ok(&self.bars)
        }
    }
}

impl Bar {
    /// The carried value, or the domain error when this element is marked
    /// failing.
    pub fn resolve_value(&self) -> (r: Result<String, FieldError>)
        ensures
            self.error ==> (r matches Err(e) && e.message@ == "bar error"@),
            !self.error ==> (r matches Ok(v) && v@ == self.value@),
    {
        if self.error {
            Err(MyError::Bar.to_field_error())
        } else {
            Ok(self.value.clone())
        }
    }
}

/// The definition this module registers for `Query`: exactly `foo: Foo!`.
pub open spec fn query_model(o: ObjectModel) -> bool {
    &&& o.name == "Query"@
    &&& o.implements.len() == 0
    &&& o.fields.len() == 1
    &&& simple_field_nn(o.fields[0], "foo"@, "Foo"@)
}

/// The definition this module registers for `Foo`: exactly
/// `bars: [Bar!]!`.
pub open spec fn foo_model(o: ObjectModel) -> bool {
    &&& o.name == "Foo"@
    &&& o.implements.len() == 0
    &&& o.fields.len() == 1
    &&& o.fields[0].name@ == "bars"@
    &&& is_list_nn(o.fields[0].ty, "Bar"@)
    &&& o.fields[0].args@.len() == 0
}

/// The definition this module registers for `Bar`: exactly
/// `value: String!`.
pub open spec fn bar_model(o: ObjectModel) -> bool {
    &&& o.name == "Bar"@
    &&& o.implements.len() == 0
    &&& o.fields.len() == 1
    &&& simple_field_nn(o.fields[0], "value"@, "String"@)
}

impl Object for Query {
    open spec fn gql_name() -> Seq<char> {
        "Query"@
    }

    fn gql_type_name() -> (r: String) {
        "Query".to_owned()
    }
}

impl Object for Foo {
    open spec fn gql_name() -> Seq<char> {
        "Foo"@
    }

    fn gql_type_name() -> (r: String) {
        "Foo".to_owned()
    }
}

impl Object for Bar {
    open spec fn gql_name() -> Seq<char> {
        "Bar"@
    }

    fn gql_type_name() -> (r: String) {
        "Bar".to_owned()
    }
}

impl Register for Query {
    fn register(registry: Registry) -> (r: Registry)
        ensures
            (exists|d: ObjectDef| #[trigger] query_model(d@) && r.types@ == spec_upsert(
                registry.types@,
                d,
            )),
            !has_key(registry.types@, "Query"@) ==> (r.types@ == registry.types@.push(
                r.types@.last(),
            ) && query_model(r.types@.last()@)),
            has_key(r.types@, "Query"@),
            forall|k: Seq<char>| has_key(registry.types@, k) ==> has_key(r.types@, k),
            r.pend() == registry.pend(),
            r.enums@ == registry.enums@,
            r.unions@ == registry.unions@,
            r.interfaces@ == registry.interfaces@,
            r.input_types@ == registry.input_types@,
            r.extend_types@ == registry.extend_types@,
    {
        let object_type = ObjectDef::new("Query").field(
            FieldDef::new("foo", TypeRef::named_nn("Foo")),
        );
        let ghost d = object_type;
        let out = registry.register_object(object_type);
        proof {
            assert(query_model(d@));
            lemma_upsert_keys(registry.types@, d);
            if !has_key(registry.types@, "Query"@) {
                lemma_upsert_fresh(registry.types@, d);
            }
        }
        out
    }
}

impl Register for Foo {
    fn register(registry: Registry) -> (r: Registry)
        ensures
            (exists|d: ObjectDef| #[trigger] foo_model(d@) && r.types@ == spec_upsert(
                registry.types@,
                d,
            )),
            !has_key(registry.types@, "Foo"@) ==> (r.types@ == registry.types@.push(
                r.types@.last(),
            ) && foo_model(r.types@.last()@)),
            has_key(r.types@, "Foo"@),
            forall|k: Seq<char>| has_key(registry.types@, k) ==> has_key(r.types@, k),
            r.pend() == registry.pend(),
            r.enums@ == registry.enums@,
            r.unions@ == registry.unions@,
            r.interfaces@ == registry.interfaces@,
            r.input_types@ == registry.input_types@,
            r.extend_types@ == registry.extend_types@,
    {
        let object_type = ObjectDef::new("Foo").field(
            FieldDef::new("bars", TypeRef::list_nn(TypeRef::named_nn("Bar"))),
        );
        let ghost d = object_type;
        let out = registry.register_object(object_type);
        proof {
            assert(foo_model(d@));
            lemma_upsert_keys(registry.types@, d);
            if !has_key(registry.types@, "Foo"@) {
                lemma_upsert_fresh(registry.types@, d);
            }
        }
        out
    }
}

impl Register for Bar {
    fn register(registry: Registry) -> (r: Registry)
        ensures
            (exists|d: ObjectDef| #[trigger] bar_model(d@) && r.types@ == spec_upsert(
                registry.types@,
                d,
            )),
            !has_key(registry.types@, "Bar"@) ==> (r.types@ == registry.types@.push(
                r.types@.last(),
            ) && bar_model(r.types@.last()@)),
            has_key(r.types@, "Bar"@),
            forall|k: Seq<char>| has_key(registry.types@, k) ==> has_key(r.types@, k),
            r.pend() == registry.pend(),
            r.enums@ == registry.enums@,
            r.unions@ == registry.unions@,
            r.interfaces@ == registry.interfaces@,
            r.input_types@ == registry.input_types@,
            r.extend_types@ == registry.extend_types@,
    {
        let object_type = ObjectDef::new("Bar").field(
            FieldDef::new("value", TypeRef::named_nn("String")),
        );
        let ghost d = object_type;
        let out = registry.register_object(object_type);
        proof {
            assert(bar_model(d@));
            lemma_upsert_keys(registry.types@, d);
            if !has_key(registry.types@, "Bar"@) {
                lemma_upsert_fresh(registry.types@, d);
            }
        }
        out
    }
}

/// The schema this module assembles: exactly the three registered
/// objects, in registration order, and nothing else.
pub open spec fn assembled(s: Schema) -> bool {
    &&& s.query_name@ == "Query"@
    &&& s.mutation_name is None
    &&& s.enums@.len() == 0
    &&& s.unions@.len() == 0
    &&& s.interfaces@.len() == 0
    &&& s.input_types@.len() == 0
    &&& s.extend_types@.len() == 0
    &&& s.types@.len() == 3
    &&& query_model(s.types@[0]@)
    &&& foo_model(s.types@[1]@)
    &&& bar_model(s.types@[2]@)
}

/// Assemble the schema for this module.  Nothing is pending, so the
/// assembly always succeeds, and the result holds exactly the registered
/// definitions.
pub fn create_schema() -> (r: Result<Schema, RegistrationFailure>)
    ensures
        r is Ok,
        r matches Ok(s) ==> assembled(s),
{
    let registry = Registry::new();
    let ghost t0 = registry.types@;
    let registry = Query::register(registry);
    let ghost t1 = registry.types@;
    proof {
        assert(!has_key(t0, "Query"@));
        assert(query_model(t1[0]@));
        reveal_strlit("Query");
        reveal_strlit("Foo");
        reveal_strlit("Bar");
        assert("Query"@.len() == 5);
        assert("Foo"@.len() == 3);
        assert("Bar"@.len() == 3);
        assert("Query"@ != "Foo"@ && "Query"@ != "Bar"@);
        assert("Foo"@[0] != "Bar"@[0]);
        assert(t1[0].key() == "Query"@);
        assert(!has_key(t1, "Foo"@));
    }
    let registry = Foo::register(registry);
    let ghost t2 = registry.types@;
    proof {
        assert(t2[0] == t1[0]);
        assert(query_model(t2[0]@) && foo_model(t2[1]@));
        assert(t2[0].key() != "Bar"@ && t2[1].key() != "Bar"@);
        assert(!has_key(t2, "Bar"@));
    }
    let registry = Bar::register(registry);
    let ghost t3 = registry.types@;
    proof {
        assert(t3[0] == t2[0] && t3[1] == t2[1]);
        assert(query_model(t3[0]@) && foo_model(t3[1]@) && bar_model(t3[2]@));
        assert(registry.pend() =~= Seq::<PendingModel>::empty());
        lemma_stuck_empty_iff(registry.objs(), registry.pend());
        assert(crate::registry::inject_all(registry.objs(), registry.pend()) == registry.objs());
    }
    let ghost objs = registry.objs();
    let r = registry.build_schema("Query", None);
    proof {
        if r is Ok {
            let s = r->Ok_0;
            let m = s.types@.map_values(|o: ObjectDef| o@);
            assert(m == objs);
            assert(s.types@.len() == 3);
            assert(m[0] == s.types@[0]@ && m[1] == s.types@[1]@ && m[2] == s.types@[2]@);
            assert(objs[0] == t3[0]@ && objs[1] == t3[1]@ && objs[2] == t3[2]@);
            assert(assembled(s));
        }
    }
    r
}

} // verus!
