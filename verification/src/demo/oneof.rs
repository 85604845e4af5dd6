//! A `oneOf` input object: exactly one of its two integer fields is set,
//! and the resolver echoes whichever one arrived.
use vstd::prelude::*;

use crate::registry::{has_key, lemma_stuck_empty_iff, lemma_upsert_fresh, lemma_upsert_keys,
    spec_upsert, InputObject, NamedDef, Object, PendingModel, Register, RegistrationFailure,
    Registry};
use crate::schema::Schema;
use crate::text::int_str;
use crate::types::{simple_arg, simple_arg_nn, FieldDef, InputObjectDef, InputValueDef, ObjectDef,
    ObjectModel, TypeRef};

verus! {

/// The decoded form of the `oneOf` input: exactly one variant arrives.
pub enum BarOneOf {
    A(i64),
    B(i64),
}

pub struct Query {}

impl Query {
    /// Echo whichever variant of the input arrived.
    pub fn resolve_by_bar(&self, input: BarOneOf) -> (r: String)
        ensures
            input matches BarOneOf::A(a) ==> r@ == "A: "@ + int_str(a as int),
            input matches BarOneOf::B(b) ==> r@ == "B: "@ + int_str(b as int),
    {
        match input {
            BarOneOf::A(a) => {
                let mut s = String::new();
                s.append("A: ");
                let digits = crate::text::i64_to_string(a);
                s.append(digits.as_str());
                s
            },
            BarOneOf::B(b) => {
                let mut s = String::new();
                s.append("B: ");
                let digits = crate::text::i64_to_string(b);
                s.append(digits.as_str());
                s
            },
        }
    }
}

/// The input object definition this module registers: `BarInput`, marked
/// `oneOf`, with exactly the nullable fields `a: Int` and `b: Int`.
pub open spec fn bar_input_model(d: InputObjectDef) -> bool {
    &&& d.name@ == "BarInput"@
    &&& d.oneof
    &&& d.fields@.len() == 2
    &&& simple_arg(d.fields@[0], "a"@, "Int"@)
    &&& simple_arg(d.fields@[1], "b"@, "Int"@)
}

/// The definition this module registers for `Query`: exactly the field
/// `by_bar(input: BarInput!): String!`.
pub open spec fn query_model(o: ObjectModel) -> bool {
    &&& o.name == "Query"@
    &&& o.implements.len() == 0
    &&& o.fields.len() == 1
    &&& o.fields[0].name@ == "by_bar"@
    &&& crate::types::is_named_nn(o.fields[0].ty, "String"@)
    &&& o.fields[0].args@.len() == 1
    &&& simple_arg_nn(o.fields[0].args@[0], "input"@, "BarInput"@)
}

impl InputObject for BarOneOf {
    open spec fn gql_name() -> Seq<char> {
        "BarInput"@
    }

    fn gql_type_name() -> (r: String) {
        "BarInput".to_owned()
    }
}

impl Object for Query {
    open spec fn gql_name() -> Seq<char> {
        "Query"@
    }

    fn gql_type_name() -> (r: String) {
        "Query".to_owned()
    }
}

impl Register for BarOneOf {
    fn register(registry: Registry) -> (r: Registry)
        ensures
            (exists|d: InputObjectDef| #[trigger] bar_input_model(d) && r.input_types@
                == spec_upsert(registry.input_types@, d)),
            !has_key(registry.input_types@, "BarInput"@) ==> (r.input_types@
                == registry.input_types@.push(r.input_types@.last()) && bar_input_model(
                r.input_types@.last(),
            )),
            has_key(r.input_types@, "BarInput"@),
            r.types@ == registry.types@,
            r.pend() == registry.pend(),
            r.enums@ == registry.enums@,
            r.unions@ == registry.unions@,
            r.interfaces@ == registry.interfaces@,
            r.extend_types@ == registry.extend_types@,
    {
        let input_type = InputObjectDef::new("BarInput").oneof().field(
            InputValueDef::new("a", TypeRef::named("Int")),
        ).field(InputValueDef::new("b", TypeRef::named("Int")));
        let ghost d = input_type;
        let out = registry.register_input_object(input_type);
        proof {
            assert(d.fields@[0] == d.fields@.drop_last()[0]);
            assert(bar_input_model(d));
            lemma_upsert_keys(registry.input_types@, d);
            if !has_key(registry.input_types@, "BarInput"@) {
                lemma_upsert_fresh(registry.input_types@, d);
            }
        }
        out
    }
}

impl Register for Query {
    fn register(registry: Registry) -> (r: Registry)
        ensures
            (exists|d: ObjectDef| #[trigger] query_model(d@) && r.types@ == spec_upsert(
                registry.types@,
                d,
            )),
            !has_key(registry.types@, "Query"@) ==> (r.types@ == registry.types@.push(
                r.types@.last(),
            ) && query_model(r.types@.last()@)),
            has_key(r.types@, "Query"@),
            forall|k: Seq<char>| has_key(registry.types@, k) ==> has_key(r.types@, k),
            r.pend() == registry.pend(),
            r.enums@ == registry.enums@,
            r.unions@ == registry.unions@,
            r.interfaces@ == registry.interfaces@,
            r.input_types@ == registry.input_types@,
            r.extend_types@ == registry.extend_types@,
    {
        let object_type = ObjectDef::new("Query").field(
            FieldDef::new("by_bar", TypeRef::named_nn("String")).argument(
                InputValueDef::new("input", TypeRef::named_nn("BarInput")),
            ),
        );
        let ghost d = object_type;
        let out = registry.register_object(object_type);
        proof {
            assert(query_model(d@));
            lemma_upsert_keys(registry.types@, d);
            if !has_key(registry.types@, "Query"@) {
                lemma_upsert_fresh(registry.types@, d);
            }
        }
        out
    }
}

/// The schema this module assembles: the `oneOf` input and the query
/// object, and nothing else.
pub open spec fn assembled(s: Schema) -> bool {
    &&& s.query_name@ == "Query"@
    &&& s.mutation_name is None
    &&& s.enums@.len() == 0
    &&& s.unions@.len() == 0
    &&& s.interfaces@.len() == 0
    &&& s.input_types@.len() == 1
    &&& bar_input_model(s.input_types@[0])
    &&& s.extend_types@.len() == 0
    &&& s.types@.len() == 1
    &&& query_model(s.types@[0]@)
}

/// Assemble the schema for this module.  Nothing is pending, so the
/// assembly always succeeds, and the result holds exactly the registered
/// definitions.
pub fn create_schema() -> (r: Result<Schema, RegistrationFailure>)
    ensures
        r is Ok,
        r matches Ok(s) ==> assembled(s),
{
    let registry = Registry::new();
    let ghost t0 = registry.types@;
    let registry = Query::register(registry);
    let ghost t1 = registry.types@;
    proof {
        assert(!has_key(t0, "Query"@));
        assert(query_model(t1[0]@));
        assert(!has_key(registry.input_types@, "BarInput"@));
    }
    let registry = BarOneOf::register(registry);
    proof {
        assert(registry.types@ == t1);
        assert(bar_input_model(registry.input_types@[0]));
        assert(registry.pend() =~= Seq::<PendingModel>::empty());
        lemma_stuck_empty_iff(registry.objs(), registry.pend());
        assert(crate::registry::inject_all(registry.objs(), registry.pend()) == registry.objs());
    }
    let ghost objs = registry.objs();
    let ghost inputs0 = registry.input_types@;
    let r = registry.build_schema("Query", None);
    proof {
        if r is Ok {
            let s = r->Ok_0;
            let m = s.types@.map_values(|o: ObjectDef| o@);
            assert(m == objs);
            assert(s.types@.len() == 1);
            assert(m[0] == s.types@[0]@);
            assert(objs[0] == t1[0]@);
            assert(s.input_types@ == inputs0);
            assert(assembled(s));
        }
    }
    r
}

} // verus!
