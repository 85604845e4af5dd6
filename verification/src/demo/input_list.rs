//! List-typed inputs: one object whose fields each take a list argument —
//! of input objects, strings, numbers, booleans, and identifiers — and
//! whose resolvers echo what they received as text.
use vstd::prelude::*;

use crate::registry::{has_key, lemma_stuck_empty_iff, lemma_upsert_fresh, lemma_upsert_keys,
    spec_upsert, InputObject, NamedDef, Object, PendingModel, Register, RegistrationFailure,
    Registry};
use crate::schema::{join_names, join_str, str_views, Schema};
use crate::text::{i64_to_string, int_str};
use crate::types::{list_arg_nn, simple_arg_nn, simple_field_nn, FieldDef, InputObjectDef,
    InputValueDef, ObjectDef, ObjectModel, TypeRef};

verus! {

pub struct BarInput {
    pub bar: String,
}

/// The printed form of one input object value.
pub open spec fn bar_input_text(b: BarInput) -> Seq<char> {
    "BarInput { bar: "@ + b.bar@ + " }"@
}

impl BarInput {
    /// Render the input object the way its debugging form prints.
    pub fn to_text(&self) -> (r: String)
        ensures
            r@ == bar_input_text(*self),
    {
        let mut s = String::new();
        s.append("BarInput { bar: ");
        s.append(self.bar.as_str());
        s.append(" }");
        s
    }
}

pub struct Foo {}

pub struct Query {
    pub foo: Foo,
}

/// The printed forms of a list of input objects.
pub open spec fn bar_input_texts(bs: Seq<BarInput>) -> Seq<Seq<char>> {
    bs.map_values(|b: BarInput| bar_input_text(b))
}

/// The decimal forms of a list of integers.
pub open spec fn int_texts(is: Seq<i64>) -> Seq<Seq<char>> {
    is.map_values(|i: i64| int_str(i as int))
}

/// The printed forms of a list of booleans.
pub open spec fn bool_texts(bs: Seq<bool>) -> Seq<Seq<char>> {
    bs.map_values(
        |b: bool|
            if b {
                "true"@
            } else {
                "false"@
            },
    )
}

impl Foo {
    /// Echo a list of input objects.
    pub fn resolve_by_objects(&self, input: &Vec<BarInput>) -> (r: String)
        ensures
            r@ == "bar-inputs: ["@ + join_names(bar_input_texts(input@), ","@) + "]"@,
    {
        let n = input.len();
        let mut parts: Vec<String> = Vec::new();
        let mut i: usize = 0;
        while i < n
            invariant
                i <= n,
                n == input@.len(),
                str_views(parts@) == bar_input_texts(input@.take(i as int)),
            decreases n - i,
        {
            let ghost p0 = parts@;
            parts.push(input[i].to_text());
            proof {
                assert(str_views(p0).len() == bar_input_texts(input@.take(i as int)).len());
                assert(p0.len() == i as int);
                assert(parts@.len() == i + 1);
                assert(input@.take(i as int + 1).len() == i + 1);
                assert forall|j: int| 0 <= j < parts@.len() implies #[trigger] str_views(parts@)[j]
                    == bar_input_texts(input@.take(i as int + 1))[j] by {
                    assert(input@.take(i as int + 1)[j] == input@[j]);
                    if j < i {
                        assert(parts@[j] == p0[j]);
                        assert(str_views(p0)[j] == bar_input_texts(input@.take(i as int))[j]);
                        assert(input@.take(i as int)[j] == input@[j]);
                    } else {
                        assert(j == i);
                    }
                }
                assert(str_views(parts@) =~= bar_input_texts(input@.take(i as int + 1)));
            }
            i = i + 1;
        }
        proof {
            assert(input@.take(n as int) =~= input@);
        }
        let joined = join_str(&parts, ",");
        let mut s = String::new();
        s.append("bar-inputs: [");
        s.append(joined.as_str());
        s.append("]");
        s
    }

    /// Echo a list of strings.
    pub fn resolve_by_strings(&self, input: &Vec<String>) -> (r: String)
        ensures
            r@ == "strings: ["@ + join_names(str_views(input@), ","@) + "]"@,
    {
        let joined = join_str(input, ",");
        let mut s = String::new();
        s.append("strings: [");
        s.append(joined.as_str());
        s.append("]");
        s
    }

    /// Echo a list of identifiers.
    pub fn resolve_by_ids(&self, input: &Vec<String>) -> (r: String)
        ensures
            r@ == "ids: ["@ + join_names(str_views(input@), ","@) + "]"@,
    {
        let joined = join_str(input, ",");
        let mut s = String::new();
        s.append("ids: [");
        s.append(joined.as_str());
        s.append("]");
        s
    }

    /// Echo a list of integers.
    pub fn resolve_by_ints(&self, input: &Vec<i64>) -> (r: String)
        ensures
            r@ == "i32s: ["@ + join_names(int_texts(input@), ","@) + "]"@,
    {
        let n = input.len();
        let mut parts: Vec<String> = Vec::new();
        let mut i: usize = 0;
        while i < n
            invariant
                i <= n,
                n == input@.len(),
                str_views(parts@) == int_texts(input@.take(i as int)),
            decreases n - i,
        {
            let ghost p0 = parts@;
            parts.push(i64_to_string(input[i]));
            proof {
                assert(str_views(p0).len() == int_texts(input@.take(i as int)).len());
                assert(p0.len() == i as int);
                assert(parts@.len() == i + 1);
                assert(input@.take(i as int + 1).len() == i + 1);
                assert forall|j: int| 0 <= j < parts@.len() implies #[trigger] str_views(parts@)[j]
                    == int_texts(input@.take(i as int + 1))[j] by {
                    assert(input@.take(i as int + 1)[j] == input@[j]);
                    if j < i {
                        assert(parts@[j] == p0[j]);
                        assert(str_views(p0)[j] == int_texts(input@.take(i as int))[j]);
                        assert(input@.take(i as int)[j] == input@[j]);
                    } else {
                        assert(j == i);
                    }
                }
                assert(str_views(parts@) =~= int_texts(input@.take(i as int + 1)));
            }
            i = i + 1;
        }
        proof {
            assert(input@.take(n as int) =~= input@);
        }
        let joined = join_str(&parts, ",");
        let mut s = String::new();
        s.append("i32s: [");
        s.append(joined.as_str());
        s.append("]");
        s
    }

    /// Echo a list of booleans.
    pub fn resolve_by_bools(&self, input: &Vec<bool>) -> (r: String)
        ensures
            r@ == "bools: ["@ + join_names(bool_texts(input@), ","@) + "]"@,
    {
        let n = input.len();
        let mut parts: Vec<String> = Vec::new();
        let mut i: usize = 0;
        while i < n
            invariant
                i <= n,
                n == input@.len(),
                str_views(parts@) == bool_texts(input@.take(i as int)),
            decreases n - i,
        {
            let ghost p0 = parts@;
            if input[i] {
                parts.push("true".to_owned());
            } else {
                parts.push("false".to_owned());
            }
            proof {
                assert(str_views(p0).len() == bool_texts(input@.take(i as int)).len());
                assert(p0.len() == i as int);
                assert(parts@.len() == i + 1);
                assert(input@.take(i as int + 1).len() == i + 1);
                assert forall|j: int| 0 <= j < parts@.len() implies #[trigger] str_views(parts@)[j]
                    == bool_texts(input@.take(i as int + 1))[j] by {
                    assert(input@.take(i as int + 1)[j] == input@[j]);
                    if j < i {
                        assert(parts@[j] == p0[j]);
                        assert(str_views(p0)[j] == bool_texts(input@.take(i as int))[j]);
                        assert(input@.take(i as int)[j] == input@[j]);
                    } else {
                        assert(j == i);
                    }
                }
                assert(str_views(parts@) =~= bool_texts(input@.take(i as int + 1)));
            }
            i = i + 1;
        }
        proof {
            assert(input@.take(n as int) =~= input@);
        }
        let joined = join_str(&parts, ",");
        let mut s = String::new();
        s.append("bools: [");
        s.append(joined.as_str());
        s.append("]");
        s
    }
}

impl Query {
    pub fn resolve_foo(&self) -> (r: &Foo)
        ensures
            r == &self.foo,
    {
        &self.foo
    }
}

/// The input object definition this module registers: `BarInput` with
/// exactly the field `bar: String!`.
pub open spec fn bar_input_model(d: InputObjectDef) -> bool {
    &&& d.name@ == "BarInput"@
    &&& !d.oneof
    &&& d.fields@.len() == 1
    &&& simple_arg_nn(d.fields@[0], "bar"@, "String"@)
}

/// The definition this module registers for `Foo`: six fields, each with
/// one list argument named `input`, in this order and with these types.
pub open spec fn foo_model(o: ObjectModel) -> bool {
    &&& o.name == "Foo"@
    &&& o.implements.len() == 0
    &&& o.fields.len() == 6
    &&& one_arg_list_field(o.fields[0], "by_objects"@, "String"@, "BarInput"@)
    &&& one_arg_list_field(o.fields[1], "by_strings"@, "String"@, "String"@)
    &&& one_arg_list_field(o.fields[2], "by_ints"@, "Int"@, "Int"@)
    &&& one_arg_list_field(o.fields[3], "by_floats"@, "Float"@, "Float"@)
    &&& one_arg_list_field(o.fields[4], "by_bools"@, "Boolean"@, "Boolean"@)
    &&& one_arg_list_field(o.fields[5], "by_ids"@, "ID"@, "ID"@)
}

/// A field `name(input: [elem!]!): rty!`.
pub open spec fn one_arg_list_field(
    f: FieldDef,
    name: Seq<char>,
    rty: Seq<char>,
    elem: Seq<char>,
) -> bool {
    &&& f.name@ == name
    &&& crate::types::is_named_nn(f.ty, rty)
    &&& f.args@.len() == 1
    &&& list_arg_nn(f.args@[0], "input"@, elem)
}

/// The definition this module registers for `Query`: exactly `foo: Foo!`.
pub open spec fn query_model(o: ObjectModel) -> bool {
    &&& o.name == "Query"@
    &&& o.implements.len() == 0
    &&& o.fields.len() == 1
    &&& simple_field_nn(o.fields[0], "foo"@, "Foo"@)
}

impl InputObject for BarInput {
    open spec fn gql_name() -> Seq<char> {
        "BarInput"@
    }

    fn gql_type_name() -> (r: String) {
        "BarInput".to_owned()
    }
}

impl Object for Foo {
    open spec fn gql_name() -> Seq<char> {
        "Foo"@
    }

    fn gql_type_name() -> (r: String) {
        "Foo".to_owned()
    }
}

impl Object for Query {
    open spec fn gql_name() -> Seq<char> {
        "Query"@
    }

    fn gql_type_name() -> (r: String) {
        "Query".to_owned()
    }
}

impl Register for BarInput {
    fn register(registry: Registry) -> (r: Registry)
        ensures
            (exists|d: InputObjectDef| #[trigger] bar_input_model(d) && r.input_types@
                == spec_upsert(registry.input_types@, d)),
            !has_key(registry.input_types@, "BarInput"@) ==> (r.input_types@
                == registry.input_types@.push(r.input_types@.last()) && bar_input_model(
                r.input_types@.last(),
            )),
            has_key(r.input_types@, "BarInput"@),
            r.types@ == registry.types@,
            r.pend() == registry.pend(),
            r.enums@ == registry.enums@,
            r.unions@ == registry.unions@,
            r.interfaces@ == registry.interfaces@,
            r.extend_types@ == registry.extend_types@,
    {
        let input_type = InputObjectDef::new("BarInput").field(
            InputValueDef::new("bar", TypeRef::named_nn("String")),
        );
        let ghost d = input_type;
        let out = registry.register_input_object(input_type);
        proof {
            assert(bar_input_model(d));
            lemma_upsert_keys(registry.input_types@, d);
            if !has_key(registry.input_types@, "BarInput"@) {
                lemma_upsert_fresh(registry.input_types@, d);
            }
        }
        out
    }
}

impl Register for Foo {
    fn register(registry: Registry) -> (r: Registry)
        ensures
            (exists|d: ObjectDef| #[trigger] foo_model(d@) && r.types@ == spec_upsert(
                registry.types@,
                d,
            )),
            !has_key(registry.types@, "Foo"@) ==> (r.types@ == registry.types@.push(
                r.types@.last(),
            ) && foo_model(r.types@.last()@)),
            has_key(r.types@, "Foo"@),
            forall|k: Seq<char>| has_key(registry.types@, k) ==> has_key(r.types@, k),
            r.pend() == registry.pend(),
            r.enums@ == registry.enums@,
            r.unions@ == registry.unions@,
            r.interfaces@ == registry.interfaces@,
            r.input_types@ == registry.input_types@,
            r.extend_types@ == registry.extend_types@,
    {
        let object_type = ObjectDef::new("Foo").field(
            FieldDef::new("by_objects", TypeRef::named_nn("String")).argument(
                InputValueDef::new("input", TypeRef::list_nn(TypeRef::named_nn("BarInput"))),
            ),
        ).field(
            FieldDef::new("by_strings", TypeRef::named_nn("String")).argument(
                InputValueDef::new("input", TypeRef::list_nn(TypeRef::named_nn("String"))),
            ),
        ).field(
            FieldDef::new("by_ints", TypeRef::named_nn("Int")).argument(
                InputValueDef::new("input", TypeRef::list_nn(TypeRef::named_nn("Int"))),
            ),
        ).field(
            FieldDef::new("by_floats", TypeRef::named_nn("Float")).argument(
                InputValueDef::new("input", TypeRef::list_nn(TypeRef::named_nn("Float"))),
            ),
        ).field(
            FieldDef::new("by_bools", TypeRef::named_nn("Boolean")).argument(
                InputValueDef::new("input", TypeRef::list_nn(TypeRef::named_nn("Boolean"))),
            ),
        ).field(
            FieldDef::new("by_ids", TypeRef::named_nn("ID")).argument(
                InputValueDef::new("input", TypeRef::list_nn(TypeRef::named_nn("ID"))),
            ),
        );
        let ghost d = object_type;
        let out = registry.register_object(object_type);
        proof {
            assert(d@.fields[0] == d@.fields.drop_last().drop_last().drop_last().drop_last().drop_last()[0]);
            assert(d@.fields[1] == d@.fields.drop_last().drop_last().drop_last().drop_last()[1]);
            assert(d@.fields[2] == d@.fields.drop_last().drop_last().drop_last()[2]);
            assert(d@.fields[3] == d@.fields.drop_last().drop_last()[3]);
            assert(d@.fields[4] == d@.fields.drop_last()[4]);
            assert(foo_model(d@));
            lemma_upsert_keys(registry.types@, d);
            if !has_key(registry.types@, "Foo"@) {
                lemma_upsert_fresh(registry.types@, d);
            }
        }
        out
    }
}

impl Register for Query {
    fn register(registry: Registry) -> (r: Registry)
        ensures
            (exists|d: ObjectDef| #[trigger] query_model(d@) && r.types@ == spec_upsert(
                registry.types@,
                d,
            )),
            !has_key(registry.types@, "Query"@) ==> (r.types@ == registry.types@.push(
                r.types@.last(),
            ) && query_model(r.types@.last()@)),
            has_key(r.types@, "Query"@),
            forall|k: Seq<char>| has_key(registry.types@, k) ==> has_key(r.types@, k),
            r.pend() == registry.pend(),
            r.enums@ == registry.enums@,
            r.unions@ == registry.unions@,
            r.interfaces@ == registry.interfaces@,
            r.input_types@ == registry.input_types@,
            r.extend_types@ == registry.extend_types@,
    {
        let object_type = ObjectDef::new("Query").field(
            FieldDef::new("foo", TypeRef::named_nn("Foo")),
        );
        let ghost d = object_type;
        let out = registry.register_object(object_type);
        proof {
            assert(query_model(d@));
            lemma_upsert_keys(registry.types@, d);
            if !has_key(registry.types@, "Query"@) {
                lemma_upsert_fresh(registry.types@, d);
            }
        }
        out
    }
}

/// The schema this module assembles: the input object and the two
/// objects, in registration order, and nothing else.
pub open spec fn assembled(s: Schema) -> bool {
    &&& s.query_name@ == "Query"@
    &&& s.mutation_name is None
    &&& s.enums@.len() == 0
    &&& s.unions@.len() == 0
    &&& s.interfaces@.len() == 0
    &&& s.input_types@.len() == 1
    &&& bar_input_model(s.input_types@[0])
    &&& s.extend_types@.len() == 0
    &&& s.types@.len() == 2
    &&& query_model(s.types@[0]@)
    &&& foo_model(s.types@[1]@)
}

/// Assemble the schema for this module.  Nothing is pending, so the
/// assembly always succeeds, and the result holds exactly the registered
/// definitions.
pub fn create_schema() -> (r: Result<Schema, RegistrationFailure>)
    ensures
        r is Ok,
        r matches Ok(s) ==> assembled(s),
{
    let registry = Registry::new();
    let ghost t0 = registry.types@;
    let registry = Query::register(registry);
    let ghost t1 = registry.types@;
    proof {
        assert(!has_key(t0, "Query"@));
        assert(query_model(t1[0]@));
        reveal_strlit("Query");
        reveal_strlit("Foo");
        assert("Query"@.len() == 5);
        assert("Foo"@.len() == 3);
        assert("Query"@ != "Foo"@);
        assert(t1[0].key() == "Query"@);
        assert(!has_key(t1, "Foo"@));
    }
    let registry = Foo::register(registry);
    let ghost t2 = registry.types@;
    proof {
        assert(t2[0] == t1[0]);
        assert(query_model(t2[0]@) && foo_model(t2[1]@));
        assert(!has_key(registry.input_types@, "BarInput"@));
    }
    let registry = BarInput::register(registry);
    proof {
        assert(registry.types@ == t2);
        assert(bar_input_model(registry.input_types@[0]));
        assert(registry.pend() =~= Seq::<PendingModel>::empty());
        lemma_stuck_empty_iff(registry.objs(), registry.pend());
        assert(crate::registry::inject_all(registry.objs(), registry.pend()) == registry.objs());
    }
    let ghost objs = registry.objs();
    let ghost inputs0 = registry.input_types@;
    let r = registry.build_schema("Query", None);
    proof {
        if r is Ok {
            let s = r->Ok_0;
            let m = s.types@.map_values(|o: ObjectDef| o@);
            assert(m == objs);
            assert(s.types@.len() == 2);
            assert(m[0] == s.types@[0]@ && m[1] == s.types@[1]@);
            assert(objs[0] == t2[0]@ && objs[1] == t2[1]@);
            assert(s.input_types@ == inputs0);
            assert(assembled(s));
        }
    }
    r
}

} // verus!
