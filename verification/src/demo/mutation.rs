//! A mutation root expanded by another module: a counter read by a query
//! field and moved by two mutation fields.  The counter here is owned by
//! the root value; an embedding that shares it across concurrent requests
//! must add its own synchronization around it.
use vstd::prelude::*;

use crate::registry::{has_key, lemma_inject_one_at, lemma_inject_one_names, lemma_stuck_empty_iff,
    lemma_upsert_fresh, lemma_upsert_keys, spec_upsert, ExpandObject, ExpandObjectContext,
    NamedDef, Object, PendingModel, Register, RegistrationFailure, Registry};
use crate::schema::Schema;
use crate::types::{simple_field_nn, FieldDef, ObjectDef, ObjectModel, TypeRef};

verus! {

/// The counter store.
pub struct DB {
    pub count: i64,
}

impl DB {
    pub fn new() -> (r: DB)
        ensures
            r.count == 0,
    {
        DB { count: 0 }
    }

    pub fn increment(&mut self)
        requires
            old(self).count < i64::MAX,
        ensures
            final(self).count == old(self).count + 1,
    {
        self.count = self.count + 1;
    }

    pub fn decrement(&mut self)
        requires
            old(self).count > i64::MIN,
        ensures
            final(self).count == old(self).count - 1,
    {
        self.count = self.count - 1;
    }

    pub fn get_count(&self) -> (r: i64)
        ensures
            r == self.count,
    {
        self.count
    }
}

/// The root value behind both operation types, registered as `Query`.
pub struct Root {
    pub db: DB,
}

impl Root {
    pub fn new() -> (r: Root)
        ensures
            r.db.count == 0,
    {
        Root { db: DB::new() }
    }
}

impl Default for Root {
    fn default() -> (r: Root)
        ensures
            r.db.count == 0,
    {
        Root::new()
    }
}

/// The module that expands `Query` with the `count` field.
pub struct CountQuery {}

impl ExpandObject for CountQuery {
    type Target = Root;
}

impl CountQuery {
    pub fn resolve_count(parent: &Root) -> (r: i64)
        ensures
            r == parent.db.count,
    {
        parent.db.get_count()
    }
}

/// The bare mutation root.
pub struct MutationRoot {}

/// The module that expands `Mutation` with `increment` and `decrement`.
pub struct CountMutations {}

impl ExpandObject for CountMutations {
    type Target = MutationRoot;
}

impl CountMutations {
    pub fn resolve_increment(parent: &mut Root) -> (r: i64)
        requires
            old(parent).db.count < i64::MAX,
        ensures
            final(parent).db.count == old(parent).db.count + 1,
            r == final(parent).db.count,
    {
        parent.db.increment();
        parent.db.get_count()
    }

    pub fn resolve_decrement(parent: &mut Root) -> (r: i64)
        requires
            old(parent).db.count > i64::MIN,
        ensures
            final(parent).db.count == old(parent).db.count - 1,
            r == final(parent).db.count,
    {
        parent.db.decrement();
        parent.db.get_count()
    }
}

/// The bare definition this module registers for `Query`; the `count`
/// field arrives by injection.
pub open spec fn query_base_model(o: ObjectModel) -> bool {
    &&& o.name == "Query"@
    &&& o.implements.len() == 0
    &&& o.fields.len() == 0
}

/// `Query` after the fixpoint: exactly the injected `count: Int!`.
pub open spec fn query_expanded_model(o: ObjectModel) -> bool {
    &&& o.name == "Query"@
    &&& o.implements.len() == 0
    &&& o.fields.len() == 1
    &&& simple_field_nn(o.fields[0], "count"@, "Int"@)
}

/// The bare definition this module registers for `Mutation`; its fields
/// arrive by injection.
pub open spec fn mutation_base_model(o: ObjectModel) -> bool {
    &&& o.name == "Mutation"@
    &&& o.implements.len() == 0
    &&& o.fields.len() == 0
}

/// `Mutation` after the fixpoint: exactly the injected `increment: Int!`
/// and `decrement: Int!`.
pub open spec fn mutation_expanded_model(o: ObjectModel) -> bool {
    &&& o.name == "Mutation"@
    &&& o.implements.len() == 0
    &&& o.fields.len() == 2
    &&& simple_field_nn(o.fields[0], "increment"@, "Int"@)
    &&& simple_field_nn(o.fields[1], "decrement"@, "Int"@)
}

/// The injection `CountQuery` enqueues: `count: Int!` onto `Query`, with
/// its provenance.
pub open spec fn count_injection(p: PendingModel) -> bool {
    &&& p.target == "Query"@
    &&& p.fields.len() == 1
    &&& simple_field_nn(p.fields[0], "count"@, "Int"@)
    &&& p.implements.len() == 0
    &&& p.definition == "CountQuery"@
    &&& p.field == "count"@
}

/// The injection `CountMutations` enqueues: `increment: Int!` and
/// `decrement: Int!` onto `Mutation`, with its provenance.
pub open spec fn count_mutations_injection(p: PendingModel) -> bool {
    &&& p.target == "Mutation"@
    &&& p.fields.len() == 2
    &&& simple_field_nn(p.fields[0], "increment"@, "Int"@)
    &&& simple_field_nn(p.fields[1], "decrement"@, "Int"@)
    &&& p.implements.len() == 0
    &&& p.definition == "CountMutations"@
    &&& p.field == "count"@
}

impl Object for Root {
    open spec fn gql_name() -> Seq<char> {
        "Query"@
    }

    fn gql_type_name() -> (r: String) {
        "Query".to_owned()
    }
}

impl Object for MutationRoot {
    open spec fn gql_name() -> Seq<char> {
        "Mutation"@
    }

    fn gql_type_name() -> (r: String) {
        "Mutation".to_owned()
    }
}

impl Register for Root {
    fn register(registry: Registry) -> (r: Registry)
        ensures
            (exists|d: ObjectDef| #[trigger] query_base_model(d@) && r.types@ == spec_upsert(
                registry.types@,
                d,
            )),
            !has_key(registry.types@, "Query"@) ==> (r.types@ == registry.types@.push(
                r.types@.last(),
            ) && query_base_model(r.types@.last()@)),
            has_key(r.types@, "Query"@),
            forall|k: Seq<char>| has_key(registry.types@, k) ==> has_key(r.types@, k),
            r.pend() == registry.pend(),
            r.enums@ == registry.enums@,
            r.unions@ == registry.unions@,
            r.interfaces@ == registry.interfaces@,
            r.input_types@ == registry.input_types@,
            r.extend_types@ == registry.extend_types@,
    {
        let object_type = ObjectDef::new("Query");
        let ghost d = object_type;
        let out = registry.register_object(object_type);
        proof {
            assert(query_base_model(d@));
            lemma_upsert_keys(registry.types@, d);
            if !has_key(registry.types@, "Query"@) {
                lemma_upsert_fresh(registry.types@, d);
            }
        }
        out
    }
}

impl Register for MutationRoot {
    fn register(registry: Registry) -> (r: Registry)
        ensures
            (exists|d: ObjectDef| #[trigger] mutation_base_model(d@) && r.types@ == spec_upsert(
                registry.types@,
                d,
            )),
            !has_key(registry.types@, "Mutation"@) ==> (r.types@ == registry.types@.push(
                r.types@.last(),
            ) && mutation_base_model(r.types@.last()@)),
            has_key(r.types@, "Mutation"@),
            forall|k: Seq<char>| has_key(registry.types@, k) ==> has_key(r.types@, k),
            r.pend() == registry.pend(),
            r.enums@ == registry.enums@,
            r.unions@ == registry.unions@,
            r.interfaces@ == registry.interfaces@,
            r.input_types@ == registry.input_types@,
            r.extend_types@ == registry.extend_types@,
    {
        let object_type = ObjectDef::new("Mutation");
        let ghost d = object_type;
        let out = registry.register_object(object_type);
        proof {
            assert(mutation_base_model(d@));
            lemma_upsert_keys(registry.types@, d);
            if !has_key(registry.types@, "Mutation"@) {
                lemma_upsert_fresh(registry.types@, d);
            }
        }
        out
    }
}

impl Register for CountQuery {
    fn register(registry: Registry) -> (r: Registry)
        ensures
            r.pend() == registry.pend().push(r.pend().last()),
            count_injection(r.pend().last()),
            r.types@ == registry.types@,
            r.enums@ == registry.enums@,
            r.unions@ == registry.unions@,
            r.interfaces@ == registry.interfaces@,
            r.input_types@ == registry.input_types@,
            r.extend_types@ == registry.extend_types@,
    {
        let mut fields: Vec<FieldDef> = Vec::new();
        fields.push(FieldDef::new("count", TypeRef::named_nn("Int")));
        let out = registry.update_object(
            "Query",
            fields,
            Vec::new(),
            ExpandObjectContext::new("CountQuery", "count"),
        );
        proof {
            assert(out.pend().last().implements =~= Seq::<Seq<char>>::empty());
            assert(count_injection(out.pend().last()));
        }
        out
    }
}

impl Register for CountMutations {
    fn register(registry: Registry) -> (r: Registry)
        ensures
            r.pend() == registry.pend().push(r.pend().last()),
            count_mutations_injection(r.pend().last()),
            r.types@ == registry.types@,
            r.enums@ == registry.enums@,
            r.unions@ == registry.unions@,
            r.interfaces@ == registry.interfaces@,
            r.input_types@ == registry.input_types@,
            r.extend_types@ == registry.extend_types@,
    {
        let mut fields: Vec<FieldDef> = Vec::new();
        fields.push(FieldDef::new("increment", TypeRef::named_nn("Int")));
        fields.push(FieldDef::new("decrement", TypeRef::named_nn("Int")));
        let out = registry.update_object(
            "Mutation",
            fields,
            Vec::new(),
            ExpandObjectContext::new("CountMutations", "count"),
        );
        proof {
            assert(out.pend().last().implements =~= Seq::<Seq<char>>::empty());
            assert(out.pend().last().fields[0] == out.pend().last().fields.drop_last()[0]);
            assert(count_mutations_injection(out.pend().last()));
        }
        out
    }
}

/// The schema this module assembles: after the fixpoint, `Query` carries
/// `count` and `Mutation` carries `increment` and `decrement`, under the
/// two root operation types.
pub open spec fn assembled(s: Schema) -> bool {
    &&& s.query_name@ == "Query"@
    &&& s.mutation_name matches Some(m) && m@ == "Mutation"@
    &&& s.enums@.len() == 0
    &&& s.unions@.len() == 0
    &&& s.interfaces@.len() == 0
    &&& s.input_types@.len() == 0
    &&& s.extend_types@.len() == 0
    &&& s.types@.len() == 2
    &&& query_expanded_model(s.types@[0]@)
    &&& mutation_expanded_model(s.types@[1]@)
}

/// Assemble the schema for this module.  Both queued injections target
/// registered objects, so the fixpoint always resolves them, the assembly
/// always succeeds, and the result is the expanded schema.
pub fn create_schema() -> (r: Result<Schema, RegistrationFailure>)
    ensures
        r is Ok,
        r matches Ok(s) ==> assembled(s),
{
    let registry = Registry::new();
    let ghost t0 = registry.types@;
    let registry = Root::register(registry);
    let ghost t1 = registry.types@;
    proof {
        assert(!has_key(t0, "Query"@));
        assert(query_base_model(t1[0]@));
        reveal_strlit("Query");
        reveal_strlit("Mutation");
        assert("Query"@.len() == 5);
        assert("Mutation"@.len() == 8);
        assert("Query"@ != "Mutation"@);
        assert(t1[0].key() == "Query"@);
        assert(!has_key(t1, "Mutation"@));
    }
    let registry = CountQuery::register(registry);
    let ghost p1 = registry.pend();
    let registry = MutationRoot::register(registry);
    let ghost t2 = registry.types@;
    proof {
        assert(t2[0] == t1[0]);
        assert(query_base_model(t2[0]@) && mutation_base_model(t2[1]@));
    }
    let registry = CountMutations::register(registry);
    let ghost objs = registry.objs();
    let ghost ps = registry.pend();
    proof {
        assert(registry.types@ == t2);
        assert(objs.len() == 2);
        assert(objs[0] == t2[0]@ && objs[1] == t2[1]@);
        assert(ps.len() == 2);
        assert(ps[0] == p1[0]) by {
            assert(ps.drop_last()[0] == ps[0]);
        }
        assert(count_injection(ps[0])) by {
            assert(p1.last() == p1[0]);
        }
        assert(count_mutations_injection(ps[1])) by {
            assert(ps.last() == ps[1]);
        }
        assert(crate::registry::objs_unique(objs)) by {
            assert forall|i: int, j: int| 0 <= i < j < objs.len() implies objs[i].name != objs[
                j].name by {
                assert(objs[0].name == "Query"@ && objs[1].name == "Mutation"@);
            }
        }
        lemma_inject_one_at(objs, ps[0], 0);
        let s1 = crate::registry::inject_one(objs, ps[0]);
        lemma_inject_one_names(objs, ps[0]);
        assert(s1.len() == 2 && s1[1].name == "Mutation"@ && s1[0].name == "Query"@);
        assert(crate::registry::objs_unique(s1)) by {
            assert forall|i: int, j: int| 0 <= i < j < s1.len() implies s1[i].name != s1[
                j].name by {
                assert(s1[0].name == "Query"@ && s1[1].name == "Mutation"@);
            }
        }
        lemma_inject_one_at(s1, ps[1], 1);
        let s2 = crate::registry::inject_one(s1, ps[1]);
        assert(crate::registry::inject_all(objs, ps) == s2) by {
            assert(ps.drop_first()[0] == ps[1]);
            assert(ps.drop_first().drop_first() =~= Seq::<PendingModel>::empty());
            assert(crate::registry::inject_all(s2, ps.drop_first().drop_first()) == s2);
            assert(crate::registry::inject_all(s1, ps.drop_first()) == s2);
        }
        assert(query_expanded_model(s2[0])) by {
            assert(s1[0].fields == objs[0].fields + ps[0].fields);
            assert(s1[0].fields.len() == 1 && s1[0].fields[0] == ps[0].fields[0]);
            assert(s1[0].implements.len() == 0);
            assert(s2[0] == s1[0]);
        }
        assert(mutation_expanded_model(s2[1])) by {
            assert(s1[1] == objs[1]);
            assert(s2[1].fields == s1[1].fields + ps[1].fields);
            assert(s2[1].fields.len() == 2);
            assert(s2[1].fields[0] == ps[1].fields[0] && s2[1].fields[1] == ps[1].fields[1]);
            assert(s2[1].implements.len() == 0);
        }
        assert(crate::registry::has_obj(objs, ps[0].target));
        assert(crate::registry::has_obj(objs, ps[1].target));
        assert forall|i: int| 0 <= i < ps.len() implies crate::registry::has_obj(
            objs,
            #[trigger] ps[i].target,
        ) by {
            assert(i == 0 || i == 1);
        }
        lemma_stuck_empty_iff(objs, ps);
    }
    let r = registry.build_schema("Query", Some("Mutation"));
    proof {
        if r is Ok {
            let s = r->Ok_0;
            let m = s.types@.map_values(|o: ObjectDef| o@);
            assert(m == crate::registry::inject_all(objs, ps));
            assert(crate::registry::inject_all(objs, ps) == crate::registry::inject_one(
                crate::registry::inject_one(objs, ps[0]),
                ps[1],
            ));
            assert(m.len() == 2);
            assert(s.types@.len() == 2);
            assert(m[0] == s.types@[0]@ && m[1] == s.types@[1]@);
            assert(assembled(s));
        }
    }
    r
}

} // verus!
