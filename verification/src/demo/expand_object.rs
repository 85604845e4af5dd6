//! Deferred field injection: one module owns the bare `Query` object,
//! another attaches a `me` field to it without seeing its source.  The
//! injection is queued and applied during assembly, so it may be requested
//! before or after its target is registered.
use vstd::prelude::*;

use crate::registry::{has_key, lemma_has_key_has_obj, lemma_inject_one_at, lemma_stuck_empty_iff,
    lemma_upsert_fresh, lemma_upsert_keys, spec_upsert, ExpandObject, ExpandObjectContext,
    NamedDef, Object, PendingModel, Register, RegistrationFailure, Registry};
use crate::schema::Schema;
use crate::types::{simple_field, simple_field_nn, FieldDef, ObjectDef, ObjectModel, TypeRef};

verus! {

pub struct Query {}

pub struct User {
    pub id: String,
    pub name: String,
    pub avatar: Option<Image>,
}

pub struct Image {
    pub url: String,
}

/// The module that expands `Query` with a `me` field.
pub struct MeQuery {}

impl ExpandObject for MeQuery {
    type Target = Query;
}

impl MeQuery {
    /// The resolver the injected field runs: a freshly constructed user.
    pub fn resolve_me(_parent: &Query) -> (r: Option<User>)
        ensures
            r matches Some(u) && u.id@ == "1"@ && u.name@ == "John"@ && (u.avatar matches Some(img)
                && img.url@ == "https://example.com/avatar.png"@),
    {
        Some(
            User {
                id: "1".to_owned(),
                name: "John".to_owned(),
                avatar: Some(Image { url: "https://example.com/avatar.png".to_owned() }),
            },
        )
    }
}

/// The bare definition this module registers for `Query`: no fields of
/// its own; the `me` field arrives by injection.
pub open spec fn query_base_model(o: ObjectModel) -> bool {
    &&& o.name == "Query"@
    &&& o.implements.len() == 0
    &&& o.fields.len() == 0
}

/// `Query` after the fixpoint: exactly the injected nullable `me: User`.
pub open spec fn query_expanded_model(o: ObjectModel) -> bool {
    &&& o.name == "Query"@
    &&& o.implements.len() == 0
    &&& o.fields.len() == 1
    &&& simple_field(o.fields[0], "me"@, "User"@)
}

/// The definition this module registers for `User`: exactly the fields
/// `id: String!`, `name: String!`, `avatar: Image`.
pub open spec fn user_model(o: ObjectModel) -> bool {
    &&& o.name == "User"@
    &&& o.implements.len() == 0
    &&& o.fields.len() == 3
    &&& simple_field_nn(o.fields[0], "id"@, "String"@)
    &&& simple_field_nn(o.fields[1], "name"@, "String"@)
    &&& simple_field(o.fields[2], "avatar"@, "Image"@)
}

/// The definition this module registers for `Image`: exactly
/// `url: String!`.
pub open spec fn image_model(o: ObjectModel) -> bool {
    &&& o.name == "Image"@
    &&& o.implements.len() == 0
    &&& o.fields.len() == 1
    &&& simple_field_nn(o.fields[0], "url"@, "String"@)
}

/// The injection `MeQuery` enqueues: the nullable field `me: User` onto
/// `Query`, no interface declarations, provenance `MeQuery`/`me`.
pub open spec fn me_injection(p: PendingModel) -> bool {
    &&& p.target == "Query"@
    &&& p.fields.len() == 1
    &&& simple_field(p.fields[0], "me"@, "User"@)
    &&& p.implements.len() == 0
    &&& p.definition == "MeQuery"@
    &&& p.field == "me"@
}

impl Object for Query {
    open spec fn gql_name() -> Seq<char> {
        "Query"@
    }

    fn gql_type_name() -> (r: String) {
        "Query".to_owned()
    }
}

impl Object for User {
    open spec fn gql_name() -> Seq<char> {
        "User"@
    }

    fn gql_type_name() -> (r: String) {
        "User".to_owned()
    }
}

impl Object for Image {
    open spec fn gql_name() -> Seq<char> {
        "Image"@
    }

    fn gql_type_name() -> (r: String) {
        "Image".to_owned()
    }
}

impl Register for Query {
    fn register(registry: Registry) -> (r: Registry)
        ensures
            (exists|d: ObjectDef| #[trigger] query_base_model(d@) && r.types@ == spec_upsert(
                registry.types@,
                d,
            )),
            !has_key(registry.types@, "Query"@) ==> (r.types@ == registry.types@.push(
                r.types@.last(),
            ) && query_base_model(r.types@.last()@)),
            has_key(r.types@, "Query"@),
            forall|k: Seq<char>| has_key(registry.types@, k) ==> has_key(r.types@, k),
            r.pend() == registry.pend(),
            r.enums@ == registry.enums@,
            r.unions@ == registry.unions@,
            r.interfaces@ == registry.interfaces@,
            r.input_types@ == registry.input_types@,
            r.extend_types@ == registry.extend_types@,
    {
        let object_type = ObjectDef::new("Query");
        let ghost d = object_type;
        let out = registry.register_object(object_type);
        proof {
            assert(query_base_model(d@));
            lemma_upsert_keys(registry.types@, d);
            if !has_key(registry.types@, "Query"@) {
                lemma_upsert_fresh(registry.types@, d);
            }
        }
        out
    }
}

impl Register for MeQuery {
    fn register(registry: Registry) -> (r: Registry)
        ensures
            r.pend() == registry.pend().push(r.pend().last()),
            me_injection(r.pend().last()),
            r.types@ == registry.types@,
            r.enums@ == registry.enums@,
            r.unions@ == registry.unions@,
            r.interfaces@ == registry.interfaces@,
            r.input_types@ == registry.input_types@,
            r.extend_types@ == registry.extend_types@,
    {
        let mut fields: Vec<FieldDef> = Vec::new();
        fields.push(FieldDef::new("me", TypeRef::named("User")));
        let out = registry.update_object(
            "Query",
            fields,
            Vec::new(),
            ExpandObjectContext::new("MeQuery", "me"),
        );
        proof {
            assert(out.pend().last().implements =~= Seq::<Seq<char>>::empty());
            assert(me_injection(out.pend().last()));
        }
        out
    }
}

impl Register for User {
    fn register(registry: Registry) -> (r: Registry)
        ensures
            (exists|d: ObjectDef| #[trigger] user_model(d@) && r.types@ == spec_upsert(
                registry.types@,
                d,
            )),
            !has_key(registry.types@, "User"@) ==> (r.types@ == registry.types@.push(
                r.types@.last(),
            ) && user_model(r.types@.last()@)),
            has_key(r.types@, "User"@),
            forall|k: Seq<char>| has_key(registry.types@, k) ==> has_key(r.types@, k),
            r.pend() == registry.pend(),
            r.enums@ == registry.enums@,
            r.unions@ == registry.unions@,
            r.interfaces@ == registry.interfaces@,
            r.input_types@ == registry.input_types@,
            r.extend_types@ == registry.extend_types@,
    {
        let object_type = ObjectDef::new("User").field(
            FieldDef::new("id", TypeRef::named_nn("String")),
        ).field(FieldDef::new("name", TypeRef::named_nn("String"))).field(
            FieldDef::new("avatar", TypeRef::named("Image")),
        );
        let ghost d = object_type;
        let out = registry.register_object(object_type);
        proof {
            assert(user_model(d@));
            lemma_upsert_keys(registry.types@, d);
            if !has_key(registry.types@, "User"@) {
                lemma_upsert_fresh(registry.types@, d);
            }
        }
        out
    }
}

impl Register for Image {
    fn register(registry: Registry) -> (r: Registry)
        ensures
            (exists|d: ObjectDef| #[trigger] image_model(d@) && r.types@ == spec_upsert(
                registry.types@,
                d,
            )),
            !has_key(registry.types@, "Image"@) ==> (r.types@ == registry.types@.push(
                r.types@.last(),
            ) && image_model(r.types@.last()@)),
            has_key(r.types@, "Image"@),
            forall|k: Seq<char>| has_key(registry.types@, k) ==> has_key(r.types@, k),
            r.pend() == registry.pend(),
            r.enums@ == registry.enums@,
            r.unions@ == registry.unions@,
            r.interfaces@ == registry.interfaces@,
            r.input_types@ == registry.input_types@,
            r.extend_types@ == registry.extend_types@,
    {
        let object_type = ObjectDef::new("Image").field(
            FieldDef::new("url", TypeRef::named_nn("String")),
        );
        let ghost d = object_type;
        let out = registry.register_object(object_type);
        proof {
            assert(image_model(d@));
            lemma_upsert_keys(registry.types@, d);
            if !has_key(registry.types@, "Image"@) {
                lemma_upsert_fresh(registry.types@, d);
            }
        }
        out
    }
}

/// The schema this module assembles: after the fixpoint, `Query` carries
/// the injected `me` field, and the other definitions are exactly as
/// registered.
pub open spec fn assembled(s: Schema) -> bool {
    &&& s.query_name@ == "Query"@
    &&& s.mutation_name is None
    &&& s.enums@.len() == 0
    &&& s.unions@.len() == 0
    &&& s.interfaces@.len() == 0
    &&& s.input_types@.len() == 0
    &&& s.extend_types@.len() == 0
    &&& s.types@.len() == 3
    &&& query_expanded_model(s.types@[0]@)
    &&& user_model(s.types@[1]@)
    &&& image_model(s.types@[2]@)
}

/// Assemble the schema for this module.  The one queued injection targets
/// `Query`, which is registered, so the fixpoint always resolves it, the
/// assembly always succeeds, and the result is the expanded schema.
pub fn create_schema() -> (r: Result<Schema, RegistrationFailure>)
    ensures
        r is Ok,
        r matches Ok(s) ==> assembled(s),
{
    let registry = Registry::new();
    let ghost t0 = registry.types@;
    let registry = Query::register(registry);
    let ghost t1 = registry.types@;
    proof {
        assert(!has_key(t0, "Query"@));
        assert(query_base_model(t1[0]@));
        reveal_strlit("Query");
        reveal_strlit("User");
        reveal_strlit("Image");
        assert("Query"@.len() == 5);
        assert("User"@.len() == 4);
        assert("Image"@.len() == 5);
        assert("Query"@ != "User"@);
        assert("Query"@[0] != "Image"@[0]);
        assert("User"@ != "Image"@);
        assert(t1[0].key() == "Query"@);
        assert(!has_key(t1, "User"@));
    }
    let registry = User::register(registry);
    let ghost t2 = registry.types@;
    proof {
        assert(t2[0] == t1[0]);
        assert(query_base_model(t2[0]@) && user_model(t2[1]@));
    }
    let registry = MeQuery::register(registry);
    proof {
        assert(registry.types@ == t2);
        assert(t2[0].key() != "Image"@ && t2[1].key() != "Image"@);
        assert(!has_key(t2, "Image"@));
    }
    let registry = Image::register(registry);
    let ghost t3 = registry.types@;
    let ghost objs = registry.objs();
    let ghost ps = registry.pend();
    proof {
        assert(t3[0] == t2[0] && t3[1] == t2[1]);
        assert(query_base_model(t3[0]@) && user_model(t3[1]@) && image_model(t3[2]@));
        assert(objs.len() == 3);
        assert(objs[0] == t3[0]@ && objs[1] == t3[1]@ && objs[2] == t3[2]@);
        assert(ps.len() == 1);
        assert(me_injection(ps[0])) by {
            assert(ps.last() == ps[0]);
        }
        assert(crate::registry::objs_unique(objs)) by {
            assert forall|i: int, j: int| 0 <= i < j < objs.len() implies objs[i].name != objs[
                j].name by {
                assert(objs[0].name == "Query"@ && objs[1].name == "User"@ && objs[2].name
                    == "Image"@);
            }
        }
        lemma_inject_one_at(objs, ps[0], 0);
        let injected = crate::registry::inject_one(objs, ps[0]);
        assert(crate::registry::inject_all(objs, ps) == injected) by {
            assert(ps.drop_first() =~= Seq::<PendingModel>::empty());
            assert(crate::registry::inject_all(injected, ps.drop_first()) == injected);
        }
        assert(query_expanded_model(injected[0])) by {
            assert(injected[0].fields == t3[0]@.fields + ps[0].fields);
            assert(injected[0].fields.len() == 1);
            assert(injected[0].fields[0] == ps[0].fields[0]);
            assert(injected[0].implements.len() == 0);
        }
        assert(crate::registry::has_obj(objs, ps[0].target));
        assert forall|i: int| 0 <= i < ps.len() implies crate::registry::has_obj(
            objs,
            #[trigger] ps[i].target,
        ) by {
            assert(i == 0);
        }
        lemma_stuck_empty_iff(objs, ps);
    }
    let r = registry.build_schema("Query", None);
    proof {
        if r is Ok {
            let s = r->Ok_0;
            let m = s.types@.map_values(|o: ObjectDef| o@);
            assert(m == crate::registry::inject_all(objs, ps));
            assert(crate::registry::inject_all(objs, ps) == crate::registry::inject_one(
                objs,
                ps[0],
            ));
            assert(crate::registry::inject_one(objs, ps[0]).len() == objs.len());
            assert(m.len() == 3);
            assert(s.types@.len() == 3);
            assert(m[0] == s.types@[0]@ && m[1] == s.types@[1]@ && m[2] == s.types@[2]@);
            assert(crate::registry::inject_all(objs, ps)[1] == objs[1]
                && crate::registry::inject_all(objs, ps)[2] == objs[2]);
            assert(assembled(s));
        }
    }
    r
}

} // verus!
