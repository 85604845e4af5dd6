//! A plain object schema: a query with one `user` field whose type carries
//! scalar fields and an optional nested object.
use vstd::prelude::*;

use crate::registry::{has_key, lemma_stuck_empty_iff, lemma_upsert_fresh, lemma_upsert_keys,
    NamedDef, Object, PendingModel, Register, RegistrationFailure, Registry};
use crate::schema::Schema;
use crate::types::{simple_field, simple_field_nn, FieldDef, ObjectDef, ObjectModel, TypeRef};

verus! {

pub struct Query {
    pub user: User,
}

pub struct User {
    pub id: String,
    pub name: String,
    pub avatar: Option<Image>,
}

pub struct Image {
    pub url: String,
}

impl Query {
    pub fn resolve_user(&self) -> (r: &User)
        ensures
            r == &self.user,
    {
        &self.user
    }
}

impl User {
    pub fn resolve_id(&self) -> (r: &String)
        ensures
            r == &self.id,
    {
        &self.id
    }

    pub fn resolve_name(&self) -> (r: &String)
        ensures
            r == &self.name,
    {
        &self.name
    }

    pub fn resolve_avatar(&self) -> (r: &Option<Image>)
        ensures
            r == &self.avatar,
    {
        &self.avatar
    }
}

impl Image {
    pub fn resolve_url(&self) -> (r: &String)
        ensures
            r == &self.url,
    {
        &self.url
    }
}

impl Object for Query {
    open spec fn gql_name() -> Seq<char> {
        "Query"@
    }

    fn gql_type_name() -> (r: String) {
        "Query".to_owned()
    }
}

impl Object for User {
    open spec fn gql_name() -> Seq<char> {
        "User"@
    }

    fn gql_type_name() -> (r: String) {
        "User".to_owned()
    }
}

impl Object for Image {
    open spec fn gql_name() -> Seq<char> {
        "Image"@
    }

    fn gql_type_name() -> (r: String) {
        "Image".to_owned()
    }
}

/// The definition this module registers for `Query`: exactly the one
/// field `user: User!`.
pub open spec fn query_model(o: ObjectModel) -> bool {
    &&& o.name == "Query"@
    &&& o.implements.len() == 0
    &&& o.fields.len() == 1
    &&& simple_field_nn(o.fields[0], "user"@, "User"@)
}

/// The definition this module registers for `User`: exactly the fields
/// `id: String!`, `name: String!`, `avatar: Image`.
pub open spec fn user_model(o: ObjectModel) -> bool {
    &&& o.name == "User"@
    &&& o.implements.len() == 0
    &&& o.fields.len() == 3
    &&& simple_field_nn(o.fields[0], "id"@, "String"@)
    &&& simple_field_nn(o.fields[1], "name"@, "String"@)
    &&& simple_field(o.fields[2], "avatar"@, "Image"@)
}

/// The definition this module registers for `Image`: exactly the one
/// field `url: String!`.
pub open spec fn image_model(o: ObjectModel) -> bool {
    &&& o.name == "Image"@
    &&& o.implements.len() == 0
    &&& o.fields.len() == 1
    &&& simple_field_nn(o.fields[0], "url"@, "String"@)
}

impl Register for Query {
    fn register(registry: Registry) -> (r: Registry)
        ensures
            (exists|d: ObjectDef| #[trigger] query_model(d@) && r.types@ == crate::registry::spec_upsert(
                registry.types@,
                d,
            )),
            !has_key(registry.types@, "Query"@) ==> (r.types@ == registry.types@.push(
                r.types@.last(),
            ) && query_model(r.types@.last()@)),
            has_key(r.types@, "Query"@),
            forall|k: Seq<char>| has_key(registry.types@, k) ==> has_key(r.types@, k),
            r.pend() == registry.pend(),
            r.enums@ == registry.enums@,
            r.unions@ == registry.unions@,
            r.interfaces@ == registry.interfaces@,
            r.input_types@ == registry.input_types@,
            r.extend_types@ == registry.extend_types@,
    {
        let object_type = ObjectDef::new("Query").field(
            FieldDef::new("user", TypeRef::named_nn("User")),
        );
        let ghost d = object_type;
        let out = registry.register_object(object_type);
        proof {
            assert(query_model(d@));
            lemma_upsert_keys(registry.types@, d);
            if !has_key(registry.types@, "Query"@) {
                lemma_upsert_fresh(registry.types@, d);
            }
        }
        out
    }
}

impl Register for User {
    fn register(registry: Registry) -> (r: Registry)
        ensures
            (exists|d: ObjectDef| #[trigger] user_model(d@) && r.types@ == crate::registry::spec_upsert(
                registry.types@,
                d,
            )),
            !has_key(registry.types@, "User"@) ==> (r.types@ == registry.types@.push(
                r.types@.last(),
            ) && user_model(r.types@.last()@)),
            has_key(r.types@, "User"@),
            forall|k: Seq<char>| has_key(registry.types@, k) ==> has_key(r.types@, k),
            r.pend() == registry.pend(),
            r.enums@ == registry.enums@,
            r.unions@ == registry.unions@,
            r.interfaces@ == registry.interfaces@,
            r.input_types@ == registry.input_types@,
            r.extend_types@ == registry.extend_types@,
    {
        let object_type = ObjectDef::new("User").field(
            FieldDef::new("id", TypeRef::named_nn("String")),
        ).field(FieldDef::new("name", TypeRef::named_nn("String"))).field(
            FieldDef::new("avatar", TypeRef::named("Image")),
        );
        let ghost d = object_type;
        let out = registry.register_object(object_type);
        proof {
            assert(user_model(d@));
            lemma_upsert_keys(registry.types@, d);
            if !has_key(registry.types@, "User"@) {
                lemma_upsert_fresh(registry.types@, d);
            }
        }
        out
    }
}

impl Register for Image {
    fn register(registry: Registry) -> (r: Registry)
        ensures
            (exists|d: ObjectDef| #[trigger] image_model(d@) && r.types@ == crate::registry::spec_upsert(
                registry.types@,
                d,
            )),
            !has_key(registry.types@, "Image"@) ==> (r.types@ == registry.types@.push(
                r.types@.last(),
            ) && image_model(r.types@.last()@)),
            has_key(r.types@, "Image"@),
            forall|k: Seq<char>| has_key(registry.types@, k) ==> has_key(r.types@, k),
            r.pend() == registry.pend(),
            r.enums@ == registry.enums@,
            r.unions@ == registry.unions@,
            r.interfaces@ == registry.interfaces@,
            r.input_types@ == registry.input_types@,
            r.extend_types@ == registry.extend_types@,
    {
        let object_type = ObjectDef::new("Image").field(
            FieldDef::new("url", TypeRef::named_nn("String")),
        );
        let ghost d = object_type;
        let out = registry.register_object(object_type);
        proof {
            assert(image_model(d@));
            lemma_upsert_keys(registry.types@, d);
            if !has_key(registry.types@, "Image"@) {
                lemma_upsert_fresh(registry.types@, d);
            }
        }
        out
    }
}

/// The schema this module assembles: exactly the three registered
/// objects, in registration order, under query root `Query`, and nothing
/// else.
pub open spec fn assembled(s: Schema) -> bool {
    &&& s.query_name@ == "Query"@
    &&& s.mutation_name is None
    &&& s.enums@.len() == 0
    &&& s.unions@.len() == 0
    &&& s.interfaces@.len() == 0
    &&& s.input_types@.len() == 0
    &&& s.extend_types@.len() == 0
    &&& s.types@.len() == 3
    &&& query_model(s.types@[0]@)
    &&& user_model(s.types@[1]@)
    &&& image_model(s.types@[2]@)
}

/// Assemble the schema for this module.  Nothing is ever pending, so the
/// assembly always succeeds, and the result holds exactly the registered
/// definitions.
pub fn create_schema() -> (r: Result<Schema, RegistrationFailure>)
    ensures
        r is Ok,
        r matches Ok(s) ==> assembled(s),
{
    let registry = Registry::new();
    let ghost t0 = registry.types@;
    let registry = Query::register(registry);
    let ghost t1 = registry.types@;
    proof {
        assert(!has_key(t0, "Query"@));
        assert(t1.len() == 1);
        assert(query_model(t1[0]@));
        reveal_strlit("Query");
        reveal_strlit("User");
        reveal_strlit("Image");
        assert("Query"@.len() == 5);
        assert("User"@.len() == 4);
        assert("Query"@ != "User"@);
        assert("Query"@[0] != "Image"@[0]);
        assert(t1[0].key() == "Query"@);
        assert(!has_key(t1, "User"@));
    }
    let registry = User::register(registry);
    let ghost t2 = registry.types@;
    proof {
        assert(t2.len() == 2);
        assert(t2[0] == t1[0]);
        assert(query_model(t2[0]@));
        assert(user_model(t2[1]@));
        assert("User"@[0] != "Image"@[0]);
        assert(t2[0].key() != "Image"@ && t2[1].key() != "Image"@);
        assert(!has_key(t2, "Image"@));
    }
    let registry = Image::register(registry);
    let ghost t3 = registry.types@;
    proof {
        assert(t3.len() == 3);
        assert(t3[0] == t2[0] && t3[1] == t2[1]);
        assert(query_model(t3[0]@) && user_model(t3[1]@) && image_model(t3[2]@));
        assert(registry.pend() =~= Seq::<PendingModel>::empty());
        lemma_stuck_empty_iff(registry.objs(), registry.pend());
        assert(crate::registry::inject_all(registry.objs(), registry.pend()) == registry.objs());
    }
    let ghost objs = registry.objs();
    let r = registry.build_schema("Query", None);
    proof {
        if r is Ok {
            let s = r->Ok_0;
            let m = s.types@.map_values(|o: ObjectDef| o@);
            assert(m == objs);
            assert(s.types@.len() == 3);
            assert(m[0] == s.types@[0]@ && m[1] == s.types@[1]@ && m[2] == s.types@[2]@);
            assert(objs[0] == t3[0]@ && objs[1] == t3[1]@ && objs[2] == t3[2]@);
            assert(assembled(s));
        }
    }
    r
}

} // verus!
