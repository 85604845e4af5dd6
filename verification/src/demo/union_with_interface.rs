//! A union whose members also implement an interface: three animals, two
//! of them named, behind one union-typed query field, with tagged
//! dispatch over the closed variant set.
use vstd::prelude::*;

use crate::anybox::AnyBox;
use crate::registry::{has_key, lemma_stuck_empty_iff, lemma_upsert_fresh, lemma_upsert_keys,
    spec_upsert, Interface, NamedDef, Object, PendingModel, Register, RegistrationFailure,
    Registry, Union};
use crate::schema::Schema;
use crate::types::{simple_field_nn, FieldDef, InterfaceDef, ObjectDef, ObjectModel, TypeRef,
    UnionDef};

verus! {

pub struct Dog {}

pub struct Cat {}

pub struct Snake {}

/// The closed set of animals the union can carry.
pub enum Animal {
    Dog(Dog),
    Cat(Cat),
    Snake(Snake),
}

pub struct Query {
    pub pet: Animal,
}

/// The registered type name of the concrete variant.
pub open spec fn animal_tag(v: Animal) -> Seq<char> {
    match v {
        Animal::Dog(_) => "Dog"@,
        Animal::Cat(_) => "Cat"@,
        Animal::Snake(_) => "Snake"@,
    }
}

impl Animal {
    /// Erase a borrowed union value, tagging it with its variant's
    /// registered type name for fragment dispatch.
    pub fn to_field_value<'a>(&'a self) -> (r: AnyBox<'a, Animal>)
        ensures
            r is Borrowed,
            r.spec_value() == *self,
            r.tag() == animal_tag(*self),
    {
        let tag: String = match self {
            Animal::Dog(_) => "Dog".to_owned(),
            Animal::Cat(_) => "Cat".to_owned(),
            Animal::Snake(_) => "Snake".to_owned(),
        };
        AnyBox::new_borrowed(self, tag)
    }
}

impl Query {
    pub fn resolve_pet(&self) -> (r: &Animal)
        ensures
            r == &self.pet,
    {
        &self.pet
    }
}

/// The interface definition this module registers for `Named`: exactly
/// the field `name: String!`.
pub open spec fn named_iface_model(d: InterfaceDef) -> bool {
    &&& d.name@ == "Named"@
    &&& d.implements@.len() == 0
    &&& d.fields@.len() == 1
    &&& simple_field_nn(d.fields@[0], "name"@, "String"@)
}

/// The definition this module registers for `Query`: exactly
/// `pet: Animal!`.
pub open spec fn query_model(o: ObjectModel) -> bool {
    &&& o.name == "Query"@
    &&& o.implements.len() == 0
    &&& o.fields.len() == 1
    &&& simple_field_nn(o.fields[0], "pet"@, "Animal"@)
}

/// The definition this module registers for `Dog`: `name: String!` and
/// `power: Int!`, implementing `Named`.
pub open spec fn dog_model(o: ObjectModel) -> bool {
    &&& o.name == "Dog"@
    &&& o.implements.len() == 1
    &&& o.implements[0] == "Named"@
    &&& o.fields.len() == 2
    &&& simple_field_nn(o.fields[0], "name"@, "String"@)
    &&& simple_field_nn(o.fields[1], "power"@, "Int"@)
}

/// The definition this module registers for `Cat`: `name: String!` and
/// `life: Int!`, implementing `Named`.
pub open spec fn cat_model(o: ObjectModel) -> bool {
    &&& o.name == "Cat"@
    &&& o.implements.len() == 1
    &&& o.implements[0] == "Named"@
    &&& o.fields.len() == 2
    &&& simple_field_nn(o.fields[0], "name"@, "String"@)
    &&& simple_field_nn(o.fields[1], "life"@, "Int"@)
}

/// The definition this module registers for `Snake`: exactly
/// `length: Int!`, implementing nothing.
pub open spec fn snake_model(o: ObjectModel) -> bool {
    &&& o.name == "Snake"@
    &&& o.implements.len() == 0
    &&& o.fields.len() == 1
    &&& simple_field_nn(o.fields[0], "length"@, "Int"@)
}

/// The union definition this module registers:
/// `Animal = Dog | Cat | Snake`.
pub open spec fn animal_union_model(u: UnionDef) -> bool {
    &&& u.name@ == "Animal"@
    &&& u.members@.len() == 3
    &&& u.members@[0]@ == "Dog"@
    &&& u.members@[1]@ == "Cat"@
    &&& u.members@[2]@ == "Snake"@
}

impl Object for Dog {
    open spec fn gql_name() -> Seq<char> {
        "Dog"@
    }

    fn gql_type_name() -> (r: String) {
        "Dog".to_owned()
    }
}

impl Object for Cat {
    open spec fn gql_name() -> Seq<char> {
        "Cat"@
    }

    fn gql_type_name() -> (r: String) {
        "Cat".to_owned()
    }
}

impl Object for Snake {
    open spec fn gql_name() -> Seq<char> {
        "Snake"@
    }

    fn gql_type_name() -> (r: String) {
        "Snake".to_owned()
    }
}

impl Object for Query {
    open spec fn gql_name() -> Seq<char> {
        "Query"@
    }

    fn gql_type_name() -> (r: String) {
        "Query".to_owned()
    }
}

impl Union for Animal {
    open spec fn gql_name() -> Seq<char> {
        "Animal"@
    }

    fn gql_type_name() -> (r: String) {
        "Animal".to_owned()
    }
}

/// The `Named` interface declaration.
pub struct NamedDecl {}

impl Interface for NamedDecl {
    open spec fn gql_name() -> Seq<char> {
        "Named"@
    }

    fn gql_type_name() -> (r: String) {
        "Named".to_owned()
    }

    fn register_fields(interface: InterfaceDef) -> (r: InterfaceDef)
        ensures
            r.name@ == interface.name@,
            r.implements@ == interface.implements@,
            r.fields@.len() == interface.fields@.len() + 1,
            r.fields@.drop_last() == interface.fields@,
            simple_field_nn(r.fields@.last(), "name"@, "String"@),
    {
        let out = interface.field(FieldDef::new("name", TypeRef::named_nn("String")));
        proof {
            assert(out.fields@.drop_last() =~= interface.fields@);
        }
        out
    }
}

impl Register for NamedDecl {
    fn register(registry: Registry) -> (r: Registry)
        ensures
            (exists|d: InterfaceDef| #[trigger] named_iface_model(d) && r.interfaces@
                == spec_upsert(registry.interfaces@, d)),
            !has_key(registry.interfaces@, "Named"@) ==> (r.interfaces@
                == registry.interfaces@.push(r.interfaces@.last()) && named_iface_model(
                r.interfaces@.last(),
            )),
            has_key(r.interfaces@, "Named"@),
            r.types@ == registry.types@,
            r.pend() == registry.pend(),
            r.enums@ == registry.enums@,
            r.unions@ == registry.unions@,
            r.input_types@ == registry.input_types@,
            r.extend_types@ == registry.extend_types@,
    {
        let interface = NamedDecl::register_fields(InterfaceDef::new("Named"));
        let ghost d = interface;
        let out = registry.register_interface(interface);
        proof {
            assert(named_iface_model(d));
            lemma_upsert_keys(registry.interfaces@, d);
            if !has_key(registry.interfaces@, "Named"@) {
                lemma_upsert_fresh(registry.interfaces@, d);
            }
        }
        out
    }
}

impl Register for Dog {
    fn register(registry: Registry) -> (r: Registry)
        ensures
            (exists|d: ObjectDef| #[trigger] dog_model(d@) && r.types@ == spec_upsert(
                registry.types@,
                d,
            )),
            !has_key(registry.types@, "Dog"@) ==> (r.types@ == registry.types@.push(
                r.types@.last(),
            ) && dog_model(r.types@.last()@)),
            has_key(r.types@, "Dog"@),
            forall|k: Seq<char>| has_key(registry.types@, k) ==> has_key(r.types@, k),
            r.pend() == registry.pend(),
            r.enums@ == registry.enums@,
            r.unions@ == registry.unions@,
            r.interfaces@ == registry.interfaces@,
            r.input_types@ == registry.input_types@,
            r.extend_types@ == registry.extend_types@,
    {
        let object_type = ObjectDef::new("Dog").field(
            FieldDef::new("name", TypeRef::named_nn("String")),
        ).field(FieldDef::new("power", TypeRef::named_nn("Int"))).implement("Named");
        let ghost d = object_type;
        let out = registry.register_object(object_type);
        proof {
            assert(d@.fields[0] == d@.fields.drop_last()[0]);
            assert(dog_model(d@));
            lemma_upsert_keys(registry.types@, d);
            if !has_key(registry.types@, "Dog"@) {
                lemma_upsert_fresh(registry.types@, d);
            }
        }
        out
    }
}

impl Register for Cat {
    fn register(registry: Registry) -> (r: Registry)
        ensures
            (exists|d: ObjectDef| #[trigger] cat_model(d@) && r.types@ == spec_upsert(
                registry.types@,
                d,
            )),
            !has_key(registry.types@, "Cat"@) ==> (r.types@ == registry.types@.push(
                r.types@.last(),
            ) && cat_model(r.types@.last()@)),
            has_key(r.types@, "Cat"@),
            forall|k: Seq<char>| has_key(registry.types@, k) ==> has_key(r.types@, k),
            r.pend() == registry.pend(),
            r.enums@ == registry.enums@,
            r.unions@ == registry.unions@,
            r.interfaces@ == registry.interfaces@,
            r.input_types@ == registry.input_types@,
            r.extend_types@ == registry.extend_types@,
    {
        let object_type = ObjectDef::new("Cat").field(
            FieldDef::new("name", TypeRef::named_nn("String")),
        ).field(FieldDef::new("life", TypeRef::named_nn("Int"))).implement("Named");
        let ghost d = object_type;
        let out = registry.register_object(object_type);
        proof {
            assert(d@.fields[0] == d@.fields.drop_last()[0]);
            assert(cat_model(d@));
            lemma_upsert_keys(registry.types@, d);
            if !has_key(registry.types@, "Cat"@) {
                lemma_upsert_fresh(registry.types@, d);
            }
        }
        out
    }
}

impl Register for Snake {
    fn register(registry: Registry) -> (r: Registry)
        ensures
            (exists|d: ObjectDef| #[trigger] snake_model(d@) && r.types@ == spec_upsert(
                registry.types@,
                d,
            )),
            !has_key(registry.types@, "Snake"@) ==> (r.types@ == registry.types@.push(
                r.types@.last(),
            ) && snake_model(r.types@.last()@)),
            has_key(r.types@, "Snake"@),
            forall|k: Seq<char>| has_key(registry.types@, k) ==> has_key(r.types@, k),
            r.pend() == registry.pend(),
            r.enums@ == registry.enums@,
            r.unions@ == registry.unions@,
            r.interfaces@ == registry.interfaces@,
            r.input_types@ == registry.input_types@,
            r.extend_types@ == registry.extend_types@,
    {
        let object_type = ObjectDef::new("Snake").field(
            FieldDef::new("length", TypeRef::named_nn("Int")),
        );
        let ghost d = object_type;
        let out = registry.register_object(object_type);
        proof {
            assert(snake_model(d@));
            lemma_upsert_keys(registry.types@, d);
            if !has_key(registry.types@, "Snake"@) {
                lemma_upsert_fresh(registry.types@, d);
            }
        }
        out
    }
}

impl Register for Animal {
    fn register(registry: Registry) -> (r: Registry)
        ensures
            (exists|d: UnionDef| #[trigger] animal_union_model(d) && r.unions@ == spec_upsert(
                registry.unions@,
                d,
            )),
            !has_key(registry.unions@, "Animal"@) ==> (r.unions@ == registry.unions@.push(
                r.unions@.last(),
            ) && animal_union_model(r.unions@.last())),
            has_key(r.unions@, "Animal"@),
            r.types@ == registry.types@,
            r.pend() == registry.pend(),
            r.enums@ == registry.enums@,
            r.interfaces@ == registry.interfaces@,
            r.input_types@ == registry.input_types@,
            r.extend_types@ == registry.extend_types@,
    {
        let union_type = UnionDef::new("Animal").possible_type("Dog").possible_type(
            "Cat",
        ).possible_type("Snake");
        let ghost d = union_type;
        let out = registry.register_union(union_type);
        proof {
            assert(d.members@[0] == d.members@.drop_last().drop_last()[0]);
            assert(d.members@[1] == d.members@.drop_last()[1]);
            assert(animal_union_model(d));
            lemma_upsert_keys(registry.unions@, d);
            if !has_key(registry.unions@, "Animal"@) {
                lemma_upsert_fresh(registry.unions@, d);
            }
        }
        out
    }
}

impl Register for Query {
    fn register(registry: Registry) -> (r: Registry)
        ensures
            (exists|d: ObjectDef| #[trigger] query_model(d@) && r.types@ == spec_upsert(
                registry.types@,
                d,
            )),
            !has_key(registry.types@, "Query"@) ==> (r.types@ == registry.types@.push(
                r.types@.last(),
            ) && query_model(r.types@.last()@)),
            has_key(r.types@, "Query"@),
            forall|k: Seq<char>| has_key(registry.types@, k) ==> has_key(r.types@, k),
            r.pend() == registry.pend(),
            r.enums@ == registry.enums@,
            r.unions@ == registry.unions@,
            r.interfaces@ == registry.interfaces@,
            r.input_types@ == registry.input_types@,
            r.extend_types@ == registry.extend_types@,
    {
        let object_type = ObjectDef::new("Query").field(
            FieldDef::new("pet", TypeRef::named_nn("Animal")),
        );
        let ghost d = object_type;
        let out = registry.register_object(object_type);
        proof {
            assert(query_model(d@));
            lemma_upsert_keys(registry.types@, d);
            if !has_key(registry.types@, "Query"@) {
                lemma_upsert_fresh(registry.types@, d);
            }
        }
        out
    }
}

/// The schema this module assembles: the union, the interface, and the
/// four objects, in registration order, and nothing else.
pub open spec fn assembled(s: Schema) -> bool {
    &&& s.query_name@ == "Query"@
    &&& s.mutation_name is None
    &&& s.enums@.len() == 0
    &&& s.unions@.len() == 1
    &&& animal_union_model(s.unions@[0])
    &&& s.interfaces@.len() == 1
    &&& named_iface_model(s.interfaces@[0])
    &&& s.input_types@.len() == 0
    &&& s.extend_types@.len() == 0
    &&& s.types@.len() == 4
    &&& query_model(s.types@[0]@)
    &&& dog_model(s.types@[1]@)
    &&& cat_model(s.types@[2]@)
    &&& snake_model(s.types@[3]@)
}

/// Assemble the schema for this module.  Nothing is pending, so the
/// assembly always succeeds, and the result holds exactly the registered
/// definitions.
pub fn create_schema() -> (r: Result<Schema, RegistrationFailure>)
    ensures
        r is Ok,
        r matches Ok(s) ==> assembled(s),
{
    let registry = Registry::new();
    let ghost t0 = registry.types@;
    let registry = Query::register(registry);
    let ghost t1 = registry.types@;
    proof {
        assert(!has_key(t0, "Query"@));
        assert(query_model(t1[0]@));
        reveal_strlit("Query");
        reveal_strlit("Dog");
        reveal_strlit("Cat");
        reveal_strlit("Snake");
        assert("Query"@.len() == 5);
        assert("Dog"@.len() == 3);
        assert("Cat"@.len() == 3);
        assert("Snake"@.len() == 5);
        assert("Query"@ != "Dog"@ && "Query"@ != "Cat"@);
        assert("Query"@[0] != "Snake"@[0]);
        assert("Query"@ != "Snake"@);
        assert("Dog"@[0] != "Cat"@[0]);
        assert("Dog"@ != "Snake"@ && "Cat"@ != "Snake"@);
        assert(t1[0].key() == "Query"@);
        assert(!has_key(t1, "Dog"@));
    }
    let registry = Dog::register(registry);
    let ghost t2 = registry.types@;
    proof {
        assert(t2[0] == t1[0]);
        assert(query_model(t2[0]@) && dog_model(t2[1]@));
        assert(t2[0].key() != "Cat"@ && t2[1].key() != "Cat"@);
        assert(!has_key(t2, "Cat"@));
    }
    let registry = Cat::register(registry);
    let ghost t3 = registry.types@;
    proof {
        assert(t3[0] == t2[0] && t3[1] == t2[1]);
        assert(query_model(t3[0]@) && dog_model(t3[1]@) && cat_model(t3[2]@));
        assert(t3[0].key() != "Snake"@ && t3[1].key() != "Snake"@ && t3[2].key() != "Snake"@);
        assert(!has_key(t3, "Snake"@));
    }
    let registry = Snake::register(registry);
    let ghost t4 = registry.types@;
    proof {
        assert(t4[0] == t3[0] && t4[1] == t3[1] && t4[2] == t3[2]);
        assert(query_model(t4[0]@) && dog_model(t4[1]@) && cat_model(t4[2]@) && snake_model(
            t4[3]@,
        ));
        assert(!has_key(registry.interfaces@, "Named"@));
    }
    let registry = NamedDecl::register(registry);
    let ghost i1 = registry.interfaces@;
    proof {
        assert(registry.types@ == t4);
        assert(named_iface_model(i1[0]));
        assert(!has_key(registry.unions@, "Animal"@));
    }
    let registry = Animal::register(registry);
    proof {
        assert(registry.types@ == t4);
        assert(registry.interfaces@ == i1);
        assert(animal_union_model(registry.unions@[0]));
        assert(registry.pend() =~= Seq::<PendingModel>::empty());
        lemma_stuck_empty_iff(registry.objs(), registry.pend());
        assert(crate::registry::inject_all(registry.objs(), registry.pend()) == registry.objs());
    }
    let ghost objs = registry.objs();
    let ghost unions0 = registry.unions@;
    let ghost ifaces0 = registry.interfaces@;
    let r = registry.build_schema("Query", None);
    proof {
        if r is Ok {
            let s = r->Ok_0;
            let m = s.types@.map_values(|o: ObjectDef| o@);
            assert(m == objs);
            assert(s.types@.len() == 4);
            assert(m[0] == s.types@[0]@ && m[1] == s.types@[1]@ && m[2] == s.types@[2]@ && m[3]
                == s.types@[3]@);
            assert(objs[0] == t4[0]@ && objs[1] == t4[1]@ && objs[2] == t4[2]@ && objs[3]
                == t4[3]@);
            assert(s.unions@ == unions0);
            assert(s.interfaces@ == ifaces0);
            assert(assembled(s));
        }
    }
    r
}

} // verus!
