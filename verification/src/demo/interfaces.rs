//! Interface declarations: three interfaces, one extending another by
//! re-registering its parent's field declarations, and an object type that
//! implements all three.
use vstd::prelude::*;

use crate::registry::{has_key, lemma_stuck_empty_iff, lemma_upsert_fresh, lemma_upsert_keys,
    spec_upsert, Interface, NamedDef, Object, PendingModel, Register, RegistrationFailure,
    Registry};
use crate::schema::Schema;
use crate::types::{simple_field_nn, FieldDef, InterfaceDef, ObjectDef, ObjectModel, TypeRef};

verus! {

/// The `Node` interface's data, as an object would hold it.
pub struct Node {
    pub id: String,
}

/// The `NamedNode` interface's data; the interface extends `Node`.
pub struct NamedNode {
    pub name: String,
}

/// The `Aged` interface's data.
pub struct Aged {
    pub age: i64,
}

pub struct Query {
    pub user: User,
}

/// Implements all three interfaces.
pub struct User {
    pub id: String,
    pub name: String,
    pub age: i64,
}

/// The interface definition this module registers for `Node`: exactly
/// the field `id: String!`.
pub open spec fn node_iface_model(d: InterfaceDef) -> bool {
    &&& d.name@ == "Node"@
    &&& d.implements@.len() == 0
    &&& d.fields@.len() == 1
    &&& simple_field_nn(d.fields@[0], "id"@, "String"@)
}

/// The interface definition this module registers for `NamedNode`: it
/// implements `Node` and re-declares its parent's field after its own.
pub open spec fn named_node_iface_model(d: InterfaceDef) -> bool {
    &&& d.name@ == "NamedNode"@
    &&& d.implements@.len() == 1
    &&& d.implements@[0]@ == "Node"@
    &&& d.fields@.len() == 2
    &&& simple_field_nn(d.fields@[0], "name"@, "String"@)
    &&& simple_field_nn(d.fields@[1], "id"@, "String"@)
}

/// The interface definition this module registers for `Aged`: exactly
/// the field `age: Int!`.
pub open spec fn aged_iface_model(d: InterfaceDef) -> bool {
    &&& d.name@ == "Aged"@
    &&& d.implements@.len() == 0
    &&& d.fields@.len() == 1
    &&& simple_field_nn(d.fields@[0], "age"@, "Int"@)
}

/// The definition this module registers for `Query`: exactly
/// `user: User!`.
pub open spec fn query_model(o: ObjectModel) -> bool {
    &&& o.name == "Query"@
    &&& o.implements.len() == 0
    &&& o.fields.len() == 1
    &&& simple_field_nn(o.fields[0], "user"@, "User"@)
}

/// The definition this module registers for `User`: it implements all
/// three interfaces and carries their fields.
pub open spec fn user_model(o: ObjectModel) -> bool {
    &&& o.name == "User"@
    &&& o.implements.len() == 3
    &&& o.implements[0] == "Node"@
    &&& o.implements[1] == "NamedNode"@
    &&& o.implements[2] == "Aged"@
    &&& o.fields.len() == 3
    &&& simple_field_nn(o.fields[0], "id"@, "String"@)
    &&& simple_field_nn(o.fields[1], "name"@, "String"@)
    &&& simple_field_nn(o.fields[2], "age"@, "Int"@)
}

impl Object for Query {
    open spec fn gql_name() -> Seq<char> {
        "Query"@
    }

    fn gql_type_name() -> (r: String) {
        "Query".to_owned()
    }
}

impl Object for User {
    open spec fn gql_name() -> Seq<char> {
        "User"@
    }

    fn gql_type_name() -> (r: String) {
        "User".to_owned()
    }
}

impl Interface for Node {
    open spec fn gql_name() -> Seq<char> {
        "Node"@
    }

    fn gql_type_name() -> (r: String) {
        "Node".to_owned()
    }

    fn register_fields(interface: InterfaceDef) -> (r: InterfaceDef)
        ensures
            r.name@ == interface.name@,
            r.implements@ == interface.implements@,
            r.fields@.len() == interface.fields@.len() + 1,
            r.fields@.drop_last() == interface.fields@,
            simple_field_nn(r.fields@.last(), "id"@, "String"@),
    {
        let out = interface.field(FieldDef::new("id", TypeRef::named_nn("String")));
        proof {
            assert(out.fields@.drop_last() =~= interface.fields@);
        }
        out
    }
}

impl Interface for NamedNode {
    open spec fn gql_name() -> Seq<char> {
        "NamedNode"@
    }

    fn gql_type_name() -> (r: String) {
        "NamedNode".to_owned()
    }

    fn register_fields(interface: InterfaceDef) -> (r: InterfaceDef)
        ensures
            r.name@ == interface.name@,
            r.implements@ == interface.implements@,
            r.fields@.len() == interface.fields@.len() + 2,
            r.fields@.drop_last().drop_last() == interface.fields@,
            simple_field_nn(r.fields@[r.fields@.len() - 2], "name"@, "String"@),
            simple_field_nn(r.fields@.last(), "id"@, "String"@),
    {
        let out = interface.field(FieldDef::new("name", TypeRef::named_nn("String")));
        let out2 = Node::register_fields(out);
        proof {
            assert(out2.fields@.drop_last().drop_last() =~= interface.fields@);
            assert(out2.fields@[out2.fields@.len() - 2] == out.fields@.last());
        }
        out2
    }
}

impl Interface for Aged {
    open spec fn gql_name() -> Seq<char> {
        "Aged"@
    }

    fn gql_type_name() -> (r: String) {
        "Aged".to_owned()
    }

    fn register_fields(interface: InterfaceDef) -> (r: InterfaceDef)
        ensures
            r.name@ == interface.name@,
            r.implements@ == interface.implements@,
            r.fields@.len() == interface.fields@.len() + 1,
            r.fields@.drop_last() == interface.fields@,
            simple_field_nn(r.fields@.last(), "age"@, "Int"@),
    {
        let out = interface.field(FieldDef::new("age", TypeRef::named_nn("Int")));
        proof {
            assert(out.fields@.drop_last() =~= interface.fields@);
        }
        out
    }
}

impl Register for Node {
    fn register(registry: Registry) -> (r: Registry)
        ensures
            (exists|d: InterfaceDef| #[trigger] node_iface_model(d) && r.interfaces@ == spec_upsert(
                registry.interfaces@,
                d,
            )),
            !has_key(registry.interfaces@, "Node"@) ==> (r.interfaces@ == registry.interfaces@.push(
                r.interfaces@.last(),
            ) && node_iface_model(r.interfaces@.last())),
            has_key(r.interfaces@, "Node"@),
            forall|k: Seq<char>| has_key(registry.interfaces@, k) ==> has_key(r.interfaces@, k),
            r.types@ == registry.types@,
            r.pend() == registry.pend(),
            r.enums@ == registry.enums@,
            r.unions@ == registry.unions@,
            r.input_types@ == registry.input_types@,
            r.extend_types@ == registry.extend_types@,
    {
        let interface = Node::register_fields(InterfaceDef::new("Node"));
        let ghost d = interface;
        let out = registry.register_interface(interface);
        proof {
            assert(node_iface_model(d));
            lemma_upsert_keys(registry.interfaces@, d);
            if !has_key(registry.interfaces@, "Node"@) {
                lemma_upsert_fresh(registry.interfaces@, d);
            }
        }
        out
    }
}

impl Register for NamedNode {
    fn register(registry: Registry) -> (r: Registry)
        ensures
            (exists|d: InterfaceDef| #[trigger] named_node_iface_model(d) && r.interfaces@ == spec_upsert(
                registry.interfaces@,
                d,
            )),
            !has_key(registry.interfaces@, "NamedNode"@) ==> (r.interfaces@ == registry.interfaces@.push(
                r.interfaces@.last(),
            ) && named_node_iface_model(r.interfaces@.last())),
            has_key(r.interfaces@, "NamedNode"@),
            forall|k: Seq<char>| has_key(registry.interfaces@, k) ==> has_key(r.interfaces@, k),
            r.types@ == registry.types@,
            r.pend() == registry.pend(),
            r.enums@ == registry.enums@,
            r.unions@ == registry.unions@,
            r.input_types@ == registry.input_types@,
            r.extend_types@ == registry.extend_types@,
    {
        let interface = NamedNode::register_fields(InterfaceDef::new("NamedNode").implement("Node"));
        let ghost d = interface;
        let out = registry.register_interface(interface);
        proof {
            assert(named_node_iface_model(d));
            lemma_upsert_keys(registry.interfaces@, d);
            if !has_key(registry.interfaces@, "NamedNode"@) {
                lemma_upsert_fresh(registry.interfaces@, d);
            }
        }
        out
    }
}

impl Register for Aged {
    fn register(registry: Registry) -> (r: Registry)
        ensures
            (exists|d: InterfaceDef| #[trigger] aged_iface_model(d) && r.interfaces@ == spec_upsert(
                registry.interfaces@,
                d,
            )),
            !has_key(registry.interfaces@, "Aged"@) ==> (r.interfaces@ == registry.interfaces@.push(
                r.interfaces@.last(),
            ) && aged_iface_model(r.interfaces@.last())),
            has_key(r.interfaces@, "Aged"@),
            forall|k: Seq<char>| has_key(registry.interfaces@, k) ==> has_key(r.interfaces@, k),
            r.types@ == registry.types@,
            r.pend() == registry.pend(),
            r.enums@ == registry.enums@,
            r.unions@ == registry.unions@,
            r.input_types@ == registry.input_types@,
            r.extend_types@ == registry.extend_types@,
    {
        let interface = Aged::register_fields(InterfaceDef::new("Aged"));
        let ghost d = interface;
        let out = registry.register_interface(interface);
        proof {
            assert(aged_iface_model(d));
            lemma_upsert_keys(registry.interfaces@, d);
            if !has_key(registry.interfaces@, "Aged"@) {
                lemma_upsert_fresh(registry.interfaces@, d);
            }
        }
        out
    }
}

impl Register for Query {
    fn register(registry: Registry) -> (r: Registry)
        ensures
            (exists|d: ObjectDef| #[trigger] query_model(d@) && r.types@ == spec_upsert(
                registry.types@,
                d,
            )),
            !has_key(registry.types@, "Query"@) ==> (r.types@ == registry.types@.push(
                r.types@.last(),
            ) && query_model(r.types@.last()@)),
            has_key(r.types@, "Query"@),
            forall|k: Seq<char>| has_key(registry.types@, k) ==> has_key(r.types@, k),
            r.pend() == registry.pend(),
            r.enums@ == registry.enums@,
            r.unions@ == registry.unions@,
            r.interfaces@ == registry.interfaces@,
            r.input_types@ == registry.input_types@,
            r.extend_types@ == registry.extend_types@,
    {
        let object_type = ObjectDef::new("Query").field(
            FieldDef::new("user", TypeRef::named_nn("User")),
        );
        let ghost d = object_type;
        let out = registry.register_object(object_type);
        proof {
            assert(query_model(d@));
            lemma_upsert_keys(registry.types@, d);
            if !has_key(registry.types@, "Query"@) {
                lemma_upsert_fresh(registry.types@, d);
            }
        }
        out
    }
}

impl Register for User {
    fn register(registry: Registry) -> (r: Registry)
        ensures
            (exists|d: ObjectDef| #[trigger] user_model(d@) && r.types@ == spec_upsert(
                registry.types@,
                d,
            )),
            !has_key(registry.types@, "User"@) ==> (r.types@ == registry.types@.push(
                r.types@.last(),
            ) && user_model(r.types@.last()@)),
            has_key(r.types@, "User"@),
            forall|k: Seq<char>| has_key(registry.types@, k) ==> has_key(r.types@, k),
            r.pend() == registry.pend(),
            r.enums@ == registry.enums@,
            r.unions@ == registry.unions@,
            r.interfaces@ == registry.interfaces@,
            r.input_types@ == registry.input_types@,
            r.extend_types@ == registry.extend_types@,
    {
        let object_type = ObjectDef::new("User").implement("Node").implement(
            "NamedNode",
        ).implement("Aged").field(FieldDef::new("id", TypeRef::named_nn("String"))).field(
            FieldDef::new("name", TypeRef::named_nn("String")),
        ).field(FieldDef::new("age", TypeRef::named_nn("Int")));
        let ghost d = object_type;
        let out = registry.register_object(object_type);
        proof {
            assert(d@.implements[0] == d@.implements.drop_last()[0]);
            assert(d@.implements[1] == d@.implements.drop_last()[1]);
            assert(user_model(d@));
            lemma_upsert_keys(registry.types@, d);
            if !has_key(registry.types@, "User"@) {
                lemma_upsert_fresh(registry.types@, d);
            }
        }
        out
    }
}

/// The schema this module assembles: the three interfaces and the two
/// objects, in registration order, and nothing else.
pub open spec fn assembled(s: Schema) -> bool {
    &&& s.query_name@ == "Query"@
    &&& s.mutation_name is None
    &&& s.enums@.len() == 0
    &&& s.unions@.len() == 0
    &&& s.interfaces@.len() == 3
    &&& node_iface_model(s.interfaces@[0])
    &&& named_node_iface_model(s.interfaces@[1])
    &&& aged_iface_model(s.interfaces@[2])
    &&& s.input_types@.len() == 0
    &&& s.extend_types@.len() == 0
    &&& s.types@.len() == 2
    &&& query_model(s.types@[0]@)
    &&& user_model(s.types@[1]@)
}

/// Assemble the schema for this module.  Nothing is pending, so the
/// assembly always succeeds, and the result holds exactly the registered
/// definitions.
pub fn create_schema() -> (r: Result<Schema, RegistrationFailure>)
    ensures
        r is Ok,
        r matches Ok(s) ==> assembled(s),
{
    let registry = Registry::new();
    let ghost t0 = registry.types@;
    let registry = Query::register(registry);
    let ghost t1 = registry.types@;
    proof {
        assert(!has_key(t0, "Query"@));
        assert(query_model(t1[0]@));
        reveal_strlit("Query");
        reveal_strlit("User");
        reveal_strlit("Node");
        reveal_strlit("NamedNode");
        reveal_strlit("Aged");
        assert("Query"@.len() == 5);
        assert("User"@.len() == 4);
        assert("Node"@.len() == 4);
        assert("NamedNode"@.len() == 9);
        assert("Aged"@.len() == 4);
        assert("Query"@ != "User"@);
        assert("Node"@[0] != "Aged"@[0]);
        assert("Node"@ != "NamedNode"@ && "Aged"@ != "NamedNode"@);
        assert(t1[0].key() == "Query"@);
        assert(!has_key(t1, "User"@));
    }
    let registry = User::register(registry);
    let ghost t2 = registry.types@;
    proof {
        assert(t2[0] == t1[0]);
        assert(query_model(t2[0]@) && user_model(t2[1]@));
        assert(!has_key(registry.interfaces@, "Node"@));
    }
    let registry = Node::register(registry);
    let ghost i1 = registry.interfaces@;
    proof {
        assert(registry.types@ == t2);
        assert(node_iface_model(i1[0]));
        assert(i1[0].key() == "Node"@);
        assert(!has_key(i1, "NamedNode"@));
    }
    let registry = NamedNode::register(registry);
    let ghost i2 = registry.interfaces@;
    proof {
        assert(registry.types@ == t2);
        assert(i2[0] == i1[0]);
        assert(node_iface_model(i2[0]) && named_node_iface_model(i2[1]));
        assert(i2[0].key() != "Aged"@ && i2[1].key() != "Aged"@);
        assert(!has_key(i2, "Aged"@));
    }
    let registry = Aged::register(registry);
    let ghost i3 = registry.interfaces@;
    proof {
        assert(registry.types@ == t2);
        assert(i3[0] == i2[0] && i3[1] == i2[1]);
        assert(node_iface_model(i3[0]) && named_node_iface_model(i3[1]) && aged_iface_model(
            i3[2],
        ));
        assert(registry.pend() =~= Seq::<PendingModel>::empty());
        lemma_stuck_empty_iff(registry.objs(), registry.pend());
        assert(crate::registry::inject_all(registry.objs(), registry.pend()) == registry.objs());
    }
    let ghost objs = registry.objs();
    let ghost ifaces = registry.interfaces@;
    let r = registry.build_schema("Query", None);
    proof {
        if r is Ok {
            let s = r->Ok_0;
            let m = s.types@.map_values(|o: ObjectDef| o@);
            assert(m == objs);
            assert(s.types@.len() == 2);
            assert(m[0] == s.types@[0]@ && m[1] == s.types@[1]@);
            assert(objs[0] == t2[0]@ && objs[1] == t2[1]@);
            assert(s.interfaces@ == ifaces);
            assert(assembled(s));
        }
    }
    r
}

} // verus!
