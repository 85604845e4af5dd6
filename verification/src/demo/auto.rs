//! Interface implementations attached from outside: the `User` object is
//! registered bare, and one module per interface injects the interface's
//! fields and the `implements` declaration onto it.  Composition is done
//! by an explicit sequence of registration calls, so the order is visible
//! and reorderable.
use vstd::prelude::*;

use crate::registry::{has_key, lemma_inject_one_at, lemma_inject_one_names, lemma_stuck_empty_iff,
    lemma_upsert_fresh, lemma_upsert_keys, spec_upsert, ExpandObject, ExpandObjectContext,
    Interface, NamedDef, Object, PendingModel, Register, RegistrationFailure, Registry};
use crate::schema::Schema;
use crate::types::{simple_field_nn, FieldDef, InterfaceDef, ObjectDef, ObjectModel, TypeRef};

verus! {

/// A value with an identifier.
pub trait Node {
    fn resolve_id(&self) -> String;
}

/// A node that also has a name.
pub trait NamedNode: Node {
    fn resolve_name(&self) -> String;
}

/// A value with an age.
pub trait Aged {
    fn resolve_age(&self) -> i64;
}

pub struct Query {
    pub user: User,
}

pub struct User {
    pub id: String,
    pub name: String,
    pub age: i64,
}

impl Node for User {
    fn resolve_id(&self) -> (r: String)
        ensures
            r@ == self.id@,
    {
        self.id.clone()
    }
}

impl NamedNode for User {
    fn resolve_name(&self) -> (r: String)
        ensures
            r@ == self.name@,
    {
        self.name.clone()
    }
}

impl Aged for User {
    fn resolve_age(&self) -> (r: i64)
        ensures
            r == self.age,
    {
        self.age
    }
}

impl Query {
    pub fn resolve_user(&self) -> (r: &User)
        ensures
            r == &self.user,
    {
        &self.user
    }
}

/// The interface definition registered for `Node`.
pub open spec fn node_iface_model(d: InterfaceDef) -> bool {
    &&& d.name@ == "Node"@
    &&& d.implements@.len() == 0
    &&& d.fields@.len() == 1
    &&& simple_field_nn(d.fields@[0], "id"@, "String"@)
}

/// The interface definition registered for `NamedNode`: it implements
/// `Node` and re-declares its parent's field after its own.
pub open spec fn named_node_iface_model(d: InterfaceDef) -> bool {
    &&& d.name@ == "NamedNode"@
    &&& d.implements@.len() == 1
    &&& d.implements@[0]@ == "Node"@
    &&& d.fields@.len() == 2
    &&& simple_field_nn(d.fields@[0], "name"@, "String"@)
    &&& simple_field_nn(d.fields@[1], "id"@, "String"@)
}

/// The interface definition registered for `Aged`.
pub open spec fn aged_iface_model(d: InterfaceDef) -> bool {
    &&& d.name@ == "Aged"@
    &&& d.implements@.len() == 0
    &&& d.fields@.len() == 1
    &&& simple_field_nn(d.fields@[0], "age"@, "Int"@)
}

/// The definition registered for `Query`: exactly `user: User!`.
pub open spec fn query_model(o: ObjectModel) -> bool {
    &&& o.name == "Query"@
    &&& o.implements.len() == 0
    &&& o.fields.len() == 1
    &&& simple_field_nn(o.fields[0], "user"@, "User"@)
}

/// The bare definition registered for `User`: every field and interface
/// declaration arrives by injection.
pub open spec fn user_base_model(o: ObjectModel) -> bool {
    &&& o.name == "User"@
    &&& o.implements.len() == 0
    &&& o.fields.len() == 0
}

/// `User` after the fixpoint: the three injected fields and the three
/// injected interface declarations, in arrival order.
pub open spec fn user_expanded_model(o: ObjectModel) -> bool {
    &&& o.name == "User"@
    &&& o.implements.len() == 3
    &&& o.implements[0] == "Node"@
    &&& o.implements[1] == "NamedNode"@
    &&& o.implements[2] == "Aged"@
    &&& o.fields.len() == 3
    &&& simple_field_nn(o.fields[0], "id"@, "String"@)
    &&& simple_field_nn(o.fields[1], "name"@, "String"@)
    &&& simple_field_nn(o.fields[2], "age"@, "Int"@)
}

/// One expander's injection onto `User`: one field and one `implements`
/// declaration, with the expander's provenance.
pub open spec fn expand_injection(
    p: PendingModel,
    fname: Seq<char>,
    fty: Seq<char>,
    iface: Seq<char>,
    definition: Seq<char>,
) -> bool {
    &&& p.target == "User"@
    &&& p.fields.len() == 1
    &&& simple_field_nn(p.fields[0], fname, fty)
    &&& p.implements.len() == 1
    &&& p.implements[0] == iface
    &&& p.definition == definition
    &&& p.field == fname
}

impl Object for Query {
    open spec fn gql_name() -> Seq<char> {
        "Query"@
    }

    fn gql_type_name() -> (r: String) {
        "Query".to_owned()
    }
}

impl Object for User {
    open spec fn gql_name() -> Seq<char> {
        "User"@
    }

    fn gql_type_name() -> (r: String) {
        "User".to_owned()
    }
}

/// Registers the `Node` interface type.
pub struct NodeInterface {}

impl Interface for NodeInterface {
    open spec fn gql_name() -> Seq<char> {
        "Node"@
    }

    fn gql_type_name() -> (r: String) {
        "Node".to_owned()
    }

    fn register_fields(interface: InterfaceDef) -> (r: InterfaceDef)
        ensures
            r.name@ == interface.name@,
            r.implements@ == interface.implements@,
            r.fields@.len() == interface.fields@.len() + 1,
            r.fields@.drop_last() == interface.fields@,
            simple_field_nn(r.fields@.last(), "id"@, "String"@),
    {
        let out = interface.field(FieldDef::new("id", TypeRef::named_nn("String")));
        proof {
            assert(out.fields@.drop_last() =~= interface.fields@);
        }
        out
    }
}

impl Register for NodeInterface {
    fn register(registry: Registry) -> (r: Registry)
        ensures
            (exists|d: InterfaceDef| #[trigger] node_iface_model(d) && r.interfaces@ == spec_upsert(
                registry.interfaces@,
                d,
            )),
            !has_key(registry.interfaces@, "Node"@) ==> (r.interfaces@ == registry.interfaces@.push(
                r.interfaces@.last(),
            ) && node_iface_model(r.interfaces@.last())),
            has_key(r.interfaces@, "Node"@),
            forall|k: Seq<char>| has_key(registry.interfaces@, k) ==> has_key(r.interfaces@, k),
            r.types@ == registry.types@,
            r.pend() == registry.pend(),
            r.enums@ == registry.enums@,
            r.unions@ == registry.unions@,
            r.input_types@ == registry.input_types@,
            r.extend_types@ == registry.extend_types@,
    {
        let interface = NodeInterface::register_fields(InterfaceDef::new("Node"));
        let ghost d = interface;
        let out = registry.register_interface(interface);
        proof {
            assert(node_iface_model(d));
            lemma_upsert_keys(registry.interfaces@, d);
            if !has_key(registry.interfaces@, "Node"@) {
                lemma_upsert_fresh(registry.interfaces@, d);
            }
        }
        out
    }
}

/// Registers the `NamedNode` interface type, which extends `Node`.
pub struct NamedNodeInterface {}

impl Interface for NamedNodeInterface {
    open spec fn gql_name() -> Seq<char> {
        "NamedNode"@
    }

    fn gql_type_name() -> (r: String) {
        "NamedNode".to_owned()
    }

    fn register_fields(interface: InterfaceDef) -> (r: InterfaceDef)
        ensures
            r.name@ == interface.name@,
            r.implements@ == interface.implements@,
            r.fields@.len() == interface.fields@.len() + 2,
            r.fields@.drop_last().drop_last() == interface.fields@,
            simple_field_nn(r.fields@[r.fields@.len() - 2], "name"@, "String"@),
            simple_field_nn(r.fields@.last(), "id"@, "String"@),
    {
        let out = interface.field(FieldDef::new("name", TypeRef::named_nn("String")));
        let out2 = NodeInterface::register_fields(out);
        proof {
            assert(out2.fields@.drop_last().drop_last() =~= interface.fields@);
            assert(out2.fields@[out2.fields@.len() - 2] == out.fields@.last());
        }
        out2
    }
}

impl Register for NamedNodeInterface {
    fn register(registry: Registry) -> (r: Registry)
        ensures
            (exists|d: InterfaceDef| #[trigger] named_node_iface_model(d) && r.interfaces@ == spec_upsert(
                registry.interfaces@,
                d,
            )),
            !has_key(registry.interfaces@, "NamedNode"@) ==> (r.interfaces@ == registry.interfaces@.push(
                r.interfaces@.last(),
            ) && named_node_iface_model(r.interfaces@.last())),
            has_key(r.interfaces@, "NamedNode"@),
            forall|k: Seq<char>| has_key(registry.interfaces@, k) ==> has_key(r.interfaces@, k),
            r.types@ == registry.types@,
            r.pend() == registry.pend(),
            r.enums@ == registry.enums@,
            r.unions@ == registry.unions@,
            r.input_types@ == registry.input_types@,
            r.extend_types@ == registry.extend_types@,
    {
        let interface = NamedNodeInterface::register_fields(
            InterfaceDef::new("NamedNode").implement("Node"),
        );
        let ghost d = interface;
        let out = registry.register_interface(interface);
        proof {
            assert(named_node_iface_model(d));
            lemma_upsert_keys(registry.interfaces@, d);
            if !has_key(registry.interfaces@, "NamedNode"@) {
                lemma_upsert_fresh(registry.interfaces@, d);
            }
        }
        out
    }
}

/// Registers the `Aged` interface type.
pub struct AgedInterface {}

impl Interface for AgedInterface {
    open spec fn gql_name() -> Seq<char> {
        "Aged"@
    }

    fn gql_type_name() -> (r: String) {
        "Aged".to_owned()
    }

    fn register_fields(interface: InterfaceDef) -> (r: InterfaceDef)
        ensures
            r.name@ == interface.name@,
            r.implements@ == interface.implements@,
            r.fields@.len() == interface.fields@.len() + 1,
            r.fields@.drop_last() == interface.fields@,
            simple_field_nn(r.fields@.last(), "age"@, "Int"@),
    {
        let out = interface.field(FieldDef::new("age", TypeRef::named_nn("Int")));
        proof {
            assert(out.fields@.drop_last() =~= interface.fields@);
        }
        out
    }
}

impl Register for AgedInterface {
    fn register(registry: Registry) -> (r: Registry)
        ensures
            (exists|d: InterfaceDef| #[trigger] aged_iface_model(d) && r.interfaces@ == spec_upsert(
                registry.interfaces@,
                d,
            )),
            !has_key(registry.interfaces@, "Aged"@) ==> (r.interfaces@ == registry.interfaces@.push(
                r.interfaces@.last(),
            ) && aged_iface_model(r.interfaces@.last())),
            has_key(r.interfaces@, "Aged"@),
            forall|k: Seq<char>| has_key(registry.interfaces@, k) ==> has_key(r.interfaces@, k),
            r.types@ == registry.types@,
            r.pend() == registry.pend(),
            r.enums@ == registry.enums@,
            r.unions@ == registry.unions@,
            r.input_types@ == registry.input_types@,
            r.extend_types@ == registry.extend_types@,
    {
        let interface = AgedInterface::register_fields(InterfaceDef::new("Aged"));
        let ghost d = interface;
        let out = registry.register_interface(interface);
        proof {
            assert(aged_iface_model(d));
            lemma_upsert_keys(registry.interfaces@, d);
            if !has_key(registry.interfaces@, "Aged"@) {
                lemma_upsert_fresh(registry.interfaces@, d);
            }
        }
        out
    }
}

/// Registers the bare `User` object that the expanders then extend.
pub struct UserRegister {}

impl UserRegister {
    pub fn new() -> (r: UserRegister) {
        UserRegister {}
    }
}

impl Register for UserRegister {
    fn register(registry: Registry) -> (r: Registry)
        ensures
            (exists|d: ObjectDef| #[trigger] user_base_model(d@) && r.types@ == spec_upsert(
                registry.types@,
                d,
            )),
            !has_key(registry.types@, "User"@) ==> (r.types@ == registry.types@.push(
                r.types@.last(),
            ) && user_base_model(r.types@.last()@)),
            has_key(r.types@, "User"@),
            forall|k: Seq<char>| has_key(registry.types@, k) ==> has_key(r.types@, k),
            r.pend() == registry.pend(),
            r.enums@ == registry.enums@,
            r.unions@ == registry.unions@,
            r.interfaces@ == registry.interfaces@,
            r.input_types@ == registry.input_types@,
            r.extend_types@ == registry.extend_types@,
    {
        let object_type = ObjectDef::new("User");
        let ghost d = object_type;
        let out = registry.register_object(object_type);
        proof {
            assert(user_base_model(d@));
            lemma_upsert_keys(registry.types@, d);
            if !has_key(registry.types@, "User"@) {
                lemma_upsert_fresh(registry.types@, d);
            }
        }
        out
    }
}

/// Injects the `Node` contract onto `User`: its `id` field and the
/// `implements Node` declaration.
pub struct NodeExpandUser {}

impl ExpandObject for NodeExpandUser {
    type Target = User;
}

impl Register for NodeExpandUser {
    fn register(registry: Registry) -> (r: Registry)
        ensures
            r.pend() == registry.pend().push(r.pend().last()),
            expand_injection(r.pend().last(), "id"@, "String"@, "Node"@, "NodeExpandUser"@),
            r.types@ == registry.types@,
            r.enums@ == registry.enums@,
            r.unions@ == registry.unions@,
            r.interfaces@ == registry.interfaces@,
            r.input_types@ == registry.input_types@,
            r.extend_types@ == registry.extend_types@,
    {
        let mut fields: Vec<FieldDef> = Vec::new();
        fields.push(FieldDef::new("id", TypeRef::named_nn("String")));
        let mut implements: Vec<String> = Vec::new();
        implements.push("Node".to_owned());
        let out = registry.update_object(
            "User",
            fields,
            implements,
            ExpandObjectContext::new("NodeExpandUser", "id"),
        );
        proof {
            assert(expand_injection(out.pend().last(), "id"@, "String"@, "Node"@, "NodeExpandUser"@));
        }
        out
    }
}

/// Injects the `NamedNode` contract onto `User`.
pub struct NamedNodeExpandUser {}

impl ExpandObject for NamedNodeExpandUser {
    type Target = User;
}

impl Register for NamedNodeExpandUser {
    fn register(registry: Registry) -> (r: Registry)
        ensures
            r.pend() == registry.pend().push(r.pend().last()),
            expand_injection(r.pend().last(), "name"@, "String"@, "NamedNode"@, "NamedNodeExpandUser"@),
            r.types@ == registry.types@,
            r.enums@ == registry.enums@,
            r.unions@ == registry.unions@,
            r.interfaces@ == registry.interfaces@,
            r.input_types@ == registry.input_types@,
            r.extend_types@ == registry.extend_types@,
    {
        let mut fields: Vec<FieldDef> = Vec::new();
        fields.push(FieldDef::new("name", TypeRef::named_nn("String")));
        let mut implements: Vec<String> = Vec::new();
        implements.push("NamedNode".to_owned());
        let out = registry.update_object(
            "User",
            fields,
            implements,
            ExpandObjectContext::new("NamedNodeExpandUser", "name"),
        );
        proof {
            assert(expand_injection(out.pend().last(), "name"@, "String"@, "NamedNode"@, "NamedNodeExpandUser"@));
        }
        out
    }
}

/// Injects the `Aged` contract onto `User`.
pub struct AgedExpandUser {}

impl ExpandObject for AgedExpandUser {
    type Target = User;
}

impl Register for AgedExpandUser {
    fn register(registry: Registry) -> (r: Registry)
        ensures
            r.pend() == registry.pend().push(r.pend().last()),
            expand_injection(r.pend().last(), "age"@, "Int"@, "Aged"@, "AgedExpandUser"@),
            r.types@ == registry.types@,
            r.enums@ == registry.enums@,
            r.unions@ == registry.unions@,
            r.interfaces@ == registry.interfaces@,
            r.input_types@ == registry.input_types@,
            r.extend_types@ == registry.extend_types@,
    {
        let mut fields: Vec<FieldDef> = Vec::new();
        fields.push(FieldDef::new("age", TypeRef::named_nn("Int")));
        let mut implements: Vec<String> = Vec::new();
        implements.push("Aged".to_owned());
        let out = registry.update_object(
            "User",
            fields,
            implements,
            ExpandObjectContext::new("AgedExpandUser", "age"),
        );
        proof {
            assert(expand_injection(out.pend().last(), "age"@, "Int"@, "Aged"@, "AgedExpandUser"@));
        }
        out
    }
}

impl Register for Query {
    fn register(registry: Registry) -> (r: Registry)
        ensures
            (exists|d: ObjectDef| #[trigger] query_model(d@) && r.types@ == spec_upsert(
                registry.types@,
                d,
            )),
            !has_key(registry.types@, "Query"@) ==> (r.types@ == registry.types@.push(
                r.types@.last(),
            ) && query_model(r.types@.last()@)),
            has_key(r.types@, "Query"@),
            forall|k: Seq<char>| has_key(registry.types@, k) ==> has_key(r.types@, k),
            r.pend() == registry.pend(),
            r.enums@ == registry.enums@,
            r.unions@ == registry.unions@,
            r.interfaces@ == registry.interfaces@,
            r.input_types@ == registry.input_types@,
            r.extend_types@ == registry.extend_types@,
    {
        let object_type = ObjectDef::new("Query").field(
            FieldDef::new("user", TypeRef::named_nn("User")),
        );
        let ghost d = object_type;
        let out = registry.register_object(object_type);
        proof {
            assert(query_model(d@));
            lemma_upsert_keys(registry.types@, d);
            if !has_key(registry.types@, "Query"@) {
                lemma_upsert_fresh(registry.types@, d);
            }
        }
        out
    }
}

/// The schema this module assembles: after the fixpoint, `User` carries
/// the three injected fields and implements the three interfaces.
pub open spec fn assembled(s: Schema) -> bool {
    &&& s.query_name@ == "Query"@
    &&& s.mutation_name is None
    &&& s.enums@.len() == 0
    &&& s.unions@.len() == 0
    &&& s.interfaces@.len() == 3
    &&& node_iface_model(s.interfaces@[0])
    &&& named_node_iface_model(s.interfaces@[1])
    &&& aged_iface_model(s.interfaces@[2])
    &&& s.input_types@.len() == 0
    &&& s.extend_types@.len() == 0
    &&& s.types@.len() == 2
    &&& query_model(s.types@[0]@)
    &&& user_expanded_model(s.types@[1]@)
}

/// Assemble the schema for this module: the composition root calls each
/// module's registration in an explicit order.  Every queued injection
/// targets the registered `User`, so the fixpoint always resolves them,
/// the assembly always succeeds, and the result is the expanded schema.
pub fn create_schema() -> (r: Result<Schema, RegistrationFailure>)
    ensures
        r is Ok,
        r matches Ok(s) ==> assembled(s),
{
    let registry = Registry::new();
    let ghost t0 = registry.types@;
    let registry = Query::register(registry);
    let ghost t1 = registry.types@;
    proof {
        assert(!has_key(t0, "Query"@));
        assert(query_model(t1[0]@));
        reveal_strlit("Query");
        reveal_strlit("User");
        reveal_strlit("Node");
        reveal_strlit("NamedNode");
        reveal_strlit("Aged");
        assert("Query"@.len() == 5);
        assert("User"@.len() == 4);
        assert("Node"@.len() == 4);
        assert("NamedNode"@.len() == 9);
        assert("Aged"@.len() == 4);
        assert("Query"@ != "User"@);
        assert("Node"@[0] != "Aged"@[0]);
        assert("Node"@ != "NamedNode"@ && "Aged"@ != "NamedNode"@);
        assert(t1[0].key() == "Query"@);
        assert(!has_key(t1, "User"@));
    }
    let registry = UserRegister::register(registry);
    let ghost t2 = registry.types@;
    proof {
        assert(t2[0] == t1[0]);
        assert(query_model(t2[0]@) && user_base_model(t2[1]@));
        assert(!has_key(registry.interfaces@, "Node"@));
    }
    let registry = NodeInterface::register(registry);
    let ghost i1 = registry.interfaces@;
    proof {
        assert(registry.types@ == t2);
        assert(node_iface_model(i1[0]));
        assert(i1[0].key() == "Node"@);
        assert(!has_key(i1, "NamedNode"@));
    }
    let registry = NamedNodeInterface::register(registry);
    let ghost i2 = registry.interfaces@;
    proof {
        assert(registry.types@ == t2);
        assert(i2[0] == i1[0]);
        assert(node_iface_model(i2[0]) && named_node_iface_model(i2[1]));
        assert(i2[0].key() != "Aged"@ && i2[1].key() != "Aged"@);
        assert(!has_key(i2, "Aged"@));
    }
    let registry = AgedInterface::register(registry);
    let ghost i3 = registry.interfaces@;
    proof {
        assert(registry.types@ == t2);
        assert(i3[0] == i2[0] && i3[1] == i2[1]);
        assert(node_iface_model(i3[0]) && named_node_iface_model(i3[1]) && aged_iface_model(
            i3[2],
        ));
    }
    let registry = NodeExpandUser::register(registry);
    let ghost p1 = registry.pend();
    let registry = NamedNodeExpandUser::register(registry);
    let ghost p2 = registry.pend();
    let registry = AgedExpandUser::register(registry);
    let ghost objs = registry.objs();
    let ghost ps = registry.pend();
    proof {
        assert(registry.types@ == t2);
        assert(registry.interfaces@ == i3);
        assert(objs.len() == 2);
        assert(objs[0] == t2[0]@ && objs[1] == t2[1]@);
        assert(ps.len() == 3);
        assert(p2.drop_last() == p1 && ps.drop_last() == p2);
        assert(ps[0] == p1[0] && ps[1] == p2[1]) by {
            assert(ps.drop_last()[0] == ps[0] && ps.drop_last()[1] == ps[1]);
            assert(p2.drop_last()[0] == p2[0]);
        }
        assert(expand_injection(ps[0], "id"@, "String"@, "Node"@, "NodeExpandUser"@)) by {
            assert(p1.last() == p1[0]);
        }
        assert(expand_injection(ps[1], "name"@, "String"@, "NamedNode"@, "NamedNodeExpandUser"@))
            by {
            assert(p2.last() == p2[1]);
        }
        assert(expand_injection(ps[2], "age"@, "Int"@, "Aged"@, "AgedExpandUser"@)) by {
            assert(ps.last() == ps[2]);
        }
        assert(crate::registry::objs_unique(objs)) by {
            assert forall|i: int, j: int| 0 <= i < j < objs.len() implies objs[i].name != objs[
                j].name by {
                assert(objs[0].name == "Query"@ && objs[1].name == "User"@);
            }
        }
        lemma_inject_one_at(objs, ps[0], 1);
        let s1 = crate::registry::inject_one(objs, ps[0]);
        lemma_inject_one_names(objs, ps[0]);
        assert(crate::registry::objs_unique(s1)) by {
            assert forall|i: int, j: int| 0 <= i < j < s1.len() implies s1[i].name != s1[
                j].name by {
                assert(s1[0].name == "Query"@ && s1[1].name == "User"@);
            }
        }
        lemma_inject_one_at(s1, ps[1], 1);
        let s2 = crate::registry::inject_one(s1, ps[1]);
        lemma_inject_one_names(s1, ps[1]);
        assert(crate::registry::objs_unique(s2)) by {
            assert forall|i: int, j: int| 0 <= i < j < s2.len() implies s2[i].name != s2[
                j].name by {
                assert(s2[0].name == "Query"@ && s2[1].name == "User"@);
            }
        }
        lemma_inject_one_at(s2, ps[2], 1);
        let s3 = crate::registry::inject_one(s2, ps[2]);
        assert(crate::registry::inject_all(objs, ps) == s3) by {
            assert(ps.drop_first()[0] == ps[1] && ps.drop_first()[1] == ps[2]);
            assert(ps.drop_first().drop_first()[0] == ps[2]);
            assert(ps.drop_first().drop_first().drop_first() =~= Seq::<PendingModel>::empty());
            assert(crate::registry::inject_all(s3, ps.drop_first().drop_first().drop_first())
                == s3);
            assert(crate::registry::inject_all(s2, ps.drop_first().drop_first()) == s3);
            assert(crate::registry::inject_all(s1, ps.drop_first()) == s3);
        }
        assert(user_expanded_model(s3[1])) by {
            assert(s1[1].fields == objs[1].fields + ps[0].fields);
            assert(s1[1].implements == objs[1].implements + ps[0].implements);
            assert(s1[1].fields.len() == 1 && s1[1].fields[0] == ps[0].fields[0]);
            assert(s1[1].implements.len() == 1 && s1[1].implements[0] == ps[0].implements[0]);
            assert(s2[1].fields == s1[1].fields + ps[1].fields);
            assert(s2[1].implements == s1[1].implements + ps[1].implements);
            assert(s2[1].fields.len() == 2);
            assert(s2[1].fields[0] == s1[1].fields[0] && s2[1].fields[1] == ps[1].fields[0]);
            assert(s2[1].implements.len() == 2);
            assert(s2[1].implements[0] == s1[1].implements[0] && s2[1].implements[1] == ps[
                1].implements[0]);
            assert(s3[1].fields == s2[1].fields + ps[2].fields);
            assert(s3[1].implements == s2[1].implements + ps[2].implements);
            assert(s3[1].fields.len() == 3);
            assert(s3[1].fields[0] == s2[1].fields[0] && s3[1].fields[1] == s2[1].fields[1]
                && s3[1].fields[2] == ps[2].fields[0]);
            assert(s3[1].implements.len() == 3);
            assert(s3[1].implements[0] == s2[1].implements[0] && s3[1].implements[1] == s2[
                1].implements[1] && s3[1].implements[2] == ps[2].implements[0]);
        }
        assert(s3[0] == objs[0]);
        assert(crate::registry::has_obj(objs, ps[0].target));
        assert forall|i: int| 0 <= i < ps.len() implies crate::registry::has_obj(
            objs,
            #[trigger] ps[i].target,
        ) by {
            assert(i == 0 || i == 1 || i == 2);
            assert(ps[i].target == "User"@);
        }
        lemma_stuck_empty_iff(objs, ps);
    }
    let ghost ifaces = registry.interfaces@;
    let r = registry.build_schema("Query", None);
    proof {
        if r is Ok {
            let s = r->Ok_0;
            let m = s.types@.map_values(|o: ObjectDef| o@);
            assert(m == crate::registry::inject_all(objs, ps));
            assert(crate::registry::inject_all(objs, ps) == crate::registry::inject_one(
                crate::registry::inject_one(crate::registry::inject_one(objs, ps[0]), ps[1]),
                ps[2],
            ));
            assert(m.len() == 2);
            assert(s.types@.len() == 2);
            assert(m[0] == s.types@[0]@ && m[1] == s.types@[1]@);
            assert(s.interfaces@ == ifaces);
            assert(assembled(s));
        }
    }
    r
}

} // verus!
