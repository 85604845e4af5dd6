//! An interface-typed query field: the concrete node is chosen at
//! resolution time and handed back through the erasure boundary, tagged
//! with its registered type name.
use vstd::prelude::*;

use crate::anybox::AnyBox;
use crate::registry::{has_key, lemma_inject_one_at, lemma_inject_one_names, lemma_stuck_empty_iff,
    lemma_upsert_fresh, lemma_upsert_keys, spec_upsert, ExpandObject, ExpandObjectContext,
    Interface, NamedDef, Object, PendingModel, Register, RegistrationFailure, Registry};
use crate::schema::Schema;
use crate::types::{simple_arg_nn, simple_field_nn, FieldDef, InputValueDef, InterfaceDef,
    ObjectDef, ObjectModel, TypeRef};

verus! {

pub struct FooNode {
    pub id: String,
}

pub struct BarNode {
    pub id: String,
}

impl FooNode {
    pub fn resolve_id(&self) -> (r: &String)
        ensures
            r == &self.id,
    {
        &self.id
    }

    pub fn resolve_name(&self) -> (r: String)
        ensures
            r@ == "foo"@,
    {
        "foo".to_owned()
    }

    pub fn resolve_foo(&self) -> (r: String)
        ensures
            r@ == "foo"@,
    {
        "foo".to_owned()
    }
}

impl BarNode {
    pub fn resolve_id(&self) -> (r: &String)
        ensures
            r == &self.id,
    {
        &self.id
    }

    pub fn resolve_name(&self) -> (r: String)
        ensures
            r@ == "bar"@,
    {
        "bar".to_owned()
    }

    pub fn resolve_bar(&self) -> (r: String)
        ensures
            r@ == "bar"@,
    {
        "bar".to_owned()
    }
}

/// The concrete types that can stand behind the `Node` interface here.
pub enum NodeValue {
    Foo(FooNode),
    Bar(BarNode),
}

/// The registered type name of the concrete node.
pub open spec fn node_tag(v: NodeValue) -> Seq<char> {
    match v {
        NodeValue::Foo(_) => "FooNode"@,
        NodeValue::Bar(_) => "BarNode"@,
    }
}

/// An interface-typed result: a node behind the erasure boundary, tagged
/// with the concrete type's name.
pub struct NodeInterface<'a>(pub AnyBox<'a, NodeValue>);

impl NodeInterface<'_> {
    /// Erase a freshly constructed node; the producer knows the concrete
    /// type at the call site and tags it directly.
    pub fn new_owned<'a>(value: NodeValue) -> (r: NodeInterface<'a>)
        ensures
            r.0 is Owned,
            r.0.spec_value() == value,
            r.0.tag() == node_tag(value),
    {
        let tag: String = match &value {
            NodeValue::Foo(_) => "FooNode".to_owned(),
            NodeValue::Bar(_) => "BarNode".to_owned(),
        };
        NodeInterface(AnyBox::new_owned(value, tag))
    }

    /// Erase a node borrowed from a still-alive parent.
    pub fn new_borrowed<'a>(value: &'a NodeValue) -> (r: NodeInterface<'a>)
        ensures
            r.0 is Borrowed,
            r.0.spec_value() == *value,
            r.0.tag() == node_tag(*value),
    {
        let tag: String = match value {
            NodeValue::Foo(_) => "FooNode".to_owned(),
            NodeValue::Bar(_) => "BarNode".to_owned(),
        };
        NodeInterface(AnyBox::new_borrowed(value, tag))
    }
}

pub struct Query {}

impl Query {
    /// Look a node up by identifier; the concrete variant depends on the
    /// value asked for, and the result owns a freshly built node carrying
    /// the identifier it was asked for.
    pub fn resolve_node(&self, id: &String) -> (r: Option<NodeInterface>)
        ensures
            id@ == "foo-1"@ ==> (r matches Some(n) && n.0 is Owned && n.0.tag() == "FooNode"@ && (
            n.0.spec_value() matches NodeValue::Foo(f) && f.id@ == id@)),
            id@ != "foo-1"@ && id@ == "bar-1"@ ==> (r matches Some(n) && n.0 is Owned && n.0.tag()
                == "BarNode"@ && (n.0.spec_value() matches NodeValue::Bar(b) && b.id@ == id@)),
            id@ != "foo-1"@ && id@ != "bar-1"@ ==> r is None,
    {
        if *id == "foo-1".to_owned() {
            Some(NodeInterface::new_owned(NodeValue::Foo(FooNode { id: "foo-1".to_owned() })))
        } else if *id == "bar-1".to_owned() {
            Some(NodeInterface::new_owned(NodeValue::Bar(BarNode { id: "bar-1".to_owned() })))
        } else {
            None
        }
    }
}

/// The `Node` interface declaration.
pub struct NodeDecl {}

impl Interface for NodeDecl {
    open spec fn gql_name() -> Seq<char> {
        "Node"@
    }

    fn gql_type_name() -> (r: String) {
        "Node".to_owned()
    }

    fn register_fields(interface: InterfaceDef) -> (r: InterfaceDef)
        ensures
            r.name@ == interface.name@,
            r.implements@ == interface.implements@,
            r.fields@.len() == interface.fields@.len() + 1,
            r.fields@.drop_last() == interface.fields@,
            simple_field_nn(r.fields@.last(), "id"@, "String"@),
    {
        let out = interface.field(FieldDef::new("id", TypeRef::named_nn("String")));
        proof {
            assert(out.fields@.drop_last() =~= interface.fields@);
        }
        out
    }
}

/// The interface definition this module registers for `Node`: exactly
/// the field `id: String!`.
pub open spec fn node_iface_model(d: InterfaceDef) -> bool {
    &&& d.name@ == "Node"@
    &&& d.implements@.len() == 0
    &&& d.fields@.len() == 1
    &&& simple_field_nn(d.fields@[0], "id"@, "String"@)
}

/// The definition this module registers for `Query`: exactly the field
/// `node(id: String!): Node` (nullable, since the lookup can miss).
pub open spec fn query_model(o: ObjectModel) -> bool {
    &&& o.name == "Query"@
    &&& o.implements.len() == 0
    &&& o.fields.len() == 1
    &&& o.fields[0].name@ == "node"@
    &&& crate::types::is_named(o.fields[0].ty, "Node"@)
    &&& o.fields[0].args@.len() == 1
    &&& simple_arg_nn(o.fields[0].args@[0], "id"@, "String"@)
}

/// The base definition registered for `FooNode`: its own two fields; the
/// `id` field and the interface declaration arrive by injection.
pub open spec fn foo_node_base_model(o: ObjectModel) -> bool {
    &&& o.name == "FooNode"@
    &&& o.implements.len() == 0
    &&& o.fields.len() == 2
    &&& simple_field_nn(o.fields[0], "name"@, "String"@)
    &&& simple_field_nn(o.fields[1], "foo"@, "String"@)
}

/// `FooNode` after the fixpoint: its own fields plus the injected `id`,
/// implementing `Node`.
pub open spec fn foo_node_expanded_model(o: ObjectModel) -> bool {
    &&& o.name == "FooNode"@
    &&& o.implements.len() == 1
    &&& o.implements[0] == "Node"@
    &&& o.fields.len() == 3
    &&& simple_field_nn(o.fields[0], "name"@, "String"@)
    &&& simple_field_nn(o.fields[1], "foo"@, "String"@)
    &&& simple_field_nn(o.fields[2], "id"@, "String"@)
}

/// The base definition registered for `BarNode`.
pub open spec fn bar_node_base_model(o: ObjectModel) -> bool {
    &&& o.name == "BarNode"@
    &&& o.implements.len() == 0
    &&& o.fields.len() == 2
    &&& simple_field_nn(o.fields[0], "name"@, "String"@)
    &&& simple_field_nn(o.fields[1], "bar"@, "String"@)
}

/// `BarNode` after the fixpoint.
pub open spec fn bar_node_expanded_model(o: ObjectModel) -> bool {
    &&& o.name == "BarNode"@
    &&& o.implements.len() == 1
    &&& o.implements[0] == "Node"@
    &&& o.fields.len() == 3
    &&& simple_field_nn(o.fields[0], "name"@, "String"@)
    &&& simple_field_nn(o.fields[1], "bar"@, "String"@)
    &&& simple_field_nn(o.fields[2], "id"@, "String"@)
}

/// The injection each expander enqueues: the `id: String!` field and the
/// `implements Node` declaration onto its target, with its provenance.
pub open spec fn node_injection(
    p: PendingModel,
    target: Seq<char>,
    definition: Seq<char>,
) -> bool {
    &&& p.target == target
    &&& p.fields.len() == 1
    &&& simple_field_nn(p.fields[0], "id"@, "String"@)
    &&& p.implements.len() == 1
    &&& p.implements[0] == "Node"@
    &&& p.definition == definition
    &&& p.field == "id"@
}

impl Object for FooNode {
    open spec fn gql_name() -> Seq<char> {
        "FooNode"@
    }

    fn gql_type_name() -> (r: String) {
        "FooNode".to_owned()
    }
}

impl Object for BarNode {
    open spec fn gql_name() -> Seq<char> {
        "BarNode"@
    }

    fn gql_type_name() -> (r: String) {
        "BarNode".to_owned()
    }
}

impl Object for Query {
    open spec fn gql_name() -> Seq<char> {
        "Query"@
    }

    fn gql_type_name() -> (r: String) {
        "Query".to_owned()
    }
}

impl Register for NodeDecl {
    fn register(registry: Registry) -> (r: Registry)
        ensures
            (exists|d: InterfaceDef| #[trigger] node_iface_model(d) && r.interfaces@
                == spec_upsert(registry.interfaces@, d)),
            !has_key(registry.interfaces@, "Node"@) ==> (r.interfaces@ == registry.interfaces@.push(
                r.interfaces@.last(),
            ) && node_iface_model(r.interfaces@.last())),
            has_key(r.interfaces@, "Node"@),
            r.types@ == registry.types@,
            r.pend() == registry.pend(),
            r.enums@ == registry.enums@,
            r.unions@ == registry.unions@,
            r.input_types@ == registry.input_types@,
            r.extend_types@ == registry.extend_types@,
    {
        let interface = NodeDecl::register_fields(InterfaceDef::new("Node"));
        let ghost d = interface;
        let out = registry.register_interface(interface);
        proof {
            assert(node_iface_model(d));
            lemma_upsert_keys(registry.interfaces@, d);
            if !has_key(registry.interfaces@, "Node"@) {
                lemma_upsert_fresh(registry.interfaces@, d);
            }
        }
        out
    }
}

impl Register for FooNode {
    fn register(registry: Registry) -> (r: Registry)
        ensures
            (exists|d: ObjectDef| #[trigger] foo_node_base_model(d@) && r.types@ == spec_upsert(
                registry.types@,
                d,
            )),
            !has_key(registry.types@, "FooNode"@) ==> (r.types@ == registry.types@.push(
                r.types@.last(),
            ) && foo_node_base_model(r.types@.last()@)),
            has_key(r.types@, "FooNode"@),
            forall|k: Seq<char>| has_key(registry.types@, k) ==> has_key(r.types@, k),
            r.pend() == registry.pend(),
            r.enums@ == registry.enums@,
            r.unions@ == registry.unions@,
            r.interfaces@ == registry.interfaces@,
            r.input_types@ == registry.input_types@,
            r.extend_types@ == registry.extend_types@,
    {
        let object_type = ObjectDef::new("FooNode").field(
            FieldDef::new("name", TypeRef::named_nn("String")),
        ).field(FieldDef::new("foo", TypeRef::named_nn("String")));
        let ghost d = object_type;
        let out = registry.register_object(object_type);
        proof {
            assert(d@.fields[0] == d@.fields.drop_last()[0]);
            assert(foo_node_base_model(d@));
            lemma_upsert_keys(registry.types@, d);
            if !has_key(registry.types@, "FooNode"@) {
                lemma_upsert_fresh(registry.types@, d);
            }
        }
        out
    }
}

impl Register for BarNode {
    fn register(registry: Registry) -> (r: Registry)
        ensures
            (exists|d: ObjectDef| #[trigger] bar_node_base_model(d@) && r.types@ == spec_upsert(
                registry.types@,
                d,
            )),
            !has_key(registry.types@, "BarNode"@) ==> (r.types@ == registry.types@.push(
                r.types@.last(),
            ) && bar_node_base_model(r.types@.last()@)),
            has_key(r.types@, "BarNode"@),
            forall|k: Seq<char>| has_key(registry.types@, k) ==> has_key(r.types@, k),
            r.pend() == registry.pend(),
            r.enums@ == registry.enums@,
            r.unions@ == registry.unions@,
            r.interfaces@ == registry.interfaces@,
            r.input_types@ == registry.input_types@,
            r.extend_types@ == registry.extend_types@,
    {
        let object_type = ObjectDef::new("BarNode").field(
            FieldDef::new("name", TypeRef::named_nn("String")),
        ).field(FieldDef::new("bar", TypeRef::named_nn("String")));
        let ghost d = object_type;
        let out = registry.register_object(object_type);
        proof {
            assert(d@.fields[0] == d@.fields.drop_last()[0]);
            assert(bar_node_base_model(d@));
            lemma_upsert_keys(registry.types@, d);
            if !has_key(registry.types@, "BarNode"@) {
                lemma_upsert_fresh(registry.types@, d);
            }
        }
        out
    }
}

/// Injects the `Node` contract onto `FooNode`.
pub struct NodeExpandFooNode {}

impl ExpandObject for NodeExpandFooNode {
    type Target = FooNode;
}

impl Register for NodeExpandFooNode {
    fn register(registry: Registry) -> (r: Registry)
        ensures
            r.pend() == registry.pend().push(r.pend().last()),
            node_injection(r.pend().last(), "FooNode"@, "NodeExpandFooNode"@),
            r.types@ == registry.types@,
            r.enums@ == registry.enums@,
            r.unions@ == registry.unions@,
            r.interfaces@ == registry.interfaces@,
            r.input_types@ == registry.input_types@,
            r.extend_types@ == registry.extend_types@,
    {
        let mut fields: Vec<FieldDef> = Vec::new();
        fields.push(FieldDef::new("id", TypeRef::named_nn("String")));
        let mut implements: Vec<String> = Vec::new();
        implements.push("Node".to_owned());
        let out = registry.update_object(
            "FooNode",
            fields,
            implements,
            ExpandObjectContext::new("NodeExpandFooNode", "id"),
        );
        proof {
            assert(node_injection(out.pend().last(), "FooNode"@, "NodeExpandFooNode"@));
        }
        out
    }
}

/// Injects the `Node` contract onto `BarNode`.
pub struct NodeExpandBarNode {}

impl ExpandObject for NodeExpandBarNode {
    type Target = BarNode;
}

impl Register for NodeExpandBarNode {
    fn register(registry: Registry) -> (r: Registry)
        ensures
            r.pend() == registry.pend().push(r.pend().last()),
            node_injection(r.pend().last(), "BarNode"@, "NodeExpandBarNode"@),
            r.types@ == registry.types@,
            r.enums@ == registry.enums@,
            r.unions@ == registry.unions@,
            r.interfaces@ == registry.interfaces@,
            r.input_types@ == registry.input_types@,
            r.extend_types@ == registry.extend_types@,
    {
        let mut fields: Vec<FieldDef> = Vec::new();
        fields.push(FieldDef::new("id", TypeRef::named_nn("String")));
        let mut implements: Vec<String> = Vec::new();
        implements.push("Node".to_owned());
        let out = registry.update_object(
            "BarNode",
            fields,
            implements,
            ExpandObjectContext::new("NodeExpandBarNode", "id"),
        );
        proof {
            assert(node_injection(out.pend().last(), "BarNode"@, "NodeExpandBarNode"@));
        }
        out
    }
}

impl Register for Query {
    fn register(registry: Registry) -> (r: Registry)
        ensures
            (exists|d: ObjectDef| #[trigger] query_model(d@) && r.types@ == spec_upsert(
                registry.types@,
                d,
            )),
            !has_key(registry.types@, "Query"@) ==> (r.types@ == registry.types@.push(
                r.types@.last(),
            ) && query_model(r.types@.last()@)),
            has_key(r.types@, "Query"@),
            forall|k: Seq<char>| has_key(registry.types@, k) ==> has_key(r.types@, k),
            r.pend() == registry.pend(),
            r.enums@ == registry.enums@,
            r.unions@ == registry.unions@,
            r.interfaces@ == registry.interfaces@,
            r.input_types@ == registry.input_types@,
            r.extend_types@ == registry.extend_types@,
    {
        let node_field = FieldDef::new("node", TypeRef::named("Node")).argument(
            InputValueDef::new("id", TypeRef::named_nn("String")),
        );
        let object_type = ObjectDef::new("Query").field(node_field);
        let ghost d = object_type;
        let out = registry.register_object(object_type);
        proof {
            assert(query_model(d@));
            lemma_upsert_keys(registry.types@, d);
            if !has_key(registry.types@, "Query"@) {
                lemma_upsert_fresh(registry.types@, d);
            }
        }
        out
    }
}

/// The schema this module assembles: after the fixpoint both node types
/// carry the injected `id` field and implement `Node`.
pub open spec fn assembled(s: Schema) -> bool {
    &&& s.query_name@ == "Query"@
    &&& s.mutation_name is None
    &&& s.enums@.len() == 0
    &&& s.unions@.len() == 0
    &&& s.interfaces@.len() == 1
    &&& node_iface_model(s.interfaces@[0])
    &&& s.input_types@.len() == 0
    &&& s.extend_types@.len() == 0
    &&& s.types@.len() == 3
    &&& query_model(s.types@[0]@)
    &&& foo_node_expanded_model(s.types@[1]@)
    &&& bar_node_expanded_model(s.types@[2]@)
}

/// Assemble the schema for this module.  Both queued injections target
/// registered objects, so the fixpoint always resolves them, the
/// assembly always succeeds, and the result is the expanded schema.
pub fn create_schema() -> (r: Result<Schema, RegistrationFailure>)
    ensures
        r is Ok,
        r matches Ok(s) ==> assembled(s),
{
    let registry = Registry::new();
    let ghost t0 = registry.types@;
    let registry = Query::register(registry);
    let ghost t1 = registry.types@;
    proof {
        assert(!has_key(t0, "Query"@));
        assert(query_model(t1[0]@));
        reveal_strlit("Query");
        reveal_strlit("FooNode");
        reveal_strlit("BarNode");
        assert("Query"@.len() == 5);
        assert("FooNode"@.len() == 7);
        assert("BarNode"@.len() == 7);
        assert("Query"@ != "FooNode"@ && "Query"@ != "BarNode"@);
        assert("FooNode"@[0] != "BarNode"@[0]);
        assert(t1[0].key() == "Query"@);
        assert(!has_key(registry.interfaces@, "Node"@));
        assert(!has_key(t1, "FooNode"@));
    }
    let registry = NodeDecl::register(registry);
    let ghost i1 = registry.interfaces@;
    let registry = FooNode::register(registry);
    let ghost t2 = registry.types@;
    proof {
        assert(registry.interfaces@ == i1);
        assert(node_iface_model(i1[0]));
        assert(t2[0] == t1[0]);
        assert(query_model(t2[0]@) && foo_node_base_model(t2[1]@));
    }
    let registry = NodeExpandFooNode::register(registry);
    let ghost p1 = registry.pend();
    proof {
        assert(registry.types@ == t2);
        assert(t2[0].key() != "BarNode"@ && t2[1].key() != "BarNode"@);
        assert(!has_key(t2, "BarNode"@));
    }
    let registry = BarNode::register(registry);
    let ghost t3 = registry.types@;
    proof {
        assert(t3[0] == t2[0] && t3[1] == t2[1]);
        assert(query_model(t3[0]@) && foo_node_base_model(t3[1]@) && bar_node_base_model(t3[2]@));
        assert(registry.pend() == p1);
    }
    let registry = NodeExpandBarNode::register(registry);
    let ghost objs = registry.objs();
    let ghost ps = registry.pend();
    proof {
        assert(registry.types@ == t3);
        assert(objs.len() == 3);
        assert(objs[0] == t3[0]@ && objs[1] == t3[1]@ && objs[2] == t3[2]@);
        assert(ps.len() == 2);
        assert(ps[0] == p1[0]) by {
            assert(ps.drop_last()[0] == ps[0]);
        }
        assert(node_injection(ps[0], "FooNode"@, "NodeExpandFooNode"@)) by {
            assert(p1.last() == p1[0]);
        }
        assert(node_injection(ps[1], "BarNode"@, "NodeExpandBarNode"@)) by {
            assert(ps.last() == ps[1]);
        }
        assert(crate::registry::objs_unique(objs)) by {
            assert forall|i: int, j: int| 0 <= i < j < objs.len() implies objs[i].name != objs[
                j].name by {
                assert(objs[0].name == "Query"@ && objs[1].name == "FooNode"@ && objs[2].name
                    == "BarNode"@);
            }
        }
        lemma_inject_one_at(objs, ps[0], 1);
        let s1 = crate::registry::inject_one(objs, ps[0]);
        lemma_inject_one_names(objs, ps[0]);
        assert(crate::registry::objs_unique(s1)) by {
            assert forall|i: int, j: int| 0 <= i < j < s1.len() implies s1[i].name != s1[
                j].name by {
                assert(s1[0].name == "Query"@ && s1[1].name == "FooNode"@ && s1[2].name
                    == "BarNode"@);
            }
        }
        lemma_inject_one_at(s1, ps[1], 2);
        let s2 = crate::registry::inject_one(s1, ps[1]);
        assert(crate::registry::inject_all(objs, ps) == s2) by {
            assert(ps.drop_first()[0] == ps[1]);
            assert(ps.drop_first().drop_first() =~= Seq::<PendingModel>::empty());
            assert(crate::registry::inject_all(s2, ps.drop_first().drop_first()) == s2);
            assert(crate::registry::inject_all(s1, ps.drop_first()) == s2);
        }
        assert(foo_node_expanded_model(s2[1])) by {
            assert(s1[1].fields == objs[1].fields + ps[0].fields);
            assert(s1[1].implements == objs[1].implements + ps[0].implements);
            assert(s1[1].fields.len() == 3);
            assert(s1[1].fields[0] == objs[1].fields[0] && s1[1].fields[1] == objs[1].fields[1]
                && s1[1].fields[2] == ps[0].fields[0]);
            assert(s1[1].implements.len() == 1 && s1[1].implements[0] == ps[0].implements[0]);
            assert(s2[1] == s1[1]);
        }
        assert(bar_node_expanded_model(s2[2])) by {
            assert(s1[2] == objs[2]);
            assert(s2[2].fields == s1[2].fields + ps[1].fields);
            assert(s2[2].implements == s1[2].implements + ps[1].implements);
            assert(s2[2].fields.len() == 3);
            assert(s2[2].fields[0] == objs[2].fields[0] && s2[2].fields[1] == objs[2].fields[1]
                && s2[2].fields[2] == ps[1].fields[0]);
            assert(s2[2].implements.len() == 1 && s2[2].implements[0] == ps[1].implements[0]);
        }
        assert(s2[0] == s1[0] && s1[0] == objs[0]);
        assert(crate::registry::has_obj(objs, ps[0].target));
        assert(crate::registry::has_obj(objs, ps[1].target));
        assert forall|i: int| 0 <= i < ps.len() implies crate::registry::has_obj(
            objs,
            #[trigger] ps[i].target,
        ) by {
            assert(i == 0 || i == 1);
        }
        lemma_stuck_empty_iff(objs, ps);
    }
    let ghost ifaces = registry.interfaces@;
    let r = registry.build_schema("Query", None);
    proof {
        if r is Ok {
            let s = r->Ok_0;
            let m = s.types@.map_values(|o: ObjectDef| o@);
            assert(m == crate::registry::inject_all(objs, ps));
            assert(crate::registry::inject_all(objs, ps) == crate::registry::inject_one(
                crate::registry::inject_one(objs, ps[0]),
                ps[1],
            ));
            assert(m.len() == 3);
            assert(s.types@.len() == 3);
            assert(m[0] == s.types@[0]@ && m[1] == s.types@[1]@ && m[2] == s.types@[2]@);
            assert(s.interfaces@ == ifaces);
            assert(assembled(s));
        }
    }
    r
}

} // verus!
