//! An enum type and a query field that takes and returns it.
use vstd::prelude::*;

use crate::registry::{has_key, lemma_stuck_empty_iff, lemma_upsert_fresh, lemma_upsert_keys,
    spec_upsert, Enum, NamedDef, Object, PendingModel, Register, RegistrationFailure, Registry};
use crate::resolve::{ErrAt, FieldError, FieldValue, OutputValue, ResolveCtx, ResolvedModel};
use crate::schema::Schema;
use crate::types::{simple_arg_nn, ConstValue, EnumDef, FieldDef, InputValueDef, ObjectDef,
    ObjectModel, TypeRef};

verus! {

#[derive(Clone, Copy, PartialEq, Eq, Structural)]
pub enum Direction {
    North,
    East,
    South,
    West,
}

/// The registered name of a direction's enum item.
pub open spec fn direction_name(d: Direction) -> Seq<char> {
    match d {
        Direction::North => "North"@,
        Direction::East => "East"@,
        Direction::South => "South"@,
        Direction::West => "West"@,
    }
}

/// The next direction, a quarter turn clockwise.
pub open spec fn spec_next(d: Direction) -> Direction {
    match d {
        Direction::North => Direction::East,
        Direction::East => Direction::South,
        Direction::South => Direction::West,
        Direction::West => Direction::North,
    }
}

impl Direction {
    /// The enum item name, as a constant value.
    pub fn to_value(&self) -> (r: ConstValue)
        ensures
            r matches ConstValue::EnumName(n) && n@ == direction_name(*self),
    {
        match self {
            Direction::North => ConstValue::EnumName("North".to_owned()),
            Direction::East => ConstValue::EnumName("East".to_owned()),
            Direction::South => ConstValue::EnumName("South".to_owned()),
            Direction::West => ConstValue::EnumName("West".to_owned()),
        }
    }
}

impl OutputValue for Direction {
    open spec fn res_value(&self) -> Result<Option<ResolvedModel>, Seq<char>> {
        Ok(Some(ResolvedModel::EnumName(direction_name(*self))))
    }

    open spec fn res_errors(&self, path: Seq<int>) -> Seq<ErrAt> {
        Seq::empty()
    }

    fn resolve(self, ctx: &mut ResolveCtx) -> (r: Result<Option<FieldValue>, FieldError>) {
        proof {
            assert(ctx.errs() =~= ctx.errs() + Seq::<ErrAt>::empty());
        }
        Ok(Some(FieldValue::Scalar(self.to_value())))
    }

    fn resolve_ref(&self, ctx: &mut ResolveCtx) -> (r: Result<Option<FieldValue>, FieldError>) {
        proof {
            assert(ctx.errs() =~= ctx.errs() + Seq::<ErrAt>::empty());
        }
        Ok(Some(FieldValue::Scalar(self.to_value())))
    }
}

/// The enum definition this module registers: `Direction` with its four
/// items, in compass order.
pub open spec fn direction_enum_model(d: EnumDef) -> bool {
    &&& d.name@ == "Direction"@
    &&& d.items@.len() == 4
    &&& d.items@[0]@ == "North"@
    &&& d.items@[1]@ == "East"@
    &&& d.items@[2]@ == "South"@
    &&& d.items@[3]@ == "West"@
}

/// The definition this module registers for `Query`: exactly the field
/// `next(direction: Direction!): Direction!`.
pub open spec fn query_model(o: ObjectModel) -> bool {
    &&& o.name == "Query"@
    &&& o.implements.len() == 0
    &&& o.fields.len() == 1
    &&& o.fields[0].name@ == "next"@
    &&& crate::types::is_named_nn(o.fields[0].ty, "Direction"@)
    &&& o.fields[0].args@.len() == 1
    &&& simple_arg_nn(o.fields[0].args@[0], "direction"@, "Direction"@)
}

pub struct Query {}

impl Query {
    /// Turn a quarter turn clockwise.
    pub fn resolve_next(&self, direction: Direction) -> (r: Direction)
        ensures
            r == spec_next(direction),
    {
        match direction {
            Direction::North => Direction::East,
            Direction::East => Direction::South,
            Direction::South => Direction::West,
            Direction::West => Direction::North,
        }
    }
}

impl Enum for Direction {
    open spec fn gql_name() -> Seq<char> {
        "Direction"@
    }

    fn gql_type_name() -> (r: String) {
        "Direction".to_owned()
    }
}

impl Object for Query {
    open spec fn gql_name() -> Seq<char> {
        "Query"@
    }

    fn gql_type_name() -> (r: String) {
        "Query".to_owned()
    }
}

impl Register for Direction {
    fn register(registry: Registry) -> (r: Registry)
        ensures
            (exists|d: EnumDef| #[trigger] direction_enum_model(d) && r.enums@ == spec_upsert(
                registry.enums@,
                d,
            )),
            !has_key(registry.enums@, "Direction"@) ==> (r.enums@ == registry.enums@.push(
                r.enums@.last(),
            ) && direction_enum_model(r.enums@.last())),
            has_key(r.enums@, "Direction"@),
            r.types@ == registry.types@,
            r.pend() == registry.pend(),
            r.unions@ == registry.unions@,
            r.interfaces@ == registry.interfaces@,
            r.input_types@ == registry.input_types@,
            r.extend_types@ == registry.extend_types@,
    {
        let mut items: Vec<String> = Vec::new();
        items.push("North".to_owned());
        items.push("East".to_owned());
        items.push("South".to_owned());
        items.push("West".to_owned());
        let direction_enum = EnumDef { name: "Direction".to_owned(), items };
        let ghost d = direction_enum;
        let out = registry.register_enum(direction_enum);
        proof {
            assert(direction_enum_model(d));
            lemma_upsert_keys(registry.enums@, d);
            if !has_key(registry.enums@, "Direction"@) {
                lemma_upsert_fresh(registry.enums@, d);
            }
        }
        out
    }
}

impl Register for Query {
    fn register(registry: Registry) -> (r: Registry)
        ensures
            (exists|d: ObjectDef| #[trigger] query_model(d@) && r.types@ == spec_upsert(
                registry.types@,
                d,
            )),
            !has_key(registry.types@, "Query"@) ==> (r.types@ == registry.types@.push(
                r.types@.last(),
            ) && query_model(r.types@.last()@)),
            has_key(r.types@, "Query"@),
            forall|k: Seq<char>| has_key(registry.types@, k) ==> has_key(r.types@, k),
            r.pend() == registry.pend(),
            r.enums@ == registry.enums@,
            r.unions@ == registry.unions@,
            r.interfaces@ == registry.interfaces@,
            r.input_types@ == registry.input_types@,
            r.extend_types@ == registry.extend_types@,
    {
        let next_field = FieldDef::new("next", TypeRef::named_nn("Direction")).argument(
            InputValueDef::new("direction", TypeRef::named_nn("Direction")),
        );
        let object_type = ObjectDef::new("Query").field(next_field);
        let ghost d = object_type;
        let out = registry.register_object(object_type);
        proof {
            assert(query_model(d@));
            lemma_upsert_keys(registry.types@, d);
            if !has_key(registry.types@, "Query"@) {
                lemma_upsert_fresh(registry.types@, d);
            }
        }
        out
    }
}

/// The schema this module assembles: the enum and the query object, and
/// nothing else.
pub open spec fn assembled(s: Schema) -> bool {
    &&& s.query_name@ == "Query"@
    &&& s.mutation_name is None
    &&& s.enums@.len() == 1
    &&& direction_enum_model(s.enums@[0])
    &&& s.unions@.len() == 0
    &&& s.interfaces@.len() == 0
    &&& s.input_types@.len() == 0
    &&& s.extend_types@.len() == 0
    &&& s.types@.len() == 1
    &&& query_model(s.types@[0]@)
}

/// Assemble the schema for this module.  Nothing is pending, so the
/// assembly always succeeds, and the result holds exactly the registered
/// definitions.
pub fn create_schema() -> (r: Result<Schema, RegistrationFailure>)
    ensures
        r is Ok,
        r matches Ok(s) ==> assembled(s),
{
    let registry = Registry::new();
    let ghost t0 = registry.types@;
    let registry = Query::register(registry);
    let ghost t1 = registry.types@;
    proof {
        assert(!has_key(t0, "Query"@));
        assert(query_model(t1[0]@));
        assert(!has_key(registry.enums@, "Direction"@));
    }
    let registry = Direction::register(registry);
    proof {
        assert(registry.types@ == t1);
        assert(direction_enum_model(registry.enums@[0]));
        assert(registry.pend() =~= Seq::<PendingModel>::empty());
        lemma_stuck_empty_iff(registry.objs(), registry.pend());
        assert(crate::registry::inject_all(registry.objs(), registry.pend()) == registry.objs());
    }
    let ghost objs = registry.objs();
    let ghost enums0 = registry.enums@;
    let r = registry.build_schema("Query", None);
    proof {
        if r is Ok {
            let s = r->Ok_0;
            let m = s.types@.map_values(|o: ObjectDef| o@);
            assert(m == objs);
            assert(s.types@.len() == 1);
            assert(m[0] == s.types@[0]@);
            assert(objs[0] == t1[0]@);
            assert(s.enums@ == enums0);
            assert(assembled(s));
        }
    }
    r
}

} // verus!
