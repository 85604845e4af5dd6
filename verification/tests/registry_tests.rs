//! Registry behavior: deferred injection, order independence, failure
//! diagnostics, and duplicate registration.
use dynamic_schema::registry::{ExpandObjectContext, Registry};
use dynamic_schema::types::{ConstValue, FieldDef, InputObjectDef, InputValueDef, InterfaceDef,
    ObjectDef, TypeRef, UnionDef};

fn user_base() -> ObjectDef {
    ObjectDef::new("User")
        .field(FieldDef::new("id", TypeRef::named_nn("String")))
        .field(FieldDef::new("name", TypeRef::named_nn("String")))
}

fn query_with_user() -> ObjectDef {
    ObjectDef::new("Query").field(FieldDef::new("user", TypeRef::named_nn("User")))
}

fn avatar_fields() -> Vec<FieldDef> {
    vec![FieldDef::new("avatar", TypeRef::named("Image"))]
}

/// Injecting `avatar` onto `User` — whether requested before or after
/// `User` is registered — yields the same SDL as declaring the field
/// directly.
#[test]
fn injection_order_matches_direct_declaration() {
    // Injection requested before the target is registered.
    let before = Registry::new()
        .register_object(query_with_user())
        .update_object(
            "User",
            avatar_fields(),
            Vec::new(),
            ExpandObjectContext::new("AvatarModule", "avatar"),
        )
        .register_object(user_base())
        .build_schema("Query", None)
        .unwrap()
        .sdl();

    // Injection requested after the target is registered.
    let after = Registry::new()
        .register_object(query_with_user())
        .register_object(user_base())
        .update_object(
            "User",
            avatar_fields(),
            Vec::new(),
            ExpandObjectContext::new("AvatarModule", "avatar"),
        )
        .build_schema("Query", None)
        .unwrap()
        .sdl();

    // The field declared directly on the type.
    let direct = Registry::new()
        .register_object(query_with_user())
        .register_object(user_base().field(FieldDef::new("avatar", TypeRef::named("Image"))))
        .build_schema("Query", None)
        .unwrap()
        .sdl();

    assert_eq!(before, after);
    assert_eq!(before, direct);
    assert_eq!(
        direct,
        "type Query {\n  user: User!\n}\n\n\
         type User {\n  id: String!\n  name: String!\n  avatar: Image\n}\n\n\
         schema {\n  query: Query\n}\n"
    );
}

/// Injections onto different targets commute: any arrival order gives the
/// same schema.
#[test]
fn injections_on_different_targets_commute() {
    let build = |swap: bool| {
        let registry = Registry::new()
            .register_object(ObjectDef::new("Query"))
            .register_object(ObjectDef::new("Extra"));
        let inject_query = |r: Registry| {
            r.update_object(
                "Query",
                vec![FieldDef::new("q", TypeRef::named_nn("Int"))],
                Vec::new(),
                ExpandObjectContext::new("M1", "q"),
            )
        };
        let inject_extra = |r: Registry| {
            r.update_object(
                "Extra",
                vec![FieldDef::new("e", TypeRef::named_nn("Int"))],
                Vec::new(),
                ExpandObjectContext::new("M2", "e"),
            )
        };
        let registry = if swap {
            inject_extra(inject_query(registry))
        } else {
            inject_query(inject_extra(registry))
        };
        registry.build_schema("Query", None).unwrap().sdl()
    };
    assert_eq!(build(false), build(true));
}

/// Two injections onto the same target both land exactly once, in either
/// order.
#[test]
fn injections_on_same_target_both_land() {
    let build = |swap: bool| {
        let registry = Registry::new().register_object(ObjectDef::new("Query"));
        let one = |r: Registry| {
            r.update_object(
                "Query",
                vec![FieldDef::new("one", TypeRef::named_nn("Int"))],
                Vec::new(),
                ExpandObjectContext::new("M1", "one"),
            )
        };
        let two = |r: Registry| {
            r.update_object(
                "Query",
                vec![FieldDef::new("two", TypeRef::named_nn("Int"))],
                Vec::new(),
                ExpandObjectContext::new("M2", "two"),
            )
        };
        let registry = if swap { two(one(registry)) } else { one(two(registry)) };
        registry.build_schema("Query", None).unwrap().sdl()
    };
    for swap in [false, true] {
        let sdl = build(swap);
        let ones = sdl.matches("  one: Int!\n").count();
        let twos = sdl.matches("  two: Int!\n").count();
        assert_eq!(ones, 1);
        assert_eq!(twos, 1);
    }
}

/// A stalled fixpoint reports exactly the stuck injections — with target
/// and provenance — and not the ones that resolved.
#[test]
fn stalled_fixpoint_names_exactly_the_stuck_targets() {
    let failure = Registry::new()
        .register_object(ObjectDef::new("Query"))
        .update_object(
            "Query",
            vec![FieldDef::new("ok", TypeRef::named_nn("Int"))],
            Vec::new(),
            ExpandObjectContext::new("GoodModule", "ok"),
        )
        .update_object(
            "Ghost",
            vec![FieldDef::new("x", TypeRef::named_nn("Int"))],
            Vec::new(),
            ExpandObjectContext::new("LostModule", "x"),
        )
        .build_schema("Query", None)
        .err()
        .unwrap();
    assert_eq!(failure.errors.len(), 1);
    assert_eq!(failure.errors[0].target, "Ghost");
    assert_eq!(failure.errors[0].definition, "LostModule");
    assert_eq!(failure.errors[0].field, "x");
    assert_eq!(
        failure.errors[0].message(),
        "Can't find Ghost when defining x in LostModule"
    );
}

/// Registering the same type name twice silently overwrites: last write
/// wins.  Flagged here because nothing distinguishes an intended override
/// from a typo.
#[test]
fn duplicate_registration_overwrites_silently() {
    let sdl = Registry::new()
        .register_object(ObjectDef::new("Query").field(FieldDef::new(
            "old",
            TypeRef::named_nn("Int"),
        )))
        .register_object(ObjectDef::new("Query").field(FieldDef::new(
            "new",
            TypeRef::named_nn("Int"),
        )))
        .build_schema("Query", None)
        .unwrap()
        .sdl();
    assert_eq!(sdl, "type Query {\n  new: Int!\n}\n\nschema {\n  query: Query\n}\n");
}

/// An empty registry still assembles: just the schema block.
#[test]
fn empty_registry_assembles() {
    let sdl = Registry::new()
        .register_object(ObjectDef::new("Query"))
        .build_schema("Query", None)
        .unwrap()
        .sdl();
    assert_eq!(sdl, "type Query {\n}\n\nschema {\n  query: Query\n}\n");
}

/// Defaults, `oneOf` inputs, and extension objects all render.
#[test]
fn defaults_oneof_and_extensions_render() {
    let sdl = Registry::new()
        .register_object(ObjectDef::new("Query").field(
            FieldDef::new("greet", TypeRef::named_nn("String"))
                .argument(
                    InputValueDef::new("name", TypeRef::named_nn("String"))
                        .default_value(ConstValue::Str("default".to_string())),
                )
                .argument(
                    InputValueDef::new("times", TypeRef::named_nn("Int"))
                        .default_value(ConstValue::Int(-3)),
                )
                .argument(
                    InputValueDef::new("loud", TypeRef::named_nn("Boolean"))
                        .default_value(ConstValue::Bool(true)),
                ),
        ))
        .register_input_object(
            InputObjectDef::new("Pick")
                .oneof()
                .field(InputValueDef::new("a", TypeRef::named("Int")))
                .field(InputValueDef::new("b", TypeRef::named("String"))),
        )
        .register_extend_object(ObjectDef::new("Later").field(FieldDef::new(
            "extra",
            TypeRef::named_nn("Int"),
        )))
        .build_schema("Query", None)
        .unwrap()
        .sdl();
    assert_eq!(
        sdl,
        "input Pick @oneOf {\n  a: Int\n  b: String\n}\n\n\
         type Query {\n  greet(name: String! = \"default\", times: Int! = -3, loud: Boolean! = true): String!\n}\n\n\
         type Later {\n  extra: Int!\n}\n\n\
         schema {\n  query: Query\n}\n"
    );
}

/// A union member may also implement an interface; both declarations
/// appear in the assembled SDL.
#[test]
fn union_member_implementing_an_interface() {
    let sdl = Registry::new()
        .register_interface(
            InterfaceDef::new("Named").field(FieldDef::new("name", TypeRef::named_nn("String"))),
        )
        .register_union(UnionDef::new("Animal").possible_type("Dog").possible_type("Snake"))
        .register_object(ObjectDef::new("Query").field(FieldDef::new(
            "animal",
            TypeRef::named_nn("Animal"),
        )))
        .register_object(
            ObjectDef::new("Dog")
                .implement("Named")
                .field(FieldDef::new("name", TypeRef::named_nn("String")))
                .field(FieldDef::new("power", TypeRef::named_nn("Int"))),
        )
        .register_object(
            ObjectDef::new("Snake")
                .field(FieldDef::new("length", TypeRef::named_nn("Int"))),
        )
        .build_schema("Query", None)
        .unwrap()
        .sdl();
    assert_eq!(
        sdl,
        "union Animal = Dog | Snake\n\n\
         interface Named {\n  name: String!\n}\n\n\
         type Query {\n  animal: Animal!\n}\n\n\
         type Dog implements Named {\n  name: String!\n  power: Int!\n}\n\n\
         type Snake {\n  length: Int!\n}\n\n\
         schema {\n  query: Query\n}\n"
    );
}

/// Several stuck injections are all reported, in arrival order.
#[test]
fn all_stuck_targets_reported_in_arrival_order() {
    let failure = Registry::new()
        .register_object(ObjectDef::new("Query"))
        .update_object(
            "Missing2",
            vec![FieldDef::new("b", TypeRef::named_nn("Int"))],
            Vec::new(),
            ExpandObjectContext::new("ModuleB", "b"),
        )
        .update_object(
            "Missing1",
            vec![FieldDef::new("a", TypeRef::named_nn("Int"))],
            Vec::new(),
            ExpandObjectContext::new("ModuleA", "a"),
        )
        .build_schema("Query", None)
        .err()
        .unwrap();
    assert_eq!(failure.errors.len(), 2);
    assert_eq!(failure.errors[0].target, "Missing2");
    assert_eq!(failure.errors[0].definition, "ModuleB");
    assert_eq!(failure.errors[1].target, "Missing1");
    assert_eq!(failure.errors[1].definition, "ModuleA");
}
