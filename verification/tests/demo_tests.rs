//! The demo modules' resolvers: enum rotation, injected field resolvers,
//! the counter mutations, text formatting of list inputs, and interface
//! lookup by identifier.
use dynamic_schema::demo::enums::{Direction, Query as EnumQuery};
use dynamic_schema::demo::expand_object::{MeQuery, Query as ExpandQuery};
use dynamic_schema::demo::input_list::{BarInput, Foo as InputFoo};
use dynamic_schema::demo::interface_output::{Query as NodeQuery};
use dynamic_schema::demo::mutation::{CountMutations, CountQuery, Root};
use dynamic_schema::registry::Registry;
use dynamic_schema::demo::simple_object::{Image, Query as SimpleQuery, User};
use dynamic_schema::resolve::{FieldValue, OutputValue, ResolveCtx};
use dynamic_schema::types::ConstValue;

#[test]
fn next_direction_rotates_clockwise() {
    let q = EnumQuery {};
    assert!(matches!(q.resolve_next(Direction::North), Direction::East));
    assert!(matches!(q.resolve_next(Direction::East), Direction::South));
    assert!(matches!(q.resolve_next(Direction::South), Direction::West));
    assert!(matches!(q.resolve_next(Direction::West), Direction::North));
}

#[test]
fn direction_resolves_to_its_enum_item() {
    let mut ctx = ResolveCtx::new();
    let r = Direction::East.resolve(&mut ctx).unwrap().unwrap();
    match r {
        FieldValue::Scalar(ConstValue::EnumName(n)) => assert_eq!(n, "East"),
        _ => panic!("expected an enum name"),
    }
    assert_eq!(ctx.errors.len(), 0);
}

#[test]
fn simple_object_resolvers_hand_back_fields() {
    let q = SimpleQuery {
        user: User {
            id: "1".to_string(),
            name: "John".to_string(),
            avatar: Some(Image { url: "https://example.com/avatar.png".to_string() }),
        },
    };
    let user = q.resolve_user();
    assert_eq!(user.resolve_id().as_str(), "1");
    assert_eq!(user.resolve_name().as_str(), "John");
    let avatar = user.resolve_avatar().as_ref().unwrap();
    assert_eq!(avatar.resolve_url().as_str(), "https://example.com/avatar.png");
}

#[test]
fn injected_me_field_resolves_john() {
    let me = MeQuery::resolve_me(&ExpandQuery {}).unwrap();
    assert_eq!(me.id, "1");
    assert_eq!(me.name, "John");
    assert_eq!(me.avatar.unwrap().url, "https://example.com/avatar.png");
}

#[test]
fn counter_starts_at_zero_and_moves_by_one() {
    let mut root = Root::new();
    assert_eq!(CountQuery::resolve_count(&root), 0);
    assert_eq!(CountMutations::resolve_increment(&mut root), 1);
    assert_eq!(CountQuery::resolve_count(&root), 1);
    assert_eq!(CountMutations::resolve_increment(&mut root), 2);
    assert_eq!(CountMutations::resolve_decrement(&mut root), 1);
    assert_eq!(CountQuery::resolve_count(&root), 1);
}

#[test]
fn default_root_matches_new() {
    let a = Root::new();
    let b = Root::default();
    assert_eq!(a.db.count, b.db.count);
}

#[test]
fn list_inputs_echo_as_text() {
    let foo = InputFoo {};
    let bar_inputs = vec![
        BarInput { bar: "world1".to_string() },
        BarInput { bar: "world2".to_string() },
    ];
    assert_eq!(
        foo.resolve_by_objects(&bar_inputs),
        "bar-inputs: [BarInput { bar: world1 },BarInput { bar: world2 }]"
    );
    let strings = vec!["item1".to_string(), "item2".to_string()];
    assert_eq!(foo.resolve_by_strings(&strings), "strings: [item1,item2]");
    let ids = vec!["id1".to_string(), "id2".to_string()];
    assert_eq!(foo.resolve_by_ids(&ids), "ids: [id1,id2]");
    assert_eq!(foo.resolve_by_ints(&vec![12, 13]), "i32s: [12,13]");
    assert_eq!(foo.resolve_by_bools(&vec![true, false]), "bools: [true,false]");
}

#[test]
fn empty_list_inputs_echo_empty_brackets() {
    let foo = InputFoo {};
    assert_eq!(foo.resolve_by_objects(&Vec::new()), "bar-inputs: []");
    assert_eq!(foo.resolve_by_strings(&Vec::new()), "strings: []");
    assert_eq!(foo.resolve_by_ids(&Vec::new()), "ids: []");
    assert_eq!(foo.resolve_by_ints(&Vec::new()), "i32s: []");
    assert_eq!(foo.resolve_by_bools(&Vec::new()), "bools: []");
}

#[test]
fn negative_integers_format_with_a_sign() {
    let foo = InputFoo {};
    assert_eq!(foo.resolve_by_ints(&vec![-5, 0, 9007199254740993]), "i32s: [-5,0,9007199254740993]");
    assert_eq!(foo.resolve_by_ints(&vec![i64::MIN]), "i32s: [-9223372036854775808]");
}

#[test]
fn node_lookup_tags_the_concrete_type() {
    let q = NodeQuery {};
    let foo = q.resolve_node(&"foo-1".to_string()).unwrap();
    assert_eq!(foo.0.type_tag().as_str(), "FooNode");
    let bar = q.resolve_node(&"bar-1".to_string()).unwrap();
    assert_eq!(bar.0.type_tag().as_str(), "BarNode");
    assert!(q.resolve_node(&"nope".to_string()).is_none());
}

#[test]
fn auto_interface_impls_read_user_fields() {
    let user = dynamic_schema::demo::auto::User {
        id: "u-1".to_string(),
        name: "Ada".to_string(),
        age: 36,
    };
    assert_eq!(
        <dynamic_schema::demo::auto::User as dynamic_schema::demo::auto::Node>::resolve_id(&user),
        "u-1"
    );
    assert_eq!(
        <dynamic_schema::demo::auto::User as dynamic_schema::demo::auto::NamedNode>::resolve_name(
            &user
        ),
        "Ada"
    );
    assert_eq!(
        <dynamic_schema::demo::auto::User as dynamic_schema::demo::auto::Aged>::resolve_age(&user),
        36
    );
}

#[test]
fn oneof_input_echoes_the_arrived_variant() {
    let q = dynamic_schema::demo::oneof::Query {};
    assert_eq!(q.resolve_by_bar(dynamic_schema::demo::oneof::BarOneOf::A(1)), "A: 1");
    assert_eq!(q.resolve_by_bar(dynamic_schema::demo::oneof::BarOneOf::B(7)), "B: 7");
    let sdl = dynamic_schema::demo::oneof::create_schema().unwrap().sdl();
    assert_eq!(
        sdl,
        "input BarInput @oneOf {\n  a: Int\n  b: Int\n}\n\n\
         type Query {\n  by_bar(input: BarInput!): String!\n}\n\n\
         schema {\n  query: Query\n}\n"
    );
}

#[test]
fn fluent_registration_matches_direct_calls() {
    let fluent = Registry::new()
        .register::<EnumQuery>()
        .register::<Direction>()
        .build_schema("Query", None)
        .unwrap()
        .sdl();
    let direct = dynamic_schema::demo::enums::create_schema().unwrap().sdl();
    assert_eq!(fluent, direct);
}
