//! The library's schema shape driven through the real execution engine:
//! the same `Foo`/`Bar`/`FooBar` union is assembled with the library (for
//! the SDL contract) and with the engine's dynamic API (for execution),
//! and the fragment on `Bar` is the one that answers.
use async_graphql::dynamic::{Field, FieldFuture, FieldValue, Object, Schema, TypeRef, Union};
use dynamic_schema::registry::Registry;
use dynamic_schema::types::{FieldDef, ObjectDef, TypeRef as LibTypeRef, UnionDef};

struct BarData {
    b: String,
}

fn engine_schema() -> Schema {
    let foo = Object::new("Foo").field(Field::new(
        "a",
        TypeRef::named_nn(TypeRef::STRING),
        |_ctx| FieldFuture::new(async move { Ok(Some(async_graphql::Value::from("unused"))) }),
    ));
    let bar = Object::new("Bar").field(Field::new(
        "b",
        TypeRef::named_nn(TypeRef::STRING),
        |ctx| {
            FieldFuture::new(async move {
                let parent = ctx.parent_value.try_downcast_ref::<BarData>()?;
                Ok(Some(async_graphql::Value::from(parent.b.clone())))
            })
        },
    ));
    let foobar = Union::new("FooBar").possible_type("Foo").possible_type("Bar");
    let query = Object::new("Query").field(Field::new(
        "foobar",
        TypeRef::named_nn("FooBar"),
        |_ctx| {
            FieldFuture::new(async move {
                Ok(Some(FieldValue::owned_any(BarData { b: "x".to_string() }).with_type("Bar")))
            })
        },
    ));
    Schema::build("Query", None, None)
        .register(foo)
        .register(bar)
        .register(foobar)
        .register(query)
        .finish()
        .unwrap()
}

/// The library side assembles the same definitions and pins the SDL; the
/// engine side executes the fragment query and returns the `Bar` branch.
#[test]
fn union_fragment_query_through_the_engine() {
    let library_schema = Registry::new()
        .register_object(ObjectDef::new("Query").field(FieldDef::new(
            "foobar",
            LibTypeRef::named_nn("FooBar"),
        )))
        .register_object(
            ObjectDef::new("Foo").field(FieldDef::new("a", LibTypeRef::named_nn("String"))),
        )
        .register_object(
            ObjectDef::new("Bar").field(FieldDef::new("b", LibTypeRef::named_nn("String"))),
        )
        .register_union(UnionDef::new("FooBar").possible_type("Foo").possible_type("Bar"))
        .build_schema("Query", None)
        .unwrap();
    assert!(library_schema.sdl().contains("union FooBar = Foo | Bar"));

    let schema = engine_schema();
    let rt = tokio::runtime::Builder::new_current_thread().enable_all().build().unwrap();
    let response = rt.block_on(schema.execute(
        "{ foobar { ... on Foo { a } ... on Bar { b } } }",
    ));
    assert!(response.errors.is_empty(), "errors: {:?}", response.errors);
    let data = response.data.into_json().unwrap();

    let mut inner = serde_json::Map::new();
    inner.insert("b".to_string(), serde_json::Value::String("x".to_string()));
    let mut outer = serde_json::Map::new();
    outer.insert("foobar".to_string(), serde_json::Value::Object(inner));
    assert_eq!(data, serde_json::Value::Object(outer));
}

/// A plain single-field query through the engine.
#[test]
fn hello_query_through_the_engine() {
    let query = Object::new("Query").field(Field::new(
        "hello",
        TypeRef::named_nn(TypeRef::STRING),
        |_ctx| FieldFuture::new(async move { Ok(Some(async_graphql::Value::from("world"))) }),
    ));
    let schema = Schema::build("Query", None, None).register(query).finish().unwrap();
    let rt = tokio::runtime::Builder::new_current_thread().enable_all().build().unwrap();
    let response = rt.block_on(schema.execute("{ hello }"));
    assert!(response.errors.is_empty());
    let data = response.data.into_json().unwrap();
    let mut expected = serde_json::Map::new();
    expected.insert("hello".to_string(), serde_json::Value::String("world".to_string()));
    assert_eq!(data, serde_json::Value::Object(expected));
}
