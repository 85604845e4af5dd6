//! Result-returning resolvers over lists: the whole-field error, and the
//! per-element error isolated at its index.
use dynamic_schema::demo::output_types::{create_schema, Bar, Foo, MyError, Query};
use dynamic_schema::resolve::{FieldValue, OutputValue, ResolveCtx};
use dynamic_schema::types::ConstValue;

#[test]
fn sdl_of_output_types_demo() {
    let schema = create_schema().unwrap();
    assert_eq!(
        schema.sdl(),
        "type Query {\n  foo: Foo!\n}\n\n\
         type Foo {\n  bars: [Bar!]!\n}\n\n\
         type Bar {\n  value: String!\n}\n\n\
         schema {\n  query: Query\n}\n"
    );
}

#[test]
fn whole_field_error_carries_the_domain_message() {
    let foo = Foo { error: true, bars: Vec::new() };
    match foo.resolve_bars() {
        Err(e) => assert_eq!(e.message, "bar error"),
        Ok(_) => panic!("expected the domain error"),
    }
    assert_eq!(MyError::Bar.message(), "bar error");
}

#[test]
fn element_error_is_isolated_at_its_index() {
    let q = Query {
        foo: Foo {
            error: false,
            bars: vec![
                Bar { error: false, value: "bar1".to_string() },
                Bar { error: true, value: "bar2".to_string() },
                Bar { error: false, value: "bar3".to_string() },
            ],
        },
    };
    let bars = q.resolve_foo().resolve_bars().unwrap();

    // Each element's own resolver runs independently; the failing one
    // becomes a null at its index and one recorded error.
    let mut ctx = ResolveCtx::new();
    let values: Vec<Result<String, dynamic_schema::resolve::FieldError>> =
        bars.iter().map(|b| b.resolve_value()).collect();
    let list = values.resolve(&mut ctx).unwrap().unwrap();
    match &list {
        FieldValue::List(elems) => {
            assert_eq!(elems.len(), 3);
            assert!(matches!(&elems[0], FieldValue::Scalar(ConstValue::Str(s)) if s == "bar1"));
            assert!(matches!(elems[1], FieldValue::Null));
            assert!(matches!(&elems[2], FieldValue::Scalar(ConstValue::Str(s)) if s == "bar3"));
        }
        _ => panic!("expected a list"),
    }
    assert_eq!(ctx.errors.len(), 1);
    assert_eq!(ctx.errors[0].path, vec![1usize]);
    assert_eq!(ctx.errors[0].message, "bar error");
}

#[test]
fn borrowed_str_resolves_like_a_string() {
    let mut ctx = ResolveCtx::new();
    let r = "the_str".resolve(&mut ctx).unwrap().unwrap();
    assert!(matches!(&r, FieldValue::Scalar(ConstValue::Str(s)) if s == "the_str"));
    assert_eq!(ctx.errors.len(), 0);
}
