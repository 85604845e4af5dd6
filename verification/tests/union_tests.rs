//! Tagged union dispatch: the type tag decides which fragment applies,
//! and a whole query over a union-typed field comes out right.
use dynamic_schema::anybox::{select_fragment, AnyBox};
use dynamic_schema::demo::union::{Bar, Foo, FooBar, Query};
use dynamic_schema::demo::union_with_interface::{Animal, Dog, Query as PetQuery};
use dynamic_schema::registry::Registry;
use dynamic_schema::resolve::{FieldValue, OutputValue, ResolveCtx};
use dynamic_schema::types::{ConstValue, FieldDef, ObjectDef, TypeRef, UnionDef};

/// A union value constructed as `Bar` carries exactly the tag `"Bar"`,
/// in both resolution modes.
#[test]
fn bar_variant_is_tagged_bar() {
    let owned = FooBar::Bar(Bar { bar: "bar".to_string() }).resolve_owned();
    assert_eq!(owned.type_tag().as_str(), "Bar");
    let value = FooBar::Foo(Foo { foo: "foo".to_string() });
    let borrowed = value.resolve_ref();
    assert_eq!(borrowed.type_tag().as_str(), "Foo");
}

/// The fragment on `Bar` is selected and the fragment on `Foo` skipped
/// for a value tagged `"Bar"`.
#[test]
fn fragment_dispatch_follows_the_tag() {
    let conditions = vec!["Foo".to_string(), "Bar".to_string()];
    let any = FooBar::Bar(Bar { bar: "x".to_string() }).resolve_owned();
    assert_eq!(select_fragment(any.type_tag(), &conditions), Some(1));
    let foo_only = vec!["Foo".to_string()];
    assert_eq!(select_fragment(any.type_tag(), &foo_only), None);
}

/// The demo query resolvers hand back the stored and the fresh value.
#[test]
fn query_union_resolvers() {
    let q = Query { foobar: FooBar::Foo(Foo { foo: "foo".to_string() }) };
    match q.resolve_foobar() {
        FooBar::Foo(f) => assert_eq!(f.resolve_foo().as_str(), "foo"),
        FooBar::Bar(_) => panic!("expected the Foo variant"),
    }
    match q.resolve_new_foobar() {
        FooBar::Bar(b) => assert_eq!(b.resolve_bar().as_str(), "bar"),
        FooBar::Foo(_) => panic!("expected the Bar variant"),
    }
}

/// End to end over the library's own model: register `Foo{a}`, `Bar{b}`
/// as members of union `FooBar`, resolve a `foobar` field to the `Bar`
/// variant with `b = "x"`, dispatch the fragments, and read back
/// `{"foobar": {"b": "x"}}` with no errors.
#[test]
fn union_query_end_to_end() {
    // The schema side.
    let schema = Registry::new()
        .register_object(ObjectDef::new("Query").field(FieldDef::new(
            "foobar",
            TypeRef::named_nn("FooBar"),
        )))
        .register_object(
            ObjectDef::new("Foo").field(FieldDef::new("a", TypeRef::named_nn("String"))),
        )
        .register_object(
            ObjectDef::new("Bar").field(FieldDef::new("b", TypeRef::named_nn("String"))),
        )
        .register_union(UnionDef::new("FooBar").possible_type("Foo").possible_type("Bar"))
        .build_schema("Query", None)
        .unwrap();
    assert!(schema.sdl().contains("union FooBar = Foo | Bar"));

    // The execution side: the resolver produced the `Bar` variant.
    let mut ctx = ResolveCtx::new();
    let value = AnyBox::new_owned("x".to_string(), "Bar".to_string());

    // The query carries two fragments; the tag picks the one on `Bar`.
    let conditions = vec!["Foo".to_string(), "Bar".to_string()];
    let picked = select_fragment(value.type_tag(), &conditions).unwrap();
    assert_eq!(conditions[picked], "Bar");

    // The selected fragment reads the `b` field of the concrete value.
    let b_value = value.value_ref().resolve_ref(&mut ctx).unwrap().unwrap();
    let response = FieldValue::Object(vec![(
        "foobar".to_string(),
        FieldValue::Object(vec![("b".to_string(), b_value)]),
    )]);

    assert_eq!(ctx.errors.len(), 0);
    match &response {
        FieldValue::Object(fields) => {
            assert_eq!(fields.len(), 1);
            assert_eq!(fields[0].0, "foobar");
            match &fields[0].1 {
                FieldValue::Object(inner) => {
                    assert_eq!(inner.len(), 1);
                    assert_eq!(inner[0].0, "b");
                    match &inner[0].1 {
                        FieldValue::Scalar(ConstValue::Str(s)) => assert_eq!(s, "x"),
                        _ => panic!("expected a string scalar"),
                    }
                }
                _ => panic!("expected an object"),
            }
        }
        _ => panic!("expected an object"),
    }
}

/// A union member that also implements an interface still dispatches by
/// its own type tag.
#[test]
fn union_member_with_interface_dispatches_by_tag() {
    let q = PetQuery { pet: Animal::Dog(Dog {}) };
    let tagged = q.resolve_pet().to_field_value();
    assert_eq!(tagged.type_tag().as_str(), "Dog");
    let conditions = vec!["Dog".to_string(), "Cat".to_string(), "Snake".to_string()];
    assert_eq!(select_fragment(tagged.type_tag(), &conditions), Some(0));
}
