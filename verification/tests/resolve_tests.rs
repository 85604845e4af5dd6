//! The value resolution protocol: options, results, sequences, scalars,
//! and the per-element error isolation of lists.
use dynamic_schema::resolve::{FieldError, FieldValue, OutputValue, ResolveCtx};
use dynamic_schema::types::ConstValue;

fn scalar_str(v: &FieldValue) -> &str {
    match v {
        FieldValue::Scalar(ConstValue::Str(s)) => s.as_str(),
        _ => panic!("expected a string scalar"),
    }
}

fn scalar_int(v: &FieldValue) -> i64 {
    match v {
        FieldValue::Scalar(ConstValue::Int(i)) => *i,
        _ => panic!("expected an integer scalar"),
    }
}

/// Resolving `None` yields null with zero errors.
#[test]
fn option_none_resolves_to_null_without_errors() {
    let mut ctx = ResolveCtx::new();
    let r = Option::<i64>::None.resolve(&mut ctx);
    assert!(matches!(r, Ok(None)));
    assert_eq!(ctx.errors.len(), 0);
}

/// Resolving `Some(v)` yields exactly `v`'s own resolved value.
#[test]
fn option_some_resolves_to_inner_value() {
    let mut ctx = ResolveCtx::new();
    let direct = 7i64.resolve(&mut ctx).unwrap().unwrap();
    let through_option = Some(7i64).resolve(&mut ctx).unwrap().unwrap();
    assert_eq!(scalar_int(&direct), scalar_int(&through_option));
    assert_eq!(ctx.errors.len(), 0);
}

/// A failed result becomes a field-scoped error carrying its message.
#[test]
fn result_err_becomes_field_error() {
    let mut ctx = ResolveCtx::new();
    let r = Result::<i64, FieldError>::Err(FieldError::new("boom")).resolve(&mut ctx);
    match r {
        Err(e) => assert_eq!(e.message, "boom"),
        Ok(_) => panic!("expected an error"),
    }
    assert_eq!(ctx.errors.len(), 0);
}

/// A successful result delegates to the carried value.
#[test]
fn result_ok_resolves_inner_value() {
    let mut ctx = ResolveCtx::new();
    let r = Result::<String, FieldError>::Ok("fine".to_string()).resolve(&mut ctx);
    assert_eq!(scalar_str(&r.unwrap().unwrap()), "fine");
    assert_eq!(ctx.errors.len(), 0);
}

/// A 3-element sequence whose middle element errors still resolves to a
/// non-null list: `[value0, null, value2]`, with exactly one error,
/// recorded against index 1.
#[test]
fn three_element_list_isolates_middle_error() {
    let mut ctx = ResolveCtx::new();
    let items: Vec<Result<String, FieldError>> = vec![
        Ok("value0".to_string()),
        Err(FieldError::new("bar error")),
        Ok("value2".to_string()),
    ];
    let r = items.resolve(&mut ctx).unwrap().unwrap();
    match &r {
        FieldValue::List(elems) => {
            assert_eq!(elems.len(), 3);
            assert_eq!(scalar_str(&elems[0]), "value0");
            assert!(matches!(elems[1], FieldValue::Null));
            assert_eq!(scalar_str(&elems[2]), "value2");
        }
        _ => panic!("expected a list"),
    }
    assert_eq!(ctx.errors.len(), 1);
    assert_eq!(ctx.errors[0].path, vec![1usize]);
    assert_eq!(ctx.errors[0].message, "bar error");
}

/// Nested lists record their element errors with the full index path.
#[test]
fn nested_list_errors_carry_full_paths() {
    let mut ctx = ResolveCtx::new();
    let items: Vec<Vec<Result<i64, FieldError>>> = vec![
        vec![Ok(1), Ok(2)],
        vec![Ok(3), Err(FieldError::new("deep"))],
    ];
    let r = items.resolve(&mut ctx).unwrap().unwrap();
    match &r {
        FieldValue::List(rows) => {
            assert_eq!(rows.len(), 2);
            match &rows[1] {
                FieldValue::List(cells) => {
                    assert_eq!(scalar_int(&cells[0]), 3);
                    assert!(matches!(cells[1], FieldValue::Null));
                }
                _ => panic!("expected a nested list"),
            }
        }
        _ => panic!("expected a list"),
    }
    assert_eq!(ctx.errors.len(), 1);
    assert_eq!(ctx.errors[0].path, vec![1usize, 1usize]);
    assert_eq!(ctx.errors[0].message, "deep");
}

/// Both resolution modes give the same outcome for the same value.
#[test]
fn owned_and_borrowed_modes_agree() {
    let mut ctx = ResolveCtx::new();
    let value = vec![Some(5i64), None];
    let by_ref = value.resolve_ref(&mut ctx).unwrap().unwrap();
    let owned = value.resolve(&mut ctx).unwrap().unwrap();
    match (&by_ref, &owned) {
        (FieldValue::List(a), FieldValue::List(b)) => {
            assert_eq!(a.len(), 2);
            assert_eq!(b.len(), 2);
            assert_eq!(scalar_int(&a[0]), 5);
            assert_eq!(scalar_int(&b[0]), 5);
            assert!(matches!(a[1], FieldValue::Null));
            assert!(matches!(b[1], FieldValue::Null));
        }
        _ => panic!("expected lists"),
    }
    assert_eq!(ctx.errors.len(), 0);
}

/// Scalars resolve by value copy.
#[test]
fn scalars_resolve_by_value() {
    let mut ctx = ResolveCtx::new();
    let b = true.resolve(&mut ctx).unwrap().unwrap();
    assert!(matches!(b, FieldValue::Scalar(ConstValue::Bool(true))));
    let s = "plain".to_string().resolve(&mut ctx).unwrap().unwrap();
    assert_eq!(scalar_str(&s), "plain");
    let id = dynamic_schema::resolve::Id("the-id".to_string()).resolve(&mut ctx).unwrap().unwrap();
    assert_eq!(scalar_str(&id), "the-id");
    assert_eq!(ctx.errors.len(), 0);
}
