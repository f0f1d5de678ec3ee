//! Unit-level tests: the scanner, the decimal model, value operators,
//! textual forms and qualified-name handling.

use tipi_lang::decimal::{dec_add, dec_cmp, dec_div, dec_mul, dec_to_chars, Decimal};
use tipi_lang::scanner::scan;
use tipi_lang::value::{value_cmp, value_eq, StructDefinition, StructValue, Value, ValueOrder};
use tipi_lang::value_ops::{value_add, value_div, value_neg};
use tipi_lang::value_text::display_string;
use tipi_lang::vm::get_context;

#[test]
fn test() {
    let tokens = scan(
        r#"struct Customer:
                        id: u32,
                        first_name: string,
                        last_name: string,
                        date_fetched: date,"#,
    );
    let tokenstring = format!("{:?}", tokens);
    println!("{}", tokenstring);
}

fn dec(neg: bool, mant: u64, exp: i32) -> Decimal {
    Decimal { neg, mant, exp }
}

#[test]
fn decimal_compare_is_numeric() {
    // 2.1 == 21e-1 == 210e-2
    assert_eq!(dec_cmp(&dec(false, 21, -1), &dec(false, 210, -2)), 0);
    assert_eq!(dec_cmp(&dec(false, 21, -1), &dec(false, 22, -1)), -1);
    assert_eq!(dec_cmp(&dec(true, 21, -1), &dec(false, 1, 0)), -1);
    // a huge exponent dominates
    assert_eq!(dec_cmp(&dec(false, 1, 40), &dec(false, u64::MAX, 0)), 1);
}

#[test]
fn decimal_arithmetic_is_exact() {
    let a = dec(false, 21, -1); // 2.1
    let b = dec(false, 9, -1); // 0.9
    let sum = dec_add(&a, &b).unwrap(); // 3.0
    assert_eq!(dec_cmp(&sum, &dec(false, 3, 0)), 0);
    let product = dec_mul(&a, &b).unwrap(); // 1.89
    assert_eq!(dec_cmp(&product, &dec(false, 189, -2)), 0);
    let quotient = dec_div(&dec(false, 1, 0), &dec(false, 4, 0)).unwrap(); // 0.25
    assert_eq!(dec_cmp(&quotient, &dec(false, 25, -2)), 0);
    // division by zero has no value
    assert!(dec_div(&a, &dec(false, 0, 0)).is_none());
}

#[test]
fn decimal_display_places_the_point() {
    let text: String = dec_to_chars(&dec(false, 21, -1)).into_iter().collect();
    assert_eq!(text, "2.1");
    let text: String = dec_to_chars(&dec(false, 42, 9)).into_iter().collect();
    assert_eq!(text, "42000000000");
    let text: String = dec_to_chars(&dec(false, 21, -4)).into_iter().collect();
    assert_eq!(text, "0.0021");
    let text: String = dec_to_chars(&dec(true, 5, 0)).into_iter().collect();
    assert_eq!(text, "-5");
    let text: String = dec_to_chars(&dec(false, 0, 7)).into_iter().collect();
    assert_eq!(text, "0");
}

#[test]
fn values_compare_within_one_variant_only() {
    assert_eq!(
        value_cmp(&Value::I64(1), &Value::I64(2)),
        ValueOrder::Less
    );
    assert_eq!(
        value_cmp(&Value::String("a".into()), &Value::String("b".into())),
        ValueOrder::Less
    );
    assert_eq!(
        value_cmp(&Value::I64(1), &Value::U64(2)),
        ValueOrder::Unordered
    );
    assert!(!value_eq(&Value::I64(1), &Value::U64(1)));
    assert!(value_eq(
        &Value::List(vec![Value::I64(1)]),
        &Value::List(vec![Value::I64(1)])
    ));
}

#[test]
fn adding_to_a_list_absorbs_the_operand() {
    let list = Value::List(vec![Value::I64(1)]);
    let grown = value_add(&list, &Value::I64(2)).unwrap();
    assert!(grown == Value::List(vec![Value::I64(1), Value::I64(2)]));
}

#[test]
fn integer_addition_wraps_at_its_width() {
    let wrapped = value_add(&Value::U32(u32::MAX), &Value::U32(1)).unwrap();
    assert!(wrapped == Value::U32(0));
}

#[test]
fn negation_is_defined_on_signed_numbers_only() {
    assert!(value_neg(&Value::I64(5)).unwrap() == Value::I64(-5));
    assert!(value_neg(&Value::U32(5)).is_err());
}

#[test]
fn checked_division_refuses_zero() {
    assert!(value_div(&Value::I64(7), &Value::I64(2)).unwrap() == Value::I64(3));
    assert!(value_div(&Value::I64(-7), &Value::I64(2)).unwrap() == Value::I64(-3));
    assert!(value_div(&Value::I64(7), &Value::I64(0)).is_err());
}

#[test]
fn display_forms() {
    assert_eq!(display_string(&Value::I64(-3)), "-3");
    assert_eq!(display_string(&Value::Bool(true)), "true");
    assert_eq!(display_string(&Value::Void), "()");
    assert_eq!(
        display_string(&Value::List(vec![
            Value::String("abc".into()),
            Value::String("def".into())
        ])),
        r#"[String("abc"), String("def")]"#
    );
    assert_eq!(display_string(&Value::Mapping(vec![])), "map");
}

#[test]
fn qualified_names_drop_their_last_two_segments() {
    assert_eq!(get_context("main"), "main");
    assert_eq!(get_context("a/b"), "");
    assert_eq!(get_context("a/b/web/get"), "a/b");
}

#[test]
fn casts_are_bounds_checked() {
    assert!(Value::I64(1).cast_u32().unwrap() == Value::U32(1));
    assert!(Value::I64(-1).cast_u32().is_err());
    assert!(Value::U64(u64::MAX).cast_i32().is_err());
}

#[test]
fn object_instances_carry_their_fields_in_order() {
    let definition = StructDefinition { fields: vec!["name".to_string()] };
    assert_eq!(definition.fields.len(), 1);
    let mut instance = StructValue::new("Person".to_string());
    instance
        .fields
        .push(("name".to_string(), Value::String("Sander".to_string())));
    let shown = display_string(&Value::Struct(instance));
    assert_eq!(shown, r#"Person: [("name", String("Sander"))]"#);
}
