//! End-to-end tests: compile source text and run it, checking values,
//! compile-time errors and runtime errors.

use tipi_lang::compiler::{compile, run};
use tipi_lang::decimal::Decimal;
use tipi_lang::errors::Error;
use tipi_lang::value::Value;

fn ok(src: &str) -> Value {
    match run(src) {
        Ok(v) => v,
        Err(e) => panic!("run failed: {}", e.message()),
    }
}

fn expect_compile_failure(src: &str) -> String {
    match run(src) {
        Ok(_) => panic!("expected a compile error"),
        Err(e) => match &e {
            Error::Compiler(_) => e.message(),
            Error::Runtime(_) => panic!("expected a compile error, got a runtime error"),
            Error::Platform(_) => panic!("expected a compile error, got a platform error"),
        },
    }
}

#[test]
fn literal_int() {
    assert!(ok("1") == Value::I64(1));
}

#[test]
fn literal_float() {
    assert!(ok("2.1") == Value::F64(Decimal { neg: false, mant: 21, exp: -1 }));
}

#[test]
fn literal_float_scientific() {
    assert!(ok("2.1e5") == Value::F64(Decimal { neg: false, mant: 21, exp: 4 }));
}

#[test]
fn literal_string() {
    assert!(ok(r#""a""#) == Value::String("a".to_string()));
}

#[test]
fn literal_list() {
    assert!(
        ok(r#"["abc","def"]"#)
            == Value::List(vec![
                Value::String("abc".to_string()),
                Value::String("def".to_string())
            ])
    );
}

#[test]
fn index_in_list_literal() {
    assert!(ok(r#"["abc","def"][1]"#) == Value::String("def".to_string()));
}

#[test]
fn index_in_list_as_var() {
    assert!(
        ok("let a:list = [\"abc\",\"def\"]\na[1]") == Value::String("def".to_string())
    );
}

#[test]
fn infer_type() {
    assert!(ok("let a=1\na") == Value::I64(1));
}

#[test]
fn define_u32() {
    assert!(ok("let a:u32=1\na") == Value::U32(1));
}

#[test]
fn define_char() {
    assert!(ok("let a:char='a'\na") == Value::Char('a'));
}

#[test]
fn define_u32_invalid_value_negative() {
    let r = compile("let a:u32=-1");
    assert!(r.is_err());
    if let Err(e) = &r {
        assert_eq!(
            e.message(),
            "Compilation failed: error at line 1, Expected u32, found i32/64"
        );
    }
}

#[test]
fn define_u64_invalid_value_negative() {
    let r = compile("let a:u64=-1");
    assert!(r.is_err());
    if let Err(e) = &r {
        assert_eq!(
            e.message(),
            "Compilation failed: error at line 1, Expected u64, found i32/64"
        );
    }
}

#[test]
fn let_u64_invalid_value_string() {
    let r = compile(r#"let a:u64="not ok""#);
    assert!(r.is_err());
    if let Err(e) = &r {
        assert_eq!(
            e.message(),
            "Compilation failed: error at line 1, Expected u64, found string"
        );
    }
}

#[test]
fn call_fn_with_args_returns_value() {
    assert!(
        ok("fn add_hello(name: string) -> string:\n    \"Hello \" + name\nadd_hello(\"world\")")
            == Value::String("Hello world".to_string())
    );
}

#[test]
fn define_object() {
    let r = compile("\nobject Person:\n   name: string");
    assert!(r.is_ok()); // does nothing at run time
}

#[test]
fn declare_and_instantiate_object() {
    let r = run("\nobject Person:\n   name: string\n\nlet p = Person(name: \"Sander\")\np");
    assert!(r.is_ok());
    let text = tipi_lang::value_text::display_string(&r.unwrap());
    assert_eq!(r#"Person: [("name", String("Sander"))]"#, text);
}

#[test]
fn declare_and_instantiate_object_wrong_type() {
    let r = run("\nobject Person:\n   name: string\n\nlet p = Person(name: 0x42)\np");
    assert!(r.is_err());
    assert_eq!(
        "Compilation failed: error at line 5, Expected string, found integer",
        r.unwrap_err().message()
    );
}

#[test]
fn literal_map() {
    let result = ok(r#"{"name": "Dent", "age": 40 }"#);
    let name = tipi_lang::vm::list_get_value(&result, &Value::String("name".to_string()));
    assert!(name.unwrap() == Value::String("Dent".to_string()));
    let age = tipi_lang::vm::list_get_value(&result, &Value::String("age".to_string()));
    assert!(age.unwrap() == Value::I64(40));
}

#[test]
fn assign_map() {
    let result = ok("let m = {\"name\": \"Dent\"}\nm");
    let name = tipi_lang::vm::list_get_value(&result, &Value::String("name".to_string()));
    assert!(name.unwrap() == Value::String("Dent".to_string()));
}

#[test]
fn access_map() {
    let result = ok("let m = {\"name\": \"Dent\"}\nm[\"name\"]");
    if let Value::String(v) = result {
        assert_eq!(v.as_str(), "Dent");
    }
}

#[test]
fn keyword_error() {
    let result = run(r#"let map = {"name": "Dent"}"#);
    assert!(result.is_err());
    assert_eq!(
        "Compilation failed: error at line 1, 'map' is a keyword. You cannot use it as an identifier",
        result.unwrap_err().message()
    );
}

#[test]
fn add_strings() {
    assert!(ok(r#""a"+"b""#) == Value::String("ab".to_string()));
}

#[test]
fn add_string_and_int() {
    assert!(ok(r#""a"+42"#) == Value::String("a42".to_string()));
}

#[test]
fn add_string_and_bool() {
    assert!(ok(r#""a"+false"#) == Value::String("afalse".to_string()));
}

#[test]
fn add_string_and_scientific_float() {
    assert!(ok(r#""a"+4.2e10"#) == Value::String("a42000000000".to_string()));
}

#[test]
fn add_hex_ints() {
    assert!(ok("0x10 + 0x20") == Value::U32(48));
}

#[test]
fn string_reverse() {
    assert!(ok(r#""abc".reverse()"#) == Value::String("cba".to_string()));
}

#[test]
fn string_to_upper() {
    assert!(ok(r#""abc".to_uppercase()"#) == Value::String("ABC".to_string()));
}

#[test]
fn string_len() {
    assert!(ok(r#""abc".len()"#) == Value::I64(3));
}

#[test]
fn string_replace() {
    assert!(ok(r#""Hello".replace_all("l","p")"#) == Value::String("Heppo".to_string()));
}

#[test]
fn string_to_lower() {
    assert!(ok(r#""AbC".to_lowercase()"#) == Value::String("abc".to_string()));
}

#[test]
fn string_trim() {
    assert!(ok(r#""  a b  ".trim()"#) == Value::String("a b".to_string()));
}

#[test]
fn string_contains() {
    assert!(ok(r#""needle in haystack".contains("in")"#) == Value::Bool(true));
    assert!(ok(r#""needle".contains("x")"#) == Value::Bool(false));
}

#[test]
fn invalid_regex_is_a_runtime_error() {
    let r = run(r#""abc".replace_all("(","x")"#);
    assert!(r.is_err());
    if let Err(Error::Runtime(e)) = r {
        assert_eq!(e.message(), "Illegal argument: Invalid regex");
    } else {
        panic!("expected a runtime error");
    }
}

#[test]
fn index_out_of_bounds_names_index_and_length() {
    let r = run(r#"["a","b"][7]"#);
    assert!(r.is_err());
    if let Err(Error::Runtime(e)) = r {
        assert_eq!(e.message(), "Index 7 out of bounds, length 2");
    } else {
        panic!("expected a runtime error");
    }
}

#[test]
fn division_by_zero_is_a_runtime_error() {
    let r = run("1/0");
    assert!(r.is_err());
    if let Err(Error::Runtime(e)) = r {
        assert_eq!(e.message(), "Error while executing: Cannot divide");
    } else {
        panic!("expected a runtime error");
    }
}

#[test]
fn narrowing_out_of_range_is_a_runtime_cast_error() {
    // the literal narrows statically, the bounds check happens on assignment
    let r = run("let a:u32=5000000000\na");
    assert!(r.is_err());
    if let Err(Error::Runtime(e)) = r {
        assert_eq!(e.message(), "Error while executing: Illegal cast");
    } else {
        panic!("expected a runtime error");
    }
}

#[test]
fn unknown_method_is_rejected() {
    let message = expect_compile_failure(r#""abc".frobnicate()"#);
    assert_eq!(
        message,
        "Compilation failed: error at line 1, Function string.frobnicate not found"
    );
}

#[test]
fn unterminated_string_is_rejected() {
    let message = expect_compile_failure(r#""abc"#);
    assert_eq!(message, "Compilation failed: error at line 1, Unterminated string");
}

#[test]
fn unexpected_indent_is_rejected() {
    let message = expect_compile_failure("   1");
    assert_eq!(
        message,
        "Compilation failed: error at line 1, unexpected indent level 1 vs expected 0"
    );
}

#[test]
fn uninitialized_variable_is_rejected() {
    let message = expect_compile_failure("let a\n1");
    assert_eq!(
        message,
        "Compilation failed: error at line 2, Uninitialized variables are not allowed."
    );
}

#[test]
fn compiling_twice_runs_identically() {
    let src = "fn add_hello(name: string) -> string:\n    \"Hello \" + name\nadd_hello(\"world\")";
    let first = compile(src).unwrap();
    let second = compile(src).unwrap();
    let v1 = tipi_lang::vm::interpret(&first, "main").unwrap();
    let v2 = tipi_lang::vm::interpret(&second, "main").unwrap();
    assert!(v1 == v2);
    assert!(v1 == Value::String("Hello world".to_string()));
}

#[test]
fn hot_swap_does_not_reach_a_running_snapshot() {
    let first = compile("41").unwrap();
    let second = compile("42").unwrap();
    let shared = tipi_lang::registry::SharedRegistry::new(first);
    let snapshot = shared.load();
    // a recompilation publishes a new registry while the run is under way
    shared.store(second);
    let v = tipi_lang::vm::interpret(&snapshot, "main").unwrap();
    assert!(v == Value::I64(41));
    let after = shared.load();
    let w = tipi_lang::vm::interpret(&after, "main").unwrap();
    assert!(w == Value::I64(42));
    let latest = tipi_lang::vm::interpret_latest(&shared, "main").unwrap();
    assert!(latest == Value::I64(42));
}

#[test]
fn print_statement_prints_and_yields_void() {
    assert!(ok("print \"hi\"\n1") == Value::I64(1));
}

#[test]
fn comparisons_and_logic() {
    assert!(ok("1 < 2") == Value::Bool(true));
    assert!(ok("2 <= 1") == Value::Bool(false));
    assert!(ok("1 == 1") == Value::Bool(true));
    assert!(ok("true and false") == Value::Bool(false));
    assert!(ok("true or false") == Value::Bool(true));
}

#[test]
fn arithmetic_and_bitwise() {
    assert!(ok("2 + 3 * 4") == Value::I64(14));
    assert!(ok("10 - 4 / 2") == Value::I64(8));
    assert!(ok("6 & 3") == Value::I64(2));
    assert!(ok("6 | 3") == Value::I64(7));
    assert!(ok("6 ^ 3") == Value::I64(5));
    assert!(ok("1 << 4") == Value::I64(16));
    assert!(ok("-5") == Value::I64(-5));
    assert!(ok("!true") == Value::Bool(false));
}

#[test]
fn a_single_chunk_runs_with_bound_arguments() {
    let src = "fn add_hello(name: string) -> string:\n    \"Hello \" + name\nadd_hello(\"moon\")";
    let registry = compile(src).unwrap();
    let chunk = registry.get_cloned("main/add_hello").unwrap();
    let v = tipi_lang::vm::interpret_function(&chunk, vec![Value::String("moon".to_string())]);
    assert!(v.unwrap() == Value::String("Hello moon".to_string()));
}

#[test]
fn empty_list_literal() {
    assert!(ok("[]") == Value::List(vec![]));
}

#[test]
fn later_map_entries_rebind_equal_keys() {
    let result = ok(r#"{"a": 1, "a": 2}["a"]"#);
    assert!(result == Value::I64(2));
}

#[test]
fn too_many_parameters_is_rejected() {
    let mut params = String::new();
    for i in 0..26 {
        if i > 0 {
            params.push_str(", ");
        }
        params.push_str(&format!("p{}: i64", i));
    }
    let src = format!("fn f({}) -> i64:\n    1\n1", params);
    let message = expect_compile_failure(&src);
    assert_eq!(message, "Compilation failed: error at line 1, Too many parameters");
}

#[test]
fn largest_unsigned_literal_fits() {
    assert!(ok("0xffffffffffffffff") == Value::U64(u64::MAX));
}

#[test]
fn builtin_calls_chain() {
    assert!(ok(r#""abc".to_uppercase().len()"#) == Value::I64(3));
}

#[test]
fn request_bindings_reach_a_handler_through_its_parameters() {
    let src = "fn get(path: string) -> string:\n    \"at \" + path";
    let registry = compile(src).unwrap();
    let bindings = vec![("path".to_string(), Value::String("/customers".to_string()))];
    let v = tipi_lang::vm::interpret_with_bindings(&registry, "main/get", bindings);
    assert!(v.unwrap() == Value::String("at /customers".to_string()));
}

#[test]
fn struct_is_a_reserved_word() {
    let r = run("let struct = 1");
    assert!(r.is_err());
}

#[test]
fn a_string_on_the_right_of_plus_also_concatenates() {
    assert!(ok(r#"42+"a""#) == Value::String("42a".to_string()));
    assert!(ok(r#"false+"x""#) == Value::String("falsex".to_string()));
    assert!(ok(r#"4.2e10+"a""#) == Value::String("42000000000a".to_string()));
}

#[test]
fn functions_resolve_siblings_declared_later() {
    let src = "fn first() -> i64:\n    second()\nfn second() -> i64:\n    7\nfirst()";
    assert!(ok(src) == Value::I64(7));
}

#[test]
fn wrong_typed_replace_arguments_are_illegal() {
    let r = run(r#""abc".replace_all(1,"x")"#);
    assert!(r.is_err());
    if let Err(Error::Runtime(e)) = r {
        assert_eq!(e.message(), "Illegal argument: Expected a string argument");
    } else {
        panic!("expected a runtime error");
    }
}

#[test]
fn maps_compare_equal_whatever_their_binding_order() {
    let a = Value::Mapping(vec![
        (Value::String("a".to_string()), Value::I64(1)),
        (Value::String("b".to_string()), Value::I64(2)),
    ]);
    let b = Value::Mapping(vec![
        (Value::String("b".to_string()), Value::I64(2)),
        (Value::String("a".to_string()), Value::I64(1)),
    ]);
    assert!(tipi_lang::value::value_eq(&a, &b));
    let c = Value::Mapping(vec![
        (Value::String("a".to_string()), Value::I64(1)),
        (Value::String("b".to_string()), Value::I64(3)),
    ]);
    assert!(!tipi_lang::value::value_eq(&a, &c));
}

#[test]
fn a_chunk_disassembles_to_its_listing() {
    let chunk = tipi_lang::chunk::Chunk {
        name: "main".to_string(),
        code: vec![tipi_lang::vm::OP_CONSTANT, 0, tipi_lang::vm::OP_RETURN],
        constants: vec![Value::U32(7)],
        lines: vec![1, 1, 1],
        object_defs: Vec::new(),
        function_parameters: Vec::new(),
        vars: Vec::new(),
    };
    let listing = chunk.disassemble();
    assert_eq!(listing, "== main ==\n0000 0001 LDC 0: 7\n0002    | RET\n\n");
}

#[test]
fn disassembling_a_compiled_unit_lists_every_instruction() {
    let registry = compile("40+2").expect("the unit compiles");
    let chunk = registry.get_cloned("main").expect("the unit chunk is filed");
    let listing = chunk.disassemble();
    assert!(listing.starts_with("== main ==\n"));
    assert!(listing.contains("ADD"));
    assert!(listing.contains("RET"));
    let registry = compile(r#""a".len()"#).expect("the unit compiles");
    let chunk = registry.get_cloned("main").expect("the unit chunk is filed");
    let listing = chunk.disassemble();
    assert!(listing.contains("CALLB string.len(0)"));
}
