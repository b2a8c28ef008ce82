use mycelium::codegen::{
    calculate_message_size, check_tag_ranges, generate_buffer_pool_config, generate_from_yaml,
    generate_from_yaml_external, generate_message_struct, generate_message_tests,
    generate_message_trait, generate_python_from_yaml, generate_python_module,
    generate_validate_method, get_max_length_from_validation, map_contract_type_to_python,
    map_contract_type_to_rust, messages_generatable, next_power_of_two, parse_fixed_u8_array,
    parse_vec_fixed_u8_array, python_generatable, topic_from_domain, CodegenError, Contracts,
    FieldContract, MessageContract, Range, TagRanges, ValidationRule,
};

fn field(ty: &str, desc: &str, rules: Vec<ValidationRule>) -> FieldContract {
    FieldContract {
        field_type: ty.to_string(),
        description: desc.to_string(),
        optional: None,
        validation: rules,
    }
}

fn max_rule(n: u64) -> ValidationRule {
    ValidationRule { not_empty: false, min_length: None, max_length: Some(n) }
}

fn message(tlv: u16, domain: &str, fields: Vec<(&str, FieldContract)>) -> MessageContract {
    MessageContract {
        tlv_type: tlv,
        domain: domain.to_string(),
        description: "A test message".to_string(),
        required_prior_messages: Vec::new(),
        sensitivity: None,
        log_payload: None,
        fields: fields.into_iter().map(|(n, f)| (n.to_string(), f)).collect(),
    }
}

fn contracts(ranges: Option<TagRanges>, msgs: Vec<(&str, MessageContract)>) -> Contracts {
    Contracts {
        schema: None,
        tag_ranges: ranges,
        messages: msgs.into_iter().map(|(n, m)| (n.to_string(), m)).collect(),
    }
}

fn ranges(core: &str, app: &str, exp: &str) -> TagRanges {
    TagRanges {
        core: Some(core.to_string()),
        app: Some(app.to_string()),
        experimental: Some(exp.to_string()),
    }
}

#[test]
fn topic_lowercases_and_splits_market_data() {
    assert_eq!(topic_from_domain("MarketData"), "market-data");
    assert_eq!(topic_from_domain("Signals"), "signals");
}

#[test]
fn buffer_class_rounds_up_with_floor_of_128() {
    assert_eq!(next_power_of_two(0), 128);
    assert_eq!(next_power_of_two(128), 128);
    assert_eq!(next_power_of_two(129), 256);
    assert_eq!(next_power_of_two(1000), 1024);
    assert_eq!(next_power_of_two(8192), 8192);
}

#[test]
fn fixed_array_lengths_are_read() {
    assert_eq!(parse_fixed_u8_array("[u8; 32]"), Some(32));
    assert_eq!(parse_fixed_u8_array("  [u8;6] "), Some(6));
    assert_eq!(parse_fixed_u8_array("[u8; x]"), None);
    assert_eq!(parse_fixed_u8_array("u64"), None);
}

#[test]
fn vec_array_lengths_skip_one_character() {
    assert_eq!(parse_vec_fixed_u8_array("Vec<[u8; 20]>"), Some(20));
    assert_eq!(parse_vec_fixed_u8_array("Vec<[u8;20]>"), Some(0));
    assert_eq!(parse_vec_fixed_u8_array("Vec<u8>"), None);
}

#[test]
fn range_parse_accepts_and_rejects() {
    assert_eq!(Range::parse("1-999"), Ok(Range { start: 1, end: 999 }));
    assert_eq!(
        Range::parse("1000").unwrap_err(),
        "Invalid range format: '1000' (expected 'start-end')"
    );
    assert_eq!(Range::parse("9-3").unwrap_err(), "Invalid range 9-3: start > end");
    assert_eq!(
        Range::parse("a-3").unwrap_err(),
        "Invalid range start 'a': invalid digit found in string"
    );
    assert_eq!(
        Range::parse("3-70000").unwrap_err(),
        "Invalid range end '70000': number too large to fit in target type"
    );
    assert!(Range { start: 5, end: 9 }.contains(9));
    assert!(!Range { start: 5, end: 9 }.contains(10));
}

#[test]
fn tag_check_rejects_core_range_and_warns() {
    let c = contracts(
        Some(ranges("1-999", "1000-49999", "50000-65535")),
        vec![
            ("Exp", message(50001, "Test", vec![])),
            ("Odd", message(1000, "Test", vec![])),
        ],
    );
    let report = check_tag_ranges(&c);
    assert_eq!(report.error, None);
    assert_eq!(
        report.warnings,
        vec!["cargo:warning=Message 'Exp' uses type_id 50001 in 'experimental' range (50000-65535) - can change without version bump".to_string()]
    );
    let bad = contracts(
        Some(ranges("1-999", "1000-49999", "50000-65535")),
        vec![("Core", message(5, "Test", vec![]))],
    );
    assert_eq!(
        check_tag_ranges(&bad).error,
        Some("Message 'Core' uses type_id 5 which is in 'core' range (1-999) - reserved for Mycelium framework".to_string())
    );
    let (_, r) = generate_from_yaml(&bad);
    assert!(matches!(r, Err(CodegenError::IoError(_))));
}

#[test]
fn tag_check_warns_outside_app_range() {
    let c = contracts(
        Some(ranges("1-999", "1000-1999", "50000-65535")),
        vec![("Far", message(3000, "Test", vec![]))],
    );
    let report = check_tag_ranges(&c);
    assert_eq!(
        report.warnings,
        vec!["cargo:warning=Message 'Far' uses type_id 3000 which is outside 'app' range (1000-1999) and not in 'experimental' range".to_string()]
    );
}

#[test]
fn message_size_sums_fields() {
    let m = message(
        1001,
        "Test",
        vec![
            ("a", field("u64", "a", vec![])),
            ("b", field("String", "b", vec![])),
            ("c", field("Vec<[u8; 20]>", "c", vec![max_rule(3)])),
            ("d", field("Vec<u8>", "d", vec![])),
        ],
    );
    assert_eq!(calculate_message_size(&m), 8 + 40 + (8 + 60) + (8 + 16));
    assert_eq!(get_max_length_from_validation(&m.fields[2].1), Some(3));
    assert_eq!(get_max_length_from_validation(&m.fields[0].1), None);
}

#[test]
fn rust_types_of_contract_types() {
    assert_eq!(map_contract_type_to_rust("U256", &field("U256", "", vec![])), "[u8; 32]");
    assert_eq!(map_contract_type_to_rust("String", &field("String", "", vec![max_rule(8)])), "FixedStr<8>");
    assert_eq!(map_contract_type_to_rust("Vec<u8>", &field("Vec<u8>", "", vec![])), "FixedVec<u8, 16>");
    assert_eq!(
        map_contract_type_to_rust("[[u8; 32]; 6]", &field("[[u8; 32]; 6]", "", vec![])),
        "[[u8; 32]; 6]"
    );
}

#[test]
fn python_types_of_contract_types() {
    let s = map_contract_type_to_python("u16", &field("u16", "", vec![]));
    assert_eq!((s.type_hint.as_str(), s.field_expr.as_str()), ("int", "Primitive.U16"));
    let s = map_contract_type_to_python("[u8; 20]", &field("[u8; 20]", "", vec![]));
    assert_eq!((s.type_hint.as_str(), s.field_expr.as_str()), ("bytes", "FixedBytes(20)"));
    let s = map_contract_type_to_python("String", &field("String", "", vec![max_rule(12)]));
    assert_eq!((s.type_hint.as_str(), s.field_expr.as_str()), ("str", "FixedStr(12)"));
}

#[test]
fn validate_method_lists_rules() {
    let m = message(
        1001,
        "Test",
        vec![(
            "symbol",
            field(
                "String",
                "s",
                vec![ValidationRule { not_empty: true, min_length: None, max_length: None }],
            ),
        )],
    );
    let code = generate_validate_method("M", &m);
    assert!(code.contains("        // Validate symbol is not empty\n"));
    assert!(code.contains("cannot be empty"));
    assert!(!code.contains("No validation rules"));
    let empty = message(1001, "Test", vec![("x", field("u8", "x", vec![]))]);
    let code = generate_validate_method("M", &empty);
    assert!(code.ends_with("        // No validation rules defined in contract\n        Ok(())\n    }\n"));
}

#[test]
fn struct_trait_and_tests_text() {
    let m = message(1002, "MarketData", vec![("price", field("u64", "Price", vec![]))]);
    let s = generate_message_struct("Quote", &m);
    assert!(s.starts_with("/// A test message (TLV type 1002, MarketData domain)\n"));
    assert!(s.contains("    /// Price\n    pub price: u64,\n"));
    let t = generate_message_trait("Quote", &m);
    assert_eq!(
        t,
        "impl Message for Quote {\n    const TYPE_ID: u16 = 1002;\n    const TOPIC: &'static str = \"market-data\";\n}\n\n"
    );
    let tests = generate_message_tests("Quote", &m);
    assert!(tests.contains("    fn test_quote_type_id() {\n"));
    assert!(tests.contains("        assert_eq!(Quote::TOPIC, \"market-data\");\n"));
}

#[test]
fn pool_config_groups_classes_ascending() {
    let big = message(1003, "Test", vec![("roots", field("[[u8; 32]; 6]", "r", vec![]))]);
    let small = message(1004, "Test", vec![("v", field("u64", "v", vec![]))]);
    let small2 = message(1005, "Test", vec![("w", field("u32", "w", vec![]))]);
    let c = contracts(None, vec![("Zeta", big), ("Beta", small), ("Alpha", small2)]);
    let code = generate_buffer_pool_config(&c);
    let i128 = code.find("    // Beta (8B), Alpha (4B)\n    config.insert(128, 512);\n").unwrap();
    let i256 = code.find("    // Zeta (192B)\n    config.insert(256, 256);\n").unwrap();
    assert!(i128 < i256);
    let a = code.find("pub const ALPHA_MAX_SIZE: usize = 4;\n").unwrap();
    let b = code.find("pub const BETA_MAX_SIZE: usize = 8;\n").unwrap();
    let z = code.find("pub const ZETA_BUFFER_CLASS: usize = 256;\n").unwrap();
    assert!(a < b && b < z);
}

#[test]
fn rust_module_and_external_imports() {
    let c = contracts(None, vec![("Ping", message(1006, "Test", vec![("n", field("u8", "n", vec![]))]))]);
    assert!(messages_generatable(&c));
    let (w, r) = generate_from_yaml(&c);
    assert!(w.is_empty());
    let code = r.ok().unwrap();
    assert!(code.contains("use crate::Message;\n"));
    assert!(code.contains("pub struct Ping {\n"));
    assert!(code.ends_with("}\n"));
    let (_, r) = generate_from_yaml_external(&c);
    assert!(r.ok().unwrap().contains("use mycelium_protocol::Message;\n"));
}

#[test]
fn unknown_types_are_not_generatable() {
    let c = contracts(None, vec![("Bad", message(1007, "Test", vec![("q", field("u128", "q", vec![]))]))]);
    assert!(!messages_generatable(&c));
    assert!(!python_generatable(&c));
    let dup = contracts(
        None,
        vec![("Same", message(1008, "Test", vec![])), ("Same", message(1009, "Test", vec![]))],
    );
    assert!(!messages_generatable(&dup));
}

#[test]
fn python_module_sorted_by_name() {
    let c = contracts(
        None,
        vec![
            ("Second", message(1010, "Test", vec![("x", field("u8", "x", vec![]))])),
            ("First", message(1011, "Test", vec![])),
        ],
    );
    assert!(python_generatable(&c));
    let code = generate_python_module(&c);
    assert!(code.contains("__all__ = [\"First\", \"Second\"]\n\n"));
    assert!(code.find("class First:").unwrap() < code.find("class Second:").unwrap());
    assert!(code.contains("        FieldDef(\"x\", Primitive.U8),\n"));
    let (_, r) = generate_python_from_yaml(&c);
    assert_eq!(r.ok().unwrap(), code);
}

#[test]
fn codegen_error_text_kind() {
    let e = CodegenError::from(std::io::Error::new(std::io::ErrorKind::Other, "boom"));
    assert_eq!(e.to_string(), "IO error: boom");
}
