use mycelium::codec::{decode_any_message_with_policy, AnyMessage, UnknownTypePolicy};
use mycelium::schema_compat::{
    check_compatibility, CompatibilityIssue, CompatibilityLevel, CompatibilityReport, FieldSchema,
    MessageSchema, Schema,
};
fn create_test_schema(version: u16, messages: Vec<MessageSchema>) -> Schema {
    Schema {
        schema_id: 0x4D594345,
        version,
        min_compatible: 1,
        messages,
    }
}

fn create_test_message(type_id: u16, name: &str, fields: Vec<FieldSchema>) -> MessageSchema {
    MessageSchema {
        type_id,
        name: name.to_string(),
        fields,
    }
}

fn required_field(name: &str, field_type: &str) -> FieldSchema {
    FieldSchema {
        name: name.to_string(),
        field_type: field_type.to_string(),
        optional: false,
    }
}

fn optional_field(name: &str, field_type: &str) -> FieldSchema {
    FieldSchema {
        name: name.to_string(),
        field_type: field_type.to_string(),
        optional: true,
    }
}

#[test]
fn test_identical_schemas_fully_compatible() {
    let msg = create_test_message(
        1018,
        "InstrumentMeta",
        vec![
            required_field("symbol", "String"),
            required_field("decimals", "u8"),
        ],
    );

    let schema1 = create_test_schema(1, vec![msg.clone()]);
    let schema2 = create_test_schema(1, vec![msg]);

    let report = check_compatibility(&schema1, &schema2);
    assert_eq!(report.level, CompatibilityLevel::FullyCompatible);
    assert!(report.issues.is_empty());
}

#[test]
fn test_schema_id_mismatch() {
    let msg = create_test_message(1018, "Test", vec![]);
    let mut schema1 = create_test_schema(1, vec![msg.clone()]);
    let mut schema2 = create_test_schema(1, vec![msg]);

    schema1.schema_id = 0x1111;
    schema2.schema_id = 0x2222;

    let report = check_compatibility(&schema1, &schema2);
    assert_eq!(report.level, CompatibilityLevel::Incompatible);
    assert!(matches!(
        report.issues[0],
        CompatibilityIssue::SchemaMismatch { .. }
    ));
}

#[test]
fn test_adding_optional_field_compatible() {
    let msg1 = create_test_message(
        1018,
        "InstrumentMeta",
        vec![required_field("symbol", "String")],
    );

    let msg2 = create_test_message(
        1018,
        "InstrumentMeta",
        vec![
            required_field("symbol", "String"),
            optional_field("decimals", "u8"),
        ],
    );

    let schema1 = create_test_schema(1, vec![msg1]);
    let schema2 = create_test_schema(2, vec![msg2]);

    let report = check_compatibility(&schema1, &schema2);
    assert_eq!(report.level, CompatibilityLevel::ForwardCompatible);
    assert!(report.issues.is_empty());
    assert_eq!(report.warnings.len(), 1);
}

#[test]
fn test_removing_required_field_incompatible() {
    let msg1 = create_test_message(
        1018,
        "InstrumentMeta",
        vec![
            required_field("symbol", "String"),
            required_field("decimals", "u8"),
        ],
    );

    let msg2 = create_test_message(
        1018,
        "InstrumentMeta",
        vec![required_field("symbol", "String")],
    );

    let schema1 = create_test_schema(1, vec![msg1]);
    let schema2 = create_test_schema(2, vec![msg2]);

    let report = check_compatibility(&schema1, &schema2);
    assert_eq!(report.level, CompatibilityLevel::Incompatible);
    assert!(matches!(
        report.issues[0],
        CompatibilityIssue::RequiredFieldRemoved { .. }
    ));
}

#[test]
fn test_changing_field_type_incompatible() {
    let msg1 = create_test_message(
        1018,
        "InstrumentMeta",
        vec![required_field("decimals", "u8")],
    );

    let msg2 = create_test_message(
        1018,
        "InstrumentMeta",
        vec![required_field("decimals", "u16")],
    );

    let schema1 = create_test_schema(1, vec![msg1]);
    let schema2 = create_test_schema(2, vec![msg2]);

    let report = check_compatibility(&schema1, &schema2);
    assert_eq!(report.level, CompatibilityLevel::Incompatible);
    assert!(matches!(
        report.issues[0],
        CompatibilityIssue::FieldTypeChanged { .. }
    ));
}

#[test]
fn test_optional_to_required_incompatible() {
    let msg1 = create_test_message(
        1018,
        "InstrumentMeta",
        vec![optional_field("decimals", "u8")],
    );

    let msg2 = create_test_message(
        1018,
        "InstrumentMeta",
        vec![required_field("decimals", "u8")],
    );

    let schema1 = create_test_schema(1, vec![msg1]);
    let schema2 = create_test_schema(2, vec![msg2]);

    let report = check_compatibility(&schema1, &schema2);
    assert_eq!(report.level, CompatibilityLevel::Incompatible);
    assert!(matches!(
        report.issues[0],
        CompatibilityIssue::FieldBecameRequired { .. }
    ));
}

#[test]
fn test_removing_message_incompatible() {
    let msg1 = create_test_message(1018, "InstrumentMeta", vec![]);
    let msg2 = create_test_message(1020, "ArbitrageSignal", vec![]);

    let schema1 = create_test_schema(1, vec![msg1.clone(), msg2]);
    let schema2 = create_test_schema(2, vec![msg1]);

    let report = check_compatibility(&schema1, &schema2);
    assert_eq!(report.level, CompatibilityLevel::Incompatible);
    assert!(matches!(
        report.issues[0],
        CompatibilityIssue::MessageRemoved { .. }
    ));
}

#[test]
fn test_adding_message_compatible() {
    let msg1 = create_test_message(1018, "InstrumentMeta", vec![]);
    let msg2 = create_test_message(1020, "ArbitrageSignal", vec![]);

    let schema1 = create_test_schema(1, vec![msg1.clone()]);
    let schema2 = create_test_schema(2, vec![msg1, msg2]);

    let report = check_compatibility(&schema1, &schema2);
    assert_eq!(report.level, CompatibilityLevel::ForwardCompatible);
    assert!(report.issues.is_empty());
    assert_eq!(report.warnings.len(), 1);
}

#[test]
fn test_type_id_changed_incompatible() {
    let msg1 = create_test_message(1018, "InstrumentMeta", vec![]);
    let msg2 = create_test_message(2000, "InstrumentMeta", vec![]);

    let schema1 = create_test_schema(1, vec![msg1]);
    let schema2 = create_test_schema(2, vec![msg2]);

    let report = check_compatibility(&schema1, &schema2);
    assert_eq!(report.level, CompatibilityLevel::Incompatible);
    assert!(matches!(
        report.issues[0],
        CompatibilityIssue::TypeIdChanged { .. }
    ));
}

#[test]
fn report_accumulates_issues_and_warnings() {
    let mut report = CompatibilityReport::compatible();
    assert!(report.is_compatible());
    report.add_warning("note".to_string());
    assert!(report.is_compatible());
    assert_eq!(report.warnings.len(), 1);
    report.add_issue(CompatibilityIssue::VersionTooOld { version: 1, min_compatible: 2 });
    assert!(!report.is_compatible());
    assert_eq!(report.level, CompatibilityLevel::Incompatible);
}

#[test]
fn older_version_is_backward_compatible() {
    let msg = create_test_message(1018, "InstrumentMeta", vec![required_field("symbol", "String")]);
    let schema1 = create_test_schema(3, vec![msg.clone()]);
    let schema2 = create_test_schema(2, vec![msg]);
    let report = check_compatibility(&schema1, &schema2);
    assert_eq!(report.level, CompatibilityLevel::BackwardCompatible);
    assert!(report.issues.is_empty());
}

/// Helper to create a test schema
fn create_schema(version: u16, messages: Vec<MessageSchema>) -> Schema {
    Schema {
        schema_id: 0x4D594345,
        version,
        min_compatible: 1,
        messages,
    }
}

#[test]
fn test_forward_compatibility_with_unknown_policy() {
    // Scenario: Old client (v1) receives message from new server (v2)
    // Old client doesn't know about new message types, but can handle them gracefully

    // Define v1 schema (only has InstrumentMeta)
    let v1_schema = create_schema(
        1,
        vec![MessageSchema {
            type_id: 1018,
            name: "InstrumentMeta".to_string(),
            fields: vec![FieldSchema {
                name: "symbol".to_string(),
                field_type: "String".to_string(),
                optional: false,
            }],
        }],
    );

    // Define v2 schema (adds ArbitrageSignal)
    let v2_schema = create_schema(
        2,
        vec![
            MessageSchema {
                type_id: 1018,
                name: "InstrumentMeta".to_string(),
                fields: vec![FieldSchema {
                    name: "symbol".to_string(),
                    field_type: "String".to_string(),
                    optional: false,
                }],
            },
            MessageSchema {
                type_id: 1020,
                name: "ArbitrageSignal".to_string(),
                fields: vec![FieldSchema {
                    name: "opportunity_id".to_string(),
                    field_type: "u64".to_string(),
                    optional: false,
                }],
            },
        ],
    );

    // Check compatibility
    let compat = check_compatibility(&v1_schema, &v2_schema);
    assert_eq!(compat.level, CompatibilityLevel::ForwardCompatible);
    assert!(compat.is_compatible());
    assert!(compat.issues.is_empty());

    // Simulate old client receiving unknown type
    // Use type_id 9999 which doesn't exist in current contracts
    let unknown_bytes = vec![
        0x0F, 0x27, // type_id: 9999 as u16 LE - truly unknown type
        0x10, 0x00, 0x00, 0x00, // length: 16 as u32 LE
        0x01, 0x02, 0x03, 0x04, // payload (arbitrary)
        0x05, 0x06, 0x07, 0x08, 0x09, 0x0A, 0x0B, 0x0C, 0x0D, 0x0E, 0x0F, 0x10,
    ];

    // Old client with Skip policy can handle unknown messages
    let result = decode_any_message_with_policy(&unknown_bytes, UnknownTypePolicy::Skip);
    assert!(result.is_ok());

    // Old client with Fail policy would reject
    let result = decode_any_message_with_policy(&unknown_bytes, UnknownTypePolicy::Fail);
    assert!(result.is_err());
}

#[test]
fn test_backward_compatibility_optional_fields() {
    // Scenario: New client (v2) receives message from old server (v1)
    // v2 added optional fields that v1 doesn't send

    let v1_schema = create_schema(
        1,
        vec![MessageSchema {
            type_id: 1018,
            name: "InstrumentMeta".to_string(),
            fields: vec![FieldSchema {
                name: "symbol".to_string(),
                field_type: "String".to_string(),
                optional: false,
            }],
        }],
    );

    let v2_schema = create_schema(
        2,
        vec![MessageSchema {
            type_id: 1018,
            name: "InstrumentMeta".to_string(),
            fields: vec![
                FieldSchema {
                    name: "symbol".to_string(),
                    field_type: "String".to_string(),
                    optional: false,
                },
                FieldSchema {
                    name: "decimals".to_string(),
                    field_type: "u8".to_string(),
                    optional: true, // New optional field
                },
            ],
        }],
    );

    let compat = check_compatibility(&v1_schema, &v2_schema);
    assert!(compat.is_compatible());
    assert!(compat.issues.is_empty());
    assert_eq!(compat.warnings.len(), 1); // Warning about added field
}

#[test]
fn test_breaking_change_removed_required_field() {
    let v1_schema = create_schema(
        1,
        vec![MessageSchema {
            type_id: 1018,
            name: "InstrumentMeta".to_string(),
            fields: vec![
                FieldSchema {
                    name: "symbol".to_string(),
                    field_type: "String".to_string(),
                    optional: false,
                },
                FieldSchema {
                    name: "decimals".to_string(),
                    field_type: "u8".to_string(),
                    optional: false,
                },
            ],
        }],
    );

    let v2_schema = create_schema(
        2,
        vec![MessageSchema {
            type_id: 1018,
            name: "InstrumentMeta".to_string(),
            fields: vec![FieldSchema {
                name: "symbol".to_string(),
                field_type: "String".to_string(),
                optional: false,
            }],
        }],
    );

    let compat = check_compatibility(&v1_schema, &v2_schema);
    assert_eq!(compat.level, CompatibilityLevel::Incompatible);
    assert!(!compat.is_compatible());
    assert_eq!(compat.issues.len(), 1);
}

#[test]
fn test_breaking_change_type_modified() {
    let v1_schema = create_schema(
        1,
        vec![MessageSchema {
            type_id: 1018,
            name: "InstrumentMeta".to_string(),
            fields: vec![FieldSchema {
                name: "decimals".to_string(),
                field_type: "u8".to_string(),
                optional: false,
            }],
        }],
    );

    let v2_schema = create_schema(
        2,
        vec![MessageSchema {
            type_id: 1018,
            name: "InstrumentMeta".to_string(),
            fields: vec![FieldSchema {
                name: "decimals".to_string(),
                field_type: "u16".to_string(), // Type changed!
                optional: false,
            }],
        }],
    );

    let compat = check_compatibility(&v1_schema, &v2_schema);
    assert_eq!(compat.level, CompatibilityLevel::Incompatible);
    assert!(!compat.is_compatible());
}

#[test]
fn test_schema_id_mismatch_different_protocols() {
    let mut schema1 = create_schema(1, vec![]);
    let mut schema2 = create_schema(1, vec![]);

    schema1.schema_id = 0x11111111;
    schema2.schema_id = 0x22222222;

    let compat = check_compatibility(&schema1, &schema2);
    assert_eq!(compat.level, CompatibilityLevel::Incompatible);
    assert!(!compat.is_compatible());
}

#[test]
fn test_version_within_compatible_range() {
    let mut old_schema = create_schema(5, vec![]);
    old_schema.min_compatible = 3;

    let new_schema_compat = create_schema(4, vec![]);
    let compat = check_compatibility(&old_schema, &new_schema_compat);
    assert!(compat.is_compatible());

    let new_schema_incompat = create_schema(2, vec![]);
    let compat = check_compatibility(&old_schema, &new_schema_incompat);
    assert!(!compat.is_compatible());
}

#[test]
fn test_multiple_messages_compatibility() {
    // Complex scenario with multiple message types
    let v1_schema = create_schema(
        1,
        vec![
            MessageSchema {
                type_id: 1018,
                name: "InstrumentMeta".to_string(),
                fields: vec![FieldSchema {
                    name: "symbol".to_string(),
                    field_type: "String".to_string(),
                    optional: false,
                }],
            },
            MessageSchema {
                type_id: 1011,
                name: "PoolState".to_string(),
                fields: vec![FieldSchema {
                    name: "reserves".to_string(),
                    field_type: "U256".to_string(),
                    optional: false,
                }],
            },
        ],
    );

    let v2_schema = create_schema(
        2,
        vec![
            MessageSchema {
                type_id: 1018,
                name: "InstrumentMeta".to_string(),
                fields: vec![
                    FieldSchema {
                        name: "symbol".to_string(),
                        field_type: "String".to_string(),
                        optional: false,
                    },
                    FieldSchema {
                        name: "decimals".to_string(),
                        field_type: "u8".to_string(),
                        optional: true, // Added optional field
                    },
                ],
            },
            MessageSchema {
                type_id: 1011,
                name: "PoolState".to_string(),
                fields: vec![FieldSchema {
                    name: "reserves".to_string(),
                    field_type: "U256".to_string(),
                    optional: false,
                }],
            },
            MessageSchema {
                type_id: 1020,
                name: "ArbitrageSignal".to_string(), // New message type
                fields: vec![FieldSchema {
                    name: "opportunity_id".to_string(),
                    field_type: "u64".to_string(),
                    optional: false,
                }],
            },
        ],
    );

    let compat = check_compatibility(&v1_schema, &v2_schema);
    assert_eq!(compat.level, CompatibilityLevel::ForwardCompatible);
    assert!(compat.is_compatible());
    assert!(compat.issues.is_empty());
    assert_eq!(compat.warnings.len(), 2); // One for added field, one for added message
}

#[test]
fn test_unknown_type_policy_store() {
    // Test that Store policy preserves unknown message data
    let unknown_bytes = vec![
        0x88, 0x13, // type_id: 5000 (0x1388) as u16 LE
        0x08, 0x00, 0x00, 0x00, // length: 8 as u32 LE
        0xDE, 0xAD, 0xBE, 0xEF, // payload
        0xCA, 0xFE, 0xBA, 0xBE,
    ];

    let result = decode_any_message_with_policy(&unknown_bytes, UnknownTypePolicy::Store);
    assert!(result.is_ok());

    // With Store policy, we can inspect the unknown message
    if let Ok(msg) = result {
        match msg {
            AnyMessage::Unknown(unknown) => {
                assert_eq!(unknown.type_id, 5000);
                assert_eq!(unknown.payload.len(), 8);
                assert_eq!(&unknown.payload[0..4], &[0xDE, 0xAD, 0xBE, 0xEF]);
            }
            _ => panic!("Expected Unknown variant"),
        }
    }
}
