use mycelium::route_names::{normalized_type_name, type_to_field_name, type_to_method_name, unique_handlers};

#[test]
fn test_type_to_field_name() {
    assert_eq!(type_to_field_name("ArbitrageService"), "arbitrage_service");
}

#[test]
fn test_type_to_method_name() {
    assert_eq!(type_to_method_name("V2Swap"), "route_v2_swap");
}

#[test]
fn test_type_to_field_name_with_path() {
    assert_eq!(type_to_field_name("crate :: adapters :: RiskManager"), "crate_adapters_risk_manager");
}

#[test]
fn test_type_to_method_name_with_generic() {
    assert_eq!(type_to_method_name("ShardHandler < SwapMessage >"), "route_shard_handler_swap_message");
}

#[test]
fn normalized_names_merge_separators() {
    assert_eq!(normalized_type_name("crate :: adapters :: RiskManager"), "crate_adapters_RiskManager");
    assert_eq!(normalized_type_name("<>"), "");
    assert_eq!(type_to_field_name("<>"), "handler");
    assert_eq!(type_to_method_name("::"), "route_handler");
}

#[test]
fn handlers_deduplicated_by_normalized_name() {
    let hs = vec![
        "A".to_string(),
        "B".to_string(),
        "crate :: A".to_string(),
        " A ".to_string(),
    ];
    assert_eq!(unique_handlers(&hs), vec![0, 1, 2]);
}
