use node_config::Coin;
use node_config::CoinConfig;
use node_config::CoinField;
use node_config::CodecError;
use node_config::DecodeError;
use node_config::ParameterSet;
use node_config::RawCoinConfig;
use node_config::UtxoId;
use node_config::build_document;
use node_config::decode_coin_config;
use node_config::get_node_config_json;

use serde_json::Value;

fn simple_coin() -> CoinConfig {
    CoinConfig {
        tx_id: None,
        output_index: None,
        block_created: None,
        maturity: None,
        owner: vec![0x11; 20],
        amount: 1000,
        asset_id: vec![0x22; 32],
    }
}

#[test]
fn document_is_valid_json() {
    let doc = build_document(&vec![simple_coin()], None);
    let v: Value = serde_json::from_str(&doc).expect("document must parse as JSON");
    assert!(v.is_object());
}

#[test]
fn document_top_level_shape() {
    let doc = build_document(&vec![], None);
    let v: Value = serde_json::from_str(&doc).unwrap();
    let obj = v.as_object().unwrap();
    assert_eq!(obj.len(), 5);
    assert_eq!(v["chain_name"], "local_testnet");
    assert_eq!(v["block_production"], "Instant");
    assert_eq!(v["parent_network"]["type"], "LocalTest");
    assert!(v["initial_state"]["coins"].as_array().unwrap().is_empty());
    assert!(v["transaction_parameters"].is_object());
}

#[test]
fn document_example_scenario() {
    let doc = build_document(&vec![simple_coin()], None);
    let v: Value = serde_json::from_str(&doc).unwrap();
    let coins = v["initial_state"]["coins"].as_array().unwrap();
    assert_eq!(coins.len(), 1);
    let c = coins[0].as_object().unwrap();
    assert_eq!(
        c["owner"].as_str().unwrap(),
        format!("0x{}", "11".repeat(20))
    );
    assert_eq!(c["amount"].as_str().unwrap(), "0x00000000000003e8");
    assert_eq!(
        c["asset_id"].as_str().unwrap(),
        format!("0x{}", "22".repeat(32))
    );
    assert!(!c.contains_key("tx_id"));
    assert!(!c.contains_key("output_index"));
    assert!(!c.contains_key("block_created"));
    assert!(!c.contains_key("maturity"));
}

#[test]
fn absent_block_created_key_is_omitted() {
    let mut coin = simple_coin();
    coin.maturity = Some(7);
    let doc = build_document(&vec![coin], None);
    let v: Value = serde_json::from_str(&doc).unwrap();
    let c = v["initial_state"]["coins"][0].as_object().unwrap();
    assert!(!c.contains_key("block_created"));
    assert_eq!(c["maturity"].as_str().unwrap(), "0x0000000000000007");
    assert!(!doc.contains("null"));
    assert!(!doc.contains("block_created"));
}

#[test]
fn document_is_deterministic() {
    let coins = || {
        vec![
            simple_coin(),
            CoinConfig {
                tx_id: Some(vec![0xaa; 32]),
                output_index: Some(1),
                block_created: Some(2),
                maturity: Some(3),
                owner: vec![0x33; 32],
                amount: 42,
                asset_id: vec![0x44; 32],
            },
        ]
    };
    let a = build_document(&coins(), None);
    let b = build_document(&coins(), None);
    assert_eq!(a, b);
    let p = ParameterSet::default();
    let c = build_document(&coins(), Some(p));
    let d = build_document(&coins(), Some(p));
    assert_eq!(c, d);
}

#[test]
fn document_keeps_coin_order() {
    let mut first = simple_coin();
    first.amount = 1;
    let mut second = simple_coin();
    second.amount = 2;
    let doc = build_document(&vec![first, second], None);
    let v: Value = serde_json::from_str(&doc).unwrap();
    let coins = v["initial_state"]["coins"].as_array().unwrap();
    assert_eq!(coins[0]["amount"].as_str().unwrap(), "0x0000000000000001");
    assert_eq!(coins[1]["amount"].as_str().unwrap(), "0x0000000000000002");
}

#[test]
fn default_parameters_match_consumer_contract() {
    let doc = build_document(&vec![], None);
    let v: Value = serde_json::from_str(&doc).unwrap();
    let p = v["transaction_parameters"].as_object().unwrap();
    assert_eq!(p.len(), 13);
    assert_eq!(p["contract_max_size"].as_u64().unwrap(), 16 * 1024 * 1024);
    assert_eq!(p["max_inputs"].as_u64().unwrap(), 255);
    assert_eq!(p["max_outputs"].as_u64().unwrap(), 255);
    assert_eq!(p["max_witnesses"].as_u64().unwrap(), 255);
    assert_eq!(p["max_gas_per_tx"].as_u64().unwrap(), 100_000_000);
    assert_eq!(p["max_script_length"].as_u64().unwrap(), 1024 * 1024);
    assert_eq!(p["max_script_data_length"].as_u64().unwrap(), 1024 * 1024);
    assert_eq!(p["max_storage_slots"].as_u64().unwrap(), 255);
    assert_eq!(p["max_predicate_length"].as_u64().unwrap(), 1024 * 1024);
    assert_eq!(
        p["max_predicate_data_length"].as_u64().unwrap(),
        1024 * 1024
    );
    assert_eq!(p["gas_price_factor"].as_u64().unwrap(), 1_000_000_000);
    assert_eq!(p["gas_per_byte"].as_u64().unwrap(), 4);
    assert_eq!(p["max_message_data_length"].as_u64().unwrap(), 1024 * 1024);
}

#[test]
fn explicit_parameters_are_reemitted() {
    let mut p = ParameterSet::default();
    p.gas_per_byte = 9;
    p.max_inputs = 13;
    let doc = build_document(&vec![], Some(p));
    let v: Value = serde_json::from_str(&doc).unwrap();
    assert_eq!(v["transaction_parameters"]["gas_per_byte"].as_u64(), Some(9));
    assert_eq!(v["transaction_parameters"]["max_inputs"].as_u64(), Some(13));
}

#[test]
fn pairs_fill_every_transaction_field() {
    let utxo = UtxoId {
        tx_id: vec![0xaa; 32],
        output_index: 3,
    };
    let coin = Coin {
        owner: vec![0x11; 32],
        amount: 500,
        asset_id: vec![0x22; 32],
        block_created: Some(5),
        maturity: Some(10),
    };
    let doc = get_node_config_json(vec![(utxo, coin)], None);
    let v: Value = serde_json::from_str(&doc).unwrap();
    let c = v["initial_state"]["coins"][0].as_object().unwrap();
    assert_eq!(
        c["tx_id"].as_str().unwrap(),
        format!("0x{}", "aa".repeat(32))
    );
    assert_eq!(c["output_index"].as_str().unwrap(), "0x0000000000000003");
    assert_eq!(c["block_created"].as_str().unwrap(), "0x0000000000000005");
    assert_eq!(c["maturity"].as_str().unwrap(), "0x000000000000000a");
    assert_eq!(c["amount"].as_str().unwrap(), "0x00000000000001f4");
}

fn raw_from(c: &serde_json::Map<String, Value>) -> RawCoinConfig {
    let grab = |k: &str| c.get(k).map(|x| x.as_str().unwrap().to_string());
    RawCoinConfig {
        tx_id: grab("tx_id"),
        output_index: grab("output_index"),
        block_created: grab("block_created"),
        maturity: grab("maturity"),
        owner: grab("owner").unwrap(),
        amount: grab("amount").unwrap(),
        asset_id: grab("asset_id").unwrap(),
    }
}

#[test]
fn document_coin_decodes_back() {
    let utxo = UtxoId {
        tx_id: vec![0xaa; 32],
        output_index: 3,
    };
    let coin = Coin {
        owner: vec![0x11; 32],
        amount: 500,
        asset_id: vec![0x22; 32],
        block_created: None,
        maturity: Some(10),
    };
    let doc = get_node_config_json(vec![(utxo, coin)], None);
    let v: Value = serde_json::from_str(&doc).unwrap();
    let c = v["initial_state"]["coins"][0].as_object().unwrap();
    let raw = raw_from(c);
    let decoded = decode_coin_config(&raw, 32, 32, 32).unwrap();
    assert_eq!(decoded.tx_id, Some(vec![0xaa; 32]));
    assert_eq!(decoded.output_index, Some(3));
    assert_eq!(decoded.block_created, None);
    assert_eq!(decoded.maturity, Some(10));
    assert_eq!(decoded.owner, vec![0x11; 32]);
    assert_eq!(decoded.amount, 500);
    assert_eq!(decoded.asset_id, vec![0x22; 32]);
}

fn plain_raw() -> RawCoinConfig {
    RawCoinConfig {
        tx_id: None,
        output_index: None,
        block_created: None,
        maturity: None,
        owner: format!("0x{}", "11".repeat(32)),
        amount: "0x01".to_string(),
        asset_id: format!("0x{}", "22".repeat(32)),
    }
}

#[test]
fn decode_attributes_owner_error() {
    let mut raw = plain_raw();
    raw.owner = "0xnothex".to_string();
    assert_eq!(
        decode_coin_config(&raw, 32, 32, 32),
        Err(DecodeError {
            field: CoinField::Owner,
            error: CodecError::InvalidHex,
        })
    );
}

#[test]
fn decode_attributes_amount_overflow() {
    let mut raw = plain_raw();
    raw.amount = "0x0102030405060708ff".to_string();
    assert_eq!(
        decode_coin_config(&raw, 32, 32, 32),
        Err(DecodeError {
            field: CoinField::Amount,
            error: CodecError::Overflow,
        })
    );
}

#[test]
fn decode_attributes_tx_id_length() {
    let mut raw = plain_raw();
    raw.tx_id = Some("0xabcd".to_string());
    assert_eq!(
        decode_coin_config(&raw, 32, 32, 32),
        Err(DecodeError {
            field: CoinField::TxId,
            error: CodecError::LengthMismatch,
        })
    );
}

#[test]
fn decode_stops_at_first_failing_field() {
    let mut raw = plain_raw();
    raw.output_index = Some("0xzz".to_string());
    raw.amount = "0xzz".to_string();
    let err = decode_coin_config(&raw, 32, 32, 32).unwrap_err();
    assert_eq!(err.field, CoinField::OutputIndex);
}

#[test]
fn field_names_match_document_keys() {
    assert_eq!(CoinField::TxId.name(), "tx_id");
    assert_eq!(CoinField::OutputIndex.name(), "output_index");
    assert_eq!(CoinField::BlockCreated.name(), "block_created");
    assert_eq!(CoinField::Maturity.name(), "maturity");
    assert_eq!(CoinField::Owner.name(), "owner");
    assert_eq!(CoinField::Amount.name(), "amount");
    assert_eq!(CoinField::AssetId.name(), "asset_id");
}
