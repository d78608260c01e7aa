//! A small codec and document assembler: domain values (byte-array
//! identifiers, fixed-width numbers) are rendered as canonical `0x`-prefixed
//! lowercase hex text, and a complete node configuration document is built
//! from coin records and consensus parameters.
pub mod codec;
pub mod document;
pub mod records;

pub use codec::CodecError;
pub use codec::decode_bytes;
pub use codec::decode_number;
pub use codec::encode_bytes;
pub use codec::encode_number;
pub use codec::encode_number_compact;
pub use records::Coin;
pub use records::CoinConfig;
pub use records::CoinField;
pub use records::DecodeError;
pub use records::ParameterSet;
pub use records::RawCoinConfig;
pub use records::UtxoId;
pub use records::coin_config_of;
pub use records::decode_coin_config;
pub use document::build_document;
pub use document::get_node_config_json;
pub use document::render_coin_config;
pub use document::render_parameter_set;
