//! The value records the document is assembled from: coin records with their
//! optional fields, the identifiers that reference them, and the consensus
//! parameter set, together with the record-level decode that attributes a
//! failure to the field it arose in.
use vstd::prelude::*;

use crate::codec::CodecError;
use crate::codec::decode_bytes;
use crate::codec::decode_number;
use crate::codec::spec_decode_bytes;
use crate::codec::spec_decode_number;

verus! {

/// A reference to a spendable unit: the hash of the transaction that created
/// it and the index of the output within that transaction.
pub struct UtxoId {
    pub tx_id: Vec<u8>,
    pub output_index: u8,
}

pub struct UtxoIdV {
    pub tx_id: Seq<u8>,
    pub output_index: u8,
}

impl View for UtxoId {
    type V = UtxoIdV;

    open spec fn view(&self) -> UtxoIdV {
        UtxoIdV { tx_id: self.tx_id@, output_index: self.output_index }
    }
}

/// A spendable unit: an amount of one asset owned by an address, optionally
/// tagged with the height it was created at and the height it matures at.
pub struct Coin {
    pub owner: Vec<u8>,
    pub amount: u64,
    pub asset_id: Vec<u8>,
    pub block_created: Option<u64>,
    pub maturity: Option<u64>,
}

pub struct CoinV {
    pub owner: Seq<u8>,
    pub amount: u64,
    pub asset_id: Seq<u8>,
    pub block_created: Option<u64>,
    pub maturity: Option<u64>,
}

impl View for Coin {
    type V = CoinV;

    open spec fn view(&self) -> CoinV {
        CoinV {
            owner: self.owner@,
            amount: self.amount,
            asset_id: self.asset_id@,
            block_created: self.block_created,
            maturity: self.maturity,
        }
    }
}

/// One rendered coin entry of the document: the optional fields are omitted
/// from the rendering when absent, never written as null.
#[derive(Debug, PartialEq, Eq)]
pub struct CoinConfig {
    pub tx_id: Option<Vec<u8>>,
    pub output_index: Option<u64>,
    pub block_created: Option<u64>,
    pub maturity: Option<u64>,
    pub owner: Vec<u8>,
    pub amount: u64,
    pub asset_id: Vec<u8>,
}

pub struct CoinConfigV {
    pub tx_id: Option<Seq<u8>>,
    pub output_index: Option<u64>,
    pub block_created: Option<u64>,
    pub maturity: Option<u64>,
    pub owner: Seq<u8>,
    pub amount: u64,
    pub asset_id: Seq<u8>,
}

impl View for CoinConfig {
    type V = CoinConfigV;

    open spec fn view(&self) -> CoinConfigV {
        CoinConfigV {
            tx_id: match self.tx_id {
                Option::Some(ref b) => Option::Some(b@),
                Option::None => Option::None,
            },
            output_index: self.output_index,
            block_created: self.block_created,
            maturity: self.maturity,
            owner: self.owner@,
            amount: self.amount,
            asset_id: self.asset_id@,
        }
    }
}

/// The coin entry an identifier and a source coin stand for: the identifier's
/// parts fill the optional transaction fields, the coin's own fields carry
/// over unchanged.
pub open spec fn spec_coin_config_of(utxo_id: UtxoIdV, coin: CoinV) -> CoinConfigV {
    CoinConfigV {
        tx_id: Option::Some(utxo_id.tx_id),
        output_index: Option::Some(utxo_id.output_index as u64),
        block_created: coin.block_created,
        maturity: coin.maturity,
        owner: coin.owner,
        amount: coin.amount,
        asset_id: coin.asset_id,
    }
}

pub fn coin_config_of(utxo_id: UtxoId, coin: Coin) -> (r: CoinConfig)
    ensures
        r@ == spec_coin_config_of(utxo_id@, coin@),
{
    CoinConfig {
        tx_id: Some(utxo_id.tx_id),
        output_index: Some(utxo_id.output_index as u64),
        block_created: coin.block_created,
        maturity: coin.maturity,
        owner: coin.owner,
        amount: coin.amount,
        asset_id: coin.asset_id,
    }
}

/// Protocol-level tuning values carried into the document unchanged.
#[derive(Clone, Copy, Debug, PartialEq, Eq, Structural)]
pub struct ParameterSet {
    pub contract_max_size: u64,
    pub max_inputs: u64,
    pub max_outputs: u64,
    pub max_witnesses: u64,
    pub max_gas_per_tx: u64,
    pub max_script_length: u64,
    pub max_script_data_length: u64,
    pub max_storage_slots: u64,
    pub max_predicate_length: u64,
    pub max_predicate_data_length: u64,
    pub gas_price_factor: u64,
    pub gas_per_byte: u64,
    pub max_message_data_length: u64,
}

/// The well-known default parameter set: an external contract with the
/// consuming process, which it must match value for value.
pub open spec fn default_parameter_set() -> ParameterSet {
    ParameterSet {
        contract_max_size: 16777216,
        max_inputs: 255,
        max_outputs: 255,
        max_witnesses: 255,
        max_gas_per_tx: 100000000,
        max_script_length: 1048576,
        max_script_data_length: 1048576,
        max_storage_slots: 255,
        max_predicate_length: 1048576,
        max_predicate_data_length: 1048576,
        gas_price_factor: 1000000000,
        gas_per_byte: 4,
        max_message_data_length: 1048576,
    }
}

impl Default for ParameterSet {
    fn default() -> (r: Self)
        ensures
            r == default_parameter_set(),
    {
        ParameterSet {
            contract_max_size: 16777216,
            max_inputs: 255,
            max_outputs: 255,
            max_witnesses: 255,
            max_gas_per_tx: 100000000,
            max_script_length: 1048576,
            max_script_data_length: 1048576,
            max_storage_slots: 255,
            max_predicate_length: 1048576,
            max_predicate_data_length: 1048576,
            gas_price_factor: 1000000000,
            gas_per_byte: 4,
            max_message_data_length: 1048576,
        }
    }
}

/// Which coin field a decode failure arose in.
#[derive(Clone, Copy, Debug, PartialEq, Eq, Structural)]
pub enum CoinField {
    TxId,
    OutputIndex,
    BlockCreated,
    Maturity,
    Owner,
    Amount,
    AssetId,
}

impl CoinField {
    /// The field's key in the document.
    pub fn name(&self) -> (r: &'static str)
        ensures
            r@ == self.spec_name(),
    {
        match self {
            CoinField::TxId => "tx_id",
            CoinField::OutputIndex => "output_index",
            CoinField::BlockCreated => "block_created",
            CoinField::Maturity => "maturity",
            CoinField::Owner => "owner",
            CoinField::Amount => "amount",
            CoinField::AssetId => "asset_id",
        }
    }

    pub open spec fn spec_name(&self) -> Seq<char> {
        match self {
            CoinField::TxId => "tx_id"@,
            CoinField::OutputIndex => "output_index"@,
            CoinField::BlockCreated => "block_created"@,
            CoinField::Maturity => "maturity"@,
            CoinField::Owner => "owner"@,
            CoinField::Amount => "amount"@,
            CoinField::AssetId => "asset_id"@,
        }
    }
}

/// A decode failure, attributed to the coin field it arose in.
#[derive(Clone, Copy, Debug, PartialEq, Eq, Structural)]
pub struct DecodeError {
    pub field: CoinField,
    pub error: CodecError,
}

/// A coin entry as read back from a document, each field still in its hex
/// text form; an absent key is an absent field.
pub struct RawCoinConfig {
    pub tx_id: Option<String>,
    pub output_index: Option<String>,
    pub block_created: Option<String>,
    pub maturity: Option<String>,
    pub owner: String,
    pub amount: String,
    pub asset_id: String,
}

pub struct RawCoinConfigV {
    pub tx_id: Option<Seq<char>>,
    pub output_index: Option<Seq<char>>,
    pub block_created: Option<Seq<char>>,
    pub maturity: Option<Seq<char>>,
    pub owner: Seq<char>,
    pub amount: Seq<char>,
    pub asset_id: Seq<char>,
}

pub open spec fn opt_chars_of(o: Option<String>) -> Option<Seq<char>> {
    match o {
        Option::Some(s) => Option::Some(s@),
        Option::None => Option::None,
    }
}

pub open spec fn opt_bytes_of(o: Option<Vec<u8>>) -> Option<Seq<u8>> {
    match o {
        Option::Some(b) => Option::Some(b@),
        Option::None => Option::None,
    }
}

impl View for RawCoinConfig {
    type V = RawCoinConfigV;

    open spec fn view(&self) -> RawCoinConfigV {
        RawCoinConfigV {
            tx_id: opt_chars_of(self.tx_id),
            output_index: opt_chars_of(self.output_index),
            block_created: opt_chars_of(self.block_created),
            maturity: opt_chars_of(self.maturity),
            owner: self.owner@,
            amount: self.amount@,
            asset_id: self.asset_id@,
        }
    }
}

/// Decoding an optional byte field: an absent field stays absent and is no
/// error.
pub open spec fn spec_decode_opt_bytes(o: Option<Seq<char>>, expected_len: nat) -> Result<
    Option<Seq<u8>>,
    CodecError,
> {
    match o {
        Option::None => Ok(Option::None),
        Option::Some(s) => match spec_decode_bytes(s, expected_len) {
            Ok(b) => Ok(Option::Some(b)),
            Err(e) => Err(e),
        },
    }
}

/// Decoding an optional numeric field at the eight-byte word width.
pub open spec fn spec_decode_opt_number(o: Option<Seq<char>>) -> Result<Option<u64>, CodecError> {
    match o {
        Option::None => Ok(Option::None),
        Option::Some(s) => match spec_decode_number(s, 8) {
            Ok(v) => Ok(Option::Some(v)),
            Err(e) => Err(e),
        },
    }
}

/// What decoding a whole raw coin entry yields: each field through the hex
/// codec, in field order, stopping at the first failure and naming its field;
/// there is no partial success.
pub open spec fn spec_decode_coin_config(
    raw: RawCoinConfigV,
    tx_id_len: nat,
    owner_len: nat,
    asset_id_len: nat,
) -> Result<CoinConfigV, DecodeError> {
    match spec_decode_opt_bytes(raw.tx_id, tx_id_len) {
        Err(e) => Err(DecodeError { field: CoinField::TxId, error: e }),
        Ok(tx_id) => match spec_decode_opt_number(raw.output_index) {
            Err(e) => Err(DecodeError { field: CoinField::OutputIndex, error: e }),
            Ok(output_index) => match spec_decode_opt_number(raw.block_created) {
                Err(e) => Err(DecodeError { field: CoinField::BlockCreated, error: e }),
                Ok(block_created) => match spec_decode_opt_number(raw.maturity) {
                    Err(e) => Err(DecodeError { field: CoinField::Maturity, error: e }),
                    Ok(maturity) => match spec_decode_bytes(raw.owner, owner_len) {
                        Err(e) => Err(DecodeError { field: CoinField::Owner, error: e }),
                        Ok(owner) => match spec_decode_number(raw.amount, 8) {
                            Err(e) => Err(DecodeError { field: CoinField::Amount, error: e }),
                            Ok(amount) => match spec_decode_bytes(raw.asset_id, asset_id_len) {
                                Err(e) => Err(
                                    DecodeError { field: CoinField::AssetId, error: e },
                                ),
                                Ok(asset_id) => Ok(
                                    CoinConfigV {
                                        tx_id,
                                        output_index,
                                        block_created,
                                        maturity,
                                        owner,
                                        amount,
                                        asset_id,
                                    },
                                ),
                            },
                        },
                    },
                },
            },
        },
    }
}

fn decode_opt_bytes(o: &Option<String>, expected_len: usize) -> (r: Result<
    Option<Vec<u8>>,
    CodecError,
>)
    ensures
        match r {
            Ok(v) => spec_decode_opt_bytes(opt_chars_of(*o), expected_len as nat) == Ok::<
                Option<Seq<u8>>,
                CodecError,
            >(opt_bytes_of(v)),
            Err(e) => spec_decode_opt_bytes(opt_chars_of(*o), expected_len as nat) == Err::<
                Option<Seq<u8>>,
                CodecError,
            >(e),
        },
{
    match o {
        None => Ok(None),
        Some(s) => match decode_bytes(s.as_str(), expected_len) {
            Ok(b) => Ok(Some(b)),
            Err(e) => Err(e),
        },
    }
}

fn decode_opt_number(o: &Option<String>) -> (r: Result<Option<u64>, CodecError>)
    ensures
        match r {
            Ok(v) => spec_decode_opt_number(opt_chars_of(*o)) == Ok::<Option<u64>, CodecError>(v),
            Err(e) => spec_decode_opt_number(opt_chars_of(*o)) == Err::<Option<u64>, CodecError>(
                e,
            ),
        },
{
    match o {
        None => Ok(None),
        Some(s) => match decode_number(s.as_str(), 8) {
            Ok(v) => Ok(Some(v)),
            Err(e) => Err(e),
        },
    }
}

/// Decodes a raw coin entry back into a coin record, with the fixed byte
/// lengths the three byte-valued fields must have; the first failing field,
/// in field order, names itself in the error.
pub fn decode_coin_config(
    raw: &RawCoinConfig,
    tx_id_len: usize,
    owner_len: usize,
    asset_id_len: usize,
) -> (r: Result<CoinConfig, DecodeError>)
    ensures
        match r {
            Ok(c) => spec_decode_coin_config(
                raw@,
                tx_id_len as nat,
                owner_len as nat,
                asset_id_len as nat,
            ) == Ok::<CoinConfigV, DecodeError>(c@),
            Err(e) => spec_decode_coin_config(
                raw@,
                tx_id_len as nat,
                owner_len as nat,
                asset_id_len as nat,
            ) == Err::<CoinConfigV, DecodeError>(e),
        },
{
    let tx_id = match decode_opt_bytes(&raw.tx_id, tx_id_len) {
        Ok(v) => v,
        Err(e) => {
            return Err(DecodeError { field: CoinField::TxId, error: e });
        },
    };
    let output_index = match decode_opt_number(&raw.output_index) {
        Ok(v) => v,
        Err(e) => {
            return Err(DecodeError { field: CoinField::OutputIndex, error: e });
        },
    };
    let block_created = match decode_opt_number(&raw.block_created) {
        Ok(v) => v,
        Err(e) => {
            return Err(DecodeError { field: CoinField::BlockCreated, error: e });
        },
    };
    let maturity = match decode_opt_number(&raw.maturity) {
        Ok(v) => v,
        Err(e) => {
            return Err(DecodeError { field: CoinField::Maturity, error: e });
        },
    };
    let owner = match decode_bytes(raw.owner.as_str(), owner_len) {
        Ok(v) => v,
        Err(e) => {
            return Err(DecodeError { field: CoinField::Owner, error: e });
        },
    };
    let amount = match decode_number(raw.amount.as_str(), 8) {
        Ok(v) => v,
        Err(e) => {
            return Err(DecodeError { field: CoinField::Amount, error: e });
        },
    };
    let asset_id = match decode_bytes(raw.asset_id.as_str(), asset_id_len) {
        Ok(v) => v,
        Err(e) => {
            return Err(DecodeError { field: CoinField::AssetId, error: e });
        },
    };
    Ok(CoinConfig { tx_id, output_index, block_created, maturity, owner, amount, asset_id })
}

} // verus!
