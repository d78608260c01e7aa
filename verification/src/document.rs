//! Assembly of the configuration document: every coin record rendered
//! through the hex codec, optional fields omitted when absent, the parameter
//! set re-emitted with its defaults, and a fixed set of top-level keys.
use vstd::prelude::*;

use crate::codec::be_bytes_of;
use crate::codec::encode_bytes;
use crate::codec::encode_number;
use crate::codec::hex_char_of;
use crate::codec::hex_char_str;
use crate::codec::hex_of;
use crate::codec::hex_prefix_chars;
use crate::codec::lemma_u64_fits_word;
use crate::records::Coin;
use crate::records::CoinConfig;
use crate::records::CoinConfigV;
use crate::records::ParameterSet;
use crate::records::UtxoId;
use crate::records::coin_config_of;
use crate::records::default_parameter_set;
use crate::records::spec_coin_config_of;

verus! {

/// The decimal rendering of a number, most significant digit first, no sign
/// and no leading zero except on zero itself.
pub open spec fn dec_chars_of(n: nat) -> Seq<char>
    decreases n,
{
    if n < 10 {
        seq![hex_char_of(n as u8)]
    } else {
        dec_chars_of(n / 10) + seq![hex_char_of((n % 10) as u8)]
    }
}

fn dec_str(n: u64) -> (r: String)
    ensures
        r@ == dec_chars_of(n as nat),
    decreases n,
{
    if n < 10 {
        let s = hex_char_str(n as u8);
        s.to_owned()
    } else {
        let mut s = dec_str(n / 10);
        s.append(hex_char_str((n % 10) as u8));
        s
    }
}

/// An optional byte-valued field of a coin entry: key, canonical hex text and
/// a trailing comma when present, nothing at all when absent.
pub open spec fn opt_hex_field_chars(key: Seq<char>, o: Option<Seq<u8>>) -> Seq<char> {
    match o {
        Option::Some(b) => key + hex_prefix_chars() + hex_of(b) + "\","@,
        Option::None => Seq::<char>::empty(),
    }
}

/// An optional numeric field of a coin entry, rendered at the eight-byte
/// word width when present, nothing at all when absent.
pub open spec fn opt_word_field_chars(key: Seq<char>, o: Option<u64>) -> Seq<char> {
    match o {
        Option::Some(v) => key + hex_prefix_chars() + hex_of(be_bytes_of(v as nat, 8)) + "\","@,
        Option::None => Seq::<char>::empty(),
    }
}

/// The rendering of one coin entry: fields in declaration order, optional
/// fields omitted entirely when absent, every value in canonical hex.
pub open spec fn coin_config_chars(c: CoinConfigV) -> Seq<char> {
    "{"@ + opt_hex_field_chars("\"tx_id\":\""@, c.tx_id) + opt_word_field_chars(
        "\"output_index\":\""@,
        c.output_index,
    ) + opt_word_field_chars("\"block_created\":\""@, c.block_created) + opt_word_field_chars(
        "\"maturity\":\""@,
        c.maturity,
    ) + "\"owner\":\""@ + hex_prefix_chars() + hex_of(c.owner) + "\","@ + "\"amount\":\""@
        + hex_prefix_chars() + hex_of(be_bytes_of(c.amount as nat, 8)) + "\","@
        + "\"asset_id\":\""@ + hex_prefix_chars() + hex_of(c.asset_id) + "\"}"@
}

/// Renders one coin entry of the document.
#[verifier::rlimit(50)]
pub fn render_coin_config(c: &CoinConfig) -> (r: String)
    ensures
        r@ == coin_config_chars(c@),
{
    let mut out = String::new();
    out.append("{");
    let ghost s1 = "{"@ + opt_hex_field_chars("\"tx_id\":\""@, c@.tx_id);
    match &c.tx_id {
        Some(b) => {
            out.append("\"tx_id\":\"");
            let h = encode_bytes(b);
            out.append(h.as_str());
            out.append("\",");
        },
        None => {},
    }
    proof {
        assert(out@ =~= s1);
    }
    let ghost s2 = s1 + opt_word_field_chars("\"output_index\":\""@, c@.output_index);
    match c.output_index {
        Some(v) => {
            out.append("\"output_index\":\"");
            proof {
                lemma_u64_fits_word(v);
            }
            let h = encode_number(v, 8);
            out.append(h.as_str());
            out.append("\",");
        },
        None => {},
    }
    proof {
        assert(out@ =~= s2);
    }
    let ghost s3 = s2 + opt_word_field_chars("\"block_created\":\""@, c@.block_created);
    match c.block_created {
        Some(v) => {
            out.append("\"block_created\":\"");
            proof {
                lemma_u64_fits_word(v);
            }
            let h = encode_number(v, 8);
            out.append(h.as_str());
            out.append("\",");
        },
        None => {},
    }
    proof {
        assert(out@ =~= s3);
    }
    let ghost s4 = s3 + opt_word_field_chars("\"maturity\":\""@, c@.maturity);
    match c.maturity {
        Some(v) => {
            out.append("\"maturity\":\"");
            proof {
                lemma_u64_fits_word(v);
            }
            let h = encode_number(v, 8);
            out.append(h.as_str());
            out.append("\",");
        },
        None => {},
    }
    proof {
        assert(out@ =~= s4);
    }
    out.append("\"owner\":\"");
    let h_owner = encode_bytes(&c.owner);
    out.append(h_owner.as_str());
    out.append("\",");
    let ghost s5 = s4 + "\"owner\":\""@ + hex_prefix_chars() + hex_of(c@.owner) + "\","@;
    proof {
        assert(out@ =~= s5);
    }
    out.append("\"amount\":\"");
    proof {
        lemma_u64_fits_word(c.amount);
    }
    let h_amount = encode_number(c.amount, 8);
    out.append(h_amount.as_str());
    out.append("\",");
    let ghost s6 = s5 + "\"amount\":\""@ + hex_prefix_chars() + hex_of(
        be_bytes_of(c@.amount as nat, 8),
    ) + "\","@;
    proof {
        assert(out@ =~= s6);
    }
    out.append("\"asset_id\":\"");
    let h_asset = encode_bytes(&c.asset_id);
    out.append(h_asset.as_str());
    out.append("\"}");
    proof {
        assert(out@ =~= s6 + "\"asset_id\":\""@ + hex_prefix_chars() + hex_of(c@.asset_id)
            + "\"}"@);
        assert(out@ =~= coin_config_chars(c@));
    }
    out
}

/// The views of a sequence of coin records.
pub open spec fn coin_views_of(s: Seq<CoinConfig>) -> Seq<CoinConfigV> {
    Seq::new(s.len(), |i: int| s[i]@)
}

/// The comma-separated coin entries, in input order.
pub open spec fn coins_items_chars(coins: Seq<CoinConfigV>) -> Seq<char>
    decreases coins.len(),
{
    if coins.len() == 0 {
        Seq::<char>::empty()
    } else if coins.len() == 1 {
        coin_config_chars(coins[0])
    } else {
        coins_items_chars(coins.drop_last()) + ","@ + coin_config_chars(coins.last())
    }
}

/// The coin array of the document, input order kept exactly.
pub open spec fn coins_array_chars(coins: Seq<CoinConfigV>) -> Seq<char> {
    "["@ + coins_items_chars(coins) + "]"@
}

/// Renders the coin array, keeping the input order.
pub fn render_coins_array(coins: &Vec<CoinConfig>) -> (r: String)
    ensures
        r@ == coins_array_chars(coin_views_of(coins@)),
{
    let ghost vs = coin_views_of(coins@);
    let mut out = String::new();
    out.append("[");
    let mut i: usize = 0;
    while i < coins.len()
        invariant
            i <= coins@.len(),
            vs == coin_views_of(coins@),
            vs.len() == coins@.len(),
            out@ == "["@ + coins_items_chars(vs.take(i as int)),
        decreases coins@.len() - i,
    {
        if i > 0 {
            out.append(",");
        }
        let item = render_coin_config(&coins[i]);
        out.append(item.as_str());
        i = i + 1;
        proof {
            let t = vs.take(i as int);
            assert(t.drop_last() =~= vs.take(i - 1));
            assert(t.last() == vs[i - 1]);
            assert(vs[i - 1] == coins@[i - 1]@);
            assert(out@ =~= "["@ + coins_items_chars(t));
        }
    }
    proof {
        assert(vs.take(vs.len() as int) =~= vs);
    }
    out.append("]");
    out
}

/// The rendering of the parameter set: every tuning value as a decimal
/// number under its own key, in declaration order.
pub open spec fn parameters_chars(p: ParameterSet) -> Seq<char> {
    "{\"contract_max_size\":"@ + dec_chars_of(p.contract_max_size as nat) + ",\"max_inputs\":"@
        + dec_chars_of(p.max_inputs as nat) + ",\"max_outputs\":"@ + dec_chars_of(
        p.max_outputs as nat,
    ) + ",\"max_witnesses\":"@ + dec_chars_of(p.max_witnesses as nat) + ",\"max_gas_per_tx\":"@
        + dec_chars_of(p.max_gas_per_tx as nat) + ",\"max_script_length\":"@ + dec_chars_of(
        p.max_script_length as nat,
    ) + ",\"max_script_data_length\":"@ + dec_chars_of(p.max_script_data_length as nat)
        + ",\"max_storage_slots\":"@ + dec_chars_of(p.max_storage_slots as nat)
        + ",\"max_predicate_length\":"@ + dec_chars_of(p.max_predicate_length as nat)
        + ",\"max_predicate_data_length\":"@ + dec_chars_of(p.max_predicate_data_length as nat)
        + ",\"gas_price_factor\":"@ + dec_chars_of(p.gas_price_factor as nat)
        + ",\"gas_per_byte\":"@ + dec_chars_of(p.gas_per_byte as nat)
        + ",\"max_message_data_length\":"@ + dec_chars_of(p.max_message_data_length as nat)
        + "}"@
}

/// Renders the parameter set.
pub fn render_parameter_set(p: &ParameterSet) -> (r: String)
    ensures
        r@ == parameters_chars(*p),
{
    let mut out = String::new();
    out.append("{\"contract_max_size\":");
    let d0 = dec_str(p.contract_max_size);
    out.append(d0.as_str());
    out.append(",\"max_inputs\":");
    let d1 = dec_str(p.max_inputs);
    out.append(d1.as_str());
    out.append(",\"max_outputs\":");
    let d2 = dec_str(p.max_outputs);
    out.append(d2.as_str());
    out.append(",\"max_witnesses\":");
    let d3 = dec_str(p.max_witnesses);
    out.append(d3.as_str());
    out.append(",\"max_gas_per_tx\":");
    let d4 = dec_str(p.max_gas_per_tx);
    out.append(d4.as_str());
    out.append(",\"max_script_length\":");
    let d5 = dec_str(p.max_script_length);
    out.append(d5.as_str());
    out.append(",\"max_script_data_length\":");
    let d6 = dec_str(p.max_script_data_length);
    out.append(d6.as_str());
    out.append(",\"max_storage_slots\":");
    let d7 = dec_str(p.max_storage_slots);
    out.append(d7.as_str());
    out.append(",\"max_predicate_length\":");
    let d8 = dec_str(p.max_predicate_length);
    out.append(d8.as_str());
    out.append(",\"max_predicate_data_length\":");
    let d9 = dec_str(p.max_predicate_data_length);
    out.append(d9.as_str());
    out.append(",\"gas_price_factor\":");
    let d10 = dec_str(p.gas_price_factor);
    out.append(d10.as_str());
    out.append(",\"gas_per_byte\":");
    let d11 = dec_str(p.gas_per_byte);
    out.append(d11.as_str());
    out.append(",\"max_message_data_length\":");
    let d12 = dec_str(p.max_message_data_length);
    out.append(d12.as_str());
    out.append("}");
    proof {
        assert(out@ =~= parameters_chars(*p));
    }
    out
}

/// The parameter set the document carries: the caller's, or the well-known
/// default when none was given.
pub open spec fn params_or_default(p: Option<ParameterSet>) -> ParameterSet {
    match p {
        Option::Some(x) => x,
        Option::None => default_parameter_set(),
    }
}

/// The whole document: a fixed set of top-level keys around the coin array
/// and the parameter set, and nothing else.
pub open spec fn document_chars(coins: Seq<CoinConfigV>, params: ParameterSet) -> Seq<char> {
    "{\"chain_name\":\"local_testnet\",\"block_production\":\"Instant\",\"parent_network\":{\"type\":\"LocalTest\"},\"initial_state\":{\"coins\":"@
        + coins_array_chars(coins) + "},\"transaction_parameters\":"@ + parameters_chars(params)
        + "}"@
}

/// Builds the configuration document from coin records and an optional
/// parameter set; total, deterministic, and input order is kept exactly.
pub fn build_document(coins: &Vec<CoinConfig>, parameters: Option<ParameterSet>) -> (r: String)
    ensures
        r@ == document_chars(coin_views_of(coins@), params_or_default(parameters)),
{
    let params = match parameters {
        Some(p) => p,
        None => ParameterSet::default(),
    };
    let mut out = String::new();
    out.append(
        "{\"chain_name\":\"local_testnet\",\"block_production\":\"Instant\",\"parent_network\":{\"type\":\"LocalTest\"},\"initial_state\":{\"coins\":",
    );
    let arr = render_coins_array(coins);
    out.append(arr.as_str());
    out.append("},\"transaction_parameters\":");
    let ps = render_parameter_set(&params);
    out.append(ps.as_str());
    out.append("}");
    proof {
        assert(out@ =~= document_chars(coin_views_of(coins@), params_or_default(parameters)));
    }
    out
}

/// The coin entries a sequence of identifier and coin pairs stands for.
pub open spec fn coin_views_of_pairs(s: Seq<(UtxoId, Coin)>) -> Seq<CoinConfigV> {
    Seq::new(s.len(), |i: int| spec_coin_config_of(s[i].0@, s[i].1@))
}

/// Builds the configuration document straight from identifier and coin
/// pairs: each pair becomes a coin entry with every transaction field set,
/// in input order, and the document is assembled around them.
pub fn get_node_config_json(
    coins: Vec<(UtxoId, Coin)>,
    consensus_parameters_config: Option<ParameterSet>,
) -> (r: String)
    ensures
        r@ == document_chars(coin_views_of_pairs(coins@), params_or_default(
            consensus_parameters_config,
        )),
{
    let ghost orig = coins@;
    let mut rest = coins;
    let mut configs: Vec<CoinConfig> = Vec::new();
    while rest.len() > 0
        invariant
            configs@.len() + rest@.len() == orig.len(),
            rest@ =~= orig.skip(configs@.len() as int),
            forall|j: int|
                0 <= j < configs@.len() ==> #[trigger] configs@[j]@ == spec_coin_config_of(
                    orig[j].0@,
                    orig[j].1@,
                ),
        decreases rest@.len(),
    {
        let (u, c) = rest.remove(0);
        configs.push(coin_config_of(u, c));
    }
    let r = build_document(&configs, consensus_parameters_config);
    proof {
        assert(coin_views_of(configs@) =~= coin_views_of_pairs(orig));
    }
    r
}

/// Omission: an absent optional byte-valued field contributes no characters
/// at all to the rendered entry — no key and no null value.
pub proof fn lemma_absent_bytes_field_omitted(key: Seq<char>, o: Option<Seq<u8>>)
    requires
        o is None,
    ensures
        opt_hex_field_chars(key, o) == Seq::<char>::empty(),
{
}

/// Omission: an absent optional numeric field contributes no characters at
/// all to the rendered entry — no key and no null value.
pub proof fn lemma_absent_word_field_omitted(key: Seq<char>, o: Option<u64>)
    requires
        o is None,
    ensures
        opt_word_field_chars(key, o) == Seq::<char>::empty(),
{
}

/// Determinism: the document text is a function of the coin record views and
/// the parameter set alone, so equal inputs give byte-identical text.
pub proof fn lemma_build_document_deterministic(
    coins1: Seq<CoinConfigV>,
    params1: ParameterSet,
    coins2: Seq<CoinConfigV>,
    params2: ParameterSet,
)
    requires
        coins1 == coins2,
        params1 == params2,
    ensures
        document_chars(coins1, params1) == document_chars(coins2, params2),
{
}

} // verus!
