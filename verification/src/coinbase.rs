//! The Coinbase market-feed connector's decision logic: the outbound
//! subscription message, recognition of the subscription acknowledgement,
//! and decoding of inbound frames into trades.
//!
//! Frames are JSON texts; serde_json parses them behind trusted wrappers,
//! and everything decided from the extracted fields — which tags are
//! ignored, what counts as a decode failure, which events are filtered —
//! is verified here. The caller owns the socket: it feeds frames in and
//! forwards the returned trades.

use vstd::prelude::*;
use vstd::string::StringExecFns;
use crate::decimal::{decimal_units, parse_decimal, parses_to_units};
use crate::trade::Trade;
use crate::trade_pair::TradePair;

verus! {

/// The string content of the field `key` of a JSON text, as serde_json
/// extracts it: `Some` exactly when the text parses as a JSON object whose
/// `key` field holds a string. A function of the text and key alone; what
/// it is on given values is observable only through [`decode_frame`] and
/// [`CoinbaseProvider::is_subscription_ack`].
pub uninterp spec fn json_str_field_of(frame: Seq<char>, key: Seq<char>) -> Option<Seq<char>>;

/// The value of the field `key` of a JSON text when it holds an unsigned
/// integer, as serde_json extracts it; `None` on an unparsable text, an
/// absent key or any other kind of value. A function of the text and key
/// alone.
pub uninterp spec fn json_u64_field_of(frame: Seq<char>, key: Seq<char>) -> Option<u64>;

/// Relies on serde_json: `from_str::<Value>`, `Value::get` and
/// `Value::as_str`. Their composition is deterministic in the frame text
/// and key (object fields parse into an ordered map, duplicate keys keep
/// the last value), so its result carries the name [`json_str_field_of`].
#[verifier::external_body]
fn extract_str_field(frame: &str, key: &str) -> (r: Option<String>)
    ensures
        r is Some <==> json_str_field_of(frame@, key@) is Some,
        r matches Some(s) ==> Some(s@) == json_str_field_of(frame@, key@),
{
    let v: serde_json::Value = serde_json::from_str(frame).ok()?;
    Some(v.get(key)?.as_str()?.to_owned())
}

/// Relies on serde_json: `from_str::<Value>`, `Value::get` and
/// `Value::as_u64`. Deterministic in the frame text and key, as above, so
/// its result carries the name [`json_u64_field_of`].
#[verifier::external_body]
fn extract_u64_field(frame: &str, key: &str) -> (r: Option<u64>)
    ensures
        r == json_u64_field_of(frame@, key@),
{
    let v: serde_json::Value = serde_json::from_str(frame).ok()?;
    v.get(key)?.as_u64()
}

/// Character-by-character string equality, so that frame tags can be
/// compared against the protocol's literals inside verified code.
fn str_eq(a: &str, b: &str) -> (r: bool)
    ensures
        r == (a@ == b@),
{
    let n = a.unicode_len();
    let m = b.unicode_len();
    if n != m {
        return false;
    }
    let mut i: usize = 0;
    while i < n
        invariant
            i <= n,
            n == a@.len() == b@.len(),
            forall|j: int| 0 <= j < i ==> a@[j] == b@[j],
        decreases n - i,
    {
        if a.get_char(i) != b.get_char(i) {
            return false;
        }
        i = i + 1;
    }
    proof {
        assert(a@ =~= b@);
    }
    true
}

/// What the connector does with one decoded inbound frame in steady state.
#[derive(Clone, Copy, Debug, PartialEq, Eq, Structural)]
pub enum FrameOutcome {
    /// A valid trade-execution event: forward this trade.
    Forward(Trade),
    /// Not a trade-execution frame: skipped silently, not an error.
    Ignored,
    /// Structurally malformed frame: dropped, the connection lives on.
    DecodeError,
    /// Execution event with zero price or zero quantity: skipped silently.
    Filtered,
}

/// The steady-state rule for one execution-event frame, given its type tag
/// and its price and size strings: a frame with another tag is ignored; an
/// unparsable price or size is a decode failure; a zero price or size is
/// filtered; anything else is a trade on `pair`.
pub open spec fn classify_spec(
    ttype: Seq<char>,
    price: Seq<char>,
    size: Seq<char>,
    pair: TradePair,
) -> FrameOutcome {
    if ttype != "match"@ {
        FrameOutcome::Ignored
    } else if !parses_to_units(price) || !parses_to_units(size) {
        FrameOutcome::DecodeError
    } else if decimal_units(price) == 0 || decimal_units(size) == 0 {
        FrameOutcome::Filtered
    } else {
        FrameOutcome::Forward(
            Trade {
                trade_pair: pair,
                price: decimal_units(price) as u64,
                quantity: decimal_units(size) as u64,
            },
        )
    }
}

/// Decide what to do with an execution event whose type tag, price string
/// and size string have been extracted from a frame.
pub fn classify_execution_event(ttype: &str, price: &str, size: &str, pair: &TradePair) -> (r:
    FrameOutcome)
    ensures
        r == classify_spec(ttype@, price@, size@, *pair),
        r matches FrameOutcome::Forward(t) ==> t.wf() && t.trade_pair == *pair,
{
    if !str_eq(ttype, "match") {
        return FrameOutcome::Ignored;
    }
    let p = match parse_decimal(price) {
        Some(p) => p,
        None => { return FrameOutcome::DecodeError },
    };
    let q = match parse_decimal(size) {
        Some(q) => q,
        None => { return FrameOutcome::DecodeError },
    };
    if p == 0 || q == 0 {
        return FrameOutcome::Filtered;
    }
    FrameOutcome::Forward(Trade::new(*pair, p, q))
}

/// A structurally complete execution-event frame: every field of the
/// message is present with its documented kind.
pub open spec fn match_frame_complete(frame: Seq<char>) -> bool {
    &&& json_u64_field_of(frame, "trade_id"@) is Some
    &&& json_u64_field_of(frame, "sequence"@) is Some
    &&& json_str_field_of(frame, "maker_order_id"@) is Some
    &&& json_str_field_of(frame, "taker_order_id"@) is Some
    &&& json_str_field_of(frame, "side"@) is Some
    &&& json_str_field_of(frame, "product_id"@) is Some
    &&& json_str_field_of(frame, "time"@) is Some
    &&& json_str_field_of(frame, "price"@) is Some
    &&& json_str_field_of(frame, "size"@) is Some
}

/// What one steady-state frame text decodes to: no readable type tag is a
/// per-frame decode failure; another tag is ignored; a structurally
/// incomplete execution event is a decode failure; a complete one falls to
/// the field-level rule [`classify_spec`].
pub open spec fn decode_spec(frame: Seq<char>, pair: TradePair) -> FrameOutcome {
    match json_str_field_of(frame, "type"@) {
        None => FrameOutcome::DecodeError,
        Some(tag) => if tag != "match"@ {
            FrameOutcome::Ignored
        } else if !match_frame_complete(frame) {
            FrameOutcome::DecodeError
        } else {
            classify_spec(
                tag,
                json_str_field_of(frame, "price"@)->0,
                json_str_field_of(frame, "size"@)->0,
                pair,
            )
        },
    }
}

/// The trades a sequence of frame outcomes forwards, in frame order.
pub open spec fn forwarded_trades(outcomes: Seq<FrameOutcome>) -> Seq<Trade>
    decreases outcomes.len(),
{
    if outcomes.len() == 0 {
        Seq::empty()
    } else {
        let rest = forwarded_trades(outcomes.drop_last());
        match outcomes.last() {
            FrameOutcome::Forward(t) => rest.push(t),
            _ => rest,
        }
    }
}

/// Frames that all forward a trade forward one trade each.
proof fn lemma_all_forward_count(outcomes: Seq<FrameOutcome>)
    requires
        forall|i: int| 0 <= i < outcomes.len() ==> outcomes[i] is Forward,
    ensures
        forwarded_trades(outcomes).len() == outcomes.len(),
    decreases outcomes.len(),
{
    if outcomes.len() > 0 {
        lemma_all_forward_count(outcomes.drop_last());
    }
}

/// Law: a decoded execution event with zero price or zero quantity is
/// filtered: it never becomes a trade, so it can never enter a window nor
/// yield a reading.
pub proof fn lemma_zero_price_or_quantity_filtered(
    ttype: Seq<char>,
    price: Seq<char>,
    size: Seq<char>,
    pair: TradePair,
)
    requires
        ttype == "match"@,
        parses_to_units(price),
        parses_to_units(size),
        decimal_units(price) == 0 || decimal_units(size) == 0,
    ensures
        classify_spec(ttype, price, size, pair) == FrameOutcome::Filtered,
{
}

/// Law: every trade the steady-state rule forwards is well formed — a
/// positive, bounded price and quantity — and belongs to the subscribed
/// pair; anything else never reaches the aggregator as a trade.
pub proof fn lemma_forwarded_trades_well_formed(
    ttype: Seq<char>,
    price: Seq<char>,
    size: Seq<char>,
    pair: TradePair,
)
    ensures
        classify_spec(ttype, price, size, pair) matches FrameOutcome::Forward(t) ==> t.wf()
            && t.trade_pair == pair,
{
    if classify_spec(ttype, price, size, pair) is Forward {
        crate::decimal::lemma_decimal_units_nonneg(price);
        crate::decimal::lemma_decimal_units_nonneg(size);
    }
}

/// Law: one corrupt frame among `N` decoded frames costs exactly that one
/// trade — the other `N - 1` are all forwarded, so decoding continues past
/// the corrupt frame.
pub proof fn lemma_one_corrupt_frame(outcomes: Seq<FrameOutcome>, j: int)
    requires
        0 <= j < outcomes.len(),
        outcomes[j] is DecodeError,
        forall|i: int| 0 <= i < outcomes.len() && i != j ==> outcomes[i] is Forward,
    ensures
        forwarded_trades(outcomes).len() == outcomes.len() - 1,
    decreases outcomes.len(),
{
    if j == outcomes.len() - 1 {
        lemma_all_forward_count(outcomes.drop_last());
    } else {
        lemma_one_corrupt_frame(outcomes.drop_last(), j);
    }
}

/// The Coinbase trade-feed capability: builds the subscription handshake
/// and decodes inbound frames for one pair.
pub struct CoinbaseProvider {}

/// The outbound subscription request for a pair's trade-execution topic:
/// its canonical `"BASE-QUOTE"` string stands verbatim as the product
/// identifier.
pub open spec fn subscribe_message_spec(pair: TradePair) -> Seq<char> {
    "{\"type\":\"subscribe\",\"product_ids\":[\""@ + pair.canonical_spec()
        + "\"],\"channels\":[\"matches\"]}"@
}

/// Law: the canonical pair string is used verbatim as the product
/// identifier of the outbound subscription message — it is the segment of
/// the message right after the 36-character request prefix.
pub proof fn lemma_subscribe_uses_canonical_pair(pair: TradePair)
    ensures
        subscribe_message_spec(pair).subrange(
            36,
            36 + pair.canonical_spec().len() as int,
        ) =~= pair.canonical_spec(),
{
    reveal_strlit("{\"type\":\"subscribe\",\"product_ids\":[\"");
    assert(("{\"type\":\"subscribe\",\"product_ids\":[\"")@.len() == 36);
}

impl CoinbaseProvider {
    pub fn new() -> (r: CoinbaseProvider) {
        CoinbaseProvider {}
    }

    /// The subscribe request to send for `pair` when the stream opens.
    pub fn subscribe_message(&self, pair: &TradePair) -> (r: String)
        ensures
            r@ == subscribe_message_spec(*pair),
    {
        let mut s = String::new();
        s.append("{\"type\":\"subscribe\",\"product_ids\":[\"");
        let canonical = pair.to_string();
        s.append(canonical.as_str());
        s.append("\"],\"channels\":[\"matches\"]}");
        s
    }

    /// Whether a handshake frame is the subscription acknowledgement: a
    /// JSON object whose type tag is exactly the acknowledgement tag. Any
    /// other frame is handshake noise to be discarded, never an error.
    pub fn is_subscription_ack(&self, frame: &str) -> (r: bool)
        ensures
            r == (json_str_field_of(frame@, "type"@) == Some("subscriptions"@)),
    {
        match extract_str_field(frame, "type") {
            Some(t) => is_ack_tag(t.as_str()),
            None => false,
        }
    }

    /// Decode one steady-state frame: drop structurally malformed frames
    /// as per-frame decode failures, ignore frames with another type tag,
    /// filter zero-price and zero-quantity events, and forward the rest as
    /// trades on `pair` — exactly [`decode_spec`] of the frame text.
    pub fn decode_frame(&self, frame: &str, pair: &TradePair) -> (r: FrameOutcome)
        ensures
            r == decode_spec(frame@, *pair),
            r matches FrameOutcome::Forward(t) ==> t.wf() && t.trade_pair == *pair,
    {
        let ttype = match extract_str_field(frame, "type") {
            Some(t) => t,
            None => { return FrameOutcome::DecodeError },
        };
        if !str_eq(ttype.as_str(), "match") {
            return FrameOutcome::Ignored;
        }
        // The execution-event message is rejected as malformed unless all
        // its fields are present with their documented kinds.
        if extract_u64_field(frame, "trade_id").is_none()
            || extract_u64_field(frame, "sequence").is_none() {
            return FrameOutcome::DecodeError;
        }
        if extract_str_field(frame, "maker_order_id").is_none()
            || extract_str_field(frame, "taker_order_id").is_none()
            || extract_str_field(frame, "side").is_none()
            || extract_str_field(frame, "product_id").is_none()
            || extract_str_field(frame, "time").is_none() {
            return FrameOutcome::DecodeError;
        }
        let price = match extract_str_field(frame, "price") {
            Some(p) => p,
            None => { return FrameOutcome::DecodeError },
        };
        let size = match extract_str_field(frame, "size") {
            Some(sz) => sz,
            None => { return FrameOutcome::DecodeError },
        };
        classify_execution_event(ttype.as_str(), price.as_str(), size.as_str(), pair)
    }
}

/// True exactly for the protocol's subscription-acknowledgement tag.
pub fn is_ack_tag(ttype: &str) -> (r: bool)
    ensures
        r == (ttype@ == "subscriptions"@),
{
    str_eq(ttype, "subscriptions")
}

} // verus!
