//! Domain values and the converters that build them from decoded JSON.
//!
//! Every wire payload of the exchange is positional or loosely typed; each
//! converter here turns one decoded `JsonValue` shape into a validated
//! domain value, or reports exactly which field could not be read. No raw
//! positional value passes beyond this module.

use vstd::prelude::*;
use vstd::string::StringExecFns;

use crate::base::{Side, Target};
use crate::coin::{Coin, Coins};
use crate::decimal::{
    parse_decimal, spec_dec_str, spec_parse_decimal, spec_text_i32, spec_text_u32, text_to_i32,
    text_to_u32, Decimal,
};
use crate::json::{json_of, lookup, parse_json, spec_lookup, JsonValue};
use crate::text::{append_escaped, i64_to_string, spec_escape, spec_int_digits};

verus! {

/// One raw balance record: the account type, the ticker, the full amount, an
/// unused slot, and the available amount, in that wire order.
pub type CurrencyEntries = (String, String, Decimal, Option<String>, Decimal);

/// The raw balance payload: one record per currency.
pub type Currencies = Vec<CurrencyEntries>;

/// A validated balance: the coin, the full amount, and the available part
/// of it.
#[derive(Clone, Debug, PartialEq)]
pub struct Currency {
    pub coin: Coin,
    pub full: Decimal,
    pub available: Decimal,
}

impl Currency {
    /// Position of the ticker in a raw balance record.
    pub const COIN: usize = 1;

    /// Position of the full amount in a raw balance record.
    pub const FULL: usize = 2;

    /// Position of the available amount in a raw balance record.
    pub const AVAILABLE: usize = 4;

    /// The balance a raw record denotes: the ticker parsed as a coin, the
    /// two amounts taken as they are. The record's other fields — including
    /// the account-type discriminator in front — are deliberately not
    /// validated.
    pub open spec fn spec_from(entries: CurrencyEntries) -> Option<Currency> {
        Some(
            Currency {
                coin: Coin::spec_of_string(entries.1),
                full: entries.2,
                available: entries.4,
            },
        )
    }

    /// Reads a raw balance record. Never fails: an unknown ticker becomes
    /// an `Unknown` coin.
    pub fn from(entries: &CurrencyEntries) -> (r: Option<Currency>)
        ensures
            r == Currency::spec_from(*entries),
    {
        Some(
            Currency {
                coin: Coin::of_string(entries.1.clone()),
                full: entries.2,
                available: entries.4,
            },
        )
    }

    /// The raw record this balance came from, with the fixed account type
    /// and an empty unused slot.
    pub fn to_entries(&self) -> (r: CurrencyEntries)
        ensures
            r.0@ == "exchange"@,
            r.1@ == self.coin.spec_symbol(),
            r.2 == self.full,
            r.3 is None,
            r.4 == self.available,
    {
        (
            String::from_str("exchange"),
            self.coin.symbol(),
            self.full,
            None,
            self.available,
        )
    }
}

/// One raw order-book level: price, signed size (the sign encodes the
/// side), and how many orders stand at that price.
pub type OrderBookEntry = (Decimal, Decimal, u32);

/// The raw order-book payload.
pub type OrderBookEntries = Vec<OrderBookEntry>;

/// One validated order-book level: price, absolute size, order count.
#[derive(Clone, Copy, Debug, PartialEq, Eq, Structural)]
pub struct OrderBookItem {
    pub price: Decimal,
    pub amount: Decimal,
    pub orders_number: u32,
}

impl OrderBookItem {
    /// The level a raw triple denotes: the size loses its sign, which only
    /// discriminated the side.
    pub open spec fn spec_from(entry: OrderBookEntry) -> OrderBookItem {
        OrderBookItem { price: entry.0, amount: entry.1.spec_abs(), orders_number: entry.2 }
    }

    /// Reads one raw order-book triple.
    pub fn from(entry: OrderBookEntry) -> (r: OrderBookItem)
        ensures
            r == OrderBookItem::spec_from(entry),
    {
        OrderBookItem { price: entry.0, amount: entry.1.abs(), orders_number: entry.2 }
    }
}

/// The bid levels of a raw payload: the entries with strictly positive
/// size, in their wire order, each stripped of its sign.
pub open spec fn spec_bids(entries: Seq<OrderBookEntry>) -> Seq<OrderBookItem>
    decreases entries.len(),
{
    if entries.len() == 0 {
        Seq::<OrderBookItem>::empty()
    } else {
        let rest = spec_bids(entries.drop_last());
        if entries.last().1.spec_is_strictly_pos() {
            rest.push(OrderBookItem::spec_from(entries.last()))
        } else {
            rest
        }
    }
}

/// The ask levels of a raw payload: the entries whose size is zero or
/// negative, in their wire order, each stripped of its sign.
pub open spec fn spec_asks(entries: Seq<OrderBookEntry>) -> Seq<OrderBookItem>
    decreases entries.len(),
{
    if entries.len() == 0 {
        Seq::<OrderBookItem>::empty()
    } else {
        let rest = spec_asks(entries.drop_last());
        if entries.last().1.spec_is_strictly_pos() {
            rest
        } else {
            rest.push(OrderBookItem::spec_from(entries.last()))
        }
    }
}

/// An order book: the pair, and the bid and ask levels in wire order.
#[derive(Clone, Debug, PartialEq)]
pub struct OrderBook {
    pub coins: Coins,
    pub bids: Vec<OrderBookItem>,
    pub asks: Vec<OrderBookItem>,
}

impl OrderBook {
    /// Partitions a raw payload into bids and asks by the sign of each
    /// entry's size, in one pass, keeping the wire order within each side.
    /// The size is stored as its absolute value: the sign only named the
    /// side, never a negative quantity.
    #[verifier::loop_isolation(false)]
    pub fn with(coins: Coins, raw_order_book: OrderBookEntries) -> (r: OrderBook)
        ensures
            r.coins == coins,
            r.bids@ == spec_bids(raw_order_book@),
            r.asks@ == spec_asks(raw_order_book@),
    {
        let ghost all = raw_order_book@;
        let mut bids: Vec<OrderBookItem> = Vec::new();
        let mut asks: Vec<OrderBookItem> = Vec::new();
        let n = raw_order_book.len();
        let mut i: usize = 0;
        proof {
            assert(all.take(0) =~= Seq::<OrderBookEntry>::empty());
        }
        while i < n
            invariant
                i <= n,
                bids@ == spec_bids(all.take(i as int)),
                asks@ == spec_asks(all.take(i as int)),
            decreases n - i,
        {
            let entry = raw_order_book[i];
            proof {
                assert(all.take(i + 1).drop_last() =~= all.take(i as int));
                assert(all.take(i + 1).last() == entry);
            }
            if entry.1.is_strictly_pos() {
                bids.push(OrderBookItem::from(entry));
            } else {
                asks.push(OrderBookItem::from(entry));
            }
            i += 1;
        }
        proof {
            assert(all.take(n as int) =~= all);
        }
        OrderBook { coins, bids, asks }
    }
}

/// An outbound order: the pair symbol, the signed amount (the sign encodes
/// the side), the price, and the order type word.
#[derive(Clone, Debug, PartialEq)]
pub struct CreateOrder {
    pub symbol: String,
    pub amount: Decimal,
    pub price: Decimal,
    pub order_type: String,
}

impl CreateOrder {
    /// Builds an outbound order: the pair's canonical symbol, the amount
    /// negated for a sell, and the target's wire word.
    pub fn new(coins: Coins, side: Side, target: Target, amount: Decimal, price: Decimal) -> (r:
        CreateOrder)
        ensures
            r.symbol@ == coins.spec_symbol(),
            r.amount == match side {
                Side::Buy => amount,
                Side::Sell => amount.spec_negate(),
            },
            r.price == price,
            r.order_type@ == target.spec_wire(),
    {
        CreateOrder {
            symbol: coins.symbol(),
            amount: match side {
                Side::Buy => amount,
                Side::Sell => amount.negate(),
            },
            price,
            order_type: String::from_str(target.wire()),
        }
    }
}

/// The JSON body an outbound order is sent as: the symbol and order type
/// as escaped JSON strings, the signed amount and the price as JSON
/// numbers, in the wire's field order.
pub open spec fn spec_create_order_json(o: CreateOrder) -> Seq<char> {
    "{\"symbol\":\""@ + spec_escape(o.symbol@) + "\",\"amount\":"@ + spec_dec_str(o.amount)
        + ",\"price\":"@ + spec_dec_str(o.price) + ",\"type\":\""@ + spec_escape(o.order_type@)
        + "\"}"@
}

impl CreateOrder {
    /// Renders the order as its JSON wire body.
    pub fn wire_json(&self) -> (r: String)
        ensures
            r@ == spec_create_order_json(*self),
    {
        let mut out = String::from_str("{\"symbol\":\"");
        append_escaped(&mut out, self.symbol.as_str());
        out.append("\",\"amount\":");
        let amount = self.amount.to_wire();
        out.append(amount.as_str());
        out.append(",\"price\":");
        let price = self.price.to_wire();
        out.append(price.as_str());
        out.append(",\"type\":\"");
        append_escaped(&mut out, self.order_type.as_str());
        out.append("\"}");
        proof {
            assert(out@ =~= spec_create_order_json(*self));
        }
        out
    }
}

/// The two encodings of a side agree. A side is written outward as the sign
/// of an order's amount, and read inward from the sign of an acknowledged
/// amount: for any strictly positive amount, the sign that `CreateOrder::new`
/// gives the amount denotes exactly the side the order was built with, as
/// the acknowledgement converter reads it.
pub proof fn lemma_side_sign_consistent(side: Side, amount: Decimal)
    requires
        amount.spec_is_strictly_pos(),
    ensures
        ({
            let signed = match side {
                Side::Buy => amount,
                Side::Sell => amount.spec_negate(),
            };
            (if signed.spec_is_strictly_neg() {
                Side::Sell
            } else {
                Side::Buy
            }) == side
        }),
{
}

/// Why an order acknowledgement could not be read: the payload was not the
/// expected JSON shape, or one named field could not be coerced.
#[derive(Clone, Copy, Debug, PartialEq, Eq, Structural)]
pub enum CreateOrderError {
    /// The pair field is not a supported pair symbol.
    InvalidCoins,
    /// An amount arrived as a string that is not a decimal literal.
    InvalidAmount,
    /// The target field is not a known order-type word.
    InvalidTarget,
    /// The payload is not well-formed JSON of the expected shape.
    InvalidJson,
}

/// The raw order acknowledgement: a positional array of JSON values.
pub type CreateOrderResponseRaw = Vec<JsonValue>;

/// A validated order acknowledgement. The side is derived from the sign of
/// the initial amount, never read from the wire.
#[derive(Clone, Copy, Debug, PartialEq, Eq, Structural)]
pub struct CreateOrderResponse {
    pub id: i32,
    pub coins: Coins,
    pub side: Side,
    pub target: Target,
    pub initial_amount: Decimal,
    pub executed_amount: Decimal,
}

/// The owned reading of a borrowed optional JSON value.
pub open spec fn spec_deref(v: Option<&JsonValue>) -> Option<JsonValue> {
    match v {
        Some(x) => Some(*x),
        None => None,
    }
}

/// The order id a JSON value holds: it must be a JSON integer in `i32`
/// range.
pub open spec fn spec_json_id(v: Option<JsonValue>) -> Result<i32, CreateOrderError> {
    match v {
        Some(JsonValue::Num(t)) => match spec_text_i32(t@) {
            Some(id) => Ok(id),
            None => Err(CreateOrderError::InvalidJson),
        },
        _ => Err(CreateOrderError::InvalidJson),
    }
}

/// The amount a JSON value holds: either a JSON number, or a JSON string
/// carrying a decimal literal. A malformed string is an amount error; any
/// other shape is a payload error.
pub open spec fn spec_json_amount(v: Option<JsonValue>) -> Result<Decimal, CreateOrderError> {
    match v {
        Some(JsonValue::Str(s)) => match spec_parse_decimal(s@) {
            Some(d) => Ok(d),
            None => Err(CreateOrderError::InvalidAmount),
        },
        Some(JsonValue::Num(t)) => match spec_parse_decimal(t@) {
            Some(d) => Ok(d),
            None => Err(CreateOrderError::InvalidJson),
        },
        _ => Err(CreateOrderError::InvalidJson),
    }
}

/// The pair a JSON value holds: a JSON string naming a supported pair.
pub open spec fn spec_json_coins(v: Option<JsonValue>) -> Result<Coins, CreateOrderError> {
    match v {
        Some(JsonValue::Str(s)) => match Coins::spec_parse(s@) {
            Some(pair) => Ok(pair),
            None => Err(CreateOrderError::InvalidCoins),
        },
        _ => Err(CreateOrderError::InvalidJson),
    }
}

/// The order type a JSON value holds: a JSON string naming a target, in
/// any casing.
pub open spec fn spec_json_target(v: Option<JsonValue>) -> Result<Target, CreateOrderError> {
    match v {
        Some(JsonValue::Str(s)) => match Target::spec_parse(s@) {
            Some(target) => Ok(target),
            None => Err(CreateOrderError::InvalidTarget),
        },
        _ => Err(CreateOrderError::InvalidJson),
    }
}

/// Reads an order id field.
fn json_to_id(v: Option<&JsonValue>) -> (r: Result<i32, CreateOrderError>)
    ensures
        r == spec_json_id(spec_deref(v)),
{
    match v {
        Some(JsonValue::Num(t)) => match text_to_i32(t.as_str()) {
            Some(id) => Ok(id),
            None => Err(CreateOrderError::InvalidJson),
        },
        _ => Err(CreateOrderError::InvalidJson),
    }
}

/// Reads an amount field.
fn json_to_amount(v: Option<&JsonValue>) -> (r: Result<Decimal, CreateOrderError>)
    ensures
        r == spec_json_amount(spec_deref(v)),
{
    match v {
        Some(JsonValue::Str(s)) => match parse_decimal(s.as_str()) {
            Some(d) => Ok(d),
            None => Err(CreateOrderError::InvalidAmount),
        },
        Some(JsonValue::Num(t)) => match parse_decimal(t.as_str()) {
            Some(d) => Ok(d),
            None => Err(CreateOrderError::InvalidJson),
        },
        _ => Err(CreateOrderError::InvalidJson),
    }
}

/// Reads a pair field.
fn json_to_coins(v: Option<&JsonValue>) -> (r: Result<Coins, CreateOrderError>)
    ensures
        r == spec_json_coins(spec_deref(v)),
{
    match v {
        Some(JsonValue::Str(s)) => match Coins::parse(s.as_str()) {
            Ok(pair) => Ok(pair),
            Err(_) => Err(CreateOrderError::InvalidCoins),
        },
        _ => Err(CreateOrderError::InvalidJson),
    }
}

/// Reads an order-type field.
fn json_to_target(v: Option<&JsonValue>) -> (r: Result<Target, CreateOrderError>)
    ensures
        r == spec_json_target(spec_deref(v)),
{
    match v {
        Some(JsonValue::Str(s)) => match Target::parse(s.as_str()) {
            Ok(target) => Ok(target),
            Err(_) => Err(CreateOrderError::InvalidTarget),
        },
        _ => Err(CreateOrderError::InvalidJson),
    }
}

/// The acknowledgement a raw positional array denotes. Fewer than 17
/// elements is a payload error; the consumed positions are the id at 0, the
/// pair at 3, the initial and executed amounts at 6 and 7, and the target
/// at 8. The amounts are read first, then id, pair and target, so the first
/// unreadable field in that order names the error.
pub open spec fn spec_create_order_response(raw: Seq<JsonValue>) -> Result<
    CreateOrderResponse,
    CreateOrderError,
> {
    if raw.len() < 17 {
        Err(CreateOrderError::InvalidJson)
    } else {
        match spec_json_amount(Some(raw[6])) {
            Err(e) => Err(e),
            Ok(initial_amount) => match spec_json_amount(Some(raw[7])) {
                Err(e) => Err(e),
                Ok(executed_amount) => match spec_json_id(Some(raw[0])) {
                    Err(e) => Err(e),
                    Ok(id) => match spec_json_coins(Some(raw[3])) {
                        Err(e) => Err(e),
                        Ok(coins) => match spec_json_target(Some(raw[8])) {
                            Err(e) => Err(e),
                            Ok(target) => Ok(
                                CreateOrderResponse {
                                    id,
                                    coins,
                                    side: if initial_amount.spec_is_strictly_neg() {
                                        Side::Sell
                                    } else {
                                        Side::Buy
                                    },
                                    target,
                                    initial_amount,
                                    executed_amount,
                                },
                            ),
                        },
                    },
                },
            },
        }
    }
}

impl CreateOrderResponse {
    /// Reads a raw order acknowledgement. An array shorter than 17
    /// elements, or any field that cannot be coerced, fails with the
    /// variant naming that field — never a partial record. A negative
    /// initial amount makes the side `Sell`, anything else `Buy`.
    pub fn try_from(raw: &CreateOrderResponseRaw) -> (r: Result<
        CreateOrderResponse,
        CreateOrderError,
    >)
        ensures
            r == spec_create_order_response(raw@),
    {
        if raw.len() < 17 {
            return Err(CreateOrderError::InvalidJson);
        }
        let initial_amount = match json_to_amount(Some(&raw[6])) {
            Ok(d) => d,
            Err(e) => {
                return Err(e);
            },
        };
        let executed_amount = match json_to_amount(Some(&raw[7])) {
            Ok(d) => d,
            Err(e) => {
                return Err(e);
            },
        };
        let id = match json_to_id(Some(&raw[0])) {
            Ok(id) => id,
            Err(e) => {
                return Err(e);
            },
        };
        let coins = match json_to_coins(Some(&raw[3])) {
            Ok(pair) => pair,
            Err(e) => {
                return Err(e);
            },
        };
        let target = match json_to_target(Some(&raw[8])) {
            Ok(target) => target,
            Err(e) => {
                return Err(e);
            },
        };
        Ok(
            CreateOrderResponse {
                id,
                coins,
                side: if initial_amount.is_strictly_neg() {
                    Side::Sell
                } else {
                    Side::Buy
                },
                target,
                initial_amount,
                executed_amount,
            },
        )
    }
}

/// A request to cancel one order by its id. Constructed, never parsed.
#[derive(Clone, Copy, Debug, PartialEq, Eq, Structural)]
pub struct CancelOrderRequest {
    pub order_id: i32,
}

/// The JSON body a cancellation request is sent as.
pub open spec fn spec_cancel_order_json(r: CancelOrderRequest) -> Seq<char> {
    "{\"order_id\":"@ + spec_int_digits(r.order_id as int) + "}"@
}

impl CancelOrderRequest {
    /// Renders the cancellation request as its JSON wire body.
    pub fn wire_json(&self) -> (r: String)
        ensures
            r@ == spec_cancel_order_json(*self),
    {
        let mut out = String::from_str("{\"order_id\":");
        let id = i64_to_string(self.order_id as i64);
        out.append(id.as_str());
        out.append("}");
        proof {
            assert(out@ =~= spec_cancel_order_json(*self));
        }
        out
    }
}

/// The raw cancellation acknowledgement, exactly as the wire carries it:
/// every numeric field but the id and timestamp arrives as a string, and
/// the flag fields may be absent.
#[derive(Clone, Debug, PartialEq)]
pub struct CanceledOrderResponse {
    pub id: i32,
    pub side: String,
    pub order_type: String,
    pub price: String,
    pub avg_execution_price: String,
    pub state: String,
    pub symbol: String,
    pub timestamp: i32,
    pub original_amount: String,
    pub remaining_amount: String,
    pub executed_amount: String,
    pub is_cancelled: Option<String>,
    pub is_hidden: Option<String>,
    pub is_live: Option<String>,
    pub was_forced: Option<String>,
    pub exchange: Option<String>,
}

/// The string under `key` in an object's field list, if it is bound to a
/// JSON string.
pub open spec fn spec_field_string(fields: Seq<(String, JsonValue)>, key: Seq<char>) -> Option<
    String,
> {
    match spec_lookup(fields, key) {
        Some(JsonValue::Str(s)) => Some(s),
        _ => None,
    }
}

/// The `i32` under `key` in an object's field list, if it is bound to a
/// JSON integer in range.
pub open spec fn spec_field_i32(fields: Seq<(String, JsonValue)>, key: Seq<char>) -> Option<i32> {
    match spec_lookup(fields, key) {
        Some(JsonValue::Num(t)) => spec_text_i32(t@),
        _ => None,
    }
}

/// The optional string under `key`: an absent or null binding reads as
/// nothing, a string binding as itself, anything else as unreadable.
pub open spec fn spec_field_opt_string(fields: Seq<(String, JsonValue)>, key: Seq<char>) -> Option<
    Option<String>,
> {
    match spec_lookup(fields, key) {
        Some(JsonValue::Str(s)) => Some(Some(s)),
        Some(JsonValue::Null) => Some(None),
        Some(_) => None,
        None => Some(None),
    }
}

/// Reads a mandatory string field.
fn field_string(fields: &Vec<(String, JsonValue)>, key: &str) -> (r: Option<String>)
    ensures
        r == spec_field_string(fields@, key@),
{
    match lookup(fields, key) {
        Some(JsonValue::Str(s)) => Some(s.clone()),
        _ => None,
    }
}

/// Reads a mandatory integer field.
fn field_i32(fields: &Vec<(String, JsonValue)>, key: &str) -> (r: Option<i32>)
    ensures
        r == spec_field_i32(fields@, key@),
{
    match lookup(fields, key) {
        Some(JsonValue::Num(t)) => text_to_i32(t.as_str()),
        _ => None,
    }
}

/// Reads an optional string field.
fn field_opt_string(fields: &Vec<(String, JsonValue)>, key: &str) -> (r: Option<Option<String>>)
    ensures
        r == spec_field_opt_string(fields@, key@),
{
    match lookup(fields, key) {
        Some(JsonValue::Str(s)) => Some(Some(s.clone())),
        Some(JsonValue::Null) => Some(None),
        Some(_) => None,
        None => Some(None),
    }
}

/// The raw cancellation acknowledgement a JSON document denotes: an object
/// whose named fields all read as their expected shapes; any unreadable
/// field makes the whole record unreadable. Unknown fields are ignored.
pub open spec fn spec_canceled_order_response(v: JsonValue) -> Option<CanceledOrderResponse> {
    match v {
        JsonValue::Obj(fields) => {
            let f = fields@;
            if spec_field_i32(f, "id"@) is Some && spec_field_string(f, "side"@) is Some
                && spec_field_string(f, "type"@) is Some && spec_field_string(f, "price"@) is Some
                && spec_field_string(f, "avg_execution_price"@) is Some && spec_field_string(
                f,
                "state"@,
            ) is Some && spec_field_string(f, "symbol"@) is Some && spec_field_i32(
                f,
                "timestamp"@,
            ) is Some && spec_field_string(f, "original_amount"@) is Some && spec_field_string(
                f,
                "remaining_amount"@,
            ) is Some && spec_field_string(f, "executed_amount"@) is Some && spec_field_opt_string(
                f,
                "is_cancelled"@,
            ) is Some && spec_field_opt_string(f, "is_hidden"@) is Some && spec_field_opt_string(
                f,
                "is_live"@,
            ) is Some && spec_field_opt_string(f, "was_forced"@) is Some && spec_field_opt_string(
                f,
                "exchange"@,
            ) is Some {
                Some(
                    CanceledOrderResponse {
                        id: spec_field_i32(f, "id"@).unwrap(),
                        side: spec_field_string(f, "side"@).unwrap(),
                        order_type: spec_field_string(f, "type"@).unwrap(),
                        price: spec_field_string(f, "price"@).unwrap(),
                        avg_execution_price: spec_field_string(f, "avg_execution_price"@).unwrap(),
                        state: spec_field_string(f, "state"@).unwrap(),
                        symbol: spec_field_string(f, "symbol"@).unwrap(),
                        timestamp: spec_field_i32(f, "timestamp"@).unwrap(),
                        original_amount: spec_field_string(f, "original_amount"@).unwrap(),
                        remaining_amount: spec_field_string(f, "remaining_amount"@).unwrap(),
                        executed_amount: spec_field_string(f, "executed_amount"@).unwrap(),
                        is_cancelled: spec_field_opt_string(f, "is_cancelled"@).unwrap(),
                        is_hidden: spec_field_opt_string(f, "is_hidden"@).unwrap(),
                        is_live: spec_field_opt_string(f, "is_live"@).unwrap(),
                        was_forced: spec_field_opt_string(f, "was_forced"@).unwrap(),
                        exchange: spec_field_opt_string(f, "exchange"@).unwrap(),
                    },
                )
            } else {
                None
            }
        },
        _ => None,
    }
}

/// Reads the raw cancellation acknowledgement out of a decoded document.
pub fn canceled_order_response_from_json(v: &JsonValue) -> (r: Option<CanceledOrderResponse>)
    ensures
        r == spec_canceled_order_response(*v),
{
    let fields = match v {
        JsonValue::Obj(fields) => fields,
        _ => {
            return None;
        },
    };
    let id = match field_i32(fields, "id") {
        Some(x) => x,
        None => {
            return None;
        },
    };
    let side = match field_string(fields, "side") {
        Some(x) => x,
        None => {
            return None;
        },
    };
    let order_type = match field_string(fields, "type") {
        Some(x) => x,
        None => {
            return None;
        },
    };
    let price = match field_string(fields, "price") {
        Some(x) => x,
        None => {
            return None;
        },
    };
    let avg_execution_price = match field_string(fields, "avg_execution_price") {
        Some(x) => x,
        None => {
            return None;
        },
    };
    let state = match field_string(fields, "state") {
        Some(x) => x,
        None => {
            return None;
        },
    };
    let symbol = match field_string(fields, "symbol") {
        Some(x) => x,
        None => {
            return None;
        },
    };
    let timestamp = match field_i32(fields, "timestamp") {
        Some(x) => x,
        None => {
            return None;
        },
    };
    let original_amount = match field_string(fields, "original_amount") {
        Some(x) => x,
        None => {
            return None;
        },
    };
    let remaining_amount = match field_string(fields, "remaining_amount") {
        Some(x) => x,
        None => {
            return None;
        },
    };
    let executed_amount = match field_string(fields, "executed_amount") {
        Some(x) => x,
        None => {
            return None;
        },
    };
    let is_cancelled = match field_opt_string(fields, "is_cancelled") {
        Some(x) => x,
        None => {
            return None;
        },
    };
    let is_hidden = match field_opt_string(fields, "is_hidden") {
        Some(x) => x,
        None => {
            return None;
        },
    };
    let is_live = match field_opt_string(fields, "is_live") {
        Some(x) => x,
        None => {
            return None;
        },
    };
    let was_forced = match field_opt_string(fields, "was_forced") {
        Some(x) => x,
        None => {
            return None;
        },
    };
    let exchange = match field_opt_string(fields, "exchange") {
        Some(x) => x,
        None => {
            return None;
        },
    };
    Some(
        CanceledOrderResponse {
            id,
            side,
            order_type,
            price,
            avg_execution_price,
            state,
            symbol,
            timestamp,
            original_amount,
            remaining_amount,
            executed_amount,
            is_cancelled,
            is_hidden,
            is_live,
            was_forced,
            exchange,
        },
    )
}

/// A static catalog entry of one market: its id, the two units, the three
/// display precisions, and the recent price change. A passthrough decode
/// with no derived fields.
#[derive(Clone, Debug, PartialEq)]
pub struct Market {
    pub id: String,
    pub base_unit: String,
    pub quote_unit: String,
    pub base_precision: i32,
    pub quote_precision: i32,
    pub display_precision: i32,
    pub price_change: Decimal,
}

/// The market catalog payload.
pub type Markets = Vec<Market>;

/// The decimal under `key` in an object's field list, if it is bound to a
/// JSON number.
pub open spec fn spec_field_decimal(fields: Seq<(String, JsonValue)>, key: Seq<char>) -> Option<
    Decimal,
> {
    match spec_lookup(fields, key) {
        Some(JsonValue::Num(t)) => spec_parse_decimal(t@),
        _ => None,
    }
}

/// Reads a mandatory numeric field.
fn field_decimal(fields: &Vec<(String, JsonValue)>, key: &str) -> (r: Option<Decimal>)
    ensures
        r == spec_field_decimal(fields@, key@),
{
    match lookup(fields, key) {
        Some(JsonValue::Num(t)) => parse_decimal(t.as_str()),
        _ => None,
    }
}

/// The catalog entry a JSON document denotes: an object whose named fields
/// all read as their expected shapes.
pub open spec fn spec_market(v: JsonValue) -> Option<Market> {
    match v {
        JsonValue::Obj(fields) => {
            let f = fields@;
            if spec_field_string(f, "id"@) is Some && spec_field_string(f, "base_unit"@) is Some
                && spec_field_string(f, "quote_unit"@) is Some && spec_field_i32(
                f,
                "base_precision"@,
            ) is Some && spec_field_i32(f, "quote_precision"@) is Some && spec_field_i32(
                f,
                "display_precision"@,
            ) is Some && spec_field_decimal(f, "price_change"@) is Some {
                Some(
                    Market {
                        id: spec_field_string(f, "id"@).unwrap(),
                        base_unit: spec_field_string(f, "base_unit"@).unwrap(),
                        quote_unit: spec_field_string(f, "quote_unit"@).unwrap(),
                        base_precision: spec_field_i32(f, "base_precision"@).unwrap(),
                        quote_precision: spec_field_i32(f, "quote_precision"@).unwrap(),
                        display_precision: spec_field_i32(f, "display_precision"@).unwrap(),
                        price_change: spec_field_decimal(f, "price_change"@).unwrap(),
                    },
                )
            } else {
                None
            }
        },
        _ => None,
    }
}

/// Reads one catalog entry out of a decoded document.
pub fn market_from_json(v: &JsonValue) -> (r: Option<Market>)
    ensures
        r == spec_market(*v),
{
    let fields = match v {
        JsonValue::Obj(fields) => fields,
        _ => {
            return None;
        },
    };
    let id = match field_string(fields, "id") {
        Some(x) => x,
        None => {
            return None;
        },
    };
    let base_unit = match field_string(fields, "base_unit") {
        Some(x) => x,
        None => {
            return None;
        },
    };
    let quote_unit = match field_string(fields, "quote_unit") {
        Some(x) => x,
        None => {
            return None;
        },
    };
    let base_precision = match field_i32(fields, "base_precision") {
        Some(x) => x,
        None => {
            return None;
        },
    };
    let quote_precision = match field_i32(fields, "quote_precision") {
        Some(x) => x,
        None => {
            return None;
        },
    };
    let display_precision = match field_i32(fields, "display_precision") {
        Some(x) => x,
        None => {
            return None;
        },
    };
    let price_change = match field_decimal(fields, "price_change") {
        Some(x) => x,
        None => {
            return None;
        },
    };
    Some(
        Market {
            id,
            base_unit,
            quote_unit,
            base_precision,
            quote_precision,
            display_precision,
            price_change,
        },
    )
}

/// The balance a raw JSON record denotes: an array of at least five
/// elements with the ticker at 1 and the two amounts, as JSON numbers, at
/// 2 and 4. Extra elements — and the discriminator at 0 — are ignored; a
/// missing or mistyped element makes the record unrepresentable.
pub open spec fn spec_balance_record(v: JsonValue) -> Option<Currency> {
    match v {
        JsonValue::Arr(fields) => if fields@.len() >= 5 {
            match fields@[1] {
                JsonValue::Str(ticker) => match fields@[2] {
                    JsonValue::Num(t2) => match spec_parse_decimal(t2@) {
                        Some(full) => match fields@[4] {
                            JsonValue::Num(t4) => match spec_parse_decimal(t4@) {
                                Some(available) => Some(
                                    Currency { coin: Coin::spec_of_string(ticker), full, available },
                                ),
                                None => None,
                            },
                            _ => None,
                        },
                        None => None,
                    },
                    _ => None,
                },
                _ => None,
            }
        } else {
            None
        },
        _ => None,
    }
}

/// Reads one raw balance record out of a decoded document.
pub fn currency_from_json(v: &JsonValue) -> (r: Option<Currency>)
    ensures
        r == spec_balance_record(*v),
{
    let fields = match v {
        JsonValue::Arr(fields) => fields,
        _ => {
            return None;
        },
    };
    if fields.len() < 5 {
        return None;
    }
    let ticker = match &fields[1] {
        JsonValue::Str(s) => s.clone(),
        _ => {
            return None;
        },
    };
    let full = match &fields[2] {
        JsonValue::Num(t) => match parse_decimal(t.as_str()) {
            Some(d) => d,
            None => {
                return None;
            },
        },
        _ => {
            return None;
        },
    };
    let available = match &fields[4] {
        JsonValue::Num(t) => match parse_decimal(t.as_str()) {
            Some(d) => d,
            None => {
                return None;
            },
        },
        _ => {
            return None;
        },
    };
    Some(Currency { coin: Coin::of_string(ticker), full, available })
}

/// The balances a decoded array denotes: each readable record, in wire
/// order; an unreadable record is skipped, never a failure.
pub open spec fn spec_balances_list(items: Seq<JsonValue>) -> Seq<Currency>
    decreases items.len(),
{
    if items.len() == 0 {
        Seq::<Currency>::empty()
    } else {
        let rest = spec_balances_list(items.drop_last());
        match spec_balance_record(items.last()) {
            Some(c) => rest.push(c),
            None => rest,
        }
    }
}

/// The order-book level a raw JSON triple denotes: exactly three JSON
/// numbers — price, signed size, and an order count in `u32` range.
pub open spec fn spec_order_book_record(v: JsonValue) -> Option<OrderBookEntry> {
    match v {
        JsonValue::Arr(fields) => if fields@.len() == 3 {
            match fields@[0] {
                JsonValue::Num(t0) => match spec_parse_decimal(t0@) {
                    Some(price) => match fields@[1] {
                        JsonValue::Num(t1) => match spec_parse_decimal(t1@) {
                            Some(size) => match fields@[2] {
                                JsonValue::Num(t2) => match spec_text_u32(t2@) {
                                    Some(count) => Some((price, size, count)),
                                    None => None,
                                },
                                _ => None,
                            },
                            None => None,
                        },
                        _ => None,
                    },
                    None => None,
                },
                _ => None,
            }
        } else {
            None
        },
        _ => None,
    }
}

/// Reads one raw order-book triple out of a decoded document.
pub fn order_book_record_from_json(v: &JsonValue) -> (r: Option<OrderBookEntry>)
    ensures
        r == spec_order_book_record(*v),
{
    let fields = match v {
        JsonValue::Arr(fields) => fields,
        _ => {
            return None;
        },
    };
    if fields.len() != 3 {
        return None;
    }
    let price = match &fields[0] {
        JsonValue::Num(t) => match parse_decimal(t.as_str()) {
            Some(d) => d,
            None => {
                return None;
            },
        },
        _ => {
            return None;
        },
    };
    let size = match &fields[1] {
        JsonValue::Num(t) => match parse_decimal(t.as_str()) {
            Some(d) => d,
            None => {
                return None;
            },
        },
        _ => {
            return None;
        },
    };
    let count = match &fields[2] {
        JsonValue::Num(t) => match text_to_u32(t.as_str()) {
            Some(c) => c,
            None => {
                return None;
            },
        },
        _ => {
            return None;
        },
    };
    Some((price, size, count))
}

/// The raw levels a decoded array denotes: every triple must be readable,
/// or the whole payload is unreadable.
pub open spec fn spec_order_book_list(items: Seq<JsonValue>) -> Option<Seq<OrderBookEntry>>
    decreases items.len(),
{
    if items.len() == 0 {
        Some(Seq::<OrderBookEntry>::empty())
    } else {
        match spec_order_book_list(items.drop_last()) {
            Some(rest) => match spec_order_book_record(items.last()) {
                Some(e) => Some(rest.push(e)),
                None => None,
            },
            None => None,
        }
    }
}

/// One unreadable triple makes the whole raw level list unreadable.
proof fn lemma_order_book_list_fails(items: Seq<JsonValue>, i: int)
    requires
        0 <= i < items.len(),
        spec_order_book_record(items[i]) is None,
    ensures
        spec_order_book_list(items) is None,
    decreases items.len(),
{
    if i < items.len() - 1 {
        assert(items.drop_last()[i] == items[i]);
        lemma_order_book_list_fails(items.drop_last(), i);
    }
}

/// The catalog a decoded array denotes: every entry must be readable, or
/// the whole payload is unreadable.
pub open spec fn spec_markets_list(items: Seq<JsonValue>) -> Option<Seq<Market>>
    decreases items.len(),
{
    if items.len() == 0 {
        Some(Seq::<Market>::empty())
    } else {
        match spec_markets_list(items.drop_last()) {
            Some(rest) => match spec_market(items.last()) {
                Some(m) => Some(rest.push(m)),
                None => None,
            },
            None => None,
        }
    }
}

/// One unreadable entry makes the whole catalog unreadable.
proof fn lemma_markets_list_fails(items: Seq<JsonValue>, i: int)
    requires
        0 <= i < items.len(),
        spec_market(items[i]) is None,
    ensures
        spec_markets_list(items) is None,
    decreases items.len(),
{
    if i < items.len() - 1 {
        assert(items.drop_last()[i] == items[i]);
        lemma_markets_list_fails(items.drop_last(), i);
    }
}

/// Why a payload could not be decoded at all. The caller cannot tell a
/// malformed byte stream from a well-formed document of the wrong shape at
/// the type level: both mean "no usable value, do not retry".
#[derive(Clone, Copy, Debug, PartialEq, Eq, Structural)]
pub enum DecodeError {
    /// The bytes are not one well-formed JSON document.
    MalformedJson,
    /// The document is well-formed JSON, but not of the expected shape.
    UnexpectedShape,
}

/// Decodes a balance payload: a JSON array of balance records. A record
/// that cannot be read is skipped; a payload that is not an array, or not
/// JSON, is an error.
#[verifier::loop_isolation(false)]
pub fn decode_balances(bytes: &[u8]) -> (r: Result<Vec<Currency>, DecodeError>)
    ensures
        match r {
            Ok(list) => json_of(bytes@) matches Some(JsonValue::Arr(items)) && list@
                == spec_balances_list(items@),
            Err(DecodeError::MalformedJson) => json_of(bytes@) is None,
            Err(DecodeError::UnexpectedShape) => json_of(bytes@) matches Some(doc) && !(
            doc matches JsonValue::Arr(_)),
        },
{
    let doc = match parse_json(bytes) {
        Some(doc) => doc,
        None => {
            return Err(DecodeError::MalformedJson);
        },
    };
    let items = match doc {
        JsonValue::Arr(items) => items,
        _ => {
            return Err(DecodeError::UnexpectedShape);
        },
    };
    let mut out: Vec<Currency> = Vec::new();
    let n = items.len();
    proof {
        assert(items@.take(0) =~= Seq::<JsonValue>::empty());
    }
    let mut i: usize = 0;
    while i < n
        invariant
            i <= n,
            out@ == spec_balances_list(items@.take(i as int)),
        decreases n - i,
    {
        proof {
            assert(items@.take(i + 1).drop_last() =~= items@.take(i as int));
            assert(items@.take(i + 1).last() == items@[i as int]);
        }
        match currency_from_json(&items[i]) {
            Some(c) => out.push(c),
            None => {},
        }
        i += 1;
    }
    proof {
        assert(items@.take(n as int) =~= items@);
    }
    Ok(out)
}

/// Decodes an order-book payload: a JSON array of raw triples, all of
/// which must be readable.
#[verifier::loop_isolation(false)]
pub fn decode_order_book_entries(bytes: &[u8]) -> (r: Result<OrderBookEntries, DecodeError>)
    ensures
        match r {
            Ok(entries) => json_of(bytes@) matches Some(JsonValue::Arr(items))
                && spec_order_book_list(items@) == Some(entries@),
            Err(DecodeError::MalformedJson) => json_of(bytes@) is None,
            Err(DecodeError::UnexpectedShape) => json_of(bytes@) matches Some(doc) && match doc {
                JsonValue::Arr(items) => spec_order_book_list(items@) is None,
                _ => true,
            },
        },
{
    let doc = match parse_json(bytes) {
        Some(doc) => doc,
        None => {
            return Err(DecodeError::MalformedJson);
        },
    };
    let items = match doc {
        JsonValue::Arr(items) => items,
        _ => {
            return Err(DecodeError::UnexpectedShape);
        },
    };
    let mut out: Vec<OrderBookEntry> = Vec::new();
    let n = items.len();
    proof {
        assert(items@.take(0) =~= Seq::<JsonValue>::empty());
    }
    let mut i: usize = 0;
    while i < n
        invariant
            i <= n,
            spec_order_book_list(items@.take(i as int)) == Some(out@),
        decreases n - i,
    {
        proof {
            assert(items@.take(i + 1).drop_last() =~= items@.take(i as int));
            assert(items@.take(i + 1).last() == items@[i as int]);
        }
        match order_book_record_from_json(&items[i]) {
            Some(e) => out.push(e),
            None => {
                proof {
                    lemma_order_book_list_fails(items@, i as int);
                }
                return Err(DecodeError::UnexpectedShape);
            },
        }
        i += 1;
    }
    proof {
        assert(items@.take(n as int) =~= items@);
    }
    Ok(out)
}

/// Decodes a market-catalog payload: a JSON array of catalog entries, all
/// of which must be readable.
#[verifier::loop_isolation(false)]
pub fn decode_markets(bytes: &[u8]) -> (r: Result<Markets, DecodeError>)
    ensures
        match r {
            Ok(markets) => json_of(bytes@) matches Some(JsonValue::Arr(items))
                && spec_markets_list(items@) == Some(markets@),
            Err(DecodeError::MalformedJson) => json_of(bytes@) is None,
            Err(DecodeError::UnexpectedShape) => json_of(bytes@) matches Some(doc) && match doc {
                JsonValue::Arr(items) => spec_markets_list(items@) is None,
                _ => true,
            },
        },
{
    let doc = match parse_json(bytes) {
        Some(doc) => doc,
        None => {
            return Err(DecodeError::MalformedJson);
        },
    };
    let items = match doc {
        JsonValue::Arr(items) => items,
        _ => {
            return Err(DecodeError::UnexpectedShape);
        },
    };
    let mut out: Vec<Market> = Vec::new();
    let n = items.len();
    proof {
        assert(items@.take(0) =~= Seq::<JsonValue>::empty());
    }
    let mut i: usize = 0;
    while i < n
        invariant
            i <= n,
            spec_markets_list(items@.take(i as int)) == Some(out@),
        decreases n - i,
    {
        proof {
            assert(items@.take(i + 1).drop_last() =~= items@.take(i as int));
            assert(items@.take(i + 1).last() == items@[i as int]);
        }
        match market_from_json(&items[i]) {
            Some(m) => out.push(m),
            None => {
                proof {
                    lemma_markets_list_fails(items@, i as int);
                }
                return Err(DecodeError::UnexpectedShape);
            },
        }
        i += 1;
    }
    proof {
        assert(items@.take(n as int) =~= items@);
    }
    Ok(out)
}

/// Decodes an order acknowledgement: a positional JSON array, read by
/// `CreateOrderResponse::try_from`. Bytes that are not JSON, or a document
/// that is not an array, fail like a too-short array does.
pub fn decode_create_order_response(bytes: &[u8]) -> (r: Result<
    CreateOrderResponse,
    CreateOrderError,
>)
    ensures
        match json_of(bytes@) {
            None => r == Err::<CreateOrderResponse, CreateOrderError>(CreateOrderError::InvalidJson),
            Some(doc) => match doc {
                JsonValue::Arr(items) => r == spec_create_order_response(items@),
                _ => r == Err::<CreateOrderResponse, CreateOrderError>(
                    CreateOrderError::InvalidJson,
                ),
            },
        },
{
    let doc = match parse_json(bytes) {
        Some(doc) => doc,
        None => {
            return Err(CreateOrderError::InvalidJson);
        },
    };
    let items = match doc {
        JsonValue::Arr(items) => items,
        _ => {
            return Err(CreateOrderError::InvalidJson);
        },
    };
    CreateOrderResponse::try_from(&items)
}

/// Decodes a cancellation acknowledgement: a flat JSON object, read field
/// by field into the raw `CanceledOrderResponse`.
pub fn decode_canceled_order_response(bytes: &[u8]) -> (r: Result<
    CanceledOrderResponse,
    DecodeError,
>)
    ensures
        match r {
            Ok(resp) => json_of(bytes@) matches Some(doc) && spec_canceled_order_response(doc)
                == Some(resp),
            Err(DecodeError::MalformedJson) => json_of(bytes@) is None,
            Err(DecodeError::UnexpectedShape) => json_of(bytes@) matches Some(doc)
                && spec_canceled_order_response(doc) is None,
        },
{
    let doc = match parse_json(bytes) {
        Some(doc) => doc,
        None => {
            return Err(DecodeError::MalformedJson);
        },
    };
    match canceled_order_response_from_json(&doc) {
        Some(resp) => Ok(resp),
        None => Err(DecodeError::UnexpectedShape),
    }
}

} // verus!
