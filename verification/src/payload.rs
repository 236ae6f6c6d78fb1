//! Payloads: the short texts that buttons and links carry.
//!
//! A payload reads `1 p42` or `3 oabc a2`: the number of the operation, then,
//! each after a space and its letter, the product `p`, the order `o` and the
//! amount `a`, as far as they are there.

use crate::pattern::{captures, groups_view, regex_captures};
use crate::text::{chars_of, decimal, parse_u64_of, parsed_u64, push_decimal, string_of};
use vstd::prelude::*;

verus! {

/// The id of a product.
pub type ProductId = u64;

/// The id of an order.
pub type OrderId = String;

/// What a payload asks for.
#[derive(Clone, Copy, Debug, PartialEq, Eq, Structural)]
pub enum PayloadOp {
    Nothing,
    Purchase,
    Redeem,
    Checkout,
    CancelOrder,
    CompleteOrder,
    PayOrder,
    SpecifyOrderPrice,
}

impl PayloadOp {
    /// The number of the operation.
    pub open spec fn code_spec(&self) -> u8 {
        match self {
            PayloadOp::Nothing => 0,
            PayloadOp::Purchase => 1,
            PayloadOp::Redeem => 2,
            PayloadOp::Checkout => 3,
            PayloadOp::CancelOrder => 4,
            PayloadOp::CompleteOrder => 5,
            PayloadOp::PayOrder => 6,
            PayloadOp::SpecifyOrderPrice => 7,
        }
    }

    /// The number of the operation.
    pub fn code(&self) -> (c: u8)
        ensures
            c == self.code_spec(),
    {
        match self {
            PayloadOp::Nothing => 0,
            PayloadOp::Purchase => 1,
            PayloadOp::Redeem => 2,
            PayloadOp::Checkout => 3,
            PayloadOp::CancelOrder => 4,
            PayloadOp::CompleteOrder => 5,
            PayloadOp::PayOrder => 6,
            PayloadOp::SpecifyOrderPrice => 7,
        }
    }

    /// The operation with the given number, if there is one.
    pub fn from_u8(code: u8) -> (r: Option<PayloadOp>)
        ensures
            match r {
                Some(op) => op.code_spec() == code,
                None => code > 7,
            },
    {
        match code {
            0 => Some(PayloadOp::Nothing),
            1 => Some(PayloadOp::Purchase),
            2 => Some(PayloadOp::Redeem),
            3 => Some(PayloadOp::Checkout),
            4 => Some(PayloadOp::CancelOrder),
            5 => Some(PayloadOp::CompleteOrder),
            6 => Some(PayloadOp::PayOrder),
            7 => Some(PayloadOp::SpecifyOrderPrice),
            _ => None,
        }
    }

    /// The number of the operation in text.
    pub fn to_string(&self) -> (s: String)
        ensures
            s@ == decimal(self.code_spec() as nat),
    {
        let mut out: Vec<char> = Vec::new();
        push_decimal(&mut out, self.code() as u64);
        assert(out@ =~= decimal(self.code_spec() as nat));
        string_of(&out)
    }

    /// Whether a text begins with the number of this operation.
    pub fn is_in_payload(&self, haystack: &str) -> (b: bool)
        ensures
            b == (haystack@.len() > 0 && haystack@[0] == crate::text::digit_char(
                self.code_spec() as int,
            )),
    {
        let text: Vec<char> = chars_of(haystack);
        let mut digit: Vec<char> = Vec::new();
        push_decimal(&mut digit, self.code() as u64);
        assert(digit@ =~= seq![crate::text::digit_char(self.code_spec() as int)]);
        text.len() > 0 && text[0] == digit[0]
    }
}

/// Why a payload could not be read. Each error carries the payload.
#[derive(Debug)]
pub enum PayloadError {
    InvalidPayload(String),
    InvalidOp(String),
    InvalidProductId(String),
    InvalidAmount(String),
}

impl PayloadError {
    /// The message of this error, as a character sequence.
    pub open spec fn message(&self) -> Seq<char> {
        match self {
            PayloadError::InvalidPayload(p) => "Invalid payload: "@ + p@,
            PayloadError::InvalidOp(p) => "Invalid op in payload: "@ + p@,
            PayloadError::InvalidProductId(p) => "Invalid product id in payload: "@ + p@,
            PayloadError::InvalidAmount(p) => "Invalid amount in payload: "@ + p@,
        }
    }

    /// The message of this error.
    pub fn to_string(&self) -> (s: String)
        ensures
            s@ == self.message(),
    {
        let (mut out, p): (String, &String) = match self {
            PayloadError::InvalidPayload(p) => ("Invalid payload: ".to_owned(), p),
            PayloadError::InvalidOp(p) => ("Invalid op in payload: ".to_owned(), p),
            PayloadError::InvalidProductId(p) => ("Invalid product id in payload: ".to_owned(), p),
            PayloadError::InvalidAmount(p) => ("Invalid amount in payload: ".to_owned(), p),
        };
        out.append(p.as_str());
        out
    }
}

/// An operation with what it is about.
#[derive(Clone, Debug)]
pub struct Payload {
    pub op: PayloadOp,
    pub product_id: Option<ProductId>,
    pub order_id: Option<OrderId>,
    pub amount: Option<u32>,
}

/// A payload with its order as a character sequence.
pub struct PayloadView {
    pub op: PayloadOp,
    pub product_id: Option<u64>,
    pub order_id: Option<Seq<char>>,
    pub amount: Option<u32>,
}

impl View for Payload {
    type V = PayloadView;

    open spec fn view(&self) -> PayloadView {
        PayloadView {
            op: self.op,
            product_id: self.product_id,
            order_id: match self.order_id {
                Some(id) => Some(id@),
                None => None,
            },
            amount: self.amount,
        }
    }
}

/// The payload of an operation on a product.
pub open spec fn about_product(op: PayloadOp, product_id: u64) -> PayloadView {
    PayloadView { op, product_id: Some(product_id), order_id: None, amount: None }
}

/// The payload of an operation on an order.
pub open spec fn about_order(op: PayloadOp, order_id: Seq<char>) -> PayloadView {
    PayloadView { op, product_id: None, order_id: Some(order_id), amount: None }
}

/// A payload in text.
pub open spec fn payload_text(p: PayloadView) -> Seq<char> {
    decimal(p.op.code_spec() as nat) + match p.product_id {
        Some(id) => seq![' ', 'p'] + decimal(id as nat),
        None => Seq::empty(),
    } + match p.order_id {
        Some(id) => seq![' ', 'o'] + id,
        None => Seq::empty(),
    } + match p.amount {
        Some(n) => seq![' ', 'a'] + decimal(n as nat),
        None => Seq::empty(),
    }
}

/// The regular expression of a payload. Its groups: 1 the operation, 3 the
/// product, 5 the order, 7 the amount.
pub open spec fn payload_pattern() -> Seq<char> {
    "^(?<op>\\d*)(\\sp(?<product_id>\\d*))?(\\so(?<order_id>[^\\s]*))?(\\sa(?<amount>\\d*))?"@
}

/// What reading the groups of a matched payload comes to.
pub enum Parsed {
    Payload(PayloadView),
    InvalidOp,
    InvalidProductId,
    InvalidAmount,
}

/// The operation that a text denotes: a number from 0 to 7.
pub open spec fn op_of(text: Option<Seq<char>>) -> Option<PayloadOp> {
    match text {
        None => None,
        Some(t) => match parsed_u64(t) {
            Some(0) => Some(PayloadOp::Nothing),
            Some(1) => Some(PayloadOp::Purchase),
            Some(2) => Some(PayloadOp::Redeem),
            Some(3) => Some(PayloadOp::Checkout),
            Some(4) => Some(PayloadOp::CancelOrder),
            Some(5) => Some(PayloadOp::CompleteOrder),
            Some(6) => Some(PayloadOp::PayOrder),
            Some(7) => Some(PayloadOp::SpecifyOrderPrice),
            _ => None,
        },
    }
}

/// The group at a position, missing where the match has fewer groups.
pub open spec fn group_at(groups: Seq<Option<Seq<char>>>, i: int) -> Option<Seq<char>> {
    if 0 <= i < groups.len() {
        groups[i]
    } else {
        None
    }
}

/// What reading the groups of a matched payload comes to: the operation must
/// be a number from 0 to 7; a product that is there must be a number; an
/// amount that is there must be a number of 32 bits. The first of these that
/// fails gives the error.
pub open spec fn payload_of(groups: Seq<Option<Seq<char>>>) -> Parsed {
    match op_of(group_at(groups, 1)) {
        None => Parsed::InvalidOp,
        Some(op) => {
            let product = group_at(groups, 3);
            let amount = group_at(groups, 7);
            if product is Some && parsed_u64(product->0) is None {
                Parsed::InvalidProductId
            } else if amount is Some && (parsed_u64(amount->0) is None || parsed_u64(
                amount->0,
            )->0 > u32::MAX) {
                Parsed::InvalidAmount
            } else {
                Parsed::Payload(
                    PayloadView {
                        op,
                        product_id: match product {
                            Some(t) => parsed_u64(t),
                            None => None,
                        },
                        order_id: group_at(groups, 5),
                        amount: match amount {
                            Some(t) => Some(parsed_u64(t)->0 as u32),
                            None => None,
                        },
                    },
                )
            }
        },
    }
}

/// What reading a payload in text comes to.
pub open spec fn payload_parsed(text: Seq<char>) -> Option<Parsed> {
    match regex_captures(payload_pattern(), text) {
        Some(Some(groups)) => Some(payload_of(groups)),
        _ => None,
    }
}

/// The group at a position, missing where the match has fewer groups.
fn group<'a>(groups: &'a Vec<Option<String>>, i: usize) -> (r: Option<&'a String>)
    ensures
        match r {
            Some(s) => group_at(groups_view(groups@), i as int) == Some(s@),
            None => group_at(groups_view(groups@), i as int) is None,
        },
{
    if i < groups.len() {
        match &groups[i] {
            Some(s) => Some(s),
            None => None,
        }
    } else {
        None
    }
}

impl Payload {
    /// A payload of the given operation about nothing.
    fn bare(op: PayloadOp) -> (p: Self)
        ensures
            p@ == (PayloadView { op, product_id: None, order_id: None, amount: None }),
    {
        Payload { op, product_id: None, order_id: None, amount: None }
    }

    /// The payload that buys a product.
    pub fn purchase(product_id: ProductId) -> (p: Self)
        ensures
            p@ == about_product(PayloadOp::Purchase, product_id),
    {
        Payload { op: PayloadOp::Purchase, product_id: Some(product_id), ..Self::bare(PayloadOp::Nothing) }
    }

    /// The payload that redeems a product.
    pub fn redeem(product_id: ProductId) -> (p: Self)
        ensures
            p@ == about_product(PayloadOp::Redeem, product_id),
    {
        Payload { op: PayloadOp::Redeem, product_id: Some(product_id), ..Self::bare(PayloadOp::Nothing) }
    }

    /// The payload that checks an order out.
    pub fn checkout(order_id: OrderId) -> (p: Self)
        ensures
            p@ == about_order(PayloadOp::Checkout, order_id@),
    {
        Payload { op: PayloadOp::Checkout, order_id: Some(order_id), ..Self::bare(PayloadOp::Nothing) }
    }

    /// The payload that cancels an order.
    pub fn cancel_order(order_id: OrderId) -> (p: Self)
        ensures
            p@ == about_order(PayloadOp::CancelOrder, order_id@),
    {
        Payload { op: PayloadOp::CancelOrder, order_id: Some(order_id), ..Self::bare(PayloadOp::Nothing) }
    }

    /// The payload that completes an order.
    pub fn complete_order(order_id: OrderId) -> (p: Self)
        ensures
            p@ == about_order(PayloadOp::CompleteOrder, order_id@),
    {
        Payload {
            op: PayloadOp::CompleteOrder,
            order_id: Some(order_id),
            ..Self::bare(PayloadOp::Nothing)
        }
    }

    /// The payload that pays for an order.
    pub fn pay_for_order(order_id: OrderId) -> (p: Self)
        ensures
            p@ == about_order(PayloadOp::PayOrder, order_id@),
    {
        Payload { op: PayloadOp::PayOrder, order_id: Some(order_id), ..Self::bare(PayloadOp::Nothing) }
    }

    /// The payload that sets the price of an order.
    pub fn specify_order_price(order_id: OrderId) -> (p: Self)
        ensures
            p@ == about_order(PayloadOp::SpecifyOrderPrice, order_id@),
    {
        Payload {
            op: PayloadOp::SpecifyOrderPrice,
            order_id: Some(order_id),
            ..Self::bare(PayloadOp::Nothing)
        }
    }

    /// The payload in text.
    pub fn to_string(&self) -> (s: String)
        ensures
            s@ == payload_text(self@),
    {
        let mut out: Vec<char> = Vec::new();
        push_decimal(&mut out, self.op.code() as u64);
        let ghost head = out@;
        match self.product_id {
            Some(id) => {
                out.push(' ');
                out.push('p');
                push_decimal(&mut out, id);
            },
            None => {},
        }
        let ghost with_product = out@;
        match &self.order_id {
            Some(id) => {
                out.push(' ');
                out.push('o');
                let mut text: Vec<char> = chars_of(id.as_str());
                out.append(&mut text);
            },
            None => {},
        }
        let ghost with_order = out@;
        match self.amount {
            Some(n) => {
                out.push(' ');
                out.push('a');
                push_decimal(&mut out, n as u64);
            },
            None => {},
        }
        proof {
            assert(with_product =~= head + match self@.product_id {
                Some(id) => seq![' ', 'p'] + decimal(id as nat),
                None => Seq::empty(),
            });
            assert(with_order =~= with_product + match self@.order_id {
                Some(id) => seq![' ', 'o'] + id,
                None => Seq::empty(),
            });
            assert(out@ =~= payload_text(self@));
        }
        string_of(&out)
    }

    /// The payload that the capture groups of a matched text denote.
    /// `payload` is the text itself, which an error carries.
    pub fn from_groups(payload: &str, groups: &Vec<Option<String>>) -> (r: Result<
        Self,
        PayloadError,
    >)
        ensures
            match r {
                Ok(p) => payload_of(groups_view(groups@)) == Parsed::Payload(p@),
                Err(PayloadError::InvalidOp(t)) => payload_of(groups_view(groups@))
                    == Parsed::InvalidOp && t@ == payload@,
                Err(PayloadError::InvalidProductId(t)) => payload_of(groups_view(groups@))
                    == Parsed::InvalidProductId && t@ == payload@,
                Err(PayloadError::InvalidAmount(t)) => payload_of(groups_view(groups@))
                    == Parsed::InvalidAmount && t@ == payload@,
                Err(PayloadError::InvalidPayload(_)) => false,
            },
    {
        let op: PayloadOp = match group(groups, 1) {
            None => {
                return Err(PayloadError::InvalidOp(payload.to_owned()));
            },
            Some(text) => match parse_u64_of(text.as_str()) {
                Some(n) => {
                    if n > 7 {
                        return Err(PayloadError::InvalidOp(payload.to_owned()));
                    }
                    match PayloadOp::from_u8(n as u8) {
                        Some(op) => op,
                        None => {
                            return Err(PayloadError::InvalidOp(payload.to_owned()));
                        },
                    }
                },
                None => {
                    return Err(PayloadError::InvalidOp(payload.to_owned()));
                },
            },
        };
        let product_id: Option<u64> = match group(groups, 3) {
            None => None,
            Some(text) => match parse_u64_of(text.as_str()) {
                Some(n) => Some(n),
                None => {
                    return Err(PayloadError::InvalidProductId(payload.to_owned()));
                },
            },
        };
        let order_id: Option<String> = match group(groups, 5) {
            None => None,
            Some(text) => Some(text.clone()),
        };
        let amount: Option<u32> = match group(groups, 7) {
            None => None,
            Some(text) => match parse_u64_of(text.as_str()) {
                Some(n) => {
                    if n > 0xffff_ffff {
                        return Err(PayloadError::InvalidAmount(payload.to_owned()));
                    }
                    Some(n as u32)
                },
                None => {
                    return Err(PayloadError::InvalidAmount(payload.to_owned()));
                },
            },
        };
        Ok(Payload { op, product_id, order_id, amount })
    }

    /// Reads a payload in text. The operation must be a number from 0 to 7; a
    /// product and an amount that are there must be numbers.
    pub fn from_str(payload: &str) -> (r: Result<Self, PayloadError>)
        ensures
            match r {
                Ok(p) => payload_parsed(payload@) == Some(Parsed::Payload(p@)),
                Err(PayloadError::InvalidOp(t)) => payload_parsed(payload@) == Some(
                    Parsed::InvalidOp,
                ) && t@ == payload@,
                Err(PayloadError::InvalidProductId(t)) => payload_parsed(payload@) == Some(
                    Parsed::InvalidProductId,
                ) && t@ == payload@,
                Err(PayloadError::InvalidAmount(t)) => payload_parsed(payload@) == Some(
                    Parsed::InvalidAmount,
                ) && t@ == payload@,
                Err(PayloadError::InvalidPayload(t)) => payload_parsed(payload@) is None && t@
                    == Seq::<char>::empty(),
            },
    {
        match captures(
            "^(?<op>\\d*)(\\sp(?<product_id>\\d*))?(\\so(?<order_id>[^\\s]*))?(\\sa(?<amount>\\d*))?",
            payload,
        ) {
            Some(Some(groups)) => Self::from_groups(payload, &groups),
            _ => Err(PayloadError::InvalidPayload(String::new())),
        }
    }
}

impl core::str::FromStr for Payload {
    type Err = PayloadError;

    /// Reads a payload in text, as `Payload::from_str` does.
    fn from_str(payload: &str) -> (r: Result<Self, PayloadError>)
        ensures
            match r {
                Ok(p) => payload_parsed(payload@) == Some(Parsed::Payload(p@)),
                Err(PayloadError::InvalidOp(t)) => payload_parsed(payload@) == Some(
                    Parsed::InvalidOp,
                ) && t@ == payload@,
                Err(PayloadError::InvalidProductId(t)) => payload_parsed(payload@) == Some(
                    Parsed::InvalidProductId,
                ) && t@ == payload@,
                Err(PayloadError::InvalidAmount(t)) => payload_parsed(payload@) == Some(
                    Parsed::InvalidAmount,
                ) && t@ == payload@,
                Err(PayloadError::InvalidPayload(t)) => payload_parsed(payload@) is None && t@
                    == Seq::<char>::empty(),
            },
    {
        Payload::from_str(payload)
    }
}

} // verus!
