//! Vocabulary of the simulated venue: order status, response status, side,
//! ticker mode and order type, with their text parsers.

use vstd::prelude::*;

use crate::text::{
    concat, lower_equals, lower_text, upper_equals, upper_text,
};

verus! {

/// Status of a simulated order.
#[derive(Debug, Clone, Copy, PartialEq, Eq, Structural)]
pub enum Status {
    Complete,
    Rejected,
    Canceled,
    PartialFill,
    Open,
    Pending,
}

/// Outcome of a simulated venue call.
#[derive(Debug, Clone, Copy, PartialEq, Eq, Structural)]
pub enum ResponseStatus {
    Success,
    Failure,
}

impl ResponseStatus {
    /// Case-insensitive (ASCII) `success` / `failure`.
    pub fn parse(s: &str) -> (r: Option<Self>)
        ensures
            r == (if lower_text(s@) == "success"@ {
                Some(ResponseStatus::Success)
            } else if lower_text(s@) == "failure"@ {
                Some(ResponseStatus::Failure)
            } else {
                None
            }),
    {
        proof {
            reveal_strlit("success");
            reveal_strlit("failure");
        }
        if lower_equals(s, "success") {
            Some(ResponseStatus::Success)
        } else if lower_equals(s, "failure") {
            Some(ResponseStatus::Failure)
        } else {
            None
        }
    }
}

/// Side of a simulated order.
#[derive(Debug, Clone, Copy, PartialEq, Eq, Structural)]
pub enum Side {
    Buy,
    Sell,
}

/// Text of a refused side.
pub open spec fn side_error_text(s: Seq<char>) -> Seq<char> {
    s + " is not a valid side, should be buy or sell"@
}

/// Text of a refused order type.
pub open spec fn order_type_error_text(s: Seq<char>) -> Seq<char> {
    s + " is not a valid order type, should be one of LIMIT/MARKET"@
}

impl Side {
    /// Signed unit: `+1` for a buy, `-1` for a sell.
    pub fn value(self) -> (r: i64)
        ensures
            r == (match self {
                Side::Buy => 1i64,
                Side::Sell => -1i64,
            }),
    {
        match self {
            Side::Buy => 1,
            Side::Sell => -1,
        }
    }

    /// The side of a numeric code: `1` buy, `-1` sell.
    pub fn from_code(code: i64) -> (r: Option<Self>)
        ensures
            r == (if code == 1 {
                Some(Side::Buy)
            } else if code == -1 {
                Some(Side::Sell)
            } else {
                None
            }),
    {
        if code == 1 {
            Some(Side::Buy)
        } else if code == -1 {
            Some(Side::Sell)
        } else {
            None
        }
    }

    /// Accepts `buy` / `b` as `Buy` and `sell` / `s` as `Sell`, in any ASCII case;
    /// anything else is an error.
    pub fn parse(s: &str) -> (r: Result<Self, String>)
        ensures
            (lower_text(s@) == "buy"@ || lower_text(s@) == "b"@) ==> r == Ok::<Side, String>(Side::Buy),
            (lower_text(s@) == "sell"@ || lower_text(s@) == "s"@) ==> r == Ok::<Side, String>(Side::Sell),
            !(lower_text(s@) == "buy"@ || lower_text(s@) == "b"@ || lower_text(s@) == "sell"@ || lower_text(s@)
                == "s"@) ==> (r matches Err(e) && e@ == side_error_text(s@)),
    {
        proof {
            reveal_strlit("buy");
            reveal_strlit("b");
            reveal_strlit("sell");
            reveal_strlit("s");
            assert("buy"@.len() == 3 && "sell"@.len() == 4 && "b"@.len() == 1 && "s"@.len() == 1);
            assert("b"@ != "s"@) by {
                assert("b"@[0] != "s"@[0]);
            }
        }
        if lower_equals(s, "buy") || lower_equals(s, "b") {
            return Ok(Side::Buy);
        }
        if lower_equals(s, "sell") || lower_equals(s, "s") {
            return Ok(Side::Sell);
        }
        Err(concat(s, " is not a valid side, should be buy or sell"))
    }
}

/// How a simulated ticker moves.
#[derive(Debug, Clone, Copy, PartialEq, Eq, Structural)]
pub enum TickerMode {
    Random,
    Manual,
}

/// Type of a simulated order.
#[derive(Debug, Clone, Copy, PartialEq, Eq, Structural)]
pub enum OrderType {
    Market,
    Limit,
    Stop,
}

impl OrderType {
    /// The order type of a numeric code: `1` market, `2` limit, `3` stop.
    pub fn from_code(code: i64) -> (r: Option<Self>)
        ensures
            r == (if code == 1 {
                Some(OrderType::Market)
            } else if code == 2 {
                Some(OrderType::Limit)
            } else if code == 3 {
                Some(OrderType::Stop)
            } else {
                None
            }),
    {
        if code == 1 {
            Some(OrderType::Market)
        } else if code == 2 {
            Some(OrderType::Limit)
        } else if code == 3 {
            Some(OrderType::Stop)
        } else {
            None
        }
    }

    /// Case-insensitive (ASCII) `MARKET` / `LIMIT` / `STOP`.
    pub fn parse(s: &str) -> (r: Result<Self, String>)
        ensures
            upper_text(s@) == "MARKET"@ ==> r == Ok::<OrderType, String>(OrderType::Market),
            upper_text(s@) == "LIMIT"@ ==> r == Ok::<OrderType, String>(OrderType::Limit),
            upper_text(s@) == "STOP"@ ==> r == Ok::<OrderType, String>(OrderType::Stop),
            !(upper_text(s@) == "MARKET"@ || upper_text(s@) == "LIMIT"@ || upper_text(s@) == "STOP"@) ==> (
            r matches Err(e) && e@ == order_type_error_text(s@)),
    {
        proof {
            reveal_strlit("MARKET");
            reveal_strlit("LIMIT");
            reveal_strlit("STOP");
        }
        if upper_equals(s, "MARKET") {
            Ok(OrderType::Market)
        } else if upper_equals(s, "LIMIT") {
            Ok(OrderType::Limit)
        } else if upper_equals(s, "STOP") {
            Ok(OrderType::Stop)
        } else {
            Err(concat(s, " is not a valid order type, should be one of LIMIT/MARKET"))
        }
    }
}

} // verus!
