//! Order and position sides.

use vstd::prelude::*;

verus! {

/// Side of an order.
#[derive(Debug, Clone, Copy, PartialEq, Eq, Structural)]
pub enum OrderSide {
    /// Buy order
    Buy,
    /// Sell order
    Sell,
}

/// The code of an order side used by exchange APIs.
pub open spec fn side_code(side: OrderSide) -> Seq<char> {
    match side {
        OrderSide::Buy => "BUY"@,
        OrderSide::Sell => "SELL"@,
    }
}

impl OrderSide {
    /// The code used by exchange APIs: "BUY" or "SELL".
    pub fn as_str(&self) -> (r: &'static str)
        ensures
            r@ == side_code(*self),
    {
        match self {
            OrderSide::Buy => "BUY",
            OrderSide::Sell => "SELL",
        }
    }
}

/// Side of an open position.
#[derive(Debug, Clone, Copy, PartialEq, Eq, Structural)]
pub enum PositionSide {
    /// Long (bought) position
    Long,
    /// Short (sold) position
    Short,
}

} // verus!
