//! Coins and their values, and arithmetic on optional numbers.
use vstd::prelude::*;

verus! {

#[derive(Clone, Copy, Debug, PartialEq, Eq, Structural)]
pub enum Coin {
    Penny,
    Nickel,
    Dime,
    Quarter,
}

#[derive(Clone, Copy, Debug, PartialEq, Eq, Structural)]
pub enum UsState {
    Alabama,
    Alaska,
}

/// A coin whose quarter carries the state it was minted for.
#[derive(Clone, Copy, Debug, PartialEq, Eq, Structural)]
pub enum Coin2 {
    Penny,
    Nickel,
    Dime,
    Quarter(UsState),
}

pub open spec fn cents(coin: Coin) -> u32 {
    match coin {
        Coin::Penny => 1,
        Coin::Nickel => 5,
        Coin::Dime => 10,
        Coin::Quarter => 25,
    }
}

/// Value of `coin` in cents.
pub fn value_in_cents(coin: Coin) -> (r: u32)
    ensures
        r == cents(coin),
{
    match coin {
        Coin::Penny => 1,
        Coin::Nickel => 5,
        Coin::Dime => 10,
        Coin::Quarter => 25,
    }
}

/// Value of `coin` in cents; a quarter is worth 25 whatever its state.
pub fn value_in_cents2(coin: Coin2) -> (r: u32)
    ensures
        r == match coin {
            Coin2::Penny => 1u32,
            Coin2::Nickel => 5u32,
            Coin2::Dime => 10u32,
            Coin2::Quarter(_) => 25u32,
        },
{
    match coin {
        Coin2::Penny => 1,
        Coin2::Nickel => 5,
        Coin2::Dime => 10,
        Coin2::Quarter(_) => 25,
    }
}

/// One more than the number held, if any.
pub fn plus_one(x: Option<i32>) -> (r: Option<i32>)
    requires
        x matches Some(i) ==> i < i32::MAX,
    ensures
        match x {
            None => r is None,
            Some(i) => r == Some((i + 1) as i32),
        },
{
    match x {
        None => None,
        Some(i) => Some(i + 1),
    }
}

} // verus!
