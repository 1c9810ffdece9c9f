use vstd::prelude::*;

use crate::error::ParseError;

verus! {

/// Buy/sell direction (`Side`).
///
/// Used by tick-by-tick orders. The `Borrow`/`Lend` values only appear in
/// securities-lending feeds (MsgType=300792).
#[derive(Debug, Clone, Copy, PartialEq, Eq)]
pub enum Side {
    /// `'1'` buy
    Buy,
    /// `'2'` sell
    Sell,
    /// `'G'` borrow
    Borrow,
    /// `'F'` lend
    Lend,
}

/// The `Side` that the byte `b` stands for, if any.
pub open spec fn side_of(b: u8) -> Option<Side> {
    if b == 0x31 {  // '1'
        Some(Side::Buy)
    } else if b == 0x32 {  // '2'
        Some(Side::Sell)
    } else if b == 0x47 {  // 'G'
        Some(Side::Borrow)
    } else if b == 0x46 {  // 'F'
        Some(Side::Lend)
    } else {
        None
    }
}

/// The outcome of decoding a single-byte enum field named `field`: the
/// value when `decoded` has one, else `InvalidEnum` naming the field and
/// the byte.
pub open spec fn enum_result<T>(decoded: Option<T>, field: &'static str, b: u8) -> Result<
    T,
    ParseError,
> {
    match decoded {
        Some(v) => Ok(v),
        None => Err(ParseError::InvalidEnum { field, value: b }),
    }
}

impl Side {
    /// Decode the single ASCII byte carried in the `Side` field.
    pub fn from_byte(b: u8) -> (res: Result<Self, ParseError>)
        ensures
            res == enum_result(side_of(b), "Side", b),
    {
        match b {
            0x31 => Ok(Side::Buy),  // '1'
            0x32 => Ok(Side::Sell),  // '2'
            0x47 => Ok(Side::Borrow),  // 'G'
            0x46 => Ok(Side::Lend),  // 'F'
            value => Err(ParseError::InvalidEnum { field: "Side", value }),
        }
    }
}

/// Execution type in a tick-by-tick trade (`ExecType`).
#[derive(Debug, Clone, Copy, PartialEq, Eq)]
pub enum ExecType {
    /// `'4'`: the referenced order was cancelled
    Cancelled,
    /// `'F'`: a trade was executed
    Trade,
}

/// The `ExecType` that the byte `b` stands for, if any.
pub open spec fn exec_type_of(b: u8) -> Option<ExecType> {
    if b == 0x34 {  // '4'
        Some(ExecType::Cancelled)
    } else if b == 0x46 {  // 'F'
        Some(ExecType::Trade)
    } else {
        None
    }
}

impl ExecType {
    /// Decode the single ASCII byte carried in the `ExecType` field.
    pub fn from_byte(b: u8) -> (res: Result<Self, ParseError>)
        ensures
            res == enum_result(exec_type_of(b), "ExecType", b),
    {
        match b {
            0x34 => Ok(ExecType::Cancelled),  // '4'
            0x46 => Ok(ExecType::Trade),  // 'F'
            value => Err(ParseError::InvalidEnum { field: "ExecType", value }),
        }
    }
}

/// Order type carried in the 300192 tick-order extension (`OrdType`).
#[derive(Debug, Clone, Copy, PartialEq, Eq)]
pub enum OrdType {
    /// `'1'` market
    Market,
    /// `'2'` limit
    Limit,
    /// `'U'` best price on own side
    BestOwn,
}

/// The `OrdType` that the byte `b` stands for, if any.
pub open spec fn ord_type_of(b: u8) -> Option<OrdType> {
    if b == 0x31 {  // '1'
        Some(OrdType::Market)
    } else if b == 0x32 {  // '2'
        Some(OrdType::Limit)
    } else if b == 0x55 {  // 'U'
        Some(OrdType::BestOwn)
    } else {
        None
    }
}

impl OrdType {
    /// Decode the single ASCII byte carried in the `OrdType` field.
    pub fn from_byte(b: u8) -> (res: Result<Self, ParseError>)
        ensures
            res == enum_result(ord_type_of(b), "OrdType", b),
    {
        match b {
            0x31 => Ok(OrdType::Market),  // '1'
            0x32 => Ok(OrdType::Limit),  // '2'
            0x55 => Ok(OrdType::BestOwn),  // 'U'
            value => Err(ParseError::InvalidEnum { field: "OrdType", value }),
        }
    }
}


/// The ASCII code that stands for each direction.
pub open spec fn side_code(s: Side) -> u8 {
    match s {
        Side::Buy => '1' as u8,
        Side::Sell => '2' as u8,
        Side::Borrow => 'G' as u8,
        Side::Lend => 'F' as u8,
    }
}

/// The ASCII code that stands for each execution type.
pub open spec fn exec_type_code(e: ExecType) -> u8 {
    match e {
        ExecType::Cancelled => '4' as u8,
        ExecType::Trade => 'F' as u8,
    }
}

/// The ASCII code that stands for each order type.
pub open spec fn ord_type_code(o: OrdType) -> u8 {
    match o {
        OrdType::Market => '1' as u8,
        OrdType::Limit => '2' as u8,
        OrdType::BestOwn => 'U' as u8,
    }
}

/// A byte decodes to a direction exactly when it is that direction's
/// code: each direction has one code and each code one direction.
pub proof fn lemma_side_codes(b: u8, s: Side)
    ensures
        side_of(b) == Some(s) <==> b == side_code(s),
{
}

/// A byte decodes to an execution type exactly when it is that type's
/// code.
pub proof fn lemma_exec_type_codes(b: u8, e: ExecType)
    ensures
        exec_type_of(b) == Some(e) <==> b == exec_type_code(e),
{
}

/// A byte decodes to an order type exactly when it is that type's code.
pub proof fn lemma_ord_type_codes(b: u8, o: OrdType)
    ensures
        ord_type_of(b) == Some(o) <==> b == ord_type_code(o),
{
}

} // verus!
