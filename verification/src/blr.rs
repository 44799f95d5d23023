//! Opcodes of BLR, the byte language in which a row's layout is described
//! to the server.

use vstd::prelude::*;

verus! {

pub const VERSION5: u8 = 5;

pub const BEGIN: u8 = 2;

pub const MESSAGE: u8 = 4;

pub const END: u8 = 255;

pub const EOC: u8 = 76;

pub const SHORT: u8 = 7;

pub const DOUBLE: u8 = 27;

pub const TIMESTAMP: u8 = 35;

pub const VARYING: u8 = 37;

pub const INT64: u8 = 45;

} // verus!
