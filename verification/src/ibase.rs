//! Numbers fixed by the Firebird wire protocol: the item codes of a
//! statement-information response, the SQL type codes the server reports,
//! and the kinds of statement it can prepare.

#![allow(non_upper_case_globals)]

use vstd::prelude::*;

verus! {

/// Ends a response.
pub const isc_info_end: u8 = 1;

/// Ends a response that did not fit the buffer the client offered.
pub const isc_info_truncated: u8 = 2;

/// The items that follow describe result columns.
pub const isc_info_sql_select: u8 = 4;

/// The items that follow describe bind parameters.
pub const isc_info_sql_bind: u8 = 5;

/// How many columns or parameters the statement has.
pub const isc_info_sql_describe_vars: u8 = 7;

/// Closes the description of one column or parameter.
pub const isc_info_sql_describe_end: u8 = 8;

/// The 1-based index of the column or parameter described next.
pub const isc_info_sql_sqlda_seq: u8 = 9;

/// SQL type code.
pub const isc_info_sql_type: u8 = 11;

/// Blob subtype.
pub const isc_info_sql_sub_type: u8 = 12;

/// Decimal scale.
pub const isc_info_sql_scale: u8 = 13;

/// Length of the data in bytes.
pub const isc_info_sql_length: u8 = 14;

/// Null indicator.
pub const isc_info_sql_null_ind: u8 = 15;

/// Field name.
pub const isc_info_sql_field: u8 = 16;

/// Relation name.
pub const isc_info_sql_relation: u8 = 17;

/// Owner name.
pub const isc_info_sql_owner: u8 = 18;

/// Column alias.
pub const isc_info_sql_alias: u8 = 19;

/// The kind of the statement.
pub const isc_info_sql_stmt_type: u8 = 21;

pub const SQL_VARYING: i16 = 448;

pub const SQL_TEXT: i16 = 452;

pub const SQL_DOUBLE: i16 = 480;

pub const SQL_FLOAT: i16 = 482;

pub const SQL_LONG: i16 = 496;

pub const SQL_SHORT: i16 = 500;

pub const SQL_TIMESTAMP: i16 = 510;

pub const SQL_TYPE_TIME: i16 = 560;

pub const SQL_TYPE_DATE: i16 = 570;

pub const SQL_INT64: i16 = 580;

/// Bytes of a 64-bit integer or float on the wire.
pub const SIZE_OF_INT64: i16 = 8;

/// Bytes of the server's timestamp structure: a 32-bit date and a 32-bit time.
pub const SIZE_OF_TIMESTAMP: i16 = 8;

/// The kind of a prepared statement.
#[derive(Debug, Clone, Copy, PartialEq, Eq, Structural)]
pub enum StmtType {
    Select,
    Insert,
    Update,
    Delete,
    DDL,
    GetSegment,
    PutSegment,
    ExecProcedure,
    StartTrans,
    Commit,
    Rollback,
    SelectForUpd,
    SetGenerator,
    Savepoint,
}

impl StmtType {
    /// The number by which the server names this kind of statement.
    pub open spec fn code(self) -> u32 {
        match self {
            StmtType::Select => 1,
            StmtType::Insert => 2,
            StmtType::Update => 3,
            StmtType::Delete => 4,
            StmtType::DDL => 5,
            StmtType::GetSegment => 6,
            StmtType::PutSegment => 7,
            StmtType::ExecProcedure => 8,
            StmtType::StartTrans => 9,
            StmtType::Commit => 10,
            StmtType::Rollback => 11,
            StmtType::SelectForUpd => 12,
            StmtType::SetGenerator => 13,
            StmtType::Savepoint => 14,
        }
    }

    /// The kind that the server names by `value`, if there is one.
    pub open spec fn of_code(value: u32) -> Option<StmtType> {
        if value == 1 {
            Some(StmtType::Select)
        } else if value == 2 {
            Some(StmtType::Insert)
        } else if value == 3 {
            Some(StmtType::Update)
        } else if value == 4 {
            Some(StmtType::Delete)
        } else if value == 5 {
            Some(StmtType::DDL)
        } else if value == 6 {
            Some(StmtType::GetSegment)
        } else if value == 7 {
            Some(StmtType::PutSegment)
        } else if value == 8 {
            Some(StmtType::ExecProcedure)
        } else if value == 9 {
            Some(StmtType::StartTrans)
        } else if value == 10 {
            Some(StmtType::Commit)
        } else if value == 11 {
            Some(StmtType::Rollback)
        } else if value == 12 {
            Some(StmtType::SelectForUpd)
        } else if value == 13 {
            Some(StmtType::SetGenerator)
        } else if value == 14 {
            Some(StmtType::Savepoint)
        } else {
            None
        }
    }

    /// Decodes the number the server sent; `None` for a number that names no
    /// kind of statement.
    pub fn from_u32(value: u32) -> (kind: Option<StmtType>)
        ensures
            kind == StmtType::of_code(value),
            kind matches Some(k) ==> k.code() == value,
            kind is None <==> !(1 <= value <= 14),
    {
        match value {
            1 => Some(StmtType::Select),
            2 => Some(StmtType::Insert),
            3 => Some(StmtType::Update),
            4 => Some(StmtType::Delete),
            5 => Some(StmtType::DDL),
            6 => Some(StmtType::GetSegment),
            7 => Some(StmtType::PutSegment),
            8 => Some(StmtType::ExecProcedure),
            9 => Some(StmtType::StartTrans),
            10 => Some(StmtType::Commit),
            11 => Some(StmtType::Rollback),
            12 => Some(StmtType::SelectForUpd),
            13 => Some(StmtType::SetGenerator),
            14 => Some(StmtType::Savepoint),
            _ => None,
        }
    }

    /// The number that `from_u32` decodes to this kind.
    pub fn as_u32(self) -> (value: u32)
        ensures
            value == self.code(),
            StmtType::of_code(value) == Some(self),
    {
        match self {
            StmtType::Select => 1,
            StmtType::Insert => 2,
            StmtType::Update => 3,
            StmtType::Delete => 4,
            StmtType::DDL => 5,
            StmtType::GetSegment => 6,
            StmtType::PutSegment => 7,
            StmtType::ExecProcedure => 8,
            StmtType::StartTrans => 9,
            StmtType::Commit => 10,
            StmtType::Rollback => 11,
            StmtType::SelectForUpd => 12,
            StmtType::SetGenerator => 13,
            StmtType::Savepoint => 14,
        }
    }
}

} // verus!
