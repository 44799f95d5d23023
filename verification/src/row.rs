//! The categories of column that the client hands to its callers.

use vstd::prelude::*;

verus! {

/// What a column holds, as the client sees it. The server's many SQL types
/// are folded into these four.
#[derive(Debug, Clone, Copy, PartialEq, Eq, Structural)]
pub enum ColumnType {
    Text,
    Integer,
    Float,
    Timestamp,
}

impl ColumnType {
    /// The position of the category in the enumeration.
    pub open spec fn ordinal(self) -> int {
        match self {
            ColumnType::Text => 0,
            ColumnType::Integer => 1,
            ColumnType::Float => 2,
            ColumnType::Timestamp => 3,
        }
    }

    /// The SQL type code by which the client names the category to the
    /// server: twice the ordinal, which leaves the low bit free for the
    /// nullable flag.
    pub open spec fn spec_code(self) -> i16 {
        (2 * self.ordinal()) as i16
    }

    /// The category that `code` names, if it names one.
    pub open spec fn of_code(code: i16) -> Option<ColumnType> {
        if code == 0 {
            Some(ColumnType::Text)
        } else if code == 2 {
            Some(ColumnType::Integer)
        } else if code == 4 {
            Some(ColumnType::Float)
        } else if code == 6 {
            Some(ColumnType::Timestamp)
        } else {
            None
        }
    }

    /// The name of the category as text.
    pub open spec fn spec_name(self) -> Seq<char> {
        match self {
            ColumnType::Text => "Text"@,
            ColumnType::Integer => "Integer"@,
            ColumnType::Float => "Float"@,
            ColumnType::Timestamp => "Timestamp"@,
        }
    }

    /// The client's SQL type code for the category, nullable flag clear.
    #[verifier::when_used_as_spec(spec_code)]
    pub fn code(self) -> (code: i16)
        ensures
            code == self.spec_code(),
            code == 2 * self.ordinal(),
            ColumnType::of_code(code) == Some(self),
    {
        match self {
            ColumnType::Text => 0,
            ColumnType::Integer => 2,
            ColumnType::Float => 4,
            ColumnType::Timestamp => 6,
        }
    }

    /// Looks a category up by its code; `None` when `code` names none.
    pub fn from_code(code: i16) -> (category: Option<ColumnType>)
        ensures
            category == ColumnType::of_code(code),
            category matches Some(c) ==> c.spec_code() == code,
    {
        match code {
            0 => Some(ColumnType::Text),
            2 => Some(ColumnType::Integer),
            4 => Some(ColumnType::Float),
            6 => Some(ColumnType::Timestamp),
            _ => None,
        }
    }

    /// The name of the category, as `Debug` prints it.
    pub fn name(self) -> (name: &'static str)
        ensures
            name@ == self.spec_name(),
    {
        match self {
            ColumnType::Text => "Text",
            ColumnType::Integer => "Integer",
            ColumnType::Float => "Float",
            ColumnType::Timestamp => "Timestamp",
        }
    }
}

} // verus!
