//! The errors the client reports, and the texts of the common ones.

use crate::row::ColumnType;
use crate::text::{debug_string, debug_text, decimal_string, decimal_text, str_from_utf8};
use vstd::prelude::*;
use vstd::utf8::{decode_utf8, valid_utf8};

verus! {

/// An error the server reported for a statement.
#[derive(Debug, Clone, PartialEq, Eq)]
pub struct SqlError {
    pub msg: String,
    pub code: i32,
}

/// Why a statement-information response was refused.
#[derive(Debug, Clone, Copy, PartialEq, Eq, Structural)]
pub enum InvalidReason {
    /// The buffer ends before an item does.
    TruncatedFrame,
    /// The response does not open with the statement-type item.
    BadPrologue,
    /// The statement type is a number that names no kind of statement.
    UnknownStatement { value: u32 },
    /// The column count is announced as wider than eight bytes.
    CountTooWide { width: u16 },
    /// An item code the decoder does not know.
    UnknownItem { code: u8 },
    /// A column's index is not one more than the number of columns before it.
    OutOfSequence { index: u32 },
    /// A column's property arrives before any column was announced.
    NoColumn,
}

/// What the client reports when it cannot do what was asked.
#[derive(Debug, Clone, PartialEq, Eq)]
pub enum FbError {
    /// The server refused a statement.
    Sql(SqlError),
    /// Any other failure, described in words.
    Other(String),
    /// The server's bytes do not follow the framing of a response.
    InvalidResponse { reason: InvalidReason },
    /// An SQL type code, nullable flag cleared, that no column category covers.
    UnsupportedType { code: i16 },
    /// A type code, nullable flag cleared, that cannot be turned into the
    /// type named by `to`.
    UnsupportedConversion { from: i16, to: String },
}

impl FbError {
    /// Whether this is the error `Other` with the text `msg`.
    pub open spec fn is_other(self, msg: Seq<char>) -> bool {
        self matches FbError::Other(text) && text@ == msg
    }
}

impl From<String> for FbError {
    fn from(msg: String) -> (e: FbError) {
        FbError::Other(msg)
    }
}

impl vstd::std_specs::convert::FromSpecImpl<String> for FbError {
    open spec fn obeys_from_spec() -> bool {
        true
    }

    open spec fn from_spec(msg: String) -> FbError {
        FbError::Other(msg)
    }
}

impl From<&str> for FbError {
    fn from(msg: &str) -> (e: FbError)
        ensures
            e.is_other(msg@),
    {
        FbError::Other(String::from_str(msg))
    }
}

impl vstd::std_specs::convert::FromSpecImpl<&str> for FbError {
    open spec fn obeys_from_spec() -> bool {
        false
    }

    open spec fn from_spec(msg: &str) -> FbError {
        choose|e: FbError| e.is_other(msg@)
    }
}

/// The text for a column index past the end of a row.
pub open spec fn idx_not_exist_text() -> Seq<char> {
    "This index doesn't exists"@
}

/// The text for a null read as a value of the type named `type_label`.
pub open spec fn column_null_text(type_label: Seq<char>) -> Seq<char> {
    "This is a null value. Use the Option<"@ + type_label
        + "> to safe access this column and avoid errors"@
}

/// The text for a column of category `from` read as the type named `to`.
pub open spec fn type_conv_text(from: ColumnType, to: Seq<char>) -> Seq<char> {
    "Can't convert "@ + from.spec_name() + " column to "@ + to
}

/// The text for a value of `found` bytes where the type needs `expected`.
/// The type's name stands in it as `quoted_type` gives it.
pub open spec fn buffer_len_text(expected: nat, found: nat, quoted_type: Seq<char>) -> Seq<char> {
    "Invalid buffer size for type "@ + quoted_type + " (expected: "@ + decimal_text(expected)
        + ", found: "@ + decimal_text(found) + ")"@
}

/// The error for a column index past the end of a row.
pub fn err_idx_not_exist<T>() -> (r: Result<T, FbError>)
    ensures
        r matches Err(FbError::Other(msg)) && msg@ == idx_not_exist_text(),
{
    Err(FbError::Other(String::from_str("This index doesn't exists")))
}

/// The error for a null read as a value of the type named `type_label`.
pub fn err_column_null<T>(type_label: &str) -> (r: Result<T, FbError>)
    ensures
        r matches Err(FbError::Other(msg)) && msg@ == column_null_text(type_label@),
{
    let mut msg = String::from_str("This is a null value. Use the Option<");
    msg.append(type_label);
    msg.append("> to safe access this column and avoid errors");
    Err(FbError::Other(msg))
}

/// The error for a column of category `from` read as the type named `to`.
pub fn err_type_conv<T>(from: ColumnType, to: &str) -> (r: Result<T, FbError>)
    ensures
        r matches Err(FbError::Other(msg)) && msg@ == type_conv_text(from, to@),
{
    let mut msg = String::from_str("Can't convert ");
    msg.append(from.name());
    msg.append(" column to ");
    msg.append(to);
    Err(FbError::Other(msg))
}

/// The text of a buffer-size error, given the type's name as `Debug` prints
/// it.
pub fn buffer_len_message(expected: usize, found: usize, quoted_type: &str) -> (msg: String)
    ensures
        msg@ == buffer_len_text(expected as nat, found as nat, quoted_type@),
{
    let expected_digits = decimal_string(expected);
    let found_digits = decimal_string(found);
    let mut msg = String::from_str("Invalid buffer size for type ");
    msg.append(quoted_type);
    msg.append(" (expected: ");
    msg.append(expected_digits.as_str());
    msg.append(", found: ");
    msg.append(found_digits.as_str());
    msg.append(")");
    msg
}

/// The error for a value of `found` bytes where the type named `type_label`
/// needs `expected`. The name stands in the text as `Debug` prints it.
pub fn err_buffer_len<T>(expected: usize, found: usize, type_label: &str) -> (r: Result<
    T,
    FbError,
>)
    ensures
        r matches Err(FbError::Other(msg)) && msg@ == buffer_len_text(
            expected as nat,
            found as nat,
            debug_text(type_label@),
        ),
{
    let quoted = debug_string(type_label);
    Err(FbError::Other(buffer_len_message(expected, found, quoted.as_str())))
}

/// The text of one line of a status: what its bytes encode in UTF-8, or a
/// fixed text where they are not UTF-8.
pub open spec fn line_text(line: Seq<u8>) -> Seq<char> {
    if valid_utf8(line) {
        decode_utf8(line)
    } else {
        "Invalid error message"@
    }
}

/// The message of a status: the texts of its lines, with a line feed
/// between each two.
pub open spec fn message_text(lines: Seq<Seq<u8>>) -> Seq<char>
    decreases lines.len(),
{
    if lines.len() == 0 {
        Seq::empty()
    } else if lines.len() == 1 {
        line_text(lines[0])
    } else {
        message_text(lines.drop_last()) + "\n"@ + line_text(lines.last())
    }
}

/// The lines of a status, each as its sequence of bytes.
pub open spec fn lines_of(lines: Seq<Vec<u8>>) -> Seq<Seq<u8>> {
    Seq::new(lines.len(), |i: int| lines[i]@)
}

/// Puts the lines that the server's client library gave for a status
/// together into one message.
pub fn status_message(lines: &[Vec<u8>]) -> (msg: String)
    ensures
        msg@ == message_text(lines_of(lines@)),
{
    let ghost all = lines_of(lines@);
    let mut msg = String::new();
    let mut i: usize = 0;
    while i < lines.len()
        invariant
            0 <= i <= lines.len(),
            all == lines_of(lines@),
            msg@ == message_text(all.take(i as int)),
        decreases lines.len() - i,
    {
        if i > 0 {
            msg.append("\n");
        }
        let text = match str_from_utf8(lines[i].as_slice()) {
            Ok(text) => text,
            Err(_) => "Invalid error message",
        };
        msg.append(text);
        proof {
            let upto = all.take(i + 1);
            assert(upto.drop_last() =~= all.take(i as int));
            assert(upto.last() == lines@[i as int]@);
            if i == 0 {
                assert(msg@ =~= line_text(upto[0]));
            }
        }
        i += 1;
    }
    assert(all.take(lines.len() as int) =~= all);
    msg
}

/// The error for a statement that the server refused with `code`, where
/// `lines` are what its client library gave for the status.
pub fn sql_error(code: i32, lines: &[Vec<u8>]) -> (e: FbError)
    ensures
        e matches FbError::Sql(sql) && sql.code == code && sql.msg@ == message_text(
            lines_of(lines@),
        ),
{
    FbError::Sql(SqlError { code, msg: status_message(lines) })
}

} // verus!
