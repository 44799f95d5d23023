//! What a statement-information response says, as a function of its bytes.
//!
//! A response opens with the kind of the statement. A block of items may
//! follow: one byte of item code each, then the item's payload. The items
//! are read one at a time, and each changes what the decoder has gathered so
//! far: the column descriptors, whether columns or parameters are being
//! described, and the number of parameters.

#![allow(non_upper_case_globals)]

use crate::buf::{as_signed32, le_value};
use crate::ibase::{
    isc_info_end, isc_info_sql_alias, isc_info_sql_bind, isc_info_sql_describe_end,
    isc_info_sql_describe_vars, isc_info_sql_field, isc_info_sql_length, isc_info_sql_null_ind,
    isc_info_sql_owner, isc_info_sql_relation, isc_info_sql_scale, isc_info_sql_select,
    isc_info_sql_sqlda_seq, isc_info_sql_stmt_type, isc_info_sql_sub_type, isc_info_sql_type,
    isc_info_truncated, StmtType,
};
use crate::status::InvalidReason;
use crate::xsqlda::XSqlVarView;
use vstd::prelude::*;
use vstd::utf8::{decode_utf8, valid_utf8};

verus! {

/// What data are we reading?
#[derive(Debug, Clone, Copy, PartialEq, Eq, Structural)]
pub enum Reading {
    Column,
    Param,
}

/// The numeric properties of a column that the server reports.
#[derive(Debug, Clone, Copy, PartialEq, Eq, Structural)]
pub enum NumberField {
    SqlType,
    SubType,
    Scale,
    Length,
    NullInd,
}

/// The names of a column that the server reports.
#[derive(Debug, Clone, Copy, PartialEq, Eq, Structural)]
pub enum TextField {
    Field,
    Relation,
    Owner,
    Alias,
}

/// One item of a response, decoded.
pub enum Item {
    /// Column data to follow
    Select,
    /// Parameter data to follow
    Bind,
    /// The number of columns or parameters
    DescribeVars { count: u32 },
    /// The 1-based index of the column or parameter described next
    SqldaSeq { index: u32 },
    /// A numeric property of the current column
    Number { property: NumberField, value: i32 },
    /// A name of the current column, as the bytes the server sent
    Text { name: TextField, bytes: Seq<u8> },
    /// End of this column or parameter
    DescribeEnd,
    /// The data was cut short: the buffer offered to the server was too small
    Truncated,
    /// End of the data
    End,
}

/// The numeric property that item code `code` carries, if it carries one.
pub open spec fn number_field_of(code: u8) -> Option<NumberField> {
    if code == isc_info_sql_type {
        Some(NumberField::SqlType)
    } else if code == isc_info_sql_sub_type {
        Some(NumberField::SubType)
    } else if code == isc_info_sql_scale {
        Some(NumberField::Scale)
    } else if code == isc_info_sql_length {
        Some(NumberField::Length)
    } else if code == isc_info_sql_null_ind {
        Some(NumberField::NullInd)
    } else {
        None
    }
}

/// The name that item code `code` carries, if it carries one.
pub open spec fn text_field_of(code: u8) -> Option<TextField> {
    if code == isc_info_sql_field {
        Some(TextField::Field)
    } else if code == isc_info_sql_relation {
        Some(TextField::Relation)
    } else if code == isc_info_sql_owner {
        Some(TextField::Owner)
    } else if code == isc_info_sql_alias {
        Some(TextField::Alias)
    } else {
        None
    }
}

/// Whether an item of code `code` is the code alone.
pub open spec fn is_bare_code(code: u8) -> bool {
    code == isc_info_sql_select || code == isc_info_sql_bind || code == isc_info_sql_describe_end
        || code == isc_info_truncated || code == isc_info_end
}

/// Whether an item of code `code` carries one 32-bit number. Such an item is
/// seven bytes: the code, two bytes that give the number's width and are
/// taken to say 4, and the number.
pub open spec fn is_word_code(code: u8) -> bool {
    code == isc_info_sql_describe_vars || code == isc_info_sql_sqlda_seq || number_field_of(code)
        is Some
}

/// The number that a seven-byte item carries, as an unsigned one.
pub open spec fn word_of(s: Seq<u8>) -> u32
    recommends
        s.len() >= 7,
{
    le_value(s.skip(3).take(4)) as u32
}

/// The number that a seven-byte item carries, as a signed one.
pub open spec fn signed_word_of(s: Seq<u8>) -> i32
    recommends
        s.len() >= 7,
{
    as_signed32(le_value(s.skip(3).take(4))) as i32
}

/// The length that a text item announces for its text, in the two bytes
/// after its code.
pub open spec fn text_length_of(s: Seq<u8>) -> nat
    recommends
        s.len() >= 3,
{
    le_value(s.skip(1).take(2))
}

/// The item at the front of `s` and the number of bytes it takes up, or
/// why there is none: `s` ends before the item does, or the item's code is
/// unknown.
pub open spec fn decode_item(s: Seq<u8>) -> Result<(Item, nat), InvalidReason> {
    if s.len() == 0 {
        Err(InvalidReason::TruncatedFrame)
    } else {
        let code = s[0];
        if code == isc_info_sql_select {
            Ok((Item::Select, 1))
        } else if code == isc_info_sql_bind {
            Ok((Item::Bind, 1))
        } else if code == isc_info_sql_describe_end {
            Ok((Item::DescribeEnd, 1))
        } else if code == isc_info_truncated {
            Ok((Item::Truncated, 1))
        } else if code == isc_info_end {
            Ok((Item::End, 1))
        } else if is_word_code(code) {
            if s.len() < 7 {
                Err(InvalidReason::TruncatedFrame)
            } else if code == isc_info_sql_describe_vars {
                Ok((Item::DescribeVars { count: word_of(s) }, 7))
            } else if code == isc_info_sql_sqlda_seq {
                Ok((Item::SqldaSeq { index: word_of(s) }, 7))
            } else {
                Ok(
                    (
                        Item::Number {
                            property: number_field_of(code).unwrap(),
                            value: signed_word_of(s),
                        },
                        7,
                    ),
                )
            }
        } else if text_field_of(code) is Some {
            if s.len() < 3 || s.len() < 3 + text_length_of(s) {
                Err(InvalidReason::TruncatedFrame)
            } else {
                Ok(
                    (
                        Item::Text {
                            name: text_field_of(code).unwrap(),
                            bytes: s.skip(3).take(text_length_of(s) as int),
                        },
                        3 + text_length_of(s),
                    ),
                )
            }
        } else {
            Err(InvalidReason::UnknownItem { code })
        }
    }
}

/// The text a name's bytes stand for: what they encode in UTF-8, or nothing
/// where they are not UTF-8.
pub open spec fn lossy_text(bytes: Seq<u8>) -> Seq<char> {
    if valid_utf8(bytes) {
        decode_utf8(bytes)
    } else {
        Seq::empty()
    }
}

/// The descriptor `var` with one numeric property replaced. A type code,
/// subtype, scale or length keeps the low 16 bits of the number sent; the
/// null indicator is set by any number but 0.
pub open spec fn with_number(var: XSqlVarView, field: NumberField, value: i32) -> XSqlVarView {
    match field {
        NumberField::SqlType => XSqlVarView { sqltype: value as i16, ..var },
        NumberField::SubType => XSqlVarView { sqlsubtype: value as i16, ..var },
        NumberField::Scale => XSqlVarView { scale: value as i16, ..var },
        NumberField::Length => XSqlVarView { data_length: value as i16, ..var },
        NumberField::NullInd => XSqlVarView { null_ind: value != 0, ..var },
    }
}

/// The descriptor `var` with one name replaced.
pub open spec fn with_text(var: XSqlVarView, field: TextField, text: Seq<char>) -> XSqlVarView {
    match field {
        TextField::Field => XSqlVarView { field_name: text, ..var },
        TextField::Relation => XSqlVarView { relation_name: text, ..var },
        TextField::Owner => XSqlVarView { owner_name: text, ..var },
        TextField::Alias => XSqlVarView { alias_name: text, ..var },
    }
}

/// What the decoder has gathered between two items.
pub struct DecodeState {
    /// The descriptors of the columns announced so far, in the order of
    /// their indices. The last one is the current column.
    pub xsqlda: Seq<XSqlVarView>,
    /// Whether columns or parameters are being described.
    pub reading: Reading,
    /// The number of parameters, 0 until the server has told it.
    pub param_count: u32,
}

impl DecodeState {
    /// The state in which the first item is read.
    pub open spec fn initial() -> DecodeState {
        DecodeState { xsqlda: Seq::empty(), reading: Reading::Column, param_count: 0 }
    }

    /// The state with the current column replaced by `var`.
    pub open spec fn with_current(self, var: XSqlVarView) -> DecodeState {
        DecodeState { xsqlda: self.xsqlda.update(self.xsqlda.len() - 1, var), ..self }
    }
}

/// The state after `item`, or why the item is refused.
///
/// A column must be announced under the index that is one more than the
/// number of columns before it, so that the descriptor of column `i` stands
/// at position `i - 1`. A property or a name belongs to the current column,
/// whichever of columns and parameters is being described; without a column
/// it is refused. Of the parameters only the number is kept.
pub open spec fn apply_item(st: DecodeState, item: Item) -> Result<DecodeState, InvalidReason> {
    match item {
        Item::Select => Ok(DecodeState { reading: Reading::Column, ..st }),
        Item::Bind => Ok(DecodeState { reading: Reading::Param, ..st }),
        Item::DescribeVars { count } => match st.reading {
            Reading::Column => Ok(st),
            Reading::Param => Ok(DecodeState { param_count: count, ..st }),
        },
        Item::SqldaSeq { index } => match st.reading {
            Reading::Column => if index == st.xsqlda.len() + 1 {
                Ok(DecodeState { xsqlda: st.xsqlda.push(XSqlVarView::empty()), ..st })
            } else {
                Err(InvalidReason::OutOfSequence { index })
            },
            Reading::Param => Ok(st),
        },
        Item::Number { property, value } => if st.xsqlda.len() == 0 {
            Err(InvalidReason::NoColumn)
        } else {
            Ok(st.with_current(with_number(st.xsqlda.last(), property, value)))
        },
        Item::Text { name, bytes } => if st.xsqlda.len() == 0 {
            Err(InvalidReason::NoColumn)
        } else {
            Ok(st.with_current(with_text(st.xsqlda.last(), name, lossy_text(bytes))))
        },
        Item::DescribeEnd => Ok(st),
        Item::Truncated => Ok(st),
        Item::End => Ok(st),
    }
}

/// What a run of items came to.
pub struct Described {
    /// The column descriptors.
    pub xsqlda: Seq<XSqlVarView>,
    /// The number of parameters.
    pub param_count: u32,
    /// Whether the run ended because the server ran out of room.
    pub truncated: bool,
    /// The bytes after the item that ended the run.
    pub rest: Seq<u8>,
}

/// Reads the items of `s` from state `st` on, up to the first that ends
/// the data. Fails where an item cannot be decoded or is refused, and where
/// `s` ends before such an item is met.
pub open spec fn run_items(st: DecodeState, s: Seq<u8>) -> Result<Described, InvalidReason>
    decreases s.len(),
{
    match decode_item(s) {
        Err(reason) => Err(reason),
        Ok((item, n)) => if item is End || item is Truncated {
            Ok(
                Described {
                    xsqlda: st.xsqlda,
                    param_count: st.param_count,
                    truncated: item is Truncated,
                    rest: s.skip(n as int),
                },
            )
        } else {
            match apply_item(st, item) {
                Err(reason) => Err(reason),
                Ok(next) => run_items(next, s.skip(n as int)),
            }
        },
    }
}

/// How many bytes of `s` are read before it is found that no item can be
/// decoded from its front: none where `s` is empty, the code and the length
/// of a name whose text is cut short, and otherwise the code alone.
pub open spec fn read_of_broken_item(s: Seq<u8>) -> nat
    recommends
        decode_item(s) is Err,
{
    if s.len() == 0 {
        0
    } else if text_field_of(s[0]) is Some && s.len() >= 3 {
        3
    } else {
        1
    }
}

/// Where a run of items stands when it stops.
pub struct Halt {
    /// The number of bytes read.
    pub read: nat,
    /// The column descriptors gathered.
    pub xsqlda: Seq<XSqlVarView>,
}

/// Where the run of the items of `s` from state `st` stands when it stops,
/// be it at the item that ends the data or at a refusal. An item that is
/// decoded and then refused has been read whole, and has changed nothing.
pub open spec fn halt_of(st: DecodeState, s: Seq<u8>) -> Halt
    decreases s.len(),
{
    match decode_item(s) {
        Err(_) => Halt { read: read_of_broken_item(s), xsqlda: st.xsqlda },
        Ok((item, n)) => if item is End || item is Truncated {
            Halt { read: n, xsqlda: st.xsqlda }
        } else {
            match apply_item(st, item) {
                Err(_) => Halt { read: n, xsqlda: st.xsqlda },
                Ok(next) => {
                    let later = halt_of(next, s.skip(n as int));
                    Halt { read: n + later.read, xsqlda: later.xsqlda }
                },
            }
        },
    }
}

/// What a response says of the statement.
pub struct PrepareInfoView {
    pub stmt_type: StmtType,
    pub xsqlda: Seq<XSqlVarView>,
    pub param_count: nat,
    pub truncated: bool,
}

/// Whether `s`, the bytes after the statement type, open a block of items:
/// they begin with the codes for "columns" and "count".
pub open spec fn opens_block(s: Seq<u8>) -> bool {
    s.len() >= 2 && s[0] == isc_info_sql_select && s[1] == isc_info_sql_describe_vars
}

/// The width in bytes of the column count that opens a block, as the two
/// bytes behind the block's opening codes give it.
pub open spec fn count_width(s: Seq<u8>) -> nat
    recommends
        opens_block(s),
        s.len() >= 4,
{
    le_value(s.skip(2).take(2))
}

/// What the bytes after the statement type say, and the bytes left over.
///
/// Without a block of items there are no columns and no parameters. A block
/// opens with the column count, a number of up to eight bytes behind its
/// width; the items follow, up to one that ends the data. A block that ends
/// before the width of its count, or within the count, is cut short.
pub open spec fn parse_block(s: Seq<u8>) -> Result<Described, InvalidReason> {
    if !opens_block(s) {
        Ok(Described { xsqlda: Seq::empty(), param_count: 0, truncated: false, rest: s })
    } else if s.len() < 4 || s.len() < 4 + count_width(s) {
        Err(InvalidReason::TruncatedFrame)
    } else if count_width(s) > 8 {
        Err(InvalidReason::CountTooWide { width: count_width(s) as u16 })
    } else {
        run_items(DecodeState::initial(), s.skip((4 + count_width(s)) as int))
    }
}

/// The number by which a response names the kind of its statement.
pub open spec fn stmt_code_of(s: Seq<u8>) -> u32
    recommends
        s.len() >= 7,
{
    le_value(s.skip(3).take(4)) as u32
}

/// What the response `s` says, and the bytes of `s` that it leaves unread;
/// or why `s` is no response.
///
/// A response opens with seven bytes: the code of the statement-type item,
/// the width 4 in two bytes, and the number of the statement's kind.
pub open spec fn parse_response(s: Seq<u8>) -> Result<(PrepareInfoView, Seq<u8>), InvalidReason> {
    if s.len() < 7 {
        Err(InvalidReason::TruncatedFrame)
    } else if !(s[0] == isc_info_sql_stmt_type && s[1] == 4 && s[2] == 0) {
        Err(InvalidReason::BadPrologue)
    } else {
        match StmtType::of_code(stmt_code_of(s)) {
            None => Err(InvalidReason::UnknownStatement { value: stmt_code_of(s) }),
            Some(stmt_type) => match parse_block(s.skip(7)) {
                Err(reason) => Err(reason),
                Ok(block) => Ok(
                    (
                        PrepareInfoView {
                            stmt_type,
                            xsqlda: block.xsqlda,
                            param_count: block.param_count as nat,
                            truncated: block.truncated,
                        },
                        block.rest,
                    ),
                ),
            },
        }
    }
}

/// Whether `s` opens as a response does: with the code of the
/// statement-type item and the width 4 in two bytes.
pub open spec fn has_prologue(s: Seq<u8>) -> bool {
    s.len() >= 7 && s[0] == isc_info_sql_stmt_type && s[1] == 4 && s[2] == 0
}

/// The number of bytes that are read of what follows the statement type.
/// Of a block that ends before the width of its count nothing is read; a
/// count that is cut short or too wide is refused once its width is read.
pub open spec fn read_of_block(s: Seq<u8>) -> nat {
    if !opens_block(s) || s.len() < 4 {
        0
    } else if s.len() < 4 + count_width(s) || count_width(s) > 8 {
        4
    } else {
        4 + count_width(s) + halt_of(
            DecodeState::initial(),
            s.skip((4 + count_width(s)) as int),
        ).read
    }
}

/// The number of bytes of `s` that decoding reads. Of a buffer that is too
/// short for the statement type, or does not open with it, nothing is read;
/// a statement type of an unknown kind is read before it is refused.
pub open spec fn read_of_response(s: Seq<u8>) -> nat {
    if !has_prologue(s) {
        0
    } else if StmtType::of_code(stmt_code_of(s)) is None {
        7
    } else {
        7 + read_of_block(s.skip(7))
    }
}

} // verus!
