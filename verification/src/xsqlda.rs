//! Column descriptors: what the server reports of each result column, how
//! the client folds the server's SQL types into its own categories, and the
//! BLR message that describes a row of such columns.

#![allow(non_upper_case_globals)]

use crate::blr;
use crate::buf::{
    as_unsigned16, freeze, le_bytes16, le_value, put_i16_le, put_slice, put_u16_le, put_u8,
    unread, with_capacity, written,
};
use crate::ibase::{
    isc_info_sql_alias, isc_info_sql_bind, isc_info_sql_describe_end, isc_info_sql_describe_vars,
    isc_info_sql_field, isc_info_sql_length, isc_info_sql_null_ind, isc_info_sql_owner,
    isc_info_sql_relation, isc_info_sql_scale, isc_info_sql_select, isc_info_sql_sqlda_seq,
    isc_info_sql_stmt_type, isc_info_sql_sub_type, isc_info_sql_type, SIZE_OF_INT64,
    SIZE_OF_TIMESTAMP, SQL_DOUBLE, SQL_FLOAT, SQL_INT64, SQL_LONG, SQL_SHORT, SQL_TEXT,
    SQL_TIMESTAMP, SQL_TYPE_DATE, SQL_TYPE_TIME, SQL_VARYING,
};
use crate::row::ColumnType;
use crate::status::FbError;
use bytes::Bytes;
use vstd::prelude::*;

verus! {

/// The items to ask of the server when a statement is prepared, in the order
/// in which the decoder expects their answers.
pub const XSQLDA_DESCRIBE_VARS: [u8; 18] = [
    isc_info_sql_stmt_type,
    isc_info_sql_select,
    isc_info_sql_describe_vars,
    isc_info_sql_sqlda_seq,
    isc_info_sql_type,
    isc_info_sql_sub_type,
    isc_info_sql_scale,
    isc_info_sql_length,
    isc_info_sql_null_ind,
    isc_info_sql_field,
    isc_info_sql_relation,
    isc_info_sql_owner,
    isc_info_sql_alias,
    isc_info_sql_describe_end,
    isc_info_sql_bind,
    isc_info_sql_describe_vars,
    isc_info_sql_sqlda_seq,
    isc_info_sql_describe_end,
];

/// Sql query column information
#[derive(Debug, Clone, PartialEq, Eq)]
pub struct XSqlVar {
    /// Sql type code; the low bit says that the column may hold nulls
    pub sqltype: i16,
    /// Scale: indicates that the real value is `data * 10.pow(scale)`
    pub scale: i16,
    /// Blob subtype code
    pub sqlsubtype: i16,
    /// Length of the column data
    pub data_length: i16,
    /// Null indicator
    pub null_ind: bool,
    pub field_name: String,
    pub relation_name: String,
    pub owner_name: String,
    /// Column alias
    pub alias_name: String,
}

/// A column descriptor as a mathematical value: the numbers as they are,
/// each text as its sequence of characters.
pub struct XSqlVarView {
    pub sqltype: i16,
    pub scale: i16,
    pub sqlsubtype: i16,
    pub data_length: i16,
    pub null_ind: bool,
    pub field_name: Seq<char>,
    pub relation_name: Seq<char>,
    pub owner_name: Seq<char>,
    pub alias_name: Seq<char>,
}

impl View for XSqlVar {
    type V = XSqlVarView;

    open spec fn view(&self) -> XSqlVarView {
        XSqlVarView {
            sqltype: self.sqltype,
            scale: self.scale,
            sqlsubtype: self.sqlsubtype,
            data_length: self.data_length,
            null_ind: self.null_ind,
            field_name: self.field_name@,
            relation_name: self.relation_name@,
            owner_name: self.owner_name@,
            alias_name: self.alias_name@,
        }
    }
}

/// The descriptors of a list, each as its mathematical value.
pub open spec fn views(xsqlda: Seq<XSqlVar>) -> Seq<XSqlVarView> {
    Seq::new(xsqlda.len(), |i: int| xsqlda[i]@)
}

/// A type code with its nullable flag, the low bit, cleared.
pub open spec fn strip_nullable(sqltype: i16) -> i16 {
    sqltype & !1i16
}

/// Whether the server stores values of type `code` as integers that a scale
/// may turn into decimals.
pub open spec fn is_scaled_integer(code: i16) -> bool {
    code == SQL_SHORT || code == SQL_LONG || code == SQL_INT64
}

/// The category into which the client folds the server's type `code`, given
/// with its nullable flag cleared, for a column of the given `scale`.
/// A scaled integer is a decimal, which the client reads as a float.
pub open spec fn classify(code: i16, scale: i16) -> Option<ColumnType> {
    if code == SQL_TEXT || code == SQL_VARYING {
        Some(ColumnType::Text)
    } else if is_scaled_integer(code) {
        if scale == 0 {
            Some(ColumnType::Integer)
        } else {
            Some(ColumnType::Float)
        }
    } else if code == SQL_FLOAT || code == SQL_DOUBLE {
        Some(ColumnType::Float)
    } else if code == SQL_TIMESTAMP || code == SQL_TYPE_DATE || code == SQL_TYPE_TIME {
        Some(ColumnType::Timestamp)
    } else {
        None
    }
}

/// The bytes per value that the server sends for a column of `category`
/// whose descriptor announced `reported` bytes.
pub open spec fn wire_length(category: ColumnType, reported: i16) -> i16 {
    match category {
        ColumnType::Text => reported,
        ColumnType::Integer => SIZE_OF_INT64,
        ColumnType::Float => SIZE_OF_INT64,
        ColumnType::Timestamp => SIZE_OF_TIMESTAMP,
    }
}

impl XSqlVarView {
    /// The descriptor of a column of which nothing is known yet.
    pub open spec fn empty() -> XSqlVarView {
        XSqlVarView {
            sqltype: 0,
            scale: 0,
            sqlsubtype: 0,
            data_length: 0,
            null_ind: false,
            field_name: Seq::empty(),
            relation_name: Seq::empty(),
            owner_name: Seq::empty(),
            alias_name: Seq::empty(),
        }
    }

    /// The category of a descriptor as the server sent it.
    pub open spec fn server_category(self) -> Option<ColumnType> {
        classify(strip_nullable(self.sqltype), self.scale)
    }

    /// The category of a descriptor that has been coerced.
    pub open spec fn column_type(self) -> Option<ColumnType> {
        ColumnType::of_code(strip_nullable(self.sqltype))
    }

    /// The descriptor after coercion to `category`: the type code is the
    /// category's, flagged nullable; a decimal's scale is dropped; the length
    /// is what the server sends for the category.
    pub open spec fn coerced_to(self, category: ColumnType) -> XSqlVarView {
        XSqlVarView {
            sqltype: (category.spec_code() + 1) as i16,
            scale: if is_scaled_integer(strip_nullable(self.sqltype)) {
                0
            } else {
                self.scale
            },
            data_length: wire_length(category, self.data_length),
            ..self
        }
    }
}

impl Default for XSqlVar {
    fn default() -> (var: XSqlVar)
        ensures
            var@ == XSqlVarView::empty(),
    {
        XSqlVar {
            sqltype: 0,
            scale: 0,
            sqlsubtype: 0,
            data_length: 0,
            null_ind: false,
            field_name: String::new(),
            relation_name: String::new(),
            owner_name: String::new(),
            alias_name: String::new(),
        }
    }
}

/// Finds the category for a server type code and a scale.
pub fn classify_type(code: i16, scale: i16) -> (category: Option<ColumnType>)
    ensures
        category == classify(code, scale),
{
    if code == SQL_TEXT || code == SQL_VARYING {
        Some(ColumnType::Text)
    } else if code == SQL_SHORT || code == SQL_LONG || code == SQL_INT64 {
        if scale == 0 {
            Some(ColumnType::Integer)
        } else {
            // Is actually a decimal or numeric value, so coerce as double
            Some(ColumnType::Float)
        }
    } else if code == SQL_FLOAT || code == SQL_DOUBLE {
        Some(ColumnType::Float)
    } else if code == SQL_TIMESTAMP || code == SQL_TYPE_DATE || code == SQL_TYPE_TIME {
        Some(ColumnType::Timestamp)
    } else {
        None
    }
}

impl XSqlVar {
    /// Coerces the data types of this XSqlVar as necessary
    ///
    /// A descriptor of a type the client covers is rewritten for its
    /// category and comes out flagged nullable. One of any other type is
    /// left as it was and reported with its type code.
    pub fn coerce(&mut self) -> (r: Result<(), FbError>)
        ensures
            match old(self)@.server_category() {
                Some(category) => {
                    &&& r is Ok
                    &&& final(self)@ == old(self)@.coerced_to(category)
                    &&& final(self)@.column_type() == Some(category)
                },
                None => {
                    &&& r matches Err(e)
                    &&& e == (FbError::UnsupportedType {
                        code: strip_nullable(old(self).sqltype),
                    })
                    &&& final(self)@ == old(self)@
                },
            },
            r is Ok ==> final(self).sqltype & 1i16 == 1,
            r is Ok && final(self)@.column_type() == Some(ColumnType::Text)
                ==> final(self).data_length == old(self).data_length,
            r is Ok && final(self)@.column_type() == Some(ColumnType::Integer)
                ==> final(self).data_length == 8,
            r is Ok && final(self)@.column_type() == Some(ColumnType::Float)
                ==> final(self).data_length == 8,
            r is Ok && final(self)@.column_type() == Some(ColumnType::Timestamp)
                ==> final(self).data_length == 8,
    {
        // Remove nullable type indicator
        let sqltype: i16 = self.sqltype & (!1);
        match classify_type(sqltype, self.scale) {
            Some(category) => {
                match category {
                    ColumnType::Text => {},
                    ColumnType::Integer => {
                        self.data_length = SIZE_OF_INT64;
                    },
                    ColumnType::Float => {
                        self.data_length = SIZE_OF_INT64;
                    },
                    ColumnType::Timestamp => {
                        self.data_length = SIZE_OF_TIMESTAMP;
                    },
                }
                if sqltype == SQL_SHORT || sqltype == SQL_LONG || sqltype == SQL_INT64 {
                    self.scale = 0;
                }
                self.sqltype = category.code() + 1;
                proof {
                    lemma_nullable_codes(category);
                }
                Ok(())
            },
            None => Err(FbError::UnsupportedType { code: sqltype }),
        }
    }

    /// The category of a coerced descriptor, read back from its type code.
    /// The scale plays no part.
    pub fn to_column_type(&self) -> (r: Result<ColumnType, FbError>)
        ensures
            match self@.column_type() {
                Some(category) => r == Ok::<ColumnType, FbError>(category),
                None => r matches Err(FbError::UnsupportedConversion { from, to }) && from
                    == strip_nullable(self.sqltype) && to@ == "ColumnType"@,
            },
    {
        // Remove nullable type indicator
        let sqltype: i16 = self.sqltype & (!1);
        match ColumnType::from_code(sqltype) {
            Some(category) => Ok(category),
            None => Err(
                FbError::UnsupportedConversion {
                    from: sqltype,
                    to: String::from_str("ColumnType"),
                },
            ),
        }
    }
}

/// What describes one column in a BLR message: the opcode of the
/// category's wire type with its argument, then the slot of the null
/// indicator, a short.
pub open spec fn blr_column(category: ColumnType, data_length: i16) -> Seq<u8> {
    let stanza = match category {
        ColumnType::Text => seq![blr::VARYING] + le_bytes16(as_unsigned16(data_length)),
        ColumnType::Integer => seq![blr::INT64, 0u8],
        ColumnType::Float => seq![blr::DOUBLE],
        ColumnType::Timestamp => seq![blr::TIMESTAMP],
    };
    stanza + seq![blr::SHORT, 0u8]
}

/// The descriptions of the columns of `xsqlda`, one after the other. A
/// descriptor without a category adds nothing.
pub open spec fn blr_columns(xsqlda: Seq<XSqlVarView>) -> Seq<u8>
    decreases xsqlda.len(),
{
    if xsqlda.len() == 0 {
        Seq::empty()
    } else {
        let var = xsqlda.last();
        blr_columns(xsqlda.drop_last()) + match var.column_type() {
            Some(category) => blr_column(category, var.data_length),
            None => Seq::empty(),
        }
    }
}

/// The whole BLR message for the columns of `xsqlda`: message 0 of twice as
/// many elements as there are columns, since each column brings its null
/// indicator.
pub open spec fn blr_message(xsqlda: Seq<XSqlVarView>) -> Seq<u8> {
    seq![blr::VERSION5, blr::BEGIN, blr::MESSAGE, 0u8] + le_bytes16(2 * (xsqlda.len() as int))
        + blr_columns(xsqlda) + seq![blr::END, blr::EOC]
}

/// The position of the first descriptor without a category, if there is one.
pub open spec fn first_unsupported(xsqlda: Seq<XSqlVarView>) -> Option<int>
    decreases xsqlda.len(),
{
    if xsqlda.len() == 0 {
        None
    } else if xsqlda[0].column_type() is None {
        Some(0)
    } else {
        match first_unsupported(xsqlda.skip(1)) {
            Some(i) => Some(i + 1),
            None => None,
        }
    }
}

/// What encoding `xsqlda` gives: the message, or the type code of the first
/// descriptor that has no category.
pub open spec fn blr_of(xsqlda: Seq<XSqlVarView>) -> Result<Seq<u8>, FbError> {
    match first_unsupported(xsqlda) {
        None => Ok(blr_message(xsqlda)),
        Some(i) => Err(FbError::UnsupportedType { code: strip_nullable(xsqlda[i].sqltype) }),
    }
}

/// `first_unsupported` finds the descriptor at `i` when all before it have a
/// category and it has none, and finds nothing when `i` is the length.
pub proof fn lemma_first_unsupported(xsqlda: Seq<XSqlVarView>, i: int)
    requires
        0 <= i <= xsqlda.len(),
        forall|j: int| 0 <= j < i ==> (#[trigger] xsqlda[j]).column_type() is Some,
        i < xsqlda.len() ==> xsqlda[i].column_type() is None,
    ensures
        first_unsupported(xsqlda) == if i < xsqlda.len() {
            Some(i)
        } else {
            None
        },
    decreases xsqlda.len(),
{
    if xsqlda.len() > 0 && i > 0 {
        let rest = xsqlda.skip(1);
        assert forall|j: int| 0 <= j < i - 1 implies (#[trigger] rest[j]).column_type() is Some by {
            assert(rest[j] == xsqlda[j + 1]);
        }
        lemma_first_unsupported(rest, i - 1);
    }
}

/// Two bytes written low byte first spell the number they were made from.
pub proof fn lemma_le_bytes16_value(u: int)
    requires
        0 <= u < 0x1_0000,
    ensures
        le_bytes16(u).len() == 2,
        le_value(le_bytes16(u)) == u,
{
    reveal_with_fuel(le_value, 3);
    let s = le_bytes16(u);
    assert(s.skip(1)[0] == s[1]);
    assert(s.skip(1).skip(1).len() == 0);
}

/// Whether `r` is what encoding `xsqlda` gives: a buffer that holds the
/// message, or the error for the first descriptor without a category.
pub open spec fn is_blr_of(xsqlda: Seq<XSqlVar>, r: Result<Bytes, FbError>) -> bool {
    match r {
        Ok(message) => blr_of(views(xsqlda)) == Ok::<Seq<u8>, FbError>(unread(message)),
        Err(e) => blr_of(views(xsqlda)) == Err::<Seq<u8>, FbError>(e),
    }
}

/// Convert the xsqlda a blr (binary representation)
///
/// The list must be short enough for twice its length to fit the message's
/// 16-bit element count.
pub fn xsqlda_to_blr(xsqlda: &[XSqlVar]) -> (r: Result<Bytes, FbError>)
    requires
        xsqlda@.len() <= 0x7fff,
    ensures
        is_blr_of(xsqlda@, r),
        r matches Ok(message) ==> unread(message).len() >= 8 && le_value(
            unread(message).subrange(4, 6),
        ) == 2 * xsqlda@.len(),
{
    let ghost vars = views(xsqlda@);
    let count: usize = xsqlda.len();
    let mut message = with_capacity(256);
    let header: [u8; 4] = [blr::VERSION5, blr::BEGIN, blr::MESSAGE, 0];  // Message index
    put_slice(&mut message, header.as_slice());
    // Message length, * 2 as there is 1 msg for the param type and another for the nullind
    put_u16_le(&mut message, (count as u16) * 2);
    let ghost prefix = seq![blr::VERSION5, blr::BEGIN, blr::MESSAGE, 0u8] + le_bytes16(2 * count);
    assert(written(message) =~= prefix);

    let mut i: usize = 0;
    while i < count
        invariant
            count == xsqlda@.len(),
            count <= 0x7fff,
            vars == views(xsqlda@),
            prefix.len() == 6,
            0 <= i <= count,
            forall|j: int| 0 <= j < i ==> (#[trigger] vars[j]).column_type() is Some,
            written(message) == prefix + blr_columns(vars.take(i as int)),
            written(message).len() <= 6 + 5 * i,
        decreases count - i,
    {
        let var = &xsqlda[i];
        assert(vars[i as int] == var@);
        assert(vars.take(i + 1).drop_last() =~= vars.take(i as int));
        assert(vars.take(i + 1).last() == vars[i as int]);
        let column_type = match var.to_column_type() {
            Ok(column_type) => column_type,
            Err(_) => {
                proof {
                    lemma_first_unsupported(vars, i as int);
                }
                return Err(FbError::UnsupportedType { code: var.sqltype & (!1) });
            },
        };
        match column_type {
            ColumnType::Text => {
                put_u8(&mut message, blr::VARYING);
                put_i16_le(&mut message, var.data_length);
            },
            ColumnType::Integer => {
                let int64: [u8; 2] = [blr::INT64, 0];  // Scale
                put_slice(&mut message, int64.as_slice());
            },
            ColumnType::Float => put_u8(&mut message, blr::DOUBLE),
            ColumnType::Timestamp => put_u8(&mut message, blr::TIMESTAMP),
        }
        // Nullind
        let null_ind: [u8; 2] = [blr::SHORT, 0];
        put_slice(&mut message, null_ind.as_slice());
        assert(written(message) =~= prefix + blr_columns(vars.take(i + 1)));
        i += 1;
    }
    let trailer: [u8; 2] = [blr::END, blr::EOC];
    put_slice(&mut message, trailer.as_slice());
    proof {
        lemma_first_unsupported(vars, count as int);
        assert(vars.take(count as int) =~= vars);
        assert(written(message) =~= blr_message(vars));
        lemma_le_bytes16_value(2 * count);
        assert(written(message).subrange(4, 6) =~= le_bytes16(2 * count));
    }
    Ok(freeze(message))
}

/// A category's code with the nullable flag set has its low bit set, and
/// clearing the flag gives the code back.
pub proof fn lemma_nullable_codes(category: ColumnType)
    ensures
        ((category.spec_code() + 1) as i16) & 1i16 == 1,
        strip_nullable((category.spec_code() + 1) as i16) == category.spec_code(),
        ColumnType::of_code(strip_nullable((category.spec_code() + 1) as i16)) == Some(category),
{
    assert(1i16 & 1i16 == 1 && 3i16 & 1i16 == 1 && 5i16 & 1i16 == 1 && 7i16 & 1i16 == 1)
        by (bit_vector);
    assert(1i16 & !1i16 == 0 && 3i16 & !1i16 == 2 && 5i16 & !1i16 == 4 && 7i16 & !1i16 == 6)
        by (bit_vector);
}

} // verus!
