//! The decoder of the answer to a "prepare statement" request.

#![allow(non_upper_case_globals)]

use crate::buf::{
    advance, copy_to_slice, get_i32_le, get_u16_le, get_u32_le, get_u8, get_uint_le, le_value,
    peek, remaining, unread,
};
use crate::ibase::{
    isc_info_end, isc_info_sql_alias, isc_info_sql_bind, isc_info_sql_describe_end,
    isc_info_sql_describe_vars, isc_info_sql_field, isc_info_sql_length, isc_info_sql_null_ind,
    isc_info_sql_owner, isc_info_sql_relation, isc_info_sql_scale, isc_info_sql_select,
    isc_info_sql_sqlda_seq, isc_info_sql_stmt_type, isc_info_sql_sub_type, isc_info_sql_type,
    isc_info_truncated, StmtType,
};
use crate::response::{
    apply_item, decode_item, halt_of, has_prologue, lossy_text, number_field_of, opens_block,
    parse_response, read_of_broken_item, read_of_response, run_items, text_field_of, with_number,
    with_text, DecodeState, Item, NumberField, PrepareInfoView, Reading, TextField,
};
use crate::status::{FbError, InvalidReason};
use crate::text::string_from_utf8;
use crate::xsqlda::{views, XSqlVar, XSqlVarView};
use bytes::Bytes;
use vstd::prelude::*;

verus! {

/// Data returned for a prepare statement
#[derive(Debug, Clone, PartialEq, Eq)]
pub struct PrepareInfo {
    pub stmt_type: StmtType,
    pub xsqlda: Vec<XSqlVar>,
    pub param_count: usize,
    pub truncated: bool,
}

impl View for PrepareInfo {
    type V = PrepareInfoView;

    open spec fn view(&self) -> PrepareInfoView {
        PrepareInfoView {
            stmt_type: self.stmt_type,
            xsqlda: views(self.xsqlda@),
            param_count: self.param_count as nat,
            truncated: self.truncated,
        }
    }
}

/// Whether `rest` is what is left of `whole` once some of its bytes have
/// been read from the front.
pub open spec fn is_suffix_of(rest: Seq<u8>, whole: Seq<u8>) -> bool {
    exists|k: int| 0 <= k <= whole.len() && rest == #[trigger] whole.skip(k)
}

/// What is left after reading `n` more bytes is still a suffix.
pub proof fn lemma_suffix_skip(rest: Seq<u8>, whole: Seq<u8>, n: int)
    requires
        is_suffix_of(rest, whole),
        0 <= n <= rest.len(),
    ensures
        is_suffix_of(rest.skip(n), whole),
{
    let k = choose|k: int| 0 <= k <= whole.len() && rest == #[trigger] whole.skip(k);
    assert(rest.skip(n) =~= whole.skip(k + n));
}

/// Every sequence is a suffix of itself.
pub proof fn lemma_suffix_whole(whole: Seq<u8>)
    ensures
        is_suffix_of(whole, whole),
{
    assert(whole =~= whole.skip(0));
}

/// The text of a name: empty where the bytes are not UTF-8.
fn lossy_string(bytes: Vec<u8>) -> (text: String)
    ensures
        text@ == lossy_text(bytes@),
{
    match string_from_utf8(bytes) {
        Ok(text) => text,
        Err(_) => String::new(),
    }
}

/// Whether `r` is the refusal of a response for `reason`.
pub open spec fn is_refusal<T>(r: Result<T, FbError>, reason: InvalidReason) -> bool {
    r matches Err(e) && e == (FbError::InvalidResponse { reason })
}

fn err_invalid_xsqlda<T>(reason: InvalidReason) -> (r: Result<T, FbError>)
    ensures
        is_refusal(r, reason),
{
    Err(FbError::InvalidResponse { reason })
}

/// Steps over the two bytes that give the width of a 32-bit number, once
/// it is sure that they and the number are there.
fn skip_width(resp: &mut Bytes) -> (r: Result<(), FbError>)
    ensures
        unread(*old(resp)).len() >= 6 ==> r is Ok && unread(*final(resp)) == unread(
            *old(resp),
        ).skip(2),
        unread(*old(resp)).len() < 6 ==> unread(*final(resp)) == unread(*old(resp)) && is_refusal(
            r,
            InvalidReason::TruncatedFrame,
        ),
{
    if remaining(resp) < 6 {
        return err_invalid_xsqlda(InvalidReason::TruncatedFrame);
    }
    // Assume 0x04 0x00
    advance(resp, 2);
    Ok(())
}

/// Reads a text behind its 16-bit length. Where the length is not all
/// there, nothing is read; where the text is cut short, the length alone.
fn read_text(resp: &mut Bytes) -> (r: Result<Vec<u8>, FbError>)
    ensures
        ({
            let p = unread(*old(resp));
            if p.len() < 2 {
                is_refusal(r, InvalidReason::TruncatedFrame) && unread(*final(resp)) == p
            } else if p.len() < 2 + le_len(p) {
                is_refusal(r, InvalidReason::TruncatedFrame) && unread(*final(resp)) == p.skip(2)
            } else {
                &&& r matches Ok(bytes)
                &&& bytes@ == p.skip(2).take(le_len(p) as int)
                &&& unread(*final(resp)) == p.skip((2 + le_len(p)) as int)
            }
        }),
{
    let ghost p = unread(*resp);
    if remaining(resp) < 2 {
        return err_invalid_xsqlda(InvalidReason::TruncatedFrame);
    }
    let len: usize = get_u16_le(resp) as usize;
    if remaining(resp) < len {
        return err_invalid_xsqlda(InvalidReason::TruncatedFrame);
    }
    let mut buff: Vec<u8> = vec![0; len];
    copy_to_slice(resp, &mut buff);
    assert(p.skip(2).skip(len as int) =~= p.skip(2 + len));
    Ok(buff)
}

/// The length that the first two bytes of `p` announce.
pub open spec fn le_len(p: Seq<u8>) -> nat {
    le_value(p.take(2))
}

/// The decoder's state, from the values it is kept in.
pub open spec fn state_of(xsqlda: Seq<XSqlVar>, reading: Reading, param_count: u32) -> DecodeState {
    DecodeState { xsqlda: views(xsqlda), reading, param_count }
}

fn number_field(code: u8) -> (property: Option<NumberField>)
    ensures
        property == number_field_of(code),
{
    if code == isc_info_sql_type {
        Some(NumberField::SqlType)
    } else if code == isc_info_sql_sub_type {
        Some(NumberField::SubType)
    } else if code == isc_info_sql_scale {
        Some(NumberField::Scale)
    } else if code == isc_info_sql_length {
        Some(NumberField::Length)
    } else if code == isc_info_sql_null_ind {
        Some(NumberField::NullInd)
    } else {
        None
    }
}

fn text_field(code: u8) -> (name: Option<TextField>)
    ensures
        name == text_field_of(code),
{
    if code == isc_info_sql_field {
        Some(TextField::Field)
    } else if code == isc_info_sql_relation {
        Some(TextField::Relation)
    } else if code == isc_info_sql_owner {
        Some(TextField::Owner)
    } else if code == isc_info_sql_alias {
        Some(TextField::Alias)
    } else {
        None
    }
}

/// Writes a numeric property into the current column, the last of the list.
fn set_number(xsqlda: &mut Vec<XSqlVar>, property: NumberField, value: i32) -> (r: Result<
    (),
    FbError,
>)
    ensures
        match apply_item(
            DecodeState { xsqlda: views(old(xsqlda)@), reading: Reading::Column, param_count: 0 },
            Item::Number { property, value },
        ) {
            Ok(next) => r is Ok && views(final(xsqlda)@) == next.xsqlda,
            Err(reason) => final(xsqlda)@ == old(xsqlda)@ && is_refusal(r, reason),
        },
{
    let n: usize = xsqlda.len();
    if n == 0 {
        return err_invalid_xsqlda(InvalidReason::NoColumn);
    }
    let ghost before = views(xsqlda@);
    let var = &mut xsqlda[n - 1];
    match property {
        NumberField::SqlType => {
            var.sqltype = #[verifier::truncate]
            (value as i16);
        },
        NumberField::SubType => {
            var.sqlsubtype = #[verifier::truncate]
            (value as i16);
        },
        NumberField::Scale => {
            var.scale = #[verifier::truncate]
            (value as i16);
        },
        NumberField::Length => {
            var.data_length = #[verifier::truncate]
            (value as i16);
        },
        NumberField::NullInd => {
            var.null_ind = value != 0;
        },
    }
    assert(views(xsqlda@) =~= before.update(n - 1, with_number(before.last(), property, value)));
    Ok(())
}

/// Writes a name into the current column, the last of the list.
fn set_text(xsqlda: &mut Vec<XSqlVar>, name: TextField, bytes: Vec<u8>) -> (r: Result<(), FbError>)
    ensures
        match apply_item(
            DecodeState { xsqlda: views(old(xsqlda)@), reading: Reading::Column, param_count: 0 },
            Item::Text { name, bytes: bytes@ },
        ) {
            Ok(next) => r is Ok && views(final(xsqlda)@) == next.xsqlda,
            Err(reason) => final(xsqlda)@ == old(xsqlda)@ && is_refusal(r, reason),
        },
{
    let n: usize = xsqlda.len();
    if n == 0 {
        return err_invalid_xsqlda(InvalidReason::NoColumn);
    }
    let ghost before = views(xsqlda@);
    let text = lossy_string(bytes);
    let var = &mut xsqlda[n - 1];
    match name {
        TextField::Field => {
            var.field_name = text;
        },
        TextField::Relation => {
            var.relation_name = text;
        },
        TextField::Owner => {
            var.owner_name = text;
        },
        TextField::Alias => {
            var.alias_name = text;
        },
    }
    assert(views(xsqlda@) =~= before.update(
        n - 1,
        with_text(before.last(), name, lossy_text(bytes@)),
    ));
    Ok(())
}

/// Reads one item and does what it asks for.
///
/// Returns `Some` once the item ends the data, with whether the data was
/// truncated, and `None` while more items are to follow. An item that is
/// refused changes nothing of what was gathered; if it could be decoded it
/// has been read whole.
fn parse_item(
    resp: &mut Bytes,
    xsqlda: &mut Vec<XSqlVar>,
    reading: &mut Reading,
    param_count: &mut u32,
) -> (r: Result<Option<bool>, FbError>)
    ensures
        r is Err || r == Ok::<Option<bool>, FbError>(Some(true)) || r == Ok::<
            Option<bool>,
            FbError,
        >(Some(false)) ==> final(xsqlda)@ == old(xsqlda)@ && *final(reading) == *old(reading)
            && *final(param_count) == *old(param_count),
        match decode_item(unread(*old(resp))) {
            Err(reason) => {
                &&& is_refusal(r, reason)
                &&& unread(*final(resp)) == unread(*old(resp)).skip(
                    read_of_broken_item(unread(*old(resp))) as int,
                )
            },
            Ok((item, n)) => {
                &&& 0 < n <= unread(*old(resp)).len()
                &&& unread(*final(resp)) == unread(*old(resp)).skip(n as int)
                &&& if item is End || item is Truncated {
                    r == Ok::<Option<bool>, FbError>(Some(item is Truncated))
                } else {
                    match apply_item(
                        state_of(old(xsqlda)@, *old(reading), *old(param_count)),
                        item,
                    ) {
                        Err(reason) => is_refusal(r, reason),
                        Ok(next) => {
                            &&& r == Ok::<Option<bool>, FbError>(None)
                            &&& state_of(final(xsqlda)@, *final(reading), *final(param_count))
                                == next
                        },
                    }
                }
            },
        },
{
    let ghost s = unread(*resp);
    if remaining(resp) == 0 {
        assert(s.skip(0) =~= s);
        return err_invalid_xsqlda(InvalidReason::TruncatedFrame);
    }
    // Get item code
    let code: u8 = get_u8(resp);
    let ghost p = s.skip(1);
    if code == isc_info_sql_select {
        // Column data to follow
        *reading = Reading::Column;
        Ok(None)
    } else if code == isc_info_sql_bind {
        // Parameter data to follow
        *reading = Reading::Param;
        Ok(None)
    } else if code == isc_info_sql_describe_end {
        // End of this column / param
        Ok(None)
    } else if code == isc_info_truncated {
        // Data truncated
        Ok(Some(true))
    } else if code == isc_info_end {
        // End of the data
        Ok(Some(false))
    } else if code == isc_info_sql_describe_vars {
        // Start describing the columns / params
        skip_width(resp)?;
        let count: u32 = get_u32_le(resp);
        proof {
            assert(p.skip(2).take(4) =~= s.skip(3).take(4));
            assert(p.skip(2).skip(4) =~= s.skip(7));
        }
        if let Reading::Param = *reading {
            *param_count = count;
        }
        Ok(None)
    } else if code == isc_info_sql_sqlda_seq {
        // Column / Param index
        skip_width(resp)?;
        let index: u32 = get_u32_le(resp);
        proof {
            assert(p.skip(2).take(4) =~= s.skip(3).take(4));
            assert(p.skip(2).skip(4) =~= s.skip(7));
        }
        match *reading {
            Reading::Column => {
                // Index received starts on 1, and the new descriptor must
                // stand at the position it names
                if index == 0 || (index - 1) as usize != xsqlda.len() {
                    return err_invalid_xsqlda(InvalidReason::OutOfSequence { index });
                }
                let ghost before = views(xsqlda@);
                xsqlda.push(XSqlVar::default());
                assert(views(xsqlda@) =~= before.push(XSqlVarView::empty()));
            },
            Reading::Param => {},
        }
        Ok(None)
    } else if let Some(property) = number_field(code) {
        skip_width(resp)?;
        let value: i32 = get_i32_le(resp);
        proof {
            assert(p.skip(2).take(4) =~= s.skip(3).take(4));
            assert(p.skip(2).skip(4) =~= s.skip(7));
        }
        set_number(xsqlda, property, value)?;
        Ok(None)
    } else if let Some(name) = text_field(code) {
        let ghost len = le_len(p);
        proof {
            assert(p.take(2) =~= s.skip(1).take(2));
            if p.len() >= 2 {
                assert(p.skip(2) =~= s.skip(3));
            }
            if p.len() >= 2 + len {
                assert(p.skip(2).take(len as int) =~= s.skip(3).take(len as int));
                assert(p.skip((2 + len) as int) =~= s.skip((3 + len) as int));
            }
        }
        let bytes = read_text(resp)?;
        set_text(xsqlda, name, bytes)?;
        Ok(None)
    } else {
        err_invalid_xsqlda(InvalidReason::UnknownItem { code })
    }
}

/// Fill the xsqlda with data from the cursor, return `true` if the data was truncated (needs more data to fill the xsqlda)
/// and the number of parameters
///
/// The items are read up to one that ends the data; a buffer that ends
/// before such an item is refused. After a refusal the cursor and the list
/// stand where `halt_of` says: the list holds what was gathered before the
/// item that was refused.
fn parse_select_items(resp: &mut Bytes, xsqlda: &mut Vec<XSqlVar>) -> (r: Result<
    (bool, usize),
    FbError,
>)
    ensures
        match run_items(state_of(old(xsqlda)@, Reading::Column, 0), unread(*old(resp))) {
            Err(reason) => {
                let halt = halt_of(state_of(old(xsqlda)@, Reading::Column, 0), unread(*old(resp)));
                &&& is_refusal(r, reason)
                &&& unread(*final(resp)) == unread(*old(resp)).skip(halt.read as int)
                &&& views(final(xsqlda)@) == halt.xsqlda
            },
            Ok(described) => {
                &&& r == Ok::<(bool, usize), FbError>(
                    (described.truncated, described.param_count as usize),
                )
                &&& views(final(xsqlda)@) == described.xsqlda
                &&& unread(*final(resp)) == described.rest
            },
        },
{
    let ghost whole = unread(*resp);
    let ghost start = state_of(xsqlda@, Reading::Column, 0);
    let ghost read: int = 0;
    let mut kind = Reading::Column;
    let mut param_count: u32 = 0;
    assert(whole.skip(0) =~= whole);

    loop
        invariant
            whole == unread(*old(resp)),
            start == state_of(old(xsqlda)@, Reading::Column, 0),
            0 <= read <= whole.len(),
            unread(*resp) == whole.skip(read),
            run_items(start, whole) == run_items(
                state_of(xsqlda@, kind, param_count),
                unread(*resp),
            ),
            halt_of(start, whole).read == read + halt_of(
                state_of(xsqlda@, kind, param_count),
                unread(*resp),
            ).read,
            halt_of(start, whole).xsqlda == halt_of(
                state_of(xsqlda@, kind, param_count),
                unread(*resp),
            ).xsqlda,
        decreases unread(*resp).len(),
    {
        let ghost before = unread(*resp);
        let ghost stood = halt_of(state_of(xsqlda@, kind, param_count), before);
        let step = parse_item(resp, xsqlda, &mut kind, &mut param_count);
        match step {
            Err(e) => {
                proof {
                    assert(whole.skip(read).skip(stood.read as int) =~= whole.skip(
                        read + stood.read,
                    ));
                }
                return Err(e);
            },
            Ok(Some(truncated)) => {
                return Ok((truncated, param_count as usize));
            },
            Ok(None) => {
                proof {
                    let n = decode_item(before)->Ok_0.1;
                    assert(whole.skip(read).skip(n as int) =~= whole.skip(read + n));
                    read = read + n;
                }
            },
        }
    }
}

/// Parses the data from the `PrepareStatement` response.
///
/// XSqlDa data format: u8 type + optional data preceded by a u16 length.
/// Returns the statement type, xsqlda and an indicator if the data was truncated (xsqlda not entirely filled)
///
/// The cursor of `resp` moves over what was read and never past the end.
/// After a response was accepted it stands behind the response's last byte.
/// After a refusal it stands behind what was read to find the fault; a
/// buffer that does not open as a response is left as it was.
pub fn parse_xsqlda(resp: &mut Bytes) -> (r: Result<PrepareInfo, FbError>)
    ensures
        is_suffix_of(unread(*final(resp)), unread(*old(resp))),
        match parse_response(unread(*old(resp))) {
            Ok((info, rest)) => r matches Ok(parsed) && parsed@ == info && unread(*final(resp))
                == rest,
            Err(reason) => is_refusal(r, reason),
        },
        unread(*final(resp)) == unread(*old(resp)).skip(
            read_of_response(unread(*old(resp))) as int,
        ),
        !has_prologue(unread(*old(resp))) ==> r is Err && unread(*final(resp)) == unread(
            *old(resp),
        ),
{
    let ghost s = unread(*resp);
    proof {
        lemma_suffix_whole(s);
        assert(s.skip(0) =~= s);
    }
    if remaining(resp) < 7 {
        return err_invalid_xsqlda(InvalidReason::TruncatedFrame);
    }
    let head = peek(resp);
    if !(head[0] == isc_info_sql_stmt_type && head[1] == 0x04 && head[2] == 0x00) {
        return err_invalid_xsqlda(InvalidReason::BadPrologue);
    }
    advance(resp, 3);

    let value: u32 = get_u32_le(resp);
    let ghost block = s.skip(7);
    proof {
        assert(unread(*resp) =~= block);
        lemma_suffix_skip(s, s, 7);
    }
    let stmt_type = match StmtType::from_u32(value) {
        Some(stmt_type) => stmt_type,
        None => {
            return err_invalid_xsqlda(InvalidReason::UnknownStatement { value });
        },
    };

    let mut xsqlda: Vec<XSqlVar> = Vec::new();
    assert(views(xsqlda@) =~= Seq::<XSqlVarView>::empty());

    let (truncated, param_count) = if opens_block_at(resp) {
        if remaining(resp) < 4 {
            return err_invalid_xsqlda(InvalidReason::TruncatedFrame);
        }
        advance(resp, 2);

        let width: u16 = get_u16_le(resp);
        let len: usize = width as usize;
        proof {
            assert(unread(*resp) =~= block.skip(4));
            assert(block.skip(4) =~= s.skip(11));
            lemma_suffix_skip(s, s, 11);
        }
        if remaining(resp) < len {
            return err_invalid_xsqlda(InvalidReason::TruncatedFrame);
        }
        if len > 8 {
            return err_invalid_xsqlda(InvalidReason::CountTooWide { width });
        }
        let col_len: u64 = get_uint_le(resp, len);
        let ghost items = block.skip((4 + len) as int);
        proof {
            assert(unread(*resp) =~= items);
            assert(items =~= s.skip(11 + len));
            lemma_suffix_skip(s, s, 11 + len);
        }
        // A column takes at least the seven bytes that announce it
        let room: usize = remaining(resp) / 7;
        xsqlda = Vec::with_capacity(
            if col_len < room as u64 {
                col_len as usize
            } else {
                room
            },
        );
        assert(views(xsqlda@) =~= Seq::<XSqlVarView>::empty());

        let described = parse_select_items(resp, &mut xsqlda);
        proof {
            lemma_items_read_in_bounds(DecodeState::initial(), items);
            let read = halt_of(DecodeState::initial(), items).read;
            assert(items.skip(read as int) =~= s.skip(11 + len + read));
            if described is Ok {
                lemma_items_rest_is_read(DecodeState::initial(), items);
            }
            lemma_suffix_skip(s, s, 11 + len + read);
        }
        described?
    } else {
        (false, 0)
    };

    Ok(PrepareInfo { stmt_type, xsqlda, param_count, truncated })
}

/// A run of items stops within the bytes it was given.
pub proof fn lemma_items_read_in_bounds(st: DecodeState, s: Seq<u8>)
    ensures
        halt_of(st, s).read <= s.len(),
    decreases s.len(),
{
    match decode_item(s) {
        Err(_) => {},
        Ok((item, n)) => {
            if !(item is End || item is Truncated) {
                match apply_item(st, item) {
                    Err(_) => {},
                    Ok(next) => {
                        lemma_items_read_in_bounds(next, s.skip(n as int));
                    },
                }
            }
        },
    }
}

/// What an accepted run of items leaves unread is what lies behind the
/// bytes it has read, and what it gathered is what it describes.
pub proof fn lemma_items_rest_is_read(st: DecodeState, s: Seq<u8>)
    requires
        run_items(st, s) is Ok,
    ensures
        run_items(st, s)->Ok_0.rest == s.skip(halt_of(st, s).read as int),
        run_items(st, s)->Ok_0.xsqlda == halt_of(st, s).xsqlda,
    decreases s.len(),
{
    let (item, n) = decode_item(s)->Ok_0;
    if !(item is End || item is Truncated) {
        let next = apply_item(st, item)->Ok_0;
        lemma_items_rest_is_read(next, s.skip(n as int));
        lemma_items_read_in_bounds(next, s.skip(n as int));
        let later = halt_of(next, s.skip(n as int)).read;
        assert(s.skip(n as int).skip(later as int) =~= s.skip((n + later) as int));
    }
}

/// Whether a block of items follows: the next two bytes are the codes for
/// "columns" and "count".
fn opens_block_at(resp: &Bytes) -> (b: bool)
    ensures
        b == opens_block(unread(*resp)),
{
    if remaining(resp) >= 2 {
        let head = peek(resp);
        head[0] == isc_info_sql_select && head[1] == isc_info_sql_describe_vars
    } else {
        false
    }
}

} // verus!
