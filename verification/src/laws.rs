//! What holds of decoding and encoding, whatever the input.

#![allow(non_upper_case_globals)]

use crate::response::{
    apply_item, count_width, decode_item, lossy_text, opens_block, parse_response, run_items,
    text_length_of, DecodeState, Item, Reading, TextField,
};
use crate::status::{FbError, InvalidReason};
use crate::buf::{le_bytes16, le_value, unread};
use crate::xsqlda::{
    blr_columns, blr_message, blr_of, first_unsupported, is_blr_of, lemma_first_unsupported,
    lemma_le_bytes16_value, views, XSqlVar, XSqlVarView,
};
use bytes::Bytes;
use vstd::prelude::*;

verus! {

/// Whether two descriptor lists agree, column by column, in type code and
/// length.
pub open spec fn same_layout(a: Seq<XSqlVarView>, b: Seq<XSqlVarView>) -> bool {
    &&& a.len() == b.len()
    &&& forall|i: int|
        0 <= i < a.len() ==> (#[trigger] a[i]).sqltype == b[i].sqltype && a[i].data_length
            == b[i].data_length
}

proof fn lemma_same_layout_columns(a: Seq<XSqlVarView>, b: Seq<XSqlVarView>)
    requires
        same_layout(a, b),
    ensures
        blr_columns(a) == blr_columns(b),
    decreases a.len(),
{
    if a.len() > 0 {
        assert(a.last().sqltype == a[a.len() - 1].sqltype);
        assert(same_layout(a.drop_last(), b.drop_last())) by {
            assert forall|i: int| 0 <= i < a.drop_last().len() implies (#[trigger] a.drop_last()[i]).sqltype
                == b.drop_last()[i].sqltype && a.drop_last()[i].data_length
                == b.drop_last()[i].data_length by {
                assert(a[i].sqltype == b[i].sqltype);
            }
        }
        lemma_same_layout_columns(a.drop_last(), b.drop_last());
    }
}

proof fn lemma_same_layout_unsupported(a: Seq<XSqlVarView>, b: Seq<XSqlVarView>)
    requires
        same_layout(a, b),
    ensures
        first_unsupported(a) == first_unsupported(b),
    decreases a.len(),
{
    if a.len() > 0 {
        assert(a[0].sqltype == b[0].sqltype);
        assert(same_layout(a.skip(1), b.skip(1))) by {
            assert forall|i: int| 0 <= i < a.skip(1).len() implies (#[trigger] a.skip(1)[i]).sqltype
                == b.skip(1)[i].sqltype && a.skip(1)[i].data_length == b.skip(1)[i].data_length by {
                assert(a[i + 1].sqltype == b[i + 1].sqltype);
            }
        }
        lemma_same_layout_unsupported(a.skip(1), b.skip(1));
    }
}

/// Encoding depends on nothing but the type code and the length of each
/// column, in their order: lists that agree in these are encoded to the same
/// bytes, or refused with the same error. The same list gives the same
/// bytes every time.
pub proof fn lemma_blr_same_for_same_layout(a: Seq<XSqlVarView>, b: Seq<XSqlVarView>)
    requires
        same_layout(a, b),
    ensures
        blr_of(a) == blr_of(b),
{
    lemma_same_layout_columns(a, b);
    lemma_same_layout_unsupported(a, b);
    match first_unsupported(a) {
        Some(i) => {
            lemma_first_unsupported_in_range(a);
            assert(a[i].sqltype == b[i].sqltype);
        },
        None => {},
    }
}

/// Determinism of encoding: whatever two encodings of lists of the same
/// layout give, they agree. Both are refused with the same error, or both
/// give the same bytes. So do two encodings of one list.
pub proof fn lemma_blr_calls_agree(
    a: Seq<XSqlVar>,
    b: Seq<XSqlVar>,
    first: Result<Bytes, FbError>,
    second: Result<Bytes, FbError>,
)
    requires
        same_layout(views(a), views(b)),
        is_blr_of(a, first),
        is_blr_of(b, second),
    ensures
        first is Ok <==> second is Ok,
        first is Ok ==> unread(first->Ok_0) == unread(second->Ok_0),
        first is Err ==> first->Err_0 == second->Err_0,
{
    lemma_blr_same_for_same_layout(views(a), views(b));
}

/// The position that `first_unsupported` finds lies in the list.
pub proof fn lemma_first_unsupported_in_range(xsqlda: Seq<XSqlVarView>)
    ensures
        first_unsupported(xsqlda) matches Some(i) ==> 0 <= i < xsqlda.len(),
    decreases xsqlda.len(),
{
    if xsqlda.len() > 0 {
        lemma_first_unsupported_in_range(xsqlda.skip(1));
    }
}

/// A list of descriptors that all have a category is encoded, and the
/// element count of its message, the 16-bit number behind the four opening
/// bytes, is twice the number of descriptors.
pub proof fn lemma_blr_counts_two_per_column(xsqlda: Seq<XSqlVarView>)
    requires
        xsqlda.len() <= 0x7fff,
        forall|i: int| 0 <= i < xsqlda.len() ==> (#[trigger] xsqlda[i]).column_type() is Some,
    ensures
        blr_of(xsqlda) is Ok,
        blr_of(xsqlda)->Ok_0.len() >= 8,
        le_value(blr_of(xsqlda)->Ok_0.subrange(4, 6)) == 2 * xsqlda.len(),
{
    lemma_first_unsupported(xsqlda, xsqlda.len() as int);
    let count: int = 2 * (xsqlda.len() as int);
    lemma_le_bytes16_value(count);
    assert(blr_message(xsqlda).subrange(4, 6) =~= le_bytes16(count));
}

/// The number of bytes that the response at the front of `s` takes up.
pub open spec fn response_length(s: Seq<u8>) -> int
    recommends
        parse_response(s) is Ok,
{
    s.len() - parse_response(s)->Ok_0.1.len()
}

/// An item that is cut short cannot be decoded; one that is whole is
/// decoded the same whatever follows it.
pub proof fn lemma_cut_item(s: Seq<u8>, m: int)
    requires
        decode_item(s) is Ok,
        0 <= m <= s.len(),
    ensures
        m < decode_item(s)->Ok_0.1 ==> decode_item(s.take(m)) == Err::<
            (Item, nat),
            InvalidReason,
        >(InvalidReason::TruncatedFrame),
        m >= decode_item(s)->Ok_0.1 ==> decode_item(s.take(m)) == decode_item(s),
{
    let t = s.take(m);
    if m > 0 {
        assert(t[0] == s[0]);
        if m >= 3 {
            assert(t.skip(1).take(2) =~= s.skip(1).take(2));
            let len = text_length_of(s);
            if m >= 3 + len {
                assert(t.skip(3).take(len as int) =~= s.skip(3).take(len as int));
            }
        }
        if m >= 7 {
            assert(t.skip(3).take(4) =~= s.skip(3).take(4));
        }
    }
}

/// A run of items that is cut anywhere before its last byte is refused
/// as truncated.
pub proof fn lemma_cut_items(st: DecodeState, s: Seq<u8>, m: int)
    requires
        run_items(st, s) is Ok,
        0 <= m < s.len() - run_items(st, s)->Ok_0.rest.len(),
    ensures
        run_items(st, s.take(m)) is Err,
        run_items(st, s.take(m))->Err_0 == InvalidReason::TruncatedFrame,
    decreases s.len(),
{
    let (item, n) = decode_item(s)->Ok_0;
    lemma_cut_item(s, m);
    if m >= n {
        if item is End || item is Truncated {
        } else {
            let next = apply_item(st, item)->Ok_0;
            assert(s.take(m).skip(n as int) =~= s.skip(n as int).take(m - n));
            lemma_cut_items(next, s.skip(n as int), m - n);
        }
    }
}

/// A response that is cut short is refused as truncated, unless the cut
/// leaves a response that is whole in itself.
///
/// Of a response of `n` bytes, the first `k < n` are refused, but for one
/// kind of cut: that which leaves the statement type and at most one byte
/// more, which is a response without a block of items.
pub proof fn lemma_cut_response_is_refused(s: Seq<u8>, k: int)
    requires
        parse_response(s) is Ok,
        0 <= k < response_length(s),
        !(7 <= k < 9),
    ensures
        parse_response(s.take(k)) is Err,
        parse_response(s.take(k))->Err_0 == InvalidReason::TruncatedFrame,
{
    let t = s.take(k);
    if k >= 7 {
        let block = s.skip(7);
        assert(t[0] == s[0] && t[1] == s[1] && t[2] == s[2]);
        assert(t.skip(3).take(4) =~= s.skip(3).take(4));
        assert(t.skip(7) =~= block.take(k - 7));
        let cut = block.take(k - 7);
        assert(cut[0] == block[0] && cut[1] == block[1]);
        assert(opens_block(block));
        let width = count_width(block);
        if k >= 11 {
            assert(cut.skip(2).take(2) =~= block.skip(2).take(2));
        }
        if k >= 11 + width {
            let items = block.skip((4 + width) as int);
            assert(cut.skip((4 + width) as int) =~= items.take(k - 11 - width));
            lemma_cut_items(DecodeState::initial(), items, k - 11 - width);
        }
    }
}

/// The items at the front of `s`, up to and with the first that ends the
/// data, or up to where no item can be decoded.
pub open spec fn items_read(s: Seq<u8>) -> Seq<Item>
    decreases s.len(),
{
    match decode_item(s) {
        Err(_) => Seq::empty(),
        Ok((item, n)) => if item is End || item is Truncated {
            seq![item]
        } else {
            seq![item] + items_read(s.skip(n as int))
        },
    }
}

/// The items of the response `s`: those of its block, if it has one.
pub open spec fn response_items(s: Seq<u8>) -> Seq<Item> {
    let block = s.skip(7);
    if opens_block(block) {
        items_read(block.skip((4 + count_width(block)) as int))
    } else {
        Seq::empty()
    }
}

/// What a reader of the items knows who follows only the indices that the
/// server sends: whether columns or parameters are being described, the
/// index of the column announced last, and the text sent last for the name
/// and the column that the reader watches.
pub struct Watch {
    pub reading: Reading,
    pub index: int,
    pub text: Seq<char>,
}

/// What the reader knows after `item`, when watching for `name` of the
/// column with index `column`.
pub open spec fn watch_item(watch: Watch, item: Item, name: TextField, column: int) -> Watch {
    match item {
        Item::Select => Watch { reading: Reading::Column, ..watch },
        Item::Bind => Watch { reading: Reading::Param, ..watch },
        Item::SqldaSeq { index } => match watch.reading {
            Reading::Column => Watch { index: index as int, ..watch },
            Reading::Param => watch,
        },
        Item::Text { name: sent, bytes } => if sent == name && watch.index == column {
            Watch { text: lossy_text(bytes), ..watch }
        } else {
            watch
        },
        _ => watch,
    }
}

/// The text that the reader has seen last for what it watches, once it has
/// read all of `items`.
pub open spec fn watch_items(watch: Watch, items: Seq<Item>, name: TextField, column: int) -> Seq<
    char,
>
    decreases items.len(),
{
    if items.len() == 0 {
        watch.text
    } else {
        watch_items(watch_item(watch, items[0], name, column), items.skip(1), name, column)
    }
}

/// The text that `items` give for `name` of the column with index `column`:
/// that of the last such name sent while that column was the one announced
/// last, and nothing if none was sent.
pub open spec fn name_sent(items: Seq<Item>, name: TextField, column: int) -> Seq<char> {
    watch_items(
        Watch { reading: Reading::Column, index: 0, text: Seq::empty() },
        items,
        name,
        column,
    )
}

/// The name `name` of a descriptor.
pub open spec fn name_of(var: XSqlVarView, name: TextField) -> Seq<char> {
    match name {
        TextField::Field => var.field_name,
        TextField::Relation => var.relation_name,
        TextField::Owner => var.owner_name,
        TextField::Alias => var.alias_name,
    }
}

/// Whether the reader who watches `name` of column `column` knows of it
/// what the decoder in state `st` holds of it.
pub open spec fn watch_agrees(watch: Watch, st: DecodeState, name: TextField, column: int) -> bool {
    &&& watch.reading == st.reading
    &&& watch.index == st.xsqlda.len()
    &&& watch.text == if column <= st.xsqlda.len() {
        name_of(st.xsqlda[column - 1], name)
    } else {
        Seq::empty()
    }
}

proof fn lemma_watch_step(
    watch: Watch,
    st: DecodeState,
    item: Item,
    name: TextField,
    column: int,
)
    requires
        column >= 1,
        watch_agrees(watch, st, name, column),
        apply_item(st, item) is Ok,
    ensures
        watch_agrees(watch_item(watch, item, name, column), apply_item(st, item)->Ok_0, name, column),
        apply_item(st, item)->Ok_0.xsqlda.len() >= st.xsqlda.len(),
{
}

proof fn lemma_watch_run(watch: Watch, st: DecodeState, s: Seq<u8>, name: TextField, column: int)
    requires
        column >= 1,
        watch_agrees(watch, st, name, column),
        run_items(st, s) is Ok,
    ensures
        run_items(st, s)->Ok_0.xsqlda.len() >= st.xsqlda.len(),
        column <= run_items(st, s)->Ok_0.xsqlda.len() ==> name_of(
            run_items(st, s)->Ok_0.xsqlda[column - 1],
            name,
        ) == watch_items(watch, items_read(s), name, column),
    decreases s.len(),
{
    let (item, n) = decode_item(s)->Ok_0;
    let items = items_read(s);
    assert(items[0] == item);
    if item is End || item is Truncated {
        assert(items.skip(1) =~= Seq::<Item>::empty());
        assert(watch_items(watch_item(watch, item, name, column), items.skip(1), name, column)
            == watch.text);
    } else {
        let next = apply_item(st, item)->Ok_0;
        lemma_watch_step(watch, st, item, name, column);
        assert(items.skip(1) =~= items_read(s.skip(n as int)));
        lemma_watch_run(watch_item(watch, item, name, column), next, s.skip(n as int), name, column);
    }
}

/// Index alignment: the descriptor at position `i` holds, for each of its
/// four names, the text that the server sent last for that name while the
/// column of index `i + 1` was the one it had announced last; and nothing
/// where it sent none.
pub proof fn lemma_names_follow_index(s: Seq<u8>, i: int, name: TextField)
    requires
        parse_response(s) is Ok,
        0 <= i < parse_response(s)->Ok_0.0.xsqlda.len(),
    ensures
        name_of(parse_response(s)->Ok_0.0.xsqlda[i], name) == name_sent(
            response_items(s),
            name,
            i + 1,
        ),
{
    let block = s.skip(7);
    let items = block.skip((4 + count_width(block)) as int);
    let watch = Watch { reading: Reading::Column, index: 0, text: Seq::empty() };
    lemma_watch_run(watch, DecodeState::initial(), items, name, i + 1);
}

} // verus!
