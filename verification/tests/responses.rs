use bytes::Bytes;
use rsfbclient::{parse_xsqlda, FbError, InvalidReason, PrepareInfo, StmtType, XSqlVar};

const END: u8 = 1;
const TRUNCATED: u8 = 2;
const SELECT: u8 = 4;
const BIND: u8 = 5;
const DESCRIBE_VARS: u8 = 7;
const DESCRIBE_END: u8 = 8;
const SQLDA_SEQ: u8 = 9;
const TYPE: u8 = 11;
const SUB_TYPE: u8 = 12;
const SCALE: u8 = 13;
const LENGTH: u8 = 14;
const NULL_IND: u8 = 15;
const FIELD: u8 = 16;
const RELATION: u8 = 17;
const OWNER: u8 = 18;
const ALIAS: u8 = 19;

fn word(code: u8, value: i32) -> Vec<u8> {
    let mut item = vec![code, 4, 0];
    item.extend_from_slice(&value.to_le_bytes());
    item
}

fn text(code: u8, value: &[u8]) -> Vec<u8> {
    let mut item = vec![code];
    item.extend_from_slice(&(value.len() as u16).to_le_bytes());
    item.extend_from_slice(value);
    item
}

fn prologue(stmt_type: u32) -> Vec<u8> {
    let mut bytes = vec![21, 4, 0];
    bytes.extend_from_slice(&stmt_type.to_le_bytes());
    bytes
}

fn block(columns: u32) -> Vec<u8> {
    let mut bytes = vec![SELECT, DESCRIBE_VARS, 4, 0];
    bytes.extend_from_slice(&columns.to_le_bytes());
    bytes
}

fn response(stmt_type: u32, columns: u32, items: &[Vec<u8>]) -> Vec<u8> {
    let mut bytes = prologue(stmt_type);
    bytes.extend(block(columns));
    for item in items {
        bytes.extend_from_slice(item);
    }
    bytes
}

fn parse(bytes: &[u8]) -> (Result<PrepareInfo, FbError>, usize) {
    let mut resp = Bytes::from(bytes.to_vec());
    let parsed = parse_xsqlda(&mut resp);
    (parsed, resp.len())
}

fn refusal(bytes: &[u8]) -> InvalidReason {
    match parse(bytes).0 {
        Err(FbError::InvalidResponse { reason }) => reason,
        other => panic!("{:?}", other),
    }
}

fn one_text_column() -> Vec<u8> {
    response(
        1,
        1,
        &[
            word(SQLDA_SEQ, 1),
            word(TYPE, 448),
            word(LENGTH, 32),
            text(FIELD, b"NAME"),
            vec![DESCRIBE_END],
            vec![END],
        ],
    )
}

#[test]
fn empty_select() {
    let (parsed, left) = parse(&[0x15, 0x04, 0x00, 0x01, 0x00, 0x00, 0x00]);
    assert_eq!(
        parsed,
        Ok(PrepareInfo {
            stmt_type: StmtType::Select,
            xsqlda: vec![],
            param_count: 0,
            truncated: false,
        })
    );
    assert_eq!(left, 0);
}

#[test]
fn one_text_column_is_described() {
    let (parsed, left) = parse(&one_text_column());
    let mut info = parsed.unwrap();
    assert_eq!(left, 0);
    assert_eq!(info.stmt_type, StmtType::Select);
    assert_eq!(info.param_count, 0);
    assert!(!info.truncated);
    assert_eq!(info.xsqlda.len(), 1);
    let mut expected = XSqlVar::default();
    expected.sqltype = 448;
    expected.data_length = 32;
    expected.field_name = String::from("NAME");
    assert_eq!(info.xsqlda[0], expected);
    assert_eq!(info.xsqlda[0].coerce(), Ok(()));
    assert_eq!(info.xsqlda[0].sqltype, 1);
    assert_eq!(info.xsqlda[0].data_length, 32);
    assert_eq!(info.xsqlda[0].field_name, "NAME");
}

#[test]
fn every_property_of_a_column_is_read() {
    let bytes = response(
        1,
        1,
        &[
            word(SQLDA_SEQ, 1),
            word(TYPE, 497),
            word(SUB_TYPE, 1),
            word(SCALE, -2),
            word(LENGTH, 4),
            word(NULL_IND, -1),
            text(FIELD, b"PRICE"),
            text(RELATION, b"ITEMS"),
            text(OWNER, b"SYSDBA"),
            text(ALIAS, b"P"),
            vec![DESCRIBE_END],
            vec![END],
        ],
    );
    let info = parse(&bytes).0.unwrap();
    assert_eq!(
        info.xsqlda,
        vec![XSqlVar {
            sqltype: 497,
            scale: -2,
            sqlsubtype: 1,
            data_length: 4,
            null_ind: true,
            field_name: String::from("PRICE"),
            relation_name: String::from("ITEMS"),
            owner_name: String::from("SYSDBA"),
            alias_name: String::from("P"),
        }]
    );
}

#[test]
fn numbers_keep_their_low_sixteen_bits() {
    let bytes = response(
        1,
        1,
        &[
            word(SQLDA_SEQ, 1),
            word(TYPE, 0x0001_01c0),
            word(SCALE, 0x7fff_8000u32 as i32),
            word(LENGTH, 0xffff),
            word(NULL_IND, 0),
            vec![END],
        ],
    );
    let info = parse(&bytes).0.unwrap();
    assert_eq!(info.xsqlda[0].sqltype, 448);
    assert_eq!(info.xsqlda[0].scale, i16::MIN);
    assert_eq!(info.xsqlda[0].data_length, -1);
    assert!(!info.xsqlda[0].null_ind);
}

#[test]
fn null_indicator_is_set_by_any_number_but_zero() {
    for (sent, expected) in [(0, false), (1, true), (-1, true), (0x10000, true)] {
        let bytes = response(1, 1, &[word(SQLDA_SEQ, 1), word(NULL_IND, sent), vec![END]]);
        assert_eq!(parse(&bytes).0.unwrap().xsqlda[0].null_ind, expected);
    }
}

#[test]
fn later_items_replace_earlier_ones() {
    let bytes = response(
        1,
        1,
        &[
            word(SQLDA_SEQ, 1),
            word(TYPE, 448),
            text(FIELD, b"FIRST"),
            word(TYPE, 452),
            text(FIELD, b"SECOND"),
            vec![END],
        ],
    );
    let info = parse(&bytes).0.unwrap();
    assert_eq!(info.xsqlda[0].sqltype, 452);
    assert_eq!(info.xsqlda[0].field_name, "SECOND");
}

#[test]
fn names_that_are_not_utf8_are_empty() {
    let bytes = response(
        1,
        1,
        &[
            word(SQLDA_SEQ, 1),
            text(FIELD, b"GOOD"),
            text(FIELD, &[0xff, 0xfe]),
            text(ALIAS, &[0xc3, 0xa9]),
            text(OWNER, &[0xc3]),
            text(RELATION, &[0xed, 0xa0, 0x80]),
            vec![END],
        ],
    );
    let info = parse(&bytes).0.unwrap();
    assert_eq!(info.xsqlda[0].field_name, "");
    assert_eq!(info.xsqlda[0].alias_name, "\u{e9}");
    assert_eq!(info.xsqlda[0].owner_name, "");
    assert_eq!(info.xsqlda[0].relation_name, "");
}

#[test]
fn empty_names_are_read() {
    let bytes = response(1, 1, &[word(SQLDA_SEQ, 1), text(FIELD, b""), vec![END]]);
    let (parsed, left) = parse(&bytes);
    assert_eq!(parsed.unwrap().xsqlda[0].field_name, "");
    assert_eq!(left, 0);
}

#[test]
fn descriptors_stand_at_their_index() {
    let bytes = response(
        1,
        3,
        &[
            word(SQLDA_SEQ, 1),
            text(FIELD, b"A"),
            text(RELATION, b"RA"),
            vec![DESCRIBE_END],
            word(SQLDA_SEQ, 2),
            text(OWNER, b"OB"),
            text(FIELD, b"B"),
            vec![DESCRIBE_END],
            word(SQLDA_SEQ, 3),
            text(ALIAS, b"CC"),
            vec![DESCRIBE_END],
            vec![END],
        ],
    );
    let info = parse(&bytes).0.unwrap();
    assert_eq!(info.xsqlda.len(), 3);
    assert_eq!(info.xsqlda[0].field_name, "A");
    assert_eq!(info.xsqlda[0].relation_name, "RA");
    assert_eq!(info.xsqlda[0].owner_name, "");
    assert_eq!(info.xsqlda[1].field_name, "B");
    assert_eq!(info.xsqlda[1].owner_name, "OB");
    assert_eq!(info.xsqlda[1].relation_name, "");
    assert_eq!(info.xsqlda[2].field_name, "");
    assert_eq!(info.xsqlda[2].alias_name, "CC");
}

#[test]
fn truncation_is_no_error() {
    let bytes = response(
        1,
        3,
        &[
            word(SQLDA_SEQ, 1),
            word(TYPE, 496),
            vec![DESCRIBE_END],
            word(SQLDA_SEQ, 2),
            vec![TRUNCATED],
        ],
    );
    let (parsed, left) = parse(&bytes);
    let info = parsed.unwrap();
    assert!(info.truncated);
    assert_eq!(info.xsqlda.len(), 2);
    assert_eq!(info.xsqlda[0].sqltype, 496);
    assert_eq!(info.xsqlda[1], XSqlVar::default());
    assert_eq!(left, 0);
}

#[test]
fn parameters_are_counted() {
    let bytes = response(
        2,
        0,
        &[
            vec![BIND],
            word(DESCRIBE_VARS, 3),
            word(SQLDA_SEQ, 1),
            vec![DESCRIBE_END],
            word(SQLDA_SEQ, 7),
            word(SQLDA_SEQ, 0),
            vec![DESCRIBE_END],
            vec![END],
        ],
    );
    let info = parse(&bytes).0.unwrap();
    assert_eq!(info.stmt_type, StmtType::Insert);
    assert_eq!(info.param_count, 3);
    assert_eq!(info.xsqlda, vec![]);
    assert!(!info.truncated);
}

#[test]
fn a_count_of_columns_is_not_a_count_of_parameters() {
    let bytes = response(1, 1, &[word(DESCRIBE_VARS, 9), word(SQLDA_SEQ, 1), vec![END]]);
    let info = parse(&bytes).0.unwrap();
    assert_eq!(info.param_count, 0);
    assert_eq!(info.xsqlda.len(), 1);
}

#[test]
fn select_switches_back_to_columns() {
    let bytes = response(
        1,
        1,
        &[
            vec![BIND],
            word(DESCRIBE_VARS, 2),
            vec![SELECT],
            word(DESCRIBE_VARS, 5),
            word(SQLDA_SEQ, 1),
            vec![END],
        ],
    );
    let info = parse(&bytes).0.unwrap();
    assert_eq!(info.param_count, 2);
    assert_eq!(info.xsqlda.len(), 1);
}

#[test]
fn properties_sent_with_parameters_go_to_the_current_column() {
    let bytes = response(
        1,
        1,
        &[word(SQLDA_SEQ, 1), vec![BIND], word(SQLDA_SEQ, 1), word(TYPE, 496), vec![END]],
    );
    let info = parse(&bytes).0.unwrap();
    assert_eq!(info.xsqlda.len(), 1);
    assert_eq!(info.xsqlda[0].sqltype, 496);
}

#[test]
fn every_statement_type_is_decoded() {
    let kinds = [
        StmtType::Select,
        StmtType::Insert,
        StmtType::Update,
        StmtType::Delete,
        StmtType::DDL,
        StmtType::GetSegment,
        StmtType::PutSegment,
        StmtType::ExecProcedure,
        StmtType::StartTrans,
        StmtType::Commit,
        StmtType::Rollback,
        StmtType::SelectForUpd,
        StmtType::SetGenerator,
        StmtType::Savepoint,
    ];
    for (i, kind) in kinds.iter().enumerate() {
        let value = i as u32 + 1;
        assert_eq!(StmtType::from_u32(value), Some(*kind));
        assert_eq!(kind.as_u32(), value);
        assert_eq!(parse(&prologue(value)).0.unwrap().stmt_type, *kind);
    }
    assert_eq!(StmtType::from_u32(0), None);
    assert_eq!(StmtType::from_u32(15), None);
    assert_eq!(StmtType::from_u32(u32::MAX), None);
}

#[test]
fn bytes_after_the_response_are_left_unread() {
    let mut bytes = one_text_column();
    bytes.extend_from_slice(&[9, 9, 9]);
    let mut resp = Bytes::from(bytes);
    let info = parse_xsqlda(&mut resp).unwrap();
    assert_eq!(info.xsqlda.len(), 1);
    assert_eq!(&resp[..], &[9, 9, 9]);
}

#[test]
fn what_follows_the_statement_type_is_left_unread_without_a_block() {
    let mut bytes = prologue(5);
    bytes.extend_from_slice(&[BIND, DESCRIBE_VARS, 4, 0, 1]);
    let mut resp = Bytes::from(bytes);
    let info = parse_xsqlda(&mut resp).unwrap();
    assert_eq!(info.stmt_type, StmtType::DDL);
    assert_eq!(info.xsqlda, vec![]);
    assert_eq!(info.param_count, 0);
    assert_eq!(&resp[..], &[BIND, DESCRIBE_VARS, 4, 0, 1]);
}

#[test]
fn a_block_that_ends_before_the_width_of_its_count_is_refused() {
    for tail in [&[SELECT, DESCRIBE_VARS][..], &[SELECT, DESCRIBE_VARS, 4][..]] {
        let mut bytes = prologue(1);
        bytes.extend_from_slice(tail);
        let (parsed, left) = parse(&bytes);
        assert_eq!(
            parsed,
            Err(FbError::InvalidResponse { reason: InvalidReason::TruncatedFrame })
        );
        assert_eq!(left, tail.len());
    }
}

#[test]
fn one_byte_after_the_statement_type_opens_no_block() {
    let mut bytes = prologue(1);
    bytes.push(SELECT);
    let (parsed, left) = parse(&bytes);
    assert_eq!(
        parsed,
        Ok(PrepareInfo {
            stmt_type: StmtType::Select,
            xsqlda: vec![],
            param_count: 0,
            truncated: false,
        })
    );
    assert_eq!(left, 1);
}

#[test]
fn a_block_that_ends_with_the_count_is_refused() {
    let (parsed, left) = parse(&response(1, 2, &[]));
    assert_eq!(
        parsed,
        Err(FbError::InvalidResponse { reason: InvalidReason::TruncatedFrame })
    );
    assert_eq!(left, 0);
    let cut = [0x15, 4, 0, 1, 0, 0, 0, 4, 7, 4, 0, 1, 0, 0, 0];
    assert_eq!(refusal(&cut), InvalidReason::TruncatedFrame);
}

#[test]
fn the_count_may_be_of_any_width_up_to_eight() {
    for width in 0u8..=8 {
        let mut bytes = prologue(1);
        bytes.extend_from_slice(&[SELECT, DESCRIBE_VARS, width, 0]);
        bytes.extend(std::iter::repeat(0xff).take(width as usize));
        bytes.extend(word(SQLDA_SEQ, 1));
        bytes.push(END);
        let (parsed, left) = parse(&bytes);
        assert_eq!(parsed.unwrap().xsqlda.len(), 1);
        assert_eq!(left, 0);
    }
}

#[test]
fn a_count_wider_than_eight_bytes_is_refused() {
    let mut bytes = prologue(1);
    bytes.extend_from_slice(&[SELECT, DESCRIBE_VARS, 9, 0]);
    bytes.extend_from_slice(&[0; 9]);
    bytes.push(END);
    assert_eq!(refusal(&bytes), InvalidReason::CountTooWide { width: 9 });
}

#[test]
fn a_count_that_is_cut_short_is_refused() {
    let mut bytes = prologue(1);
    bytes.extend_from_slice(&[SELECT, DESCRIBE_VARS, 4, 0, 1, 0, 0]);
    assert_eq!(refusal(&bytes), InvalidReason::TruncatedFrame);
    let mut wide = prologue(1);
    wide.extend_from_slice(&[SELECT, DESCRIBE_VARS, 0xff, 0xff, 1, 0, 0]);
    assert_eq!(refusal(&wide), InvalidReason::TruncatedFrame);
}

#[test]
fn short_buffers_are_refused() {
    for len in 0..7 {
        assert_eq!(refusal(&prologue(1)[..len]), InvalidReason::TruncatedFrame);
    }
}

#[test]
fn a_wrong_prologue_is_refused() {
    assert_eq!(refusal(&[20, 4, 0, 1, 0, 0, 0]), InvalidReason::BadPrologue);
    assert_eq!(refusal(&[21, 5, 0, 1, 0, 0, 0]), InvalidReason::BadPrologue);
    assert_eq!(refusal(&[21, 4, 1, 1, 0, 0, 0]), InvalidReason::BadPrologue);
}

#[test]
fn an_unknown_statement_type_is_refused() {
    assert_eq!(refusal(&prologue(0)), InvalidReason::UnknownStatement { value: 0 });
    assert_eq!(refusal(&prologue(15)), InvalidReason::UnknownStatement { value: 15 });
    assert_eq!(
        refusal(&prologue(0x0100_0001)),
        InvalidReason::UnknownStatement { value: 0x0100_0001 }
    );
}

#[test]
fn an_unknown_item_is_refused() {
    for code in [0u8, 3, 6, 10, 20, 21, 22, 255] {
        let bytes = response(1, 1, &[word(SQLDA_SEQ, 1), vec![code], vec![END]]);
        assert_eq!(refusal(&bytes), InvalidReason::UnknownItem { code });
    }
}

#[test]
fn a_property_without_a_column_is_refused() {
    for code in [TYPE, SUB_TYPE, SCALE, LENGTH, NULL_IND] {
        let bytes = response(1, 1, &[word(code, 1), vec![END]]);
        assert_eq!(refusal(&bytes), InvalidReason::NoColumn);
    }
    for code in [FIELD, RELATION, OWNER, ALIAS] {
        let bytes = response(1, 1, &[text(code, b"X"), vec![END]]);
        assert_eq!(refusal(&bytes), InvalidReason::NoColumn);
    }
}

#[test]
fn columns_out_of_sequence_are_refused() {
    let first = response(1, 2, &[word(SQLDA_SEQ, 2), vec![END]]);
    assert_eq!(refusal(&first), InvalidReason::OutOfSequence { index: 2 });
    let zero = response(1, 2, &[word(SQLDA_SEQ, 0), vec![END]]);
    assert_eq!(refusal(&zero), InvalidReason::OutOfSequence { index: 0 });
    let twice = response(1, 2, &[word(SQLDA_SEQ, 1), word(SQLDA_SEQ, 1), vec![END]]);
    assert_eq!(refusal(&twice), InvalidReason::OutOfSequence { index: 1 });
    let gap = response(1, 3, &[word(SQLDA_SEQ, 1), word(SQLDA_SEQ, 3), vec![END]]);
    assert_eq!(refusal(&gap), InvalidReason::OutOfSequence { index: 3 });
}

#[test]
fn a_missing_end_is_refused() {
    let bytes = response(1, 1, &[word(SQLDA_SEQ, 1), vec![DESCRIBE_END]]);
    assert_eq!(refusal(&bytes), InvalidReason::TruncatedFrame);
}

#[test]
fn a_text_longer_than_the_buffer_is_refused() {
    let mut bytes = response(1, 1, &[word(SQLDA_SEQ, 1)]);
    bytes.extend_from_slice(&[FIELD, 5, 0, b'N', b'A', b'M', b'E']);
    assert_eq!(refusal(&bytes), InvalidReason::TruncatedFrame);
    let mut header = response(1, 1, &[word(SQLDA_SEQ, 1)]);
    header.extend_from_slice(&[FIELD, 5]);
    assert_eq!(refusal(&header), InvalidReason::TruncatedFrame);
}

#[test]
fn a_shortage_is_reported_before_a_missing_column() {
    let mut bytes = response(1, 1, &[]);
    bytes.extend_from_slice(&[TYPE, 4, 0, 1, 0, 0]);
    assert_eq!(refusal(&bytes), InvalidReason::TruncatedFrame);
}

#[test]
fn cut_responses_are_refused() {
    let whole = response(
        1,
        2,
        &[
            word(SQLDA_SEQ, 1),
            word(TYPE, 448),
            word(LENGTH, 32),
            text(FIELD, b"NAME"),
            vec![DESCRIBE_END],
            word(SQLDA_SEQ, 2),
            word(TYPE, 496),
            text(ALIAS, b"N"),
            vec![DESCRIBE_END],
            vec![BIND],
            word(DESCRIBE_VARS, 1),
            word(SQLDA_SEQ, 1),
            vec![DESCRIBE_END],
            vec![END],
        ],
    );
    assert!(parse(&whole).0.is_ok());
    for len in 0..whole.len() {
        let (parsed, left) = parse(&whole[..len]);
        let complete = (7..=8).contains(&len);
        assert_eq!(parsed.is_ok(), complete, "{}", len);
        assert!(left <= len);
        if !complete {
            assert_eq!(
                parsed,
                Err(FbError::InvalidResponse { reason: InvalidReason::TruncatedFrame })
            );
        }
    }
}

#[test]
fn the_cursor_never_moves_backwards_or_past_the_end() {
    let whole = one_text_column();
    for len in 0..=whole.len() {
        for flip in 0..len {
            let mut bytes = whole[..len].to_vec();
            bytes[flip] ^= 0x55;
            let (_, left) = parse(&bytes);
            assert!(left <= len);
        }
    }
}

fn refused_with_left(bytes: &[u8]) -> (InvalidReason, usize) {
    match parse(bytes) {
        (Err(FbError::InvalidResponse { reason }), left) => (reason, left),
        other => panic!("{:?}", other),
    }
}

#[test]
fn a_buffer_that_does_not_open_as_a_response_is_left_as_it_was() {
    assert_eq!(refused_with_left(&[0x15, 4, 0, 1, 0, 0]), (InvalidReason::TruncatedFrame, 6));
    assert_eq!(refused_with_left(&[]), (InvalidReason::TruncatedFrame, 0));
    assert_eq!(refused_with_left(&[0x15, 2, 0, 1, 0, 0, 0]), (InvalidReason::BadPrologue, 7));
    assert_eq!(
        refused_with_left(&[0x14, 4, 0, 1, 0, 0, 0, 9, 9]),
        (InvalidReason::BadPrologue, 9)
    );
}

#[test]
fn an_unknown_statement_type_is_read_before_it_is_refused() {
    let mut bytes = prologue(99);
    bytes.extend_from_slice(&[1, 2, 3]);
    assert_eq!(refused_with_left(&bytes), (InvalidReason::UnknownStatement { value: 99 }, 3));
}

#[test]
fn a_faulty_count_is_refused_behind_its_width() {
    let mut short = prologue(1);
    short.extend_from_slice(&[SELECT, DESCRIBE_VARS, 4, 0, 1, 0, 0]);
    assert_eq!(refused_with_left(&short), (InvalidReason::TruncatedFrame, 3));
    let mut wide = prologue(1);
    wide.extend_from_slice(&[SELECT, DESCRIBE_VARS, 9, 0]);
    wide.extend_from_slice(&[0; 12]);
    assert_eq!(refused_with_left(&wide), (InvalidReason::CountTooWide { width: 9 }, 12));
}

#[test]
fn an_item_that_cannot_be_decoded_is_refused_behind_what_was_read_of_it() {
    // Nothing is left to read
    let ended = response(1, 1, &[word(SQLDA_SEQ, 1)]);
    assert_eq!(refused_with_left(&ended), (InvalidReason::TruncatedFrame, 0));
    // An unknown code is read
    let unknown = response(1, 1, &[word(SQLDA_SEQ, 1), vec![3, 7, 7]]);
    assert_eq!(refused_with_left(&unknown), (InvalidReason::UnknownItem { code: 3 }, 2));
    // Of a number that is cut short the code is read
    let number = response(1, 1, &[word(SQLDA_SEQ, 1), vec![TYPE, 4, 0, 1, 0, 0]]);
    assert_eq!(refused_with_left(&number), (InvalidReason::TruncatedFrame, 5));
    // Of a name whose length is cut short the code is read
    let length = response(1, 1, &[word(SQLDA_SEQ, 1), vec![FIELD, 4]]);
    assert_eq!(refused_with_left(&length), (InvalidReason::TruncatedFrame, 1));
    // Of a name whose text is cut short the code and the length are read
    let name = response(1, 1, &[word(SQLDA_SEQ, 1), vec![FIELD, 4, 0, b'N', b'A']]);
    assert_eq!(refused_with_left(&name), (InvalidReason::TruncatedFrame, 2));
}

#[test]
fn an_item_that_is_refused_has_been_read_whole() {
    let number = response(1, 1, &[word(TYPE, 448), vec![END]]);
    assert_eq!(refused_with_left(&number), (InvalidReason::NoColumn, 1));
    let name = response(1, 1, &[text(ALIAS, b"A"), vec![END, 5]]);
    assert_eq!(refused_with_left(&name), (InvalidReason::NoColumn, 2));
    let index = response(1, 2, &[word(SQLDA_SEQ, 1), word(SQLDA_SEQ, 3), vec![END, 5, 5]]);
    assert_eq!(refused_with_left(&index), (InvalidReason::OutOfSequence { index: 3 }, 3));
}
