use atcontroller::atres::{ATResponse, ResponseType};

#[test]
fn last_line_decides_the_category() {
    assert_eq!(ATResponse::from_bytes(b"+QINISTAT: 3\r\nOK\r\n").response_type, ResponseType::OK);
    assert_eq!(ATResponse::from_bytes(b"ERROR\r\n").response_type, ResponseType::ERROR);
    assert_eq!(
        ATResponse::from_bytes(b"+QMTRECV: 0,1,\"SUBONE/start\",5,hello\r\n").response_type,
        ResponseType::MESSAGE
    );
    assert_eq!(ATResponse::from_bytes(b"+QMTSTAT: 0,1\r\n").response_type, ResponseType::MQTTSTAT);
    assert_eq!(ATResponse::from_bytes(b"+QMTPING: 0\r\n").response_type, ResponseType::MQTTPING);
    assert_eq!(ATResponse::from_bytes(b"+QMTOPEN: 0,0\r\n").response_type, ResponseType::QMTOPEN);
    assert_eq!(ATResponse::from_bytes(b"+QMTCONN: 0,0,0\r\n").response_type, ResponseType::QMTCONN);
    assert_eq!(ATResponse::from_bytes(b"+QMTSUB: 0,1,0\r\n").response_type, ResponseType::QMTSUB);
    assert_eq!(
        ATResponse::from_bytes(b"+QMTPUBEX: 0,1,0\r\n").response_type,
        ResponseType::PUBRESPONSE
    );
    assert_eq!(ATResponse::from_bytes(b"+CPIN: READY\r\n").response_type, ResponseType::URC);
    assert_eq!(ATResponse::from_bytes(b">").response_type, ResponseType::REPLY);
    assert_eq!(ATResponse::from_bytes(b"RDY\r\n").response_type, ResponseType::UNKNOWN);
}

#[test]
fn two_kept_lines_right_aligned() {
    let r = ATResponse::from_bytes(b"+QINISTAT: 3\r\nOK\r\n");
    assert_eq!(r.response_vec.len(), 2);
    assert_eq!(r.response_vec[0], b"+QINISTAT: 3");
    assert_eq!(r.response_vec[1], b"OK");
    assert_eq!(r.response, b"+QINISTAT: 3");
}

#[test]
fn a_single_line_leaves_the_sentinel_in_front() {
    let r = ATResponse::from_bytes(b"OK\r\n");
    assert_eq!(r.response_vec[0], b"MANA");
    assert_eq!(r.response_vec[1], b"OK");
    assert_eq!(r.response, b"MANA");
}

#[test]
fn more_than_two_lines_keep_only_the_last_two() {
    let r = ATResponse::from_bytes(b"first\r\n+CSQ: 23,99\r\nOK\r\n");
    assert_eq!(r.response_vec[0], b"+CSQ: 23,99");
    assert_eq!(r.response_vec[1], b"OK");
    assert_eq!(r.response_type, ResponseType::OK);
}

#[test]
fn empty_segments_are_dropped() {
    let r = ATResponse::from_bytes(b"\r\n\r\n+CSQ: 23,99\r\n\r\nOK\r\n");
    assert_eq!(r.response_vec[0], b"+CSQ: 23,99");
    assert_eq!(r.response_vec[1], b"OK");
}

#[test]
fn an_empty_read_is_unknown() {
    let r = ATResponse::from_bytes(b"");
    assert_eq!(r.response_type, ResponseType::UNKNOWN);
    assert_eq!(r.response_vec[0], b"MANA");
    assert_eq!(r.response_vec[1], b"MANA");
}

#[test]
fn crlf_only_reads_are_unknown() {
    let r = ATResponse::from_bytes(b"\r\n\r\n");
    assert_eq!(r.response_type, ResponseType::UNKNOWN);
    assert_eq!(r.response_vec[0], b"MANA");
    assert_eq!(r.response_vec[1], b"MANA");
}

#[test]
fn undecodable_bytes_are_unknown() {
    let r = ATResponse::from_bytes(b"OK\r\n\xff");
    assert_eq!(r.response_type, ResponseType::UNKNOWN);
    assert_eq!(r.response_vec[0], b"MANA");
    assert_eq!(r.response_vec[1], b"MANA");
}

#[test]
fn classification_trims_the_last_line() {
    let r = ATResponse::from_bytes(b"  OK  \r\n");
    assert_eq!(r.response_type, ResponseType::OK);
}

#[test]
fn multibyte_text_still_classifies() {
    let r = ATResponse::from_bytes("señal\r\nOK\r\n".as_bytes());
    assert_eq!(r.response_type, ResponseType::OK);
    assert_eq!(r.response_vec[0], "señal".as_bytes());
}

#[test]
fn utf8_validity_matches_the_standard_library() {
    let cases: [&[u8]; 10] = [
        b"plain ascii",
        "señal ☃ \u{10348}".as_bytes(),
        b"\xff",
        b"\xc3",
        b"\xc0\x80",
        b"\xed\xa0\x80",
        b"\xf4\x90\x80\x80",
        b"\xe2\x98\x83",
        b"\xf0\x90\x8d\x88",
        b"\x80",
    ];
    for c in cases {
        assert_eq!(atcontroller::text::utf8_valid(c), std::str::from_utf8(c).is_ok());
    }
}
