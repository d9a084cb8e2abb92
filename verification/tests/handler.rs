use atcontroller::atcommands::AtCommand;
use atcontroller::atres::{
    reached_connected, ATResponse, ProcessedResponse, ResponseHandler, ResponseHandlerResponse,
    ResponseType,
};
use atcontroller::subscribe::NextControlCommand;

fn handle(raw: &[u8], prev: AtCommand) -> (AtCommand, NextControlCommand) {
    let response = ATResponse::from_bytes(raw);
    let out = ResponseHandler::new(response).handle_response(prev);
    (out.at_command, out.control_command)
}

fn lines(a: &[u8], b: &[u8]) -> Vec<Vec<u8>> {
    vec![a.to_vec(), b.to_vec()]
}

#[test]
fn sim_status_ok_advances_to_the_operator_query() {
    let (at, control) = handle(b"+QINISTAT: 3\r\nOK\r\n", AtCommand::SIMInit);
    assert_eq!(at, AtCommand::NetworkOperatorQuery);
    assert_eq!(control, NextControlCommand::NOOP);
}

#[test]
fn sim_status_values_zero_to_seven_pass() {
    for v in b'0'..=b'7' {
        let mut raw = b"+QINISTAT: ".to_vec();
        raw.push(v);
        raw.extend_from_slice(b"\r\nOK\r\n");
        let (at, _) = handle(&raw, AtCommand::SIMInit);
        assert_eq!(at, AtCommand::NetworkOperatorQuery);
    }
}

#[test]
fn an_unknown_sim_status_retries_the_query() {
    let (at, control) = handle(b"+QINISTAT: 8\r\nOK\r\n", AtCommand::SIMInit);
    assert_eq!(at, AtCommand::SIMInit);
    assert_eq!(control, NextControlCommand::NOOP);
}

#[test]
fn a_sim_status_without_a_colon_retries_the_query() {
    let (at, _) = handle(b"+QINISTAT 3\r\nOK\r\n", AtCommand::SIMInit);
    assert_eq!(at, AtCommand::SIMInit);
}

#[test]
fn network_strength_ok_advances_with_its_numbers() {
    let (at, control) = handle(b"+CSQ: 23,99\r\nOK\r\n", AtCommand::NetworkStrengthQuery);
    assert_eq!(at, AtCommand::NetworkQualityQuery);
    assert_eq!(control, NextControlCommand::NOOP);
    let parsed = ResponseHandler::parse_network_strength(&lines(b"+CSQ: 23,99", b"OK"));
    assert_eq!(parsed, Some((23, 99)));
}

#[test]
fn unparsable_strength_fields_fall_back_to_ninety_nine() {
    let parsed = ResponseHandler::parse_network_strength(&lines(b"+CSQ: ?,7", b"OK"));
    assert_eq!(parsed, Some((99, 7)));
}

#[test]
fn a_third_strength_field_fails_the_validator() {
    let v = ResponseHandler::handle_network_strength_query(&lines(b"+CSQ: 23,99,1", b"OK"));
    assert_eq!(v, ProcessedResponse::Failed);
}

#[test]
fn operator_reports_need_the_access_technology_field() {
    let ok = ResponseHandler::handle_network_operator_query(&lines(b"+COPS: 0,0,\"op\",7", b"OK"));
    assert_eq!(ok, ProcessedResponse::Passed);
    let short = ResponseHandler::handle_network_operator_query(&lines(b"+COPS: 0,0,\"op\"", b"OK"));
    assert_eq!(short, ProcessedResponse::Failed);
}

#[test]
fn quality_reports_need_four_fields() {
    let ok = ResponseHandler::handle_network_quality_strength(&lines(
        b"+QNWINFO: \"FDD LTE\",\"24201\",\"LTE BAND 3\",1450",
        b"OK",
    ));
    assert_eq!(ok, ProcessedResponse::Passed);
    let short =
        ResponseHandler::handle_network_quality_strength(&lines(b"+QNWINFO: \"GSM\",\"24201\"", b"OK"));
    assert_eq!(short, ProcessedResponse::Failed);
}

#[test]
fn registration_short_and_long_forms_pass() {
    let short = ResponseHandler::handle_network_registration_query(&lines(b"+CREG: 0,1", b"OK"));
    assert_eq!(short, ProcessedResponse::Passed);
    let long = ResponseHandler::handle_network_registration_query(&lines(
        b"+CREG: 2,1,\"D509\",\"80D413D\",7",
        b"OK",
    ));
    assert_eq!(long, ProcessedResponse::Passed);
    let torn = ResponseHandler::handle_network_registration_query(&lines(b"+CREG: 2,1,\"D509\"", b"OK"));
    assert_eq!(torn, ProcessedResponse::Failed);
}

#[test]
fn config_commands_always_pass_on_ok() {
    let (at, _) = handle(b"OK\r\n", AtCommand::QMTCFGVersion);
    assert_eq!(at, AtCommand::QMTCFGSSLEnable);
    let (at, _) = handle(b"OK\r\n", AtCommand::QSSLCFGSNI);
    assert_eq!(at, AtCommand::QMTOPEN);
}

#[test]
fn connection_commands_wait_for_their_result_lines() {
    for prev in [AtCommand::QMTOPEN, AtCommand::QMTCONN, AtCommand::QMTSUBStart] {
        let (at, control) = handle(b"OK\r\n", prev);
        assert_eq!(at, AtCommand::NOOP);
        assert_eq!(control, NextControlCommand::NOOP);
    }
}

#[test]
fn unrecognised_previous_commands_are_left_alone_on_ok() {
    let (at, control) = handle(b"OK\r\n", AtCommand::QMTDISC);
    assert_eq!(at, AtCommand::NOOP);
    assert_eq!(control, NextControlCommand::NOOP);
}

#[test]
fn a_reply_prompt_always_issues_the_payload_write() {
    for prev in [AtCommand::QMTOPEN, AtCommand::SIMInit, AtCommand::NOOP, AtCommand::PUBLISH] {
        let (at, control) = handle(b">", prev);
        assert_eq!(at, AtCommand::PUBLISH);
        assert_eq!(control, NextControlCommand::NOOP);
    }
}

#[test]
fn a_publish_ack_moves_to_publish_success() {
    let (at, _) = handle(b"+QMTPUBEX: 0,1,0\r\n", AtCommand::PUBLISH);
    assert_eq!(at, AtCommand::PUBLISHSUCCESS);
}

#[test]
fn open_and_conn_result_lines_advance_regardless_of_their_code() {
    let (at, _) = handle(b"+QMTOPEN: 0,0\r\n", AtCommand::QMTOPEN);
    assert_eq!(at, AtCommand::QMTCONN);
    let (at, _) = handle(b"+QMTOPEN: 0,-1\r\n", AtCommand::QMTOPEN);
    assert_eq!(at, AtCommand::QMTCONN);
    let (at, _) = handle(b"+QMTCONN: 0,0,0\r\n", AtCommand::QMTCONN);
    assert_eq!(at, AtCommand::QMTSUBStart);
    let (at, _) = handle(b"+QMTCONN: 0,2\r\n", AtCommand::QMTCONN);
    assert_eq!(at, AtCommand::QMTSUBStart);
}

#[test]
fn open_result_codes_validate_only_success() {
    let ok = ResponseHandler::handle_mqtt_open_command(&lines(b"+QMTOPEN: 0,0", b"MANA"));
    assert_eq!(ok, ProcessedResponse::Passed);
    for raw in
        [b"+QMTOPEN: 0,-1".as_slice(), b"+QMTOPEN: 0,1", b"+QMTOPEN: 0,5", b"+QMTOPEN: 0,x"]
    {
        let v = ResponseHandler::handle_mqtt_open_command(&lines(raw, b"MANA"));
        assert_eq!(v, ProcessedResponse::Failed);
    }
    let torn = ResponseHandler::handle_mqtt_open_command(&lines(b"+QMTOPEN: 0", b"MANA"));
    assert_eq!(torn, ProcessedResponse::Failed);
}

#[test]
fn conn_result_codes_follow_the_two_forms() {
    for raw in [b"+QMTCONN: 0,0".as_slice(), b"+QMTCONN: 0,1"] {
        let v = ResponseHandler::handle_mqtt_conn_command(&lines(raw, b"MANA"));
        assert_eq!(v, ProcessedResponse::Passed);
    }
    let failed_send = ResponseHandler::handle_mqtt_conn_command(&lines(b"+QMTCONN: 0,2", b"MANA"));
    assert_eq!(failed_send, ProcessedResponse::Failed);
    let unknown = ResponseHandler::handle_mqtt_conn_command(&lines(b"+QMTCONN: 0,3", b"MANA"));
    assert_eq!(unknown, ProcessedResponse::Failed);
    for code in 0..=5 {
        let raw = format!("+QMTCONN: 0,0,{}", code);
        let v = ResponseHandler::handle_mqtt_conn_command(&lines(raw.as_bytes(), b"MANA"));
        assert_eq!(v, ProcessedResponse::Passed);
    }
    let refused = ResponseHandler::handle_mqtt_conn_command(&lines(b"+QMTCONN: 0,0,6", b"MANA"));
    assert_eq!(refused, ProcessedResponse::Failed);
}

#[test]
fn a_failed_subscribe_retries_the_same_command() {
    let (at, control) = handle(b"+QMTSUB: 0,1,2\r\n", AtCommand::QMTSUBStart);
    assert_eq!(at, AtCommand::QMTSUBStart);
    assert_eq!(control, NextControlCommand::NOOP);
}

#[test]
fn a_successful_subscribe_advances() {
    let (at, _) = handle(b"+QMTSUB: 0,1,0\r\n", AtCommand::QMTSUBStart);
    assert_eq!(at, AtCommand::QMTSUBEnd);
    let (at, _) = handle(b"+QMTSUB: 0,1,1\r\n", AtCommand::QMTSUBEnd);
    assert_eq!(at, AtCommand::QMTSUBStatus);
}

#[test]
fn subscribe_verdicts_on_malformed_lines() {
    let v = ResponseHandler::handle_subscribe_command(&lines(b"MANA", b"MANA"));
    assert_eq!(v, ProcessedResponse::Failed);
    let v = ResponseHandler::handle_subscribe_command(&lines(b"+QMTSUB 0,1,0", b"MANA"));
    assert_eq!(v, ProcessedResponse::Failed);
    let v = ResponseHandler::handle_subscribe_command(&lines(b"+QMTSUB: 0,1", b"MANA"));
    assert_eq!(v, ProcessedResponse::Failed);
    let v = ResponseHandler::handle_subscribe_command(&lines(b"+QMTSUB: 0,1,9", b"MANA"));
    assert_eq!(v, ProcessedResponse::Failed);
}

#[test]
fn error_after_connection_open_retries_it() {
    let (at, control) = handle(b"ERROR\r\n", AtCommand::QMTOPEN);
    assert_eq!(at, AtCommand::QMTOPEN);
    assert_eq!(control, NextControlCommand::NOOP);
}

#[test]
fn error_after_any_other_command_is_accepted() {
    for prev in [AtCommand::SIMInit, AtCommand::QMTCONN, AtCommand::QMTCFGVersion, AtCommand::AT] {
        let (at, control) = handle(b"ERROR\r\n", prev);
        assert_eq!(at, AtCommand::NOOP);
        assert_eq!(control, NextControlCommand::NOOP);
    }
}

#[test]
fn chatter_categories_are_log_only() {
    for raw in [
        b"+QMTSTAT: 0,1\r\n".as_slice(),
        b"+QMTPING: 0\r\n",
        b"+CPIN: READY\r\n",
        b"RDY\r\n",
    ] {
        let (at, control) = handle(raw, AtCommand::SIMInit);
        assert_eq!(at, AtCommand::NOOP);
        assert_eq!(control, NextControlCommand::NOOP);
    }
}

#[test]
fn an_incoming_publish_surfaces_its_control_command() {
    let (at, control) =
        handle(b"+QMTRECV: 0,1,\"SUBONE/start\",5,hello\r\n", AtCommand::NOOP);
    assert_eq!(at, AtCommand::NOOP);
    assert_eq!(control, NextControlCommand::POWERON);
    let (_, control) = handle(b"+QMTRECV: 0,1,\"SUBONE/end\",4,stop\r\n", AtCommand::NOOP);
    assert_eq!(control, NextControlCommand::POWEROFF);
    let (_, control) = handle(b"+QMTRECV: 0,1,\"SUBONE/status\",3,ask\r\n", AtCommand::NOOP);
    assert_eq!(control, NextControlCommand::STATUSUPDATE);
}

#[test]
fn an_undecodable_incoming_publish_is_dropped() {
    let (at, control) = handle(b"+QMTRECV: zz,1,\"SUBONE/start\",5,hello\r\n", AtCommand::NOOP);
    assert_eq!(at, AtCommand::NOOP);
    assert_eq!(control, NextControlCommand::NOOP);
}

#[test]
fn the_final_subscription_result_marks_the_session_connected() {
    let done = ATResponse::from_bytes(b"+QMTSUB: 0,1,0\r\n");
    assert!(reached_connected(AtCommand::QMTSUBStatus, &done));
    let failed = ATResponse::from_bytes(b"+QMTSUB: 0,1,2\r\n");
    assert!(!reached_connected(AtCommand::QMTSUBStatus, &failed));
    assert!(!reached_connected(AtCommand::QMTSUBStart, &done));
    let ok = ATResponse::from_bytes(b"OK\r\n");
    assert!(!reached_connected(AtCommand::QMTSUBStatus, &ok));
}

#[test]
fn response_wrappers_carry_their_fields() {
    let r = ResponseHandlerResponse::new(AtCommand::PUBLISH, NextControlCommand::POWERON);
    assert_eq!(r.at_command, AtCommand::PUBLISH);
    assert_eq!(r.control_command, NextControlCommand::POWERON);
    let r = ResponseHandlerResponse::at(AtCommand::QMTOPEN);
    assert_eq!(r.at_command, AtCommand::QMTOPEN);
    assert_eq!(r.control_command, NextControlCommand::NOOP);
    let r = ResponseHandlerResponse::control(NextControlCommand::POWEROFF);
    assert_eq!(r.at_command, AtCommand::NOOP);
    let r = ResponseHandlerResponse::noop();
    assert_eq!(r.at_command, AtCommand::NOOP);
    assert_eq!(r.control_command, NextControlCommand::NOOP);
    let fresh = ATResponse::new(ResponseType::OK, b"OK".to_vec());
    assert_eq!(fresh.response_type, ResponseType::OK);
    assert_eq!(fresh.response, b"OK");
    assert_eq!(fresh.response_vec, vec![b"MANA".to_vec(), b"MANA".to_vec()]);
}
