//! The response classifier and the response-handling state machine: one
//! raw serial read becomes a typed response with two kept lines, and the
//! pair of previous command and typed response decides the next AT
//! command and the control action.
use vstd::prelude::*;
use crate::text;

verus! {

use crate::at::{drop_sentinels, drop_sentinel_lines, sentinel, sentinel_line};
use crate::atcommands::AtCommand;
use crate::atmodule::{next_in_sequence, ATMoudle};
use crate::subscribe::{decode_spec, NextControlCommand, SubMessage};
use crate::text::{
    ascii_of, drop_empty, map_trim, parse_i8_or, seq_views, spec_split, spec_split_crlf,
    spec_split_first, spec_starts_with, spec_trim,
};

/// The category of one modem reply, decided by its last non-empty line.
#[derive(Debug, Clone, Copy, PartialEq, Eq, Structural)]
pub enum ResponseType {
    OK,
    URC,
    MESSAGE,
    REPLY,
    MQTTSTAT,
    MQTTPING,
    QMTOPEN,
    QMTCONN,
    QMTSUB,
    ERROR,
    STATUS,
    PUBRESPONSE,
    UNKNOWN,
}

/// What the engine decided on a reply: the next AT command to issue and
/// the control action to carry out, either of which may be idle.
#[derive(Debug)]
pub struct ResponseHandlerResponse {
    pub at_command: AtCommand,
    pub control_command: NextControlCommand,
}

impl ResponseHandlerResponse {
    pub fn new(at_command: AtCommand, control_command: NextControlCommand) -> (r: Self)
        ensures
            r.at_command == at_command,
            r.control_command == control_command,
    {
        ResponseHandlerResponse { at_command, control_command }
    }

    pub fn at(at_command: AtCommand) -> (r: Self)
        ensures
            r.at_command == at_command,
            r.control_command == NextControlCommand::NOOP,
    {
        ResponseHandlerResponse { at_command, control_command: NextControlCommand::NOOP }
    }

    pub fn control(control_command: NextControlCommand) -> (r: Self)
        ensures
            r.at_command == AtCommand::NOOP,
            r.control_command == control_command,
    {
        ResponseHandlerResponse { at_command: AtCommand::NOOP, control_command }
    }

    pub fn noop() -> (r: Self)
        ensures
            r.at_command == AtCommand::NOOP,
            r.control_command == NextControlCommand::NOOP,
    {
        ResponseHandlerResponse {
            at_command: AtCommand::NOOP,
            control_command: NextControlCommand::NOOP,
        }
    }
}

/// One classified reply: its category, the two kept lines, and a copy of
/// the first kept line.
#[derive(Debug)]
pub struct ATResponse {
    pub response_type: ResponseType,
    pub response: Vec<u8>,
    pub response_vec: Vec<Vec<u8>>,
}

/// A content validator's verdict on a reply: advance, retry, or leave the
/// walk alone.
#[derive(Debug, Clone, Copy, PartialEq, Eq, Structural)]
pub enum ProcessedResponse {
    Passed,
    Failed,
    Noop,
}

/// The category of a reply whose last non-empty line, trimmed, is `l`.
pub open spec fn classify_line(l: Seq<u8>) -> ResponseType {
    let t = spec_trim(l);
    if spec_starts_with(t, ascii_of("OK"@)) {
        ResponseType::OK
    } else if spec_starts_with(t, ascii_of("ERROR"@)) {
        ResponseType::ERROR
    } else if spec_starts_with(t, ascii_of("+QMTRECV"@)) {
        ResponseType::MESSAGE
    } else if spec_starts_with(t, ascii_of("+QMTSTAT"@)) {
        ResponseType::MQTTSTAT
    } else if spec_starts_with(t, ascii_of("+QMTPING"@)) {
        ResponseType::MQTTPING
    } else if spec_starts_with(t, ascii_of("+QMTOPEN"@)) {
        ResponseType::QMTOPEN
    } else if spec_starts_with(t, ascii_of("+QMTCONN"@)) {
        ResponseType::QMTCONN
    } else if spec_starts_with(t, ascii_of("+QMTSUB"@)) {
        ResponseType::QMTSUB
    } else if spec_starts_with(t, ascii_of("+QMTPUBEX"@)) {
        ResponseType::PUBRESPONSE
    } else if spec_starts_with(t, ascii_of("+"@)) {
        ResponseType::URC
    } else if spec_starts_with(t, ascii_of(">"@)) {
        ResponseType::REPLY
    } else {
        ResponseType::UNKNOWN
    }
}

/// The non-empty lines of a raw read.
pub open spec fn response_lines(raw: Seq<u8>) -> Seq<Seq<u8>> {
    drop_empty(spec_split_crlf(raw))
}

/// The category of a raw read: undecodable or lineless reads are unknown,
/// every other read is classified by its last non-empty line.
pub open spec fn classify_raw(raw: Seq<u8>) -> ResponseType {
    if !vstd::utf8::valid_utf8(raw) {
        ResponseType::UNKNOWN
    } else {
        let ls = response_lines(raw);
        if ls.len() == 0 {
            ResponseType::UNKNOWN
        } else {
            classify_line(ls.last())
        }
    }
}

/// The two kept lines of a raw read: the last two non-empty lines,
/// right-aligned, with the sentinel filling what is missing.
pub open spec fn kept_lines(raw: Seq<u8>) -> Seq<Seq<u8>> {
    if !vstd::utf8::valid_utf8(raw) {
        seq![sentinel(), sentinel()]
    } else {
        let ls = response_lines(raw);
        if ls.len() == 0 {
            seq![sentinel(), sentinel()]
        } else if ls.len() == 1 {
            seq![sentinel(), ls[0]]
        } else {
            seq![ls[ls.len() - 2], ls[ls.len() - 1]]
        }
    }
}

impl ATResponse {
    pub fn new(response_type: ResponseType, response: Vec<u8>) -> (r: Self)
        ensures
            r.response_type == response_type,
            r.response@ == response@,
            seq_views(r.response_vec@) == seq![sentinel(), sentinel()],
    {
        let mut response_vec: Vec<Vec<u8>> = Vec::new();
        response_vec.push(sentinel_line());
        response_vec.push(sentinel_line());
        proof {
            assert(seq_views(response_vec@) =~= seq![sentinel(), sentinel()]);
        }
        ATResponse { response_type, response, response_vec }
    }

    /// Classifies one raw serial read.
    pub fn from_string(response: &[u8]) -> (r: ATResponse)
        ensures
            r.response_type == classify_raw(response@),
            seq_views(r.response_vec@) == kept_lines(response@),
            r.response@ == kept_lines(response@)[0],
    {
        if !text::utf8_valid(response) {
            let r = ATResponse::new(ResponseType::UNKNOWN, sentinel_line());
            proof {
                assert(kept_lines(response@)[0] == sentinel());
            }
            return r;
        }
        let all = text::split_crlf(response);
        let lines = drop_empty_lines_of(&all);
        if lines.len() == 0 {
            let r = ATResponse::new(ResponseType::UNKNOWN, sentinel_line());
            proof {
                assert(kept_lines(response@)[0] == sentinel());
            }
            return r;
        }
        let last = lines.len() - 1;
        let response_type = classify_line_exec(lines[last].as_slice());
        let mut response_vec: Vec<Vec<u8>> = Vec::new();
        if lines.len() == 1 {
            response_vec.push(sentinel_line());
            response_vec.push(text::copy_vec(&lines[0]));
        } else {
            response_vec.push(text::copy_vec(&lines[last - 1]));
            response_vec.push(text::copy_vec(&lines[last]));
        }
        proof {
            assert(seq_views(response_vec@) =~= kept_lines(response@));
        }
        let first = text::copy_vec(&response_vec[0]);
        ATResponse { response_type, response: first, response_vec }
    }

    pub fn from_bytes(response: &[u8]) -> (r: ATResponse)
        ensures
            r.response_type == classify_raw(response@),
            seq_views(r.response_vec@) == kept_lines(response@),
            r.response@ == kept_lines(response@)[0],
    {
        ATResponse::from_string(response)
    }
}

fn drop_empty_lines_of(ls: &Vec<Vec<u8>>) -> (r: Vec<Vec<u8>>)
    ensures
        seq_views(r@) == drop_empty(seq_views(ls@)),
{
    let mut out: Vec<Vec<u8>> = Vec::new();
    let mut i: usize = 0;
    while i < ls.len()
        invariant
            0 <= i <= ls@.len(),
            seq_views(out@) == drop_empty(seq_views(ls@).take(i as int)),
        decreases ls@.len() - i,
    {
        let ghost prev_out = out@;
        proof {
            assert(seq_views(ls@).take(i + 1).drop_last() =~= seq_views(ls@).take(i as int));
            assert(seq_views(ls@).take(i + 1).last() == ls@[i as int]@);
        }
        if ls[i].len() > 0 {
            out.push(text::copy_vec(&ls[i]));
            proof {
                assert(seq_views(out@) =~= seq_views(prev_out).push(ls@[i as int]@));
            }
        }
        i = i + 1;
    }
    proof {
        assert(seq_views(ls@).take(ls@.len() as int) =~= seq_views(ls@));
    }
    out
}

fn classify_line_exec(l: &[u8]) -> (r: ResponseType)
    ensures
        r == classify_line(l@),
{
    proof {
        reveal_strlit("OK");
        reveal_strlit("ERROR");
        reveal_strlit("+QMTRECV");
        reveal_strlit("+QMTSTAT");
        reveal_strlit("+QMTPING");
        reveal_strlit("+QMTOPEN");
        reveal_strlit("+QMTCONN");
        reveal_strlit("+QMTSUB");
        reveal_strlit("+QMTPUBEX");
        reveal_strlit("+");
        reveal_strlit(">");
    }
    let t = text::trim_bytes(l);
    let ts = t.as_slice();
    if text::bytes_starts_with(ts, text::lit_bytes("OK")) {
        ResponseType::OK
    } else if text::bytes_starts_with(ts, text::lit_bytes("ERROR")) {
        ResponseType::ERROR
    } else if text::bytes_starts_with(ts, text::lit_bytes("+QMTRECV")) {
        ResponseType::MESSAGE
    } else if text::bytes_starts_with(ts, text::lit_bytes("+QMTSTAT")) {
        ResponseType::MQTTSTAT
    } else if text::bytes_starts_with(ts, text::lit_bytes("+QMTPING")) {
        ResponseType::MQTTPING
    } else if text::bytes_starts_with(ts, text::lit_bytes("+QMTOPEN")) {
        ResponseType::QMTOPEN
    } else if text::bytes_starts_with(ts, text::lit_bytes("+QMTCONN")) {
        ResponseType::QMTCONN
    } else if text::bytes_starts_with(ts, text::lit_bytes("+QMTSUB")) {
        ResponseType::QMTSUB
    } else if text::bytes_starts_with(ts, text::lit_bytes("+QMTPUBEX")) {
        ResponseType::PUBRESPONSE
    } else if text::bytes_starts_with(ts, text::lit_bytes("+")) {
        ResponseType::URC
    } else if text::bytes_starts_with(ts, text::lit_bytes(">")) {
        ResponseType::REPLY
    } else {
        ResponseType::UNKNOWN
    }
}

/// The first kept line, with the sentinel standing in for a missing one.
pub open spec fn first_or_sentinel(lines: Seq<Seq<u8>>) -> Seq<u8> {
    if lines.len() > 0 {
        lines[0]
    } else {
        sentinel()
    }
}

/// The comma-separated fields after the first colon of `l`, each trimmed.
pub open spec fn content_fields(l: Seq<u8>) -> Option<Seq<Seq<u8>>> {
    match spec_split_first(l, 58) {
        None => None,
        Some(halves) => Some(map_trim(spec_split(halves.1, 44))),
    }
}

fn content_fields_exec(l: &[u8]) -> (r: Option<Vec<Vec<u8>>>)
    ensures
        match r {
            Some(fields) => content_fields(l@) == Some(seq_views(fields@)),
            None => content_fields(l@) is None,
        },
{
    match text::split_first_byte(l, 58) {
        None => None,
        Some(halves) => Some(text::split_trim(halves.1.as_slice(), 44)),
    }
}

fn first_line(responses: &Vec<Vec<u8>>) -> (r: Vec<u8>)
    ensures
        r@ == first_or_sentinel(seq_views(responses@)),
{
    if responses.len() > 0 {
        text::copy_vec(&responses[0])
    } else {
        sentinel_line()
    }
}

/// Verdict on a SIM status report: the single value after the colon must
/// be one of the eight initialisation states.
pub open spec fn sim_stat_spec(lines: Seq<Seq<u8>>) -> ProcessedResponse {
    match spec_split_first(first_or_sentinel(lines), 58) {
        None => ProcessedResponse::Failed,
        Some(halves) => {
            let v = spec_trim(halves.1);
            if v.len() == 1 && 48 <= v[0] <= 55 {
                ProcessedResponse::Passed
            } else {
                ProcessedResponse::Failed
            }
        },
    }
}

/// Verdict on a network operator report: mode, format and operator must
/// be present, and a fourth field for the access technology.
pub open spec fn network_operator_spec(lines: Seq<Seq<u8>>) -> ProcessedResponse {
    match content_fields(first_or_sentinel(lines)) {
        None => ProcessedResponse::Failed,
        Some(fields) => if fields.len() >= 4 {
            ProcessedResponse::Passed
        } else {
            ProcessedResponse::Failed
        },
    }
}

/// The signal report's two numbers, with unparsable fields falling back
/// to the modem's own not-known value.
pub open spec fn network_strength_values(lines: Seq<Seq<u8>>) -> Option<(u8, u8)> {
    match content_fields(first_or_sentinel(lines)) {
        None => None,
        Some(fields) => if fields.len() == 2 {
            Some((text::parse_u8_or(fields[0], 99), text::parse_u8_or(fields[1], 99)))
        } else {
            None
        },
    }
}

/// Verdict on a signal strength report: exactly the two fields of
/// received signal strength and bit error rate.
pub open spec fn network_strength_spec(lines: Seq<Seq<u8>>) -> ProcessedResponse {
    if network_strength_values(lines) is Some {
        ProcessedResponse::Passed
    } else {
        ProcessedResponse::Failed
    }
}

/// Verdict on a network information report: access technology, operator,
/// band and channel must all be present.
pub open spec fn network_quality_spec(lines: Seq<Seq<u8>>) -> ProcessedResponse {
    match content_fields(first_or_sentinel(lines)) {
        None => ProcessedResponse::Failed,
        Some(fields) => if fields.len() >= 4 {
            ProcessedResponse::Passed
        } else {
            ProcessedResponse::Failed
        },
    }
}

/// Verdict on a network registration report: the two-field short form and
/// the five-field long form with location data pass; anything between is
/// a mutilated long form and fails.
pub open spec fn network_registration_spec(lines: Seq<Seq<u8>>) -> ProcessedResponse {
    match content_fields(first_or_sentinel(lines)) {
        None => ProcessedResponse::Failed,
        Some(fields) => if fields.len() < 2 {
            ProcessedResponse::Failed
        } else if fields.len() == 2 {
            ProcessedResponse::Passed
        } else if fields.len() < 5 {
            ProcessedResponse::Failed
        } else {
            ProcessedResponse::Passed
        },
    }
}

/// Verdict on a connection-open result line: only result zero, the
/// successfully opened network, passes.
pub open spec fn mqtt_open_spec(lines: Seq<Seq<u8>>) -> ProcessedResponse {
    match content_fields(first_or_sentinel(lines)) {
        None => ProcessedResponse::Failed,
        Some(fields) => if fields.len() < 2 {
            ProcessedResponse::Failed
        } else if parse_i8_or(fields[1], 99) == 0 {
            ProcessedResponse::Passed
        } else {
            ProcessedResponse::Failed
        },
    }
}

/// Verdict on a client-connect result line: in the two-field form only a
/// packet that was sent and acknowledged or is being retransmitted
/// passes, while a failed send and every unknown result fail; the
/// three-field form is judged by its connect acknowledgement code.
pub open spec fn mqtt_conn_spec(lines: Seq<Seq<u8>>) -> ProcessedResponse {
    match content_fields(first_or_sentinel(lines)) {
        None => ProcessedResponse::Failed,
        Some(fields) => if fields.len() < 2 {
            ProcessedResponse::Failed
        } else if fields.len() == 2 {
            if 0 <= parse_i8_or(fields[1], 99) <= 1 {
                ProcessedResponse::Passed
            } else {
                ProcessedResponse::Failed
            }
        } else {
            if 0 <= parse_i8_or(fields[2], 99) <= 5 {
                ProcessedResponse::Passed
            } else {
                ProcessedResponse::Failed
            }
        },
    }
}

/// Verdict on a subscribe result line: results zero and one pass, the
/// failed send and everything unknown fail.
pub open spec fn subscribe_spec(lines: Seq<Seq<u8>>) -> ProcessedResponse {
    let kept = drop_sentinels(lines);
    if kept.len() == 0 {
        ProcessedResponse::Failed
    } else {
        match content_fields(kept[0]) {
            None => ProcessedResponse::Failed,
            Some(fields) => if fields.len() < 3 {
                ProcessedResponse::Failed
            } else if 0 <= parse_i8_or(fields[2], 99) <= 1 {
                ProcessedResponse::Passed
            } else {
                ProcessedResponse::Failed
            },
        }
    }
}

/// The verdict of the per-command content validator invoked under an
/// `OK` reply. The configuration commands and the synthetic publish
/// command always pass; the connection commands wait for their own
/// asynchronous result lines; anything unrecognised is left alone.
pub open spec fn ok_validation(prev: AtCommand, lines: Seq<Seq<u8>>) -> ProcessedResponse {
    match prev {
        AtCommand::SIMInit => sim_stat_spec(lines),
        AtCommand::NetworkOperatorQuery => network_operator_spec(lines),
        AtCommand::NetworkStrengthQuery => network_strength_spec(lines),
        AtCommand::NetworkQualityQuery => network_quality_spec(lines),
        AtCommand::NetworkRegistrationQuery => network_registration_spec(lines),
        AtCommand::PUBLISH => ProcessedResponse::Passed,
        AtCommand::QMTCFGVersion
        | AtCommand::QMTCFGSSLEnable
        | AtCommand::QMTCFGRecv
        | AtCommand::QSSLCFGSSLVer
        | AtCommand::QSSLCFGCipher
        | AtCommand::QSSLCFGSecLevel
        | AtCommand::QSSLCFGCACert
        | AtCommand::QSSLCFGIgnoreInvalid
        | AtCommand::QSSLCFGSNI => ProcessedResponse::Passed,
        AtCommand::QMTOPEN | AtCommand::QMTCONN | AtCommand::QMTSUBStart => ProcessedResponse::Noop,
        _ => ProcessedResponse::Noop,
    }
}

/// The whole decision table: what the engine answers for each previous
/// command and classified reply.
pub open spec fn handle_spec(
    prev: AtCommand,
    rtype: ResponseType,
    lines: Seq<Seq<u8>>,
) -> (AtCommand, NextControlCommand) {
    match rtype {
        ResponseType::OK => match ok_validation(prev, lines) {
            ProcessedResponse::Passed => (next_in_sequence(prev), NextControlCommand::NOOP),
            ProcessedResponse::Failed => (prev, NextControlCommand::NOOP),
            ProcessedResponse::Noop => (AtCommand::NOOP, NextControlCommand::NOOP),
        },
        ResponseType::REPLY => (AtCommand::PUBLISH, NextControlCommand::NOOP),
        ResponseType::PUBRESPONSE => (AtCommand::PUBLISHSUCCESS, NextControlCommand::NOOP),
        ResponseType::QMTOPEN => (next_in_sequence(prev), NextControlCommand::NOOP),
        ResponseType::QMTCONN => (next_in_sequence(prev), NextControlCommand::NOOP),
        ResponseType::QMTSUB => match subscribe_spec(lines) {
            ProcessedResponse::Passed => (next_in_sequence(prev), NextControlCommand::NOOP),
            ProcessedResponse::Failed => (prev, NextControlCommand::NOOP),
            ProcessedResponse::Noop => (AtCommand::NOOP, NextControlCommand::NOOP),
        },
        ResponseType::ERROR => if prev is QMTOPEN {
            (AtCommand::QMTOPEN, NextControlCommand::NOOP)
        } else {
            (AtCommand::NOOP, NextControlCommand::NOOP)
        },
        ResponseType::MESSAGE => match decode_spec(lines) {
            Some(m) => (AtCommand::NOOP, m.next_control_command),
            None => (AtCommand::NOOP, NextControlCommand::NOOP),
        },
        _ => (AtCommand::NOOP, NextControlCommand::NOOP),
    }
}

/// Wraps one classified reply for handling.
#[derive(Debug)]
pub struct ResponseHandler {
    pub response: ATResponse,
}

impl ResponseHandler {
    pub fn new(response: ATResponse) -> (r: Self)
        ensures
            r.response == response,
    {
        ResponseHandler { response }
    }

    pub fn handle_sim_stat_response(responses: &Vec<Vec<u8>>) -> (r: ProcessedResponse)
        ensures
            r == sim_stat_spec(seq_views(responses@)),
    {
        let line = first_line(responses);
        match text::split_first_byte(line.as_slice(), 58) {
            None => ProcessedResponse::Failed,
            Some(halves) => {
                let v = text::trim_bytes(halves.1.as_slice());
                if v.len() == 1 && 48 <= v[0] && v[0] <= 55 {
                    ProcessedResponse::Passed
                } else {
                    ProcessedResponse::Failed
                }
            },
        }
    }

    pub fn handle_network_operator_query(responses: &Vec<Vec<u8>>) -> (r: ProcessedResponse)
        ensures
            r == network_operator_spec(seq_views(responses@)),
    {
        let line = first_line(responses);
        match content_fields_exec(line.as_slice()) {
            None => ProcessedResponse::Failed,
            Some(fields) => {
                if fields.len() < 3 {
                    return ProcessedResponse::Failed;
                }
                if fields.len() < 4 {
                    return ProcessedResponse::Failed;
                }
                ProcessedResponse::Passed
            },
        }
    }

    /// The parsed signal report, for callers that want the numbers and
    /// not only the verdict.
    pub fn parse_network_strength(responses: &Vec<Vec<u8>>) -> (r: Option<(u8, u8)>)
        ensures
            r == network_strength_values(seq_views(responses@)),
    {
        let line = first_line(responses);
        match content_fields_exec(line.as_slice()) {
            None => None,
            Some(fields) => {
                if fields.len() != 2 {
                    return None;
                }
                let rssi = text::parse_u8_field(fields[0].as_slice(), 99);
                let ber = text::parse_u8_field(fields[1].as_slice(), 99);
                Some((rssi, ber))
            },
        }
    }

    pub fn handle_network_strength_query(responses: &Vec<Vec<u8>>) -> (r: ProcessedResponse)
        ensures
            r == network_strength_spec(seq_views(responses@)),
    {
        match ResponseHandler::parse_network_strength(responses) {
            Some(_) => ProcessedResponse::Passed,
            None => ProcessedResponse::Failed,
        }
    }

    pub fn handle_network_quality_strength(responses: &Vec<Vec<u8>>) -> (r: ProcessedResponse)
        ensures
            r == network_quality_spec(seq_views(responses@)),
    {
        let line = first_line(responses);
        match content_fields_exec(line.as_slice()) {
            None => ProcessedResponse::Failed,
            Some(fields) => {
                if fields.len() < 4 {
                    return ProcessedResponse::Failed;
                }
                ProcessedResponse::Passed
            },
        }
    }

    pub fn handle_network_registration_query(responses: &Vec<Vec<u8>>) -> (r: ProcessedResponse)
        ensures
            r == network_registration_spec(seq_views(responses@)),
    {
        let line = first_line(responses);
        match content_fields_exec(line.as_slice()) {
            None => ProcessedResponse::Failed,
            Some(fields) => {
                if fields.len() < 2 {
                    return ProcessedResponse::Failed;
                }
                if fields.len() == 2 {
                    return ProcessedResponse::Passed;
                }
                if fields.len() < 5 {
                    return ProcessedResponse::Failed;
                }
                ProcessedResponse::Passed
            },
        }
    }

    pub fn handle_mqtt_open_command(responses: &Vec<Vec<u8>>) -> (r: ProcessedResponse)
        ensures
            r == mqtt_open_spec(seq_views(responses@)),
    {
        let line = first_line(responses);
        match content_fields_exec(line.as_slice()) {
            None => ProcessedResponse::Failed,
            Some(fields) => {
                if fields.len() < 2 {
                    return ProcessedResponse::Failed;
                }
                let result = text::parse_i8_field(fields[1].as_slice(), 99);
                if result == 0 {
                    ProcessedResponse::Passed
                } else {
                    ProcessedResponse::Failed
                }
            },
        }
    }

    pub fn handle_mqtt_conn_command(responses: &Vec<Vec<u8>>) -> (r: ProcessedResponse)
        ensures
            r == mqtt_conn_spec(seq_views(responses@)),
    {
        let line = first_line(responses);
        match content_fields_exec(line.as_slice()) {
            None => ProcessedResponse::Failed,
            Some(fields) => {
                if fields.len() < 2 {
                    return ProcessedResponse::Failed;
                }
                if fields.len() == 2 {
                    let result = text::parse_i8_field(fields[1].as_slice(), 99);
                    if 0 <= result && result <= 1 {
                        return ProcessedResponse::Passed;
                    }
                    return ProcessedResponse::Failed;
                }
                let ret_code = text::parse_i8_field(fields[2].as_slice(), 99);
                if 0 <= ret_code && ret_code <= 5 {
                    ProcessedResponse::Passed
                } else {
                    ProcessedResponse::Failed
                }
            },
        }
    }

    pub fn handle_subscribe_command(responses: &Vec<Vec<u8>>) -> (r: ProcessedResponse)
        ensures
            r == subscribe_spec(seq_views(responses@)),
    {
        let kept = drop_sentinel_lines(responses);
        if kept.len() == 0 {
            return ProcessedResponse::Failed;
        }
        match content_fields_exec(kept[0].as_slice()) {
            None => ProcessedResponse::Failed,
            Some(fields) => {
                if fields.len() < 3 {
                    return ProcessedResponse::Failed;
                }
                let result = text::parse_i8_field(fields[2].as_slice(), 99);
                if 0 <= result && result <= 1 {
                    ProcessedResponse::Passed
                } else {
                    ProcessedResponse::Failed
                }
            },
        }
    }

    /// An acknowledged payload write always passes.
    pub fn handle_publish_response(responses: &Vec<Vec<u8>>) -> (r: ProcessedResponse)
        ensures
            r == ProcessedResponse::Passed,
    {
        ProcessedResponse::Passed
    }

    /// The decision core: from the previous command and this classified
    /// reply, the next AT command and the control action.
    pub fn handle_response(&self, prev_command: AtCommand) -> (r: ResponseHandlerResponse)
        ensures
            ({
                let d = handle_spec(
                    prev_command,
                    self.response.response_type,
                    seq_views(self.response.response_vec@),
                );
                r.at_command == d.0 && r.control_command == d.1
            }),
    {
        match self.response.response_type {
            ResponseType::OK => {
                let passed = match prev_command {
                    AtCommand::SIMInit => ResponseHandler::handle_sim_stat_response(
                        &self.response.response_vec,
                    ),
                    AtCommand::NetworkOperatorQuery => ResponseHandler::handle_network_operator_query(
                        &self.response.response_vec,
                    ),
                    AtCommand::NetworkStrengthQuery => ResponseHandler::handle_network_strength_query(
                        &self.response.response_vec,
                    ),
                    AtCommand::NetworkQualityQuery => ResponseHandler::handle_network_quality_strength(
                        &self.response.response_vec,
                    ),
                    AtCommand::NetworkRegistrationQuery => ResponseHandler::handle_network_registration_query(
                        &self.response.response_vec,
                    ),
                    AtCommand::PUBLISH => ProcessedResponse::Passed,
                    AtCommand::QMTCFGVersion
                    | AtCommand::QMTCFGSSLEnable
                    | AtCommand::QMTCFGRecv
                    | AtCommand::QSSLCFGSSLVer
                    | AtCommand::QSSLCFGCipher
                    | AtCommand::QSSLCFGSecLevel
                    | AtCommand::QSSLCFGCACert
                    | AtCommand::QSSLCFGIgnoreInvalid
                    | AtCommand::QSSLCFGSNI => ProcessedResponse::Passed,
                    AtCommand::QMTOPEN | AtCommand::QMTCONN | AtCommand::QMTSUBStart => ProcessedResponse::Noop,
                    _ => ProcessedResponse::Noop,
                };
                match passed {
                    ProcessedResponse::Passed => ResponseHandlerResponse::at(
                        ATMoudle::get_next_command(prev_command),
                    ),
                    ProcessedResponse::Failed => ResponseHandlerResponse::at(prev_command),
                    ProcessedResponse::Noop => ResponseHandlerResponse::noop(),
                }
            },
            ResponseType::REPLY => ResponseHandlerResponse::at(AtCommand::PUBLISH),
            ResponseType::PUBRESPONSE => {
                let _ = ResponseHandler::handle_publish_response(&self.response.response_vec);
                ResponseHandlerResponse::at(AtCommand::PUBLISHSUCCESS)
            },
            ResponseType::QMTOPEN => {
                let _ = ResponseHandler::handle_mqtt_open_command(&self.response.response_vec);
                ResponseHandlerResponse::at(ATMoudle::get_next_command(prev_command))
            },
            ResponseType::QMTCONN => {
                let _ = ResponseHandler::handle_mqtt_conn_command(&self.response.response_vec);
                ResponseHandlerResponse::at(ATMoudle::get_next_command(prev_command))
            },
            ResponseType::QMTSUB => {
                let processed = ResponseHandler::handle_subscribe_command(
                    &self.response.response_vec,
                );
                match processed {
                    ProcessedResponse::Passed => ResponseHandlerResponse::at(
                        ATMoudle::get_next_command(prev_command),
                    ),
                    ProcessedResponse::Failed => ResponseHandlerResponse::at(prev_command),
                    ProcessedResponse::Noop => ResponseHandlerResponse::noop(),
                }
            },
            ResponseType::ERROR => match prev_command {
                AtCommand::QMTOPEN => ResponseHandlerResponse::at(AtCommand::QMTOPEN),
                _ => ResponseHandlerResponse::noop(),
            },
            ResponseType::MESSAGE => {
                let processed = SubMessage::process_received_message(&self.response.response_vec);
                match processed {
                    Ok(message) => match message.next_control_command {
                        NextControlCommand::STATUSUPDATE => ResponseHandlerResponse::control(
                            NextControlCommand::STATUSUPDATE,
                        ),
                        NextControlCommand::POWEROFF => ResponseHandlerResponse::control(
                            NextControlCommand::POWEROFF,
                        ),
                        NextControlCommand::POWERON => ResponseHandlerResponse::control(
                            NextControlCommand::POWERON,
                        ),
                        NextControlCommand::NOOP => ResponseHandlerResponse::noop(),
                    },
                    Err(_) => ResponseHandlerResponse::noop(),
                }
            },
            ResponseType::STATUS => ResponseHandlerResponse::noop(),
            ResponseType::URC => ResponseHandlerResponse::noop(),
            ResponseType::UNKNOWN => ResponseHandlerResponse::noop(),
            ResponseType::MQTTSTAT => ResponseHandlerResponse::noop(),
            ResponseType::MQTTPING => ResponseHandlerResponse::noop(),
        }
    }
}

/// True exactly when this reply completes the final entry of the
/// connection sequence: the session marks the module connected on it.
pub fn reached_connected(prev: AtCommand, response: &ATResponse) -> (r: bool)
    ensures
        r == (prev == AtCommand::QMTSUBStatus && response.response_type is QMTSUB
            && subscribe_spec(seq_views(response.response_vec@)) is Passed),
{
    if prev == AtCommand::QMTSUBStatus && matches!(response.response_type, ResponseType::QMTSUB) {
        let processed = ResponseHandler::handle_subscribe_command(&response.response_vec);
        matches!(processed, ProcessedResponse::Passed)
    } else {
        false
    }
}

/// Whenever the content validator passes under an `OK` reply, the engine
/// advances the walk: the next command is the sequence successor of the
/// previous one, with no control action.
pub proof fn lemma_ok_passed_advances(prev: AtCommand, lines: Seq<Seq<u8>>)
    requires
        ok_validation(prev, lines) is Passed,
    ensures
        handle_spec(prev, ResponseType::OK, lines) == (
            next_in_sequence(prev),
            NextControlCommand::NOOP,
        ),
{
}

/// An explicit `ERROR` reply re-issues only the connection-open command;
/// after any other command it is accepted without a retry.
pub proof fn lemma_error_retries_open_only(prev: AtCommand, lines: Seq<Seq<u8>>)
    ensures
        handle_spec(AtCommand::QMTOPEN, ResponseType::ERROR, lines) == (
            AtCommand::QMTOPEN,
            NextControlCommand::NOOP,
        ),
        prev != AtCommand::QMTOPEN ==> handle_spec(prev, ResponseType::ERROR, lines) == (
            AtCommand::NOOP,
            NextControlCommand::NOOP,
        ),
{
}

} // verus!
