//! The subscribed-message decoder: turns the two kept lines of an
//! incoming-publish reply into a structured message and maps its topic to
//! the device control command it stands for.
use vstd::prelude::*;
use crate::text;

verus! {

use crate::at::{drop_sentinels, drop_sentinel_lines};
use crate::text::{
    ascii_of, map_trim, seq_views, spec_parse_i32, spec_split, spec_split_first,
    spec_strip_quotes,
};

/// The device action a decoded message asks for.
#[derive(Debug, Clone, Copy, PartialEq, Eq, Structural)]
pub enum NextControlCommand {
    STATUSUPDATE,
    POWEROFF,
    POWERON,
    NOOP,
}

/// A decoded broker-to-device message.
#[derive(Debug)]
pub struct SubMessage {
    pub client_id: i32,
    pub msg_id: i32,
    pub topic: Vec<u8>,
    pub payload_len: Option<i32>,
    pub payload: Option<Vec<u8>>,
    pub next_control_command: NextControlCommand,
}

/// The ghost image of a decoded message.
pub ghost struct SubMessageView {
    pub client_id: int,
    pub msg_id: int,
    pub topic: Seq<u8>,
    pub payload_len: Option<int>,
    pub payload: Option<Seq<u8>>,
    pub next_control_command: NextControlCommand,
}

impl View for SubMessage {
    type V = SubMessageView;

    open spec fn view(&self) -> SubMessageView {
        SubMessageView {
            client_id: self.client_id as int,
            msg_id: self.msg_id as int,
            topic: self.topic@,
            payload_len: match self.payload_len {
                Some(n) => Some(n as int),
                None => None,
            },
            payload: match self.payload {
                Some(p) => Some(p@),
                None => None,
            },
            next_control_command: self.next_control_command,
        }
    }
}

/// The control command a topic dictates, with quote characters ignored:
/// the three known subscription topics map to their actions and every
/// other topic to the idle command.
pub open spec fn command_for_topic(topic: Seq<u8>) -> NextControlCommand {
    let t = spec_strip_quotes(topic);
    if t == ascii_of("SUBONE/start"@) {
        NextControlCommand::POWERON
    } else if t == ascii_of("SUBONE/end"@) {
        NextControlCommand::POWEROFF
    } else if t == ascii_of("SUBONE/status"@) {
        NextControlCommand::STATUSUPDATE
    } else {
        NextControlCommand::NOOP
    }
}

/// The comma-separated fields after the first colon of the first kept
/// line, each trimmed.
pub open spec fn message_fields(lines: Seq<Seq<u8>>) -> Option<Seq<Seq<u8>>> {
    let kept = drop_sentinels(lines);
    if kept.len() == 0 {
        None
    } else {
        match spec_split_first(kept[0], 58) {
            None => None,
            Some(halves) => Some(map_trim(spec_split(halves.1, 44))),
        }
    }
}

/// True when the lines carry a decodable message: a header line with a
/// colon, at least the three required fields, both identifiers numeric,
/// and, when a payload is announced, a numeric payload length. The topic
/// field plays no part.
pub open spec fn decode_shape_ok(lines: Seq<Seq<u8>>) -> bool {
    match message_fields(lines) {
        None => false,
        Some(fields) => fields.len() >= 3 && spec_parse_i32(fields[0]) is Some && spec_parse_i32(
            fields[1],
        ) is Some && (fields.len() >= 5 ==> spec_parse_i32(fields[3]) is Some),
    }
}

/// The decoded message, if the lines carry one. Three or four fields make
/// a payload-less message; from five fields on the fourth is the payload
/// length and the fifth the payload itself.
pub open spec fn decode_spec(lines: Seq<Seq<u8>>) -> Option<SubMessageView> {
    if !decode_shape_ok(lines) {
        None
    } else {
        let fields = message_fields(lines).unwrap();
        let base = SubMessageView {
            client_id: spec_parse_i32(fields[0]).unwrap(),
            msg_id: spec_parse_i32(fields[1]).unwrap(),
            topic: fields[2],
            payload_len: None,
            payload: None,
            next_control_command: command_for_topic(fields[2]),
        };
        if fields.len() <= 4 {
            Some(base)
        } else {
            Some(
                SubMessageView {
                    payload_len: Some(spec_parse_i32(fields[3]).unwrap()),
                    payload: Some(fields[4]),
                    ..base
                },
            )
        }
    }
}

impl SubMessage {
    pub fn new(
        client_id: i32,
        msg_id: i32,
        topic: Vec<u8>,
        payload_len: Option<i32>,
        payload: Option<Vec<u8>>,
        control_command: NextControlCommand,
    ) -> (r: Self)
        ensures
            r.client_id == client_id,
            r.msg_id == msg_id,
            r.topic == topic,
            r.payload_len == payload_len,
            r.payload == payload,
            r.next_control_command == control_command,
    {
        SubMessage { client_id, msg_id, topic, payload_len, payload, next_control_command: control_command }
    }

    /// Decodes the kept lines of an incoming-publish reply. The error
    /// value carries no information, as the session only logs it.
    pub fn process_received_message(message: &Vec<Vec<u8>>) -> (r: Result<Self, bool>)
        ensures
            match r {
                Ok(m) => decode_spec(seq_views(message@)) == Some(m@),
                Err(e) => decode_spec(seq_views(message@)) is None && e == false,
            },
    {
        proof {
            reveal_strlit("SUBONE/start");
            reveal_strlit("SUBONE/end");
            reveal_strlit("SUBONE/status");
        }
        let kept = drop_sentinel_lines(message);
        if kept.len() == 0 {
            return Err(false);
        }
        let halves = match text::split_first_byte(kept[0].as_slice(), 58) {
            Some(h) => h,
            None => {
                return Err(false);
            },
        };
        let fields = text::split_trim(halves.1.as_slice(), 44);
        if fields.len() < 3 {
            return Err(false);
        }
        let client_id = match text::parse_i32_field(fields[0].as_slice()) {
            Some(v) => v,
            None => {
                return Err(false);
            },
        };
        let msg_id = match text::parse_i32_field(fields[1].as_slice()) {
            Some(v) => v,
            None => {
                return Err(false);
            },
        };
        let topic = text::copy_vec(&fields[2]);
        let stripped = text::strip_quotes(topic.as_slice());
        let next_command = if text::bytes_eq(
            stripped.as_slice(),
            text::lit_bytes("SUBONE/start"),
        ) {
            NextControlCommand::POWERON
        } else if text::bytes_eq(stripped.as_slice(), text::lit_bytes("SUBONE/end")) {
            NextControlCommand::POWEROFF
        } else if text::bytes_eq(stripped.as_slice(), text::lit_bytes("SUBONE/status")) {
            NextControlCommand::STATUSUPDATE
        } else {
            NextControlCommand::NOOP
        };
        if fields.len() <= 4 {
            return Ok(
                SubMessage {
                    client_id,
                    msg_id,
                    topic,
                    payload_len: None,
                    payload: None,
                    next_control_command: next_command,
                },
            );
        }
        let payload_len = match text::parse_i32_field(fields[3].as_slice()) {
            Some(v) => v,
            None => {
                return Err(false);
            },
        };
        let payload = text::copy_vec(&fields[4]);
        Ok(
            SubMessage {
                client_id,
                msg_id,
                topic,
                payload_len: Some(payload_len),
                payload: Some(payload),
                next_control_command: next_command,
            },
        )
    }
}

/// The topic of a decoded message always dictates its control command
/// through the fixed topic table.
pub proof fn lemma_topic_dictates_command(lines: Seq<Seq<u8>>, m: SubMessageView)
    requires
        decode_spec(lines) == Some(m),
    ensures
        m.next_control_command == command_for_topic(m.topic),
{
}

/// An unknown topic decodes to the idle command, never to a failure:
/// whether decoding succeeds depends only on the shape of the lines, and
/// the shape never reads the topic field.
pub proof fn lemma_unknown_topic_is_noop(lines: Seq<Seq<u8>>, topic: Seq<u8>)
    ensures
        decode_spec(lines) is Some <==> decode_shape_ok(lines),
        spec_strip_quotes(topic) != ascii_of("SUBONE/start"@) && spec_strip_quotes(topic)
            != ascii_of("SUBONE/end"@) && spec_strip_quotes(topic) != ascii_of(
            "SUBONE/status"@,
        ) ==> command_for_topic(topic) == NextControlCommand::NOOP,
{
}

} // verus!
