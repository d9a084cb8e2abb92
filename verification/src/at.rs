//! The device-to-broker reply topics, the record of queued outbound
//! payloads, and the byte-exact command lines the serial loop sends.
use vstd::prelude::*;
use crate::text;

verus! {

use crate::text::{ascii_of, spec_decimal};

/// The topics this device publishes on.
#[derive(Debug, Clone, Copy)]
pub enum AtReplyTopic {
    START,
    STOP,
    STATUS,
    POWER,
}

impl AtReplyTopic {
    /// The topic's exact name.
    pub open spec fn topic_str(self) -> Seq<char> {
        match self {
            AtReplyTopic::START => "RTONE/start"@,
            AtReplyTopic::STOP => "RTONE/stop"@,
            AtReplyTopic::STATUS => "RTONE/status"@,
            AtReplyTopic::POWER => "RTONE/Power"@,
        }
    }

    pub fn topic(&self) -> (r: &'static str)
        ensures
            r@ == self.topic_str(),
    {
        match self {
            AtReplyTopic::START => "RTONE/start",
            AtReplyTopic::STOP => "RTONE/stop",
            AtReplyTopic::STATUS => "RTONE/status",
            AtReplyTopic::POWER => "RTONE/Power",
        }
    }
}

pub proof fn lemma_topic_str_ascii(t: AtReplyTopic)
    ensures
        vstd::utf8::is_ascii_chars(t.topic_str()),
{
    reveal_strlit("RTONE/start");
    reveal_strlit("RTONE/stop");
    reveal_strlit("RTONE/status");
    reveal_strlit("RTONE/Power");
}

/// A record of one queued outbound payload.
#[derive(Debug, Clone)]
pub struct Messages {
    pub message: Vec<u8>,
    pub length: usize,
}

/// The ghost image of a queued-payload record.
pub ghost struct MessageView {
    pub message: Seq<u8>,
    pub length: nat,
}

impl View for Messages {
    type V = MessageView;

    open spec fn view(&self) -> MessageView {
        MessageView { message: self.message@, length: self.length as nat }
    }
}

/// The placeholder the classifier stores where a reply had no line.
pub open spec fn sentinel() -> Seq<u8> {
    ascii_of("MANA"@)
}

/// An owned copy of the sentinel line.
pub fn sentinel_line() -> (r: Vec<u8>)
    ensures
        r@ == sentinel(),
{
    proof {
        reveal_strlit("MANA");
    }
    let mut r: Vec<u8> = Vec::new();
    text::append_bytes(&mut r, text::lit_bytes("MANA"));
    r
}

/// `ls` with every sentinel entry removed.
pub open spec fn drop_sentinels(ls: Seq<Seq<u8>>) -> Seq<Seq<u8>>
    decreases ls.len(),
{
    if ls.len() == 0 {
        Seq::empty()
    } else if ls.last() == sentinel() {
        drop_sentinels(ls.drop_last())
    } else {
        drop_sentinels(ls.drop_last()).push(ls.last())
    }
}

pub fn drop_sentinel_lines(ls: &Vec<Vec<u8>>) -> (r: Vec<Vec<u8>>)
    ensures
        text::seq_views(r@) == drop_sentinels(text::seq_views(ls@)),
{
    proof {
        reveal_strlit("MANA");
    }
    let sent = sentinel_line();
    let mut out: Vec<Vec<u8>> = Vec::new();
    let mut i: usize = 0;
    while i < ls.len()
        invariant
            0 <= i <= ls@.len(),
            sent@ == sentinel(),
            text::seq_views(out@) == drop_sentinels(text::seq_views(ls@).take(i as int)),
        decreases ls@.len() - i,
    {
        let ghost prev_out = out@;
        proof {
            assert(text::seq_views(ls@).take(i + 1).drop_last() =~= text::seq_views(ls@).take(
                i as int,
            ));
            assert(text::seq_views(ls@).take(i + 1).last() == ls@[i as int]@);
        }
        if !text::bytes_eq(ls[i].as_slice(), sent.as_slice()) {
            out.push(text::copy_vec(&ls[i]));
            proof {
                assert(text::seq_views(out@) =~= text::seq_views(prev_out).push(ls@[i as int]@));
            }
        }
        i = i + 1;
    }
    proof {
        assert(text::seq_views(ls@).take(ls@.len() as int) =~= text::seq_views(ls@));
    }
    out
}

/// True exactly for the probe reply that marks the modem as started.
pub fn check_at(raw: &[u8]) -> (r: bool)
    ensures
        r == (raw@ == ascii_of("\r\nOK\r\n"@)),
{
    proof {
        reveal_strlit("\r\nOK\r\n");
    }
    text::bytes_eq(raw, text::lit_bytes("\r\nOK\r\n"))
}

/// The command line that announces a payload of `len` bytes on `topic`.
pub open spec fn publish_command_bytes(topic: AtReplyTopic, len: nat) -> Seq<u8> {
    ascii_of("AT+QMTPUBEX=0,1,0,0,\""@) + ascii_of(topic.topic_str()) + ascii_of("\","@)
        + spec_decimal(len) + ascii_of("\r\n"@)
}

pub fn publish_command(topic: &AtReplyTopic, len: usize) -> (r: Vec<u8>)
    ensures
        r@ == publish_command_bytes(*topic, len as nat),
{
    proof {
        reveal_strlit("AT+QMTPUBEX=0,1,0,0,\"");
        reveal_strlit("\",");
        reveal_strlit("\r\n");
        lemma_topic_str_ascii(*topic);
    }
    let mut r: Vec<u8> = Vec::new();
    text::append_bytes(&mut r, text::lit_bytes("AT+QMTPUBEX=0,1,0,0,\""));
    text::append_bytes(&mut r, text::lit_bytes(topic.topic()));
    text::append_bytes(&mut r, text::lit_bytes("\","));
    let digits = text::decimal_bytes(len as u64);
    text::append_bytes(&mut r, digits.as_slice());
    text::append_bytes(&mut r, text::lit_bytes("\r\n"));
    r
}

} // verus!
