//! The module state tracker: modem lifecycle state, the last issued
//! command, the publish sub-state with its pending-message records, and
//! the forward walk through the three command sequences.
use vstd::prelude::*;

verus! {

use crate::at::{Messages, MessageView};
use crate::atcommands::{
    AtCommand, Commander, config_sequence, connect_sequence, status_sequence,
};

/// The modem lifecycle.
#[derive(Debug, Clone, Copy, PartialEq, Eq, Structural)]
pub enum MouduleState {
    INIT,
    STARTED,
    CONNECTING,
    CONNECTED,
    DISCONNECTED,
}

/// The broad phase a command belongs to.
#[derive(Debug, Clone, Copy, PartialEq, Eq, Structural)]
pub enum MoudleEvent {
    INIT,
    STATUS,
    CONFIG,
    CONNECT,
    PUBLISH,
}

/// The lifecycle of one outbound payload, independent of the command
/// sequence walk.
#[derive(Debug, Clone, Copy, PartialEq, Eq, Structural)]
pub enum PublishState {
    INIT,
    PUBLISHING,
    PUBLISHED,
    ERROR,
}

/// The tracker owned by the session: everything the engine remembers
/// between two modem replies.
#[derive(Debug, Clone)]
pub struct ATMoudle {
    pub state: MouduleState,
    pub event: MoudleEvent,
    pub publish_state: PublishState,
    pub publish_message: Option<Vec<u8>>,
    pub messages: Vec<Messages>,
    pub command: Commander,
}

/// The ghost image of the tracker.
pub ghost struct TrackerView {
    pub state: MouduleState,
    pub event: MoudleEvent,
    pub publish_state: PublishState,
    pub publish_message: Option<Seq<u8>>,
    pub messages: Seq<MessageView>,
    pub command: AtCommand,
}

impl View for ATMoudle {
    type V = TrackerView;

    open spec fn view(&self) -> TrackerView {
        TrackerView {
            state: self.state,
            event: self.event,
            publish_state: self.publish_state,
            publish_message: match self.publish_message {
                Some(m) => Some(m@),
                None => None,
            },
            messages: Seq::new(self.messages@.len(), |i: int| self.messages@[i]@),
            command: self.command.command,
        }
    }
}

/// The phase bucket of each command: the three sequences map to their own
/// phases and every other command counts as publish traffic.
pub open spec fn spec_event_type(c: AtCommand) -> MoudleEvent {
    match c {
        AtCommand::AT
        | AtCommand::SIMInit
        | AtCommand::NetworkStrengthQuery
        | AtCommand::NetworkQualityQuery
        | AtCommand::NetworkOperatorQuery
        | AtCommand::NetworkRegistrationQuery => MoudleEvent::STATUS,
        AtCommand::QMTCFGVersion
        | AtCommand::QMTCFGSSLEnable
        | AtCommand::QMTCFGRecv
        | AtCommand::QSSLCFGSSLVer
        | AtCommand::QSSLCFGCipher
        | AtCommand::QSSLCFGSecLevel
        | AtCommand::QSSLCFGCACert
        | AtCommand::QSSLCFGIgnoreInvalid
        | AtCommand::QSSLCFGSNI => MoudleEvent::CONFIG,
        AtCommand::QMTOPEN
        | AtCommand::QMTCONN
        | AtCommand::QMTSUBStart
        | AtCommand::QMTSUBEnd
        | AtCommand::QMTSUBStatus => MoudleEvent::CONNECT,
        _ => MoudleEvent::PUBLISH,
    }
}

/// The command that follows `c` in the chained walk through the three
/// sequences: within a sequence the next entry, at the end of the status
/// and configuration sequences the first entry of the following sequence,
/// at the end of the connection sequence and for every command outside
/// the sequences the idle command.
pub open spec fn next_in_sequence(c: AtCommand) -> AtCommand {
    match c {
        AtCommand::AT => AtCommand::SIMInit,
        AtCommand::SIMInit => AtCommand::NetworkOperatorQuery,
        AtCommand::NetworkOperatorQuery => AtCommand::NetworkStrengthQuery,
        AtCommand::NetworkStrengthQuery => AtCommand::NetworkQualityQuery,
        AtCommand::NetworkQualityQuery => AtCommand::NetworkRegistrationQuery,
        AtCommand::NetworkRegistrationQuery => AtCommand::QMTCFGVersion,
        AtCommand::QMTCFGVersion => AtCommand::QMTCFGSSLEnable,
        AtCommand::QMTCFGSSLEnable => AtCommand::QMTCFGRecv,
        AtCommand::QMTCFGRecv => AtCommand::QSSLCFGSSLVer,
        AtCommand::QSSLCFGSSLVer => AtCommand::QSSLCFGCipher,
        AtCommand::QSSLCFGCipher => AtCommand::QSSLCFGSecLevel,
        AtCommand::QSSLCFGSecLevel => AtCommand::QSSLCFGCACert,
        AtCommand::QSSLCFGCACert => AtCommand::QSSLCFGIgnoreInvalid,
        AtCommand::QSSLCFGIgnoreInvalid => AtCommand::QSSLCFGSNI,
        AtCommand::QSSLCFGSNI => AtCommand::QMTOPEN,
        AtCommand::QMTOPEN => AtCommand::QMTCONN,
        AtCommand::QMTCONN => AtCommand::QMTSUBStart,
        AtCommand::QMTSUBStart => AtCommand::QMTSUBEnd,
        AtCommand::QMTSUBEnd => AtCommand::QMTSUBStatus,
        AtCommand::QMTSUBStatus => AtCommand::NOOP,
        _ => AtCommand::NOOP,
    }
}

/// One publish request against the tracker: accepted only when no publish
/// is in flight, and then recorded as the current payload with a fresh
/// pending-message record.
pub open spec fn spec_enqueue(t: TrackerView, m: Seq<u8>) -> TrackerView {
    if t.publish_state is INIT || t.publish_state is PUBLISHED {
        TrackerView {
            publish_state: PublishState::PUBLISHING,
            publish_message: Some(m),
            messages: t.messages.push(MessageView { message: m, length: m.len() }),
            ..t
        }
    } else {
        t
    }
}

impl ATMoudle {
    pub fn new() -> (r: Self)
        ensures
            r@.state == MouduleState::INIT,
            r@.event == MoudleEvent::INIT,
            r@.publish_state == PublishState::INIT,
            r@.publish_message is None,
            r@.messages == Seq::<MessageView>::empty(),
            r@.command == AtCommand::AT,
    {
        let r = ATMoudle {
            state: MouduleState::INIT,
            event: MoudleEvent::INIT,
            publish_state: PublishState::INIT,
            publish_message: None,
            messages: Vec::new(),
            command: Commander::at(),
        };
        proof {
            assert(r@.messages =~= Seq::<MessageView>::empty());
        }
        r
    }

    pub fn new_with_state(state: MouduleState) -> (r: Self)
        ensures
            r@.state == state,
            r@.event == MoudleEvent::INIT,
            r@.publish_state == PublishState::INIT,
            r@.publish_message is None,
            r@.messages == Seq::<MessageView>::empty(),
            r@.command == AtCommand::AT,
    {
        let r = ATMoudle {
            state,
            event: MoudleEvent::INIT,
            publish_state: PublishState::INIT,
            publish_message: None,
            messages: Vec::new(),
            command: Commander::at(),
        };
        proof {
            assert(r@.messages =~= Seq::<MessageView>::empty());
        }
        r
    }

    pub fn set_state(&mut self, state: MouduleState)
        ensures
            final(self)@ == (TrackerView { state, ..old(self)@ }),
    {
        self.state = state;
    }

    /// Re-derives the phase bucket from the command in flight.
    pub fn set_event(&mut self)
        ensures
            final(self)@ == (TrackerView {
                event: spec_event_type(old(self)@.command),
                ..old(self)@
            }),
    {
        let event = ATMoudle::get_event_type(self.command.command);
        self.event = event;
    }

    /// Moves the publish sub-state, and with a payload supplied also
    /// retires the most recently queued pending record. The retirement is
    /// best-effort bookkeeping: the popped record is put back whenever its
    /// text matches the supplied payload, so a matching record survives
    /// and only a mismatched one is dropped.
    pub fn set_publish_state(&mut self, publish_state: PublishState, message: Option<Vec<u8>>)
        requires
            message is Some ==> old(self)@.messages.len() > 0,
        ensures
            ({
                let t = old(self)@;
                match message {
                    None => final(self)@ == (TrackerView { publish_state, ..t }),
                    Some(m) => final(self)@ == (TrackerView {
                        publish_state,
                        publish_message: Some(m@),
                        messages: if t.messages.last().message == m@ {
                            t.messages
                        } else {
                            t.messages.drop_last()
                        },
                        ..t
                    }),
                }
            }),
    {
        self.publish_state = publish_state;
        match message {
            Some(m) => {
                self.publish_message = Some(crate::text::copy_vec(&m));
                let removed = self.messages.pop();
                match removed {
                    Some(rec) => {
                        if crate::text::bytes_eq(rec.message.as_slice(), m.as_slice()) {
                            self.messages.push(rec);
                            proof {
                                assert(self@.messages =~= old(self)@.messages);
                            }
                        } else {
                            proof {
                                assert(self@.messages =~= old(self)@.messages.drop_last());
                            }
                        }
                    },
                    None => {
                        proof {
                            assert(false);
                        }
                    },
                }
            },
            None => {},
        }
    }

    /// Records `message` as the current publish payload and appends a
    /// pending-message record for it.
    pub fn set_publish_message(&mut self, message: Option<Vec<u8>>)
        requires
            message is Some,
        ensures
            ({
                let t = old(self)@;
                match message {
                    Some(m) => final(self)@ == (TrackerView {
                        publish_message: Some(m@),
                        messages: t.messages.push(
                            MessageView { message: m@, length: m@.len() },
                        ),
                        ..t
                    }),
                    None => true,
                }
            }),
    {
        match message {
            Some(m) => {
                let ghost mv = m@;
                self.publish_message = Some(crate::text::copy_vec(&m));
                let length = m.len();
                self.messages.push(Messages { message: m, length });
                proof {
                    assert(self@.messages =~= old(self)@.messages.push(
                        MessageView { message: mv, length: mv.len() },
                    ));
                }
            },
            None => {},
        }
    }

    /// One publish request: rejected outright while a publish is already
    /// in flight or failed, else stored and the sub-state moved to
    /// `PUBLISHING`.
    pub fn enqueue_publish(&mut self, message: Vec<u8>) -> (accepted: bool)
        ensures
            final(self)@ == spec_enqueue(old(self)@, message@),
            accepted == (old(self)@.publish_state is INIT || old(self)@.publish_state
                is PUBLISHED),
    {
        match self.publish_state {
            PublishState::INIT | PublishState::PUBLISHED => {
                self.set_publish_message(Some(message));
                self.set_publish_state(PublishState::PUBLISHING, None);
                true
            },
            _ => false,
        }
    }

    pub fn get_event_type(command: AtCommand) -> (r: MoudleEvent)
        ensures
            r == spec_event_type(command),
    {
        match command {
            AtCommand::AT
            | AtCommand::SIMInit
            | AtCommand::NetworkStrengthQuery
            | AtCommand::NetworkQualityQuery
            | AtCommand::NetworkOperatorQuery
            | AtCommand::NetworkRegistrationQuery => MoudleEvent::STATUS,
            AtCommand::QMTCFGVersion
            | AtCommand::QMTCFGSSLEnable
            | AtCommand::QMTCFGRecv
            | AtCommand::QSSLCFGSSLVer
            | AtCommand::QSSLCFGCipher
            | AtCommand::QSSLCFGSecLevel
            | AtCommand::QSSLCFGCACert
            | AtCommand::QSSLCFGIgnoreInvalid
            | AtCommand::QSSLCFGSNI => MoudleEvent::CONFIG,
            AtCommand::QMTOPEN
            | AtCommand::QMTCONN
            | AtCommand::QMTSUBStart
            | AtCommand::QMTSUBEnd
            | AtCommand::QMTSUBStatus => MoudleEvent::CONNECT,
            _ => MoudleEvent::PUBLISH,
        }
    }

    pub fn get_next_command(command: AtCommand) -> (r: AtCommand)
        ensures
            r == next_in_sequence(command),
    {
        match command {
            AtCommand::AT => AtCommand::SIMInit,
            AtCommand::SIMInit => AtCommand::NetworkOperatorQuery,
            AtCommand::NetworkOperatorQuery => AtCommand::NetworkStrengthQuery,
            AtCommand::NetworkStrengthQuery => AtCommand::NetworkQualityQuery,
            AtCommand::NetworkQualityQuery => AtCommand::NetworkRegistrationQuery,
            AtCommand::NetworkRegistrationQuery => AtCommand::QMTCFGVersion,
            AtCommand::QMTCFGVersion => AtCommand::QMTCFGSSLEnable,
            AtCommand::QMTCFGSSLEnable => AtCommand::QMTCFGRecv,
            AtCommand::QMTCFGRecv => AtCommand::QSSLCFGSSLVer,
            AtCommand::QSSLCFGSSLVer => AtCommand::QSSLCFGCipher,
            AtCommand::QSSLCFGCipher => AtCommand::QSSLCFGSecLevel,
            AtCommand::QSSLCFGSecLevel => AtCommand::QSSLCFGCACert,
            AtCommand::QSSLCFGCACert => AtCommand::QSSLCFGIgnoreInvalid,
            AtCommand::QSSLCFGIgnoreInvalid => AtCommand::QSSLCFGSNI,
            AtCommand::QSSLCFGSNI => AtCommand::QMTOPEN,
            AtCommand::QMTOPEN => AtCommand::QMTCONN,
            AtCommand::QMTCONN => AtCommand::QMTSUBStart,
            AtCommand::QMTSUBStart => AtCommand::QMTSUBEnd,
            AtCommand::QMTSUBEnd => AtCommand::QMTSUBStatus,
            AtCommand::QMTSUBStatus => AtCommand::NOOP,
            _ => AtCommand::NOOP,
        }
    }
}

/// Chaining law of the three command sequences: inside each sequence every
/// command is followed by the next entry, the status and configuration
/// sequences chain into the first entry of the following sequence, and
/// the tail of the connection sequence yields the idle command.
pub proof fn lemma_sequence_chaining()
    ensures
        forall|i: int|
            0 <= i < status_sequence().len() - 1 ==> next_in_sequence(
                #[trigger] status_sequence()[i],
            ) == status_sequence()[i + 1],
        next_in_sequence(status_sequence().last()) == config_sequence()[0],
        forall|i: int|
            0 <= i < config_sequence().len() - 1 ==> next_in_sequence(
                #[trigger] config_sequence()[i],
            ) == config_sequence()[i + 1],
        next_in_sequence(config_sequence().last()) == connect_sequence()[0],
        forall|i: int|
            0 <= i < connect_sequence().len() - 1 ==> next_in_sequence(
                #[trigger] connect_sequence()[i],
            ) == connect_sequence()[i + 1],
        next_in_sequence(connect_sequence().last()) == AtCommand::NOOP,
{
}

/// A command outside the three sequences never advances the walk.
pub proof fn lemma_next_outside_sequences(c: AtCommand)
    requires
        !status_sequence().contains(c),
        !config_sequence().contains(c),
        !connect_sequence().contains(c),
    ensures
        next_in_sequence(c) == AtCommand::NOOP,
{
    match c {
        AtCommand::AT => { assert(status_sequence()[0] == c); },
        AtCommand::SIMInit => { assert(status_sequence()[1] == c); },
        AtCommand::NetworkOperatorQuery => { assert(status_sequence()[2] == c); },
        AtCommand::NetworkStrengthQuery => { assert(status_sequence()[3] == c); },
        AtCommand::NetworkQualityQuery => { assert(status_sequence()[4] == c); },
        AtCommand::NetworkRegistrationQuery => { assert(status_sequence()[5] == c); },
        AtCommand::QMTCFGVersion => { assert(config_sequence()[0] == c); },
        AtCommand::QMTCFGSSLEnable => { assert(config_sequence()[1] == c); },
        AtCommand::QMTCFGRecv => { assert(config_sequence()[2] == c); },
        AtCommand::QSSLCFGSSLVer => { assert(config_sequence()[3] == c); },
        AtCommand::QSSLCFGCipher => { assert(config_sequence()[4] == c); },
        AtCommand::QSSLCFGSecLevel => { assert(config_sequence()[5] == c); },
        AtCommand::QSSLCFGCACert => { assert(config_sequence()[6] == c); },
        AtCommand::QSSLCFGIgnoreInvalid => { assert(config_sequence()[7] == c); },
        AtCommand::QSSLCFGSNI => { assert(config_sequence()[8] == c); },
        AtCommand::QMTOPEN => { assert(connect_sequence()[0] == c); },
        AtCommand::QMTCONN => { assert(connect_sequence()[1] == c); },
        AtCommand::QMTSUBStart => { assert(connect_sequence()[2] == c); },
        AtCommand::QMTSUBEnd => { assert(connect_sequence()[3] == c); },
        AtCommand::QMTSUBStatus => { assert(connect_sequence()[4] == c); },
        _ => {},
    }
}

/// Repeated publish requests while a publish is in flight change nothing:
/// the sub-state stays `PUBLISHING` and the stored payload is untouched.
pub proof fn lemma_enqueue_publish_idempotent(t: TrackerView, m1: Seq<u8>, m2: Seq<u8>)
    requires
        t.publish_state is PUBLISHING,
    ensures
        spec_enqueue(spec_enqueue(t, m1), m2) == t,
{
}

} // verus!
