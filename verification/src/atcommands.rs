//! The command catalog: every AT command the engine can issue, its exact
//! wire text, and the three fixed command sequences the engine walks.
use vstd::prelude::*;
use crate::text;

verus! {

use crate::text::{ascii_of, spec_contains};

/// Every command the engine knows. `PUBLISH`, `PUBLISHSUCCESS` and `NOOP`
/// are synthetic: they carry no wire text and never reach the modem as
/// command lines.
#[derive(Debug, Clone, Copy, PartialEq, Eq, Structural)]
pub enum AtCommand {
    AT,
    QMTCFGVersion,
    QMTCFGSSLEnable,
    QMTCFGRecv,
    QSSLCFGSSLVer,
    QSSLCFGCipher,
    QSSLCFGSecLevel,
    QSSLCFGCACert,
    QSSLCFGIgnoreInvalid,
    QSSLCFGSNI,
    QMTOPEN,
    QMTCONN,
    QMTSUBStart,
    QMTSUBEnd,
    QMTSUBStatus,
    SIMInit,
    NetworkRegistrationQuery,
    NetworkOperatorQuery,
    NetworkStrengthQuery,
    NetworkQualityQuery,
    QMTOPENQuery,
    QMTCONNQuery,
    QMTDISC,
    QMTCLOSE,
    PUBLISH,
    PUBLISHSUCCESS,
    NOOP,
}

impl AtCommand {
    /// The exact characters this command puts on the wire.
    pub open spec fn wire_str(self) -> Seq<char> {
        match self {
            AtCommand::AT => "AT\r\n"@,
            AtCommand::QMTCFGVersion => "AT+QMTCFG=\"version\",0,3\r\n"@,
            AtCommand::QMTCFGSSLEnable => "AT+QMTCFG=\"SSL\",0,1,0\r\n"@,
            AtCommand::QMTCFGRecv => "AT+QMTCFG=\"recv/mode\",0,0,1\r\n"@,
            AtCommand::QSSLCFGSSLVer => "AT+QSSLCFG=\"sslversion\",0,4\r\n"@,
            AtCommand::QSSLCFGCipher => "AT+QSSLCFG=\"ciphersuite\",0,0XFFFF\r\n"@,
            AtCommand::QSSLCFGSecLevel => "AT+QSSLCFG=\"seclevel\",0,0\r\n"@,
            AtCommand::QSSLCFGCACert => "AT+QSSLCFG=\"cacert\",0,\"hive\"\r\n"@,
            AtCommand::QSSLCFGIgnoreInvalid => "AT+QSSLCFG=\"ignoreinvalidcertsign\",0,1\r\n"@,
            AtCommand::QSSLCFGSNI => "AT+QSSLCFG=\"sni\",0,1\r\n"@,
            AtCommand::QMTOPEN => "AT+QMTOPEN=0,\"abc.dev.url.com\",8883\r\n"@,
            AtCommand::QMTCONN => "AT+QMTCONN=0,\"U2\",\"username\",\"password\"\r\n"@,
            AtCommand::QMTSUBStart => "AT+QMTSUB=0,1,\"SUBONE/start\",0\r\n"@,
            AtCommand::QMTSUBEnd => "AT+QMTSUB=0,1,\"SUBONE/end\",0\r\n"@,
            AtCommand::QMTSUBStatus => "AT+QMTSUB=0,1,\"SUBONE/status\",0\r\n"@,
            AtCommand::SIMInit => "AT+QINISTAT\r\n"@,
            AtCommand::NetworkRegistrationQuery => "AT+CREG?\r\n"@,
            AtCommand::NetworkOperatorQuery => "AT+COPS?\r\n"@,
            AtCommand::NetworkStrengthQuery => "AT+CSQ\r\n"@,
            AtCommand::NetworkQualityQuery => "AT+QNWINFO\r\n"@,
            AtCommand::QMTOPENQuery => "AT+QMTOPEN?\r\n"@,
            AtCommand::QMTCONNQuery => "AT+QMTCONN?\r\n"@,
            AtCommand::QMTDISC => "AT+QMTDISC=0\r\n"@,
            AtCommand::QMTCLOSE => "AT+QMTCLOSE=0\r\n"@,
            AtCommand::PUBLISH => ""@,
            AtCommand::PUBLISHSUCCESS => ""@,
            AtCommand::NOOP => ""@,
        }
    }

    /// The wire text as bytes.
    pub open spec fn wire_bytes(self) -> Seq<u8> {
        ascii_of(self.wire_str())
    }

    pub fn as_str(&self) -> (r: &'static str)
        ensures
            r@ == self.wire_str(),
    {
        match self {
            AtCommand::AT => "AT\r\n",
            AtCommand::QMTCFGVersion => "AT+QMTCFG=\"version\",0,3\r\n",
            AtCommand::QMTCFGSSLEnable => "AT+QMTCFG=\"SSL\",0,1,0\r\n",
            AtCommand::QMTCFGRecv => "AT+QMTCFG=\"recv/mode\",0,0,1\r\n",
            AtCommand::QSSLCFGSSLVer => "AT+QSSLCFG=\"sslversion\",0,4\r\n",
            AtCommand::QSSLCFGCipher => "AT+QSSLCFG=\"ciphersuite\",0,0XFFFF\r\n",
            AtCommand::QSSLCFGSecLevel => "AT+QSSLCFG=\"seclevel\",0,0\r\n",
            AtCommand::QSSLCFGCACert => "AT+QSSLCFG=\"cacert\",0,\"hive\"\r\n",
            AtCommand::QSSLCFGIgnoreInvalid => "AT+QSSLCFG=\"ignoreinvalidcertsign\",0,1\r\n",
            AtCommand::QSSLCFGSNI => "AT+QSSLCFG=\"sni\",0,1\r\n",
            AtCommand::QMTOPEN => "AT+QMTOPEN=0,\"abc.dev.url.com\",8883\r\n",
            AtCommand::QMTCONN => "AT+QMTCONN=0,\"U2\",\"username\",\"password\"\r\n",
            AtCommand::QMTSUBStart => "AT+QMTSUB=0,1,\"SUBONE/start\",0\r\n",
            AtCommand::QMTSUBEnd => "AT+QMTSUB=0,1,\"SUBONE/end\",0\r\n",
            AtCommand::QMTSUBStatus => "AT+QMTSUB=0,1,\"SUBONE/status\",0\r\n",
            AtCommand::SIMInit => "AT+QINISTAT\r\n",
            AtCommand::NetworkRegistrationQuery => "AT+CREG?\r\n",
            AtCommand::NetworkOperatorQuery => "AT+COPS?\r\n",
            AtCommand::NetworkStrengthQuery => "AT+CSQ\r\n",
            AtCommand::NetworkQualityQuery => "AT+QNWINFO\r\n",
            AtCommand::QMTOPENQuery => "AT+QMTOPEN?\r\n",
            AtCommand::QMTCONNQuery => "AT+QMTCONN?\r\n",
            AtCommand::QMTDISC => "AT+QMTDISC=0\r\n",
            AtCommand::QMTCLOSE => "AT+QMTCLOSE=0\r\n",
            AtCommand::PUBLISH => "",
            AtCommand::PUBLISHSUCCESS => "",
            AtCommand::NOOP => "",
        }
    }

    pub fn as_bytes(&self) -> (r: &'static [u8])
        ensures
            r@ == self.wire_bytes(),
    {
        let s = self.as_str();
        proof {
            lemma_wire_str_ascii(*self);
        }
        text::lit_bytes(s)
    }

    /// Best-effort identification of a command name quoted back in modem
    /// chatter, by the first matching key token.
    pub open spec fn classify_text(s: Seq<u8>) -> Option<AtCommand> {
        if spec_contains(s, ascii_of("+QMTCFG"@)) {
            Some(AtCommand::QMTCFGRecv)
        } else if spec_contains(s, ascii_of("+QSSLCFG"@)) {
            Some(AtCommand::QSSLCFGSSLVer)
        } else if spec_contains(s, ascii_of("+QMTOPEN"@)) {
            Some(AtCommand::QMTOPEN)
        } else if spec_contains(s, ascii_of("+QMTCONN"@)) {
            Some(AtCommand::QMTCONN)
        } else if spec_contains(s, ascii_of("+QMTSUB"@)) {
            Some(AtCommand::QMTSUBStart)
        } else if spec_contains(s, ascii_of("+QINISTAT"@)) {
            Some(AtCommand::SIMInit)
        } else if spec_contains(s, ascii_of("+CREG"@)) {
            Some(AtCommand::NetworkRegistrationQuery)
        } else if spec_contains(s, ascii_of("+COPS"@)) {
            Some(AtCommand::NetworkOperatorQuery)
        } else if spec_contains(s, ascii_of("+CSQ"@)) {
            Some(AtCommand::NetworkStrengthQuery)
        } else if spec_contains(s, ascii_of("+QNWINFO"@)) {
            Some(AtCommand::NetworkQualityQuery)
        } else if spec_contains(s, ascii_of("+QMTDISC"@)) {
            Some(AtCommand::QMTDISC)
        } else if spec_contains(s, ascii_of("+QMTCLOSE"@)) {
            Some(AtCommand::QMTCLOSE)
        } else {
            None
        }
    }

    pub fn from_str(command: &[u8]) -> (r: Option<AtCommand>)
        ensures
            r == Self::classify_text(command@),
    {
        proof {
            reveal_strlit("+QMTCFG");
            reveal_strlit("+QSSLCFG");
            reveal_strlit("+QMTOPEN");
            reveal_strlit("+QMTCONN");
            reveal_strlit("+QMTSUB");
            reveal_strlit("+QINISTAT");
            reveal_strlit("+CREG");
            reveal_strlit("+COPS");
            reveal_strlit("+CSQ");
            reveal_strlit("+QNWINFO");
            reveal_strlit("+QMTDISC");
            reveal_strlit("+QMTCLOSE");
        }
        if text::bytes_contains(command, text::lit_bytes("+QMTCFG")) {
            Some(AtCommand::QMTCFGRecv)
        } else if text::bytes_contains(command, text::lit_bytes("+QSSLCFG")) {
            Some(AtCommand::QSSLCFGSSLVer)
        } else if text::bytes_contains(command, text::lit_bytes("+QMTOPEN")) {
            Some(AtCommand::QMTOPEN)
        } else if text::bytes_contains(command, text::lit_bytes("+QMTCONN")) {
            Some(AtCommand::QMTCONN)
        } else if text::bytes_contains(command, text::lit_bytes("+QMTSUB")) {
            Some(AtCommand::QMTSUBStart)
        } else if text::bytes_contains(command, text::lit_bytes("+QINISTAT")) {
            Some(AtCommand::SIMInit)
        } else if text::bytes_contains(command, text::lit_bytes("+CREG")) {
            Some(AtCommand::NetworkRegistrationQuery)
        } else if text::bytes_contains(command, text::lit_bytes("+COPS")) {
            Some(AtCommand::NetworkOperatorQuery)
        } else if text::bytes_contains(command, text::lit_bytes("+CSQ")) {
            Some(AtCommand::NetworkStrengthQuery)
        } else if text::bytes_contains(command, text::lit_bytes("+QNWINFO")) {
            Some(AtCommand::NetworkQualityQuery)
        } else if text::bytes_contains(command, text::lit_bytes("+QMTDISC")) {
            Some(AtCommand::QMTDISC)
        } else if text::bytes_contains(command, text::lit_bytes("+QMTCLOSE")) {
            Some(AtCommand::QMTCLOSE)
        } else {
            None
        }
    }
}

pub proof fn lemma_wire_str_ascii(c: AtCommand)
    ensures
        vstd::utf8::is_ascii_chars(c.wire_str()),
{
    reveal_strlit("AT\r\n");
    reveal_strlit("AT+QMTCFG=\"version\",0,3\r\n");
    reveal_strlit("AT+QMTCFG=\"SSL\",0,1,0\r\n");
    reveal_strlit("AT+QMTCFG=\"recv/mode\",0,0,1\r\n");
    reveal_strlit("AT+QSSLCFG=\"sslversion\",0,4\r\n");
    reveal_strlit("AT+QSSLCFG=\"ciphersuite\",0,0XFFFF\r\n");
    reveal_strlit("AT+QSSLCFG=\"seclevel\",0,0\r\n");
    reveal_strlit("AT+QSSLCFG=\"cacert\",0,\"hive\"\r\n");
    reveal_strlit("AT+QSSLCFG=\"ignoreinvalidcertsign\",0,1\r\n");
    reveal_strlit("AT+QSSLCFG=\"sni\",0,1\r\n");
    reveal_strlit("AT+QMTOPEN=0,\"abc.dev.url.com\",8883\r\n");
    reveal_strlit("AT+QMTCONN=0,\"U2\",\"username\",\"password\"\r\n");
    reveal_strlit("AT+QMTSUB=0,1,\"SUBONE/start\",0\r\n");
    reveal_strlit("AT+QMTSUB=0,1,\"SUBONE/end\",0\r\n");
    reveal_strlit("AT+QMTSUB=0,1,\"SUBONE/status\",0\r\n");
    reveal_strlit("AT+QINISTAT\r\n");
    reveal_strlit("AT+CREG?\r\n");
    reveal_strlit("AT+COPS?\r\n");
    reveal_strlit("AT+CSQ\r\n");
    reveal_strlit("AT+QNWINFO\r\n");
    reveal_strlit("AT+QMTOPEN?\r\n");
    reveal_strlit("AT+QMTCONN?\r\n");
    reveal_strlit("AT+QMTDISC=0\r\n");
    reveal_strlit("AT+QMTCLOSE=0\r\n");
    reveal_strlit("");
}

/// The status-probe sequence: basic liveness, then SIM and network checks.
pub open spec fn status_sequence() -> Seq<AtCommand> {
    seq![
        AtCommand::AT,
        AtCommand::SIMInit,
        AtCommand::NetworkOperatorQuery,
        AtCommand::NetworkStrengthQuery,
        AtCommand::NetworkQualityQuery,
        AtCommand::NetworkRegistrationQuery,
    ]
}

/// The TLS/MQTT configuration sequence.
pub open spec fn config_sequence() -> Seq<AtCommand> {
    seq![
        AtCommand::QMTCFGVersion,
        AtCommand::QMTCFGSSLEnable,
        AtCommand::QMTCFGRecv,
        AtCommand::QSSLCFGSSLVer,
        AtCommand::QSSLCFGCipher,
        AtCommand::QSSLCFGSecLevel,
        AtCommand::QSSLCFGCACert,
        AtCommand::QSSLCFGIgnoreInvalid,
        AtCommand::QSSLCFGSNI,
    ]
}

/// The MQTT connection and subscription sequence.
pub open spec fn connect_sequence() -> Seq<AtCommand> {
    seq![
        AtCommand::QMTOPEN,
        AtCommand::QMTCONN,
        AtCommand::QMTSUBStart,
        AtCommand::QMTSUBEnd,
        AtCommand::QMTSUBStatus,
    ]
}

/// A command picked to be issued next.
#[derive(Debug, Clone)]
pub struct Commander {
    pub command: AtCommand,
}

impl Commander {
    pub fn at() -> (r: Self)
        ensures
            r.command == AtCommand::AT,
    {
        Commander { command: AtCommand::AT }
    }

    pub fn sim_status() -> (r: Self)
        ensures
            r.command == AtCommand::SIMInit,
    {
        Commander { command: AtCommand::SIMInit }
    }

    pub fn query_network_strength() -> (r: Self)
        ensures
            r.command == AtCommand::NetworkStrengthQuery,
    {
        Commander { command: AtCommand::NetworkStrengthQuery }
    }

    pub fn query_network_quality() -> (r: Self)
        ensures
            r.command == AtCommand::NetworkQualityQuery,
    {
        Commander { command: AtCommand::NetworkQualityQuery }
    }

    pub fn query_network_operator() -> (r: Self)
        ensures
            r.command == AtCommand::NetworkOperatorQuery,
    {
        Commander { command: AtCommand::NetworkOperatorQuery }
    }

    pub fn query_network_registration() -> (r: Self)
        ensures
            r.command == AtCommand::NetworkRegistrationQuery,
    {
        Commander { command: AtCommand::NetworkRegistrationQuery }
    }

    pub fn query_mqtt_connectoin_open() -> (r: Self)
        ensures
            r.command == AtCommand::QMTOPENQuery,
    {
        Commander { command: AtCommand::QMTOPENQuery }
    }

    pub fn query_mqtt_connection_connected() -> (r: Self)
        ensures
            r.command == AtCommand::QMTCONNQuery,
    {
        Commander { command: AtCommand::QMTCONNQuery }
    }

    pub fn config_mqtt_version() -> (r: Self)
        ensures
            r.command == AtCommand::QMTCFGVersion,
    {
        Commander { command: AtCommand::QMTCFGVersion }
    }

    pub fn config_mqtt_receive_mode() -> (r: Self)
        ensures
            r.command == AtCommand::QMTCFGRecv,
    {
        Commander { command: AtCommand::QMTCFGRecv }
    }

    pub fn config_enable_ssl() -> (r: Self)
        ensures
            r.command == AtCommand::QMTCFGSSLEnable,
    {
        Commander { command: AtCommand::QMTCFGSSLEnable }
    }

    pub fn config_ssl_version() -> (r: Self)
        ensures
            r.command == AtCommand::QSSLCFGSSLVer,
    {
        Commander { command: AtCommand::QSSLCFGSSLVer }
    }

    pub fn config_ssl_cipher() -> (r: Self)
        ensures
            r.command == AtCommand::QSSLCFGCipher,
    {
        Commander { command: AtCommand::QSSLCFGCipher }
    }

    pub fn config_ssl_sec_level() -> (r: Self)
        ensures
            r.command == AtCommand::QSSLCFGSecLevel,
    {
        Commander { command: AtCommand::QSSLCFGSecLevel }
    }

    pub fn config_ssl_ca_cert() -> (r: Self)
        ensures
            r.command == AtCommand::QSSLCFGCACert,
    {
        Commander { command: AtCommand::QSSLCFGCACert }
    }

    pub fn config_ssl_ignore_invalid_cert() -> (r: Self)
        ensures
            r.command == AtCommand::QSSLCFGIgnoreInvalid,
    {
        Commander { command: AtCommand::QSSLCFGIgnoreInvalid }
    }

    pub fn config_ssl_sni() -> (r: Self)
        ensures
            r.command == AtCommand::QSSLCFGSNI,
    {
        Commander { command: AtCommand::QSSLCFGSNI }
    }

    pub fn query_mqtt_connection() -> (r: Self)
        ensures
            r.command == AtCommand::QMTCONNQuery,
    {
        Commander { command: AtCommand::QMTCONNQuery }
    }

    pub fn open_mqtt_connection() -> (r: Self)
        ensures
            r.command == AtCommand::QMTOPEN,
    {
        Commander { command: AtCommand::QMTOPEN }
    }

    pub fn connect_mqtt_client() -> (r: Self)
        ensures
            r.command == AtCommand::QMTCONN,
    {
        Commander { command: AtCommand::QMTCONN }
    }

    pub fn subscribe_mqtt_start_topic() -> (r: Self)
        ensures
            r.command == AtCommand::QMTSUBStart,
    {
        Commander { command: AtCommand::QMTSUBStart }
    }

    pub fn subscribe_mqtt_end_topic() -> (r: Self)
        ensures
            r.command == AtCommand::QMTSUBEnd,
    {
        Commander { command: AtCommand::QMTSUBEnd }
    }

    pub fn subscribe_mqtt_status_topic() -> (r: Self)
        ensures
            r.command == AtCommand::QMTSUBStatus,
    {
        Commander { command: AtCommand::QMTSUBStatus }
    }
}

} // verus!
