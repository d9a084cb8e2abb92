use atcontroller::atcommands::{AtCommand, Commander};
use atcontroller::atmodule::{ATMoudle, MoudleEvent};

#[test]
fn wire_text_of_every_command() {
    assert_eq!(AtCommand::AT.as_str(), "AT\r\n");
    assert_eq!(AtCommand::QMTCFGVersion.as_str(), "AT+QMTCFG=\"version\",0,3\r\n");
    assert_eq!(AtCommand::QMTCFGSSLEnable.as_str(), "AT+QMTCFG=\"SSL\",0,1,0\r\n");
    assert_eq!(AtCommand::QMTCFGRecv.as_str(), "AT+QMTCFG=\"recv/mode\",0,0,1\r\n");
    assert_eq!(AtCommand::QSSLCFGSSLVer.as_str(), "AT+QSSLCFG=\"sslversion\",0,4\r\n");
    assert_eq!(AtCommand::QSSLCFGCipher.as_str(), "AT+QSSLCFG=\"ciphersuite\",0,0XFFFF\r\n");
    assert_eq!(AtCommand::QSSLCFGSecLevel.as_str(), "AT+QSSLCFG=\"seclevel\",0,0\r\n");
    assert_eq!(AtCommand::QSSLCFGCACert.as_str(), "AT+QSSLCFG=\"cacert\",0,\"hive\"\r\n");
    assert_eq!(
        AtCommand::QSSLCFGIgnoreInvalid.as_str(),
        "AT+QSSLCFG=\"ignoreinvalidcertsign\",0,1\r\n"
    );
    assert_eq!(AtCommand::QSSLCFGSNI.as_str(), "AT+QSSLCFG=\"sni\",0,1\r\n");
    assert_eq!(AtCommand::QMTOPEN.as_str(), "AT+QMTOPEN=0,\"abc.dev.url.com\",8883\r\n");
    assert_eq!(AtCommand::QMTCONN.as_str(), "AT+QMTCONN=0,\"U2\",\"username\",\"password\"\r\n");
    assert_eq!(AtCommand::QMTSUBStart.as_str(), "AT+QMTSUB=0,1,\"SUBONE/start\",0\r\n");
    assert_eq!(AtCommand::QMTSUBEnd.as_str(), "AT+QMTSUB=0,1,\"SUBONE/end\",0\r\n");
    assert_eq!(AtCommand::QMTSUBStatus.as_str(), "AT+QMTSUB=0,1,\"SUBONE/status\",0\r\n");
    assert_eq!(AtCommand::SIMInit.as_str(), "AT+QINISTAT\r\n");
    assert_eq!(AtCommand::NetworkRegistrationQuery.as_str(), "AT+CREG?\r\n");
    assert_eq!(AtCommand::NetworkOperatorQuery.as_str(), "AT+COPS?\r\n");
    assert_eq!(AtCommand::NetworkStrengthQuery.as_str(), "AT+CSQ\r\n");
    assert_eq!(AtCommand::NetworkQualityQuery.as_str(), "AT+QNWINFO\r\n");
    assert_eq!(AtCommand::QMTOPENQuery.as_str(), "AT+QMTOPEN?\r\n");
    assert_eq!(AtCommand::QMTCONNQuery.as_str(), "AT+QMTCONN?\r\n");
    assert_eq!(AtCommand::QMTDISC.as_str(), "AT+QMTDISC=0\r\n");
    assert_eq!(AtCommand::QMTCLOSE.as_str(), "AT+QMTCLOSE=0\r\n");
}

#[test]
fn synthetic_commands_have_no_wire_text() {
    assert_eq!(AtCommand::PUBLISH.as_str(), "");
    assert_eq!(AtCommand::PUBLISHSUCCESS.as_str(), "");
    assert_eq!(AtCommand::NOOP.as_str(), "");
    assert_eq!(AtCommand::PUBLISH.as_bytes(), b"");
}

#[test]
fn wire_bytes_match_wire_text() {
    assert_eq!(AtCommand::AT.as_bytes(), b"AT\r\n");
    assert_eq!(AtCommand::SIMInit.as_bytes(), b"AT+QINISTAT\r\n");
    assert_eq!(
        AtCommand::QMTOPEN.as_bytes(),
        b"AT+QMTOPEN=0,\"abc.dev.url.com\",8883\r\n".as_slice()
    );
}

#[test]
fn chatter_classification_by_key_token() {
    assert_eq!(AtCommand::from_str(b"AT+QMTCFG=..."), Some(AtCommand::QMTCFGRecv));
    assert_eq!(AtCommand::from_str(b"AT+QSSLCFG=..."), Some(AtCommand::QSSLCFGSSLVer));
    assert_eq!(AtCommand::from_str(b"+QMTOPEN: 0,0"), Some(AtCommand::QMTOPEN));
    assert_eq!(AtCommand::from_str(b"+QMTCONN: 0,0,0"), Some(AtCommand::QMTCONN));
    assert_eq!(AtCommand::from_str(b"+QMTSUB: 0,1,0"), Some(AtCommand::QMTSUBStart));
    assert_eq!(AtCommand::from_str(b"+QINISTAT: 7"), Some(AtCommand::SIMInit));
    assert_eq!(AtCommand::from_str(b"+CREG: 0,1"), Some(AtCommand::NetworkRegistrationQuery));
    assert_eq!(AtCommand::from_str(b"+COPS: 0"), Some(AtCommand::NetworkOperatorQuery));
    assert_eq!(AtCommand::from_str(b"+CSQ: 23,99"), Some(AtCommand::NetworkStrengthQuery));
    assert_eq!(AtCommand::from_str(b"+QNWINFO: x"), Some(AtCommand::NetworkQualityQuery));
    assert_eq!(AtCommand::from_str(b"+QMTDISC: 0"), Some(AtCommand::QMTDISC));
    assert_eq!(AtCommand::from_str(b"+QMTCLOSE: 0"), Some(AtCommand::QMTCLOSE));
    assert_eq!(AtCommand::from_str(b"RDY"), None);
}

#[test]
fn status_sequence_chains_forward() {
    assert_eq!(ATMoudle::get_next_command(AtCommand::AT), AtCommand::SIMInit);
    assert_eq!(ATMoudle::get_next_command(AtCommand::SIMInit), AtCommand::NetworkOperatorQuery);
    assert_eq!(
        ATMoudle::get_next_command(AtCommand::NetworkOperatorQuery),
        AtCommand::NetworkStrengthQuery
    );
    assert_eq!(
        ATMoudle::get_next_command(AtCommand::NetworkStrengthQuery),
        AtCommand::NetworkQualityQuery
    );
    assert_eq!(
        ATMoudle::get_next_command(AtCommand::NetworkQualityQuery),
        AtCommand::NetworkRegistrationQuery
    );
    assert_eq!(
        ATMoudle::get_next_command(AtCommand::NetworkRegistrationQuery),
        AtCommand::QMTCFGVersion
    );
}

#[test]
fn config_sequence_chains_forward() {
    assert_eq!(ATMoudle::get_next_command(AtCommand::QMTCFGVersion), AtCommand::QMTCFGSSLEnable);
    assert_eq!(ATMoudle::get_next_command(AtCommand::QMTCFGSSLEnable), AtCommand::QMTCFGRecv);
    assert_eq!(ATMoudle::get_next_command(AtCommand::QMTCFGRecv), AtCommand::QSSLCFGSSLVer);
    assert_eq!(ATMoudle::get_next_command(AtCommand::QSSLCFGSSLVer), AtCommand::QSSLCFGCipher);
    assert_eq!(ATMoudle::get_next_command(AtCommand::QSSLCFGCipher), AtCommand::QSSLCFGSecLevel);
    assert_eq!(ATMoudle::get_next_command(AtCommand::QSSLCFGSecLevel), AtCommand::QSSLCFGCACert);
    assert_eq!(
        ATMoudle::get_next_command(AtCommand::QSSLCFGCACert),
        AtCommand::QSSLCFGIgnoreInvalid
    );
    assert_eq!(ATMoudle::get_next_command(AtCommand::QSSLCFGIgnoreInvalid), AtCommand::QSSLCFGSNI);
    assert_eq!(ATMoudle::get_next_command(AtCommand::QSSLCFGSNI), AtCommand::QMTOPEN);
}

#[test]
fn connect_sequence_chains_and_parks() {
    assert_eq!(ATMoudle::get_next_command(AtCommand::QMTOPEN), AtCommand::QMTCONN);
    assert_eq!(ATMoudle::get_next_command(AtCommand::QMTCONN), AtCommand::QMTSUBStart);
    assert_eq!(ATMoudle::get_next_command(AtCommand::QMTSUBStart), AtCommand::QMTSUBEnd);
    assert_eq!(ATMoudle::get_next_command(AtCommand::QMTSUBEnd), AtCommand::QMTSUBStatus);
    assert_eq!(ATMoudle::get_next_command(AtCommand::QMTSUBStatus), AtCommand::NOOP);
}

#[test]
fn commands_outside_the_sequences_do_not_advance() {
    assert_eq!(ATMoudle::get_next_command(AtCommand::QMTOPENQuery), AtCommand::NOOP);
    assert_eq!(ATMoudle::get_next_command(AtCommand::QMTCONNQuery), AtCommand::NOOP);
    assert_eq!(ATMoudle::get_next_command(AtCommand::QMTDISC), AtCommand::NOOP);
    assert_eq!(ATMoudle::get_next_command(AtCommand::QMTCLOSE), AtCommand::NOOP);
    assert_eq!(ATMoudle::get_next_command(AtCommand::PUBLISH), AtCommand::NOOP);
    assert_eq!(ATMoudle::get_next_command(AtCommand::PUBLISHSUCCESS), AtCommand::NOOP);
    assert_eq!(ATMoudle::get_next_command(AtCommand::NOOP), AtCommand::NOOP);
}

#[test]
fn event_type_buckets() {
    assert_eq!(ATMoudle::get_event_type(AtCommand::AT), MoudleEvent::STATUS);
    assert_eq!(ATMoudle::get_event_type(AtCommand::NetworkRegistrationQuery), MoudleEvent::STATUS);
    assert_eq!(ATMoudle::get_event_type(AtCommand::QMTCFGVersion), MoudleEvent::CONFIG);
    assert_eq!(ATMoudle::get_event_type(AtCommand::QSSLCFGSNI), MoudleEvent::CONFIG);
    assert_eq!(ATMoudle::get_event_type(AtCommand::QMTOPEN), MoudleEvent::CONNECT);
    assert_eq!(ATMoudle::get_event_type(AtCommand::QMTSUBStatus), MoudleEvent::CONNECT);
    assert_eq!(ATMoudle::get_event_type(AtCommand::QMTOPENQuery), MoudleEvent::PUBLISH);
    assert_eq!(ATMoudle::get_event_type(AtCommand::PUBLISH), MoudleEvent::PUBLISH);
    assert_eq!(ATMoudle::get_event_type(AtCommand::NOOP), MoudleEvent::PUBLISH);
}

#[test]
fn commander_constructors_pick_their_commands() {
    assert_eq!(Commander::at().command, AtCommand::AT);
    assert_eq!(Commander::sim_status().command, AtCommand::SIMInit);
    assert_eq!(Commander::query_network_strength().command, AtCommand::NetworkStrengthQuery);
    assert_eq!(Commander::query_network_quality().command, AtCommand::NetworkQualityQuery);
    assert_eq!(Commander::query_network_operator().command, AtCommand::NetworkOperatorQuery);
    assert_eq!(
        Commander::query_network_registration().command,
        AtCommand::NetworkRegistrationQuery
    );
    assert_eq!(Commander::query_mqtt_connectoin_open().command, AtCommand::QMTOPENQuery);
    assert_eq!(Commander::query_mqtt_connection_connected().command, AtCommand::QMTCONNQuery);
    assert_eq!(Commander::config_mqtt_version().command, AtCommand::QMTCFGVersion);
    assert_eq!(Commander::config_mqtt_receive_mode().command, AtCommand::QMTCFGRecv);
    assert_eq!(Commander::config_enable_ssl().command, AtCommand::QMTCFGSSLEnable);
    assert_eq!(Commander::config_ssl_version().command, AtCommand::QSSLCFGSSLVer);
    assert_eq!(Commander::config_ssl_cipher().command, AtCommand::QSSLCFGCipher);
    assert_eq!(Commander::config_ssl_sec_level().command, AtCommand::QSSLCFGSecLevel);
    assert_eq!(Commander::config_ssl_ca_cert().command, AtCommand::QSSLCFGCACert);
    assert_eq!(Commander::config_ssl_ignore_invalid_cert().command, AtCommand::QSSLCFGIgnoreInvalid);
    assert_eq!(Commander::config_ssl_sni().command, AtCommand::QSSLCFGSNI);
    assert_eq!(Commander::query_mqtt_connection().command, AtCommand::QMTCONNQuery);
    assert_eq!(Commander::open_mqtt_connection().command, AtCommand::QMTOPEN);
    assert_eq!(Commander::connect_mqtt_client().command, AtCommand::QMTCONN);
    assert_eq!(Commander::subscribe_mqtt_start_topic().command, AtCommand::QMTSUBStart);
    assert_eq!(Commander::subscribe_mqtt_end_topic().command, AtCommand::QMTSUBEnd);
    assert_eq!(Commander::subscribe_mqtt_status_topic().command, AtCommand::QMTSUBStatus);
}
