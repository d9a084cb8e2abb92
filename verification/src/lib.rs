//! A verified AT-command protocol engine for a UART-attached cellular
//! modem that is driven as an MQTT publish/subscribe client: the command
//! catalog and its three fixed sequences, the module state tracker, the
//! response classifier, the subscribed-message decoder, the
//! response-handling state machine, and the power meter's Modbus frames.
#![verifier::loop_isolation(false)]
pub mod at;
pub mod atcommands;
pub mod atmodule;
pub mod atres;
pub mod controller;
pub mod emon;
pub mod subscribe;
pub mod text;
