//! Errors produced by the library.
use vstd::prelude::*;
use vstd::string::*;
use crate::command::{command_message, CommandError};
use crate::text::{decimal, decimal_text, is_prefix, text3};
use mdns_sd::Error as MdnsError;
use serde_json::Error as JsonError;

verus! {

/// `serde_json::Error`, carried through opaque.
#[verifier::external_type_specification]
#[verifier::external_body]
pub struct ExJsonError(JsonError);

/// `std::io::Error`, carried through opaque.
#[verifier::external_type_specification]
#[verifier::external_body]
pub struct ExIoError(std::io::Error);

/// `std::io::ErrorKind`, carried through opaque.
#[verifier::external_type_specification]
#[verifier::external_body]
pub struct ExIoErrorKind(std::io::ErrorKind);

/// `mdns_sd::Error`, carried through opaque.
#[verifier::external_type_specification]
#[verifier::external_body]
pub struct ExMdnsError(MdnsError);

/// Errors produced by Glimta.
#[derive(Debug)]
pub enum Error {
    Command(CommandError),
    Json(JsonError),
    Io(std::io::Error),
    Discovery(MdnsError),
    DiscoveryChannelClosed,
    NoGatewayFound,
    GatewayStatus { status: String, path: String },
    EmptyCredential(&'static str),
    ObserveCommandRequiresSubscription,
    ObservationLagged { dropped: u64 },
    ObservationDecode(String),
    ObservationTransport { kind: std::io::ErrorKind, message: String },
    ObservationEnded,
    ObservationReconnect(String),
}

/// The text of an error, as its `Display` renders it; nothing for the errors
/// of `serde_json`, `std::io` and `mdns_sd`, whose texts those crates make.
pub open spec fn error_message(e: Error) -> Option<Seq<char>> {
    match e {
        Error::Command(c) => Some(command_message(c)),
        Error::Json(_) => None,
        Error::Io(_) => None,
        Error::Discovery(_) => None,
        Error::DiscoveryChannelClosed => Some("mDNS discovery channel closed unexpectedly"@),
        Error::NoGatewayFound => Some(
            "no classic TRADFRI gateway was found before the discovery timeout"@,
        ),
        Error::GatewayStatus { status, path } => Some(
            "gateway returned CoAP status "@ + status@ + " for "@ + path@,
        ),
        Error::EmptyCredential(field) => Some(field@ + " must not be empty"@),
        Error::ObserveCommandRequiresSubscription => Some(
            "an observe command must be started with an observation API"@,
        ),
        Error::ObservationLagged { dropped } => Some(
            "an observation dropped "@ + decimal(dropped as nat)
                + " stale update(s); the next item is the newest snapshot"@,
        ),
        Error::ObservationDecode(message) => Some(
            "an observation payload could not be decoded: "@ + message@,
        ),
        Error::ObservationTransport { kind, message } => Some(
            "an observation transport failed: "@ + message@,
        ),
        Error::ObservationEnded => Some(
            "an observation ended; a resilient observation will reconnect"@,
        ),
        Error::ObservationReconnect(message) => Some(
            "an observation reconnect attempt failed: "@ + message@,
        ),
    }
}

impl Error {
    /// The text of the error. A `serde_json` or `std::io` error is described
    /// by its own text, and a discovery failure by its text after
    /// `mDNS discovery failed: `.
    pub fn message(&self) -> (r: String)
        ensures
            error_message(*self) matches Some(text) ==> r@ == text,
            self is Discovery ==> is_prefix("mDNS discovery failed: "@, r@),
    {
        match self {
            Error::Command(c) => c.message(),
            Error::Json(e) => e.to_string(),
            Error::Io(e) => e.to_string(),
            Error::Discovery(e) => {
                let prefix = "mDNS discovery failed: ";
                let mut r = String::from_str(prefix);
                r.append(e.to_string().as_str());
                assert(r@.subrange(0, prefix@.len() as int) =~= prefix@);
                r
            },
            Error::DiscoveryChannelClosed => String::from_str(
                "mDNS discovery channel closed unexpectedly",
            ),
            Error::NoGatewayFound => String::from_str(
                "no classic TRADFRI gateway was found before the discovery timeout",
            ),
            Error::GatewayStatus { status, path } => {
                let mut r = text3("gateway returned CoAP status ", status.as_str(), " for ");
                r.append(path.as_str());
                r
            },
            Error::EmptyCredential(field) => {
                let mut r = String::from_str(field);
                r.append(" must not be empty");
                r
            },
            Error::ObserveCommandRequiresSubscription => String::from_str(
                "an observe command must be started with an observation API",
            ),
            Error::ObservationLagged { dropped } => text3(
                "an observation dropped ",
                decimal_text(*dropped).as_str(),
                " stale update(s); the next item is the newest snapshot",
            ),
            Error::ObservationDecode(message) => {
                let mut r = String::from_str("an observation payload could not be decoded: ");
                r.append(message.as_str());
                r
            },
            Error::ObservationTransport { message, .. } => {
                let mut r = String::from_str("an observation transport failed: ");
                r.append(message.as_str());
                r
            },
            Error::ObservationEnded => String::from_str(
                "an observation ended; a resilient observation will reconnect",
            ),
            Error::ObservationReconnect(message) => {
                let mut r = String::from_str("an observation reconnect attempt failed: ");
                r.append(message.as_str());
                r
            },
        }
    }
}

/// Glimta result type.
pub type Result<T> = std::result::Result<T, Error>;

} // verus!
