//! Decoding of Advanced Mobile Location (AML) messages, received as SMS
//! (7-bit packed binary or plain text) or as an HTTPS form body, into one
//! canonical location record.
use vstd::prelude::*;

pub mod sms;
pub mod https;
pub mod aml;
pub mod laws;
pub mod text;
pub mod fields;
pub mod number;
pub mod time;

pub use sms::{SmsData, SmsDataV1, SmsDataV2, VersionedSms};
pub use https::HttpsData;
pub use aml::AmlData;

verus! {

/// The failures that stop a message from being decoded at all.
#[derive(Debug, Clone, Copy, PartialEq, Eq, Structural)]
pub enum AmlError {
    /// The SMS version discriminator is missing or names no known grammar.
    UnimplementedVersion,
    /// The base64 layer of a binary SMS could not be decoded.
    InvalidBase64,
}

impl AmlError {
    /// A sentence that describes the error.
    pub fn message(&self) -> (r: &'static str)
        ensures
            *self == AmlError::UnimplementedVersion ==> r@
                == "Error: You have tried to parse an unimplemented version of SMS AML"@,
            *self == AmlError::InvalidBase64 ==> r@
                == "Error: You have tried to parse an corrumpted base64 SMS data"@,
    {
        match self {
            AmlError::UnimplementedVersion => "Error: You have tried to parse an unimplemented version of SMS AML",
            AmlError::InvalidBase64 => "Error: You have tried to parse an corrumpted base64 SMS data",
        }
    }
}

} // verus!
