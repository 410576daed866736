//! The decisions of the CoAP/DTLS transport: which commands it runs, which
//! responses are errors, and the DTLS parameters it opens a session with.
use vstd::prelude::*;
use vstd::string::*;
use crate::command::Command;
use crate::credentials::Credentials;
use crate::error::Error;

verus! {

/// The DTLS cipher suites a session may use.
#[derive(Clone, Copy, PartialEq, Eq, Structural, Debug)]
pub enum CipherSuite {
    /// `TLS_PSK_WITH_AES_128_CCM_8`, the suite of the classic gateway.
    TlsPskWithAes128Ccm8,
}

/// The parameters of a DTLS-PSK session with the gateway.
#[derive(Clone, PartialEq, Eq, Debug)]
pub struct DtlsParameters {
    pub psk: Vec<u8>,
    pub psk_identity_hint: Vec<u8>,
    pub cipher_suites: Vec<CipherSuite>,
}

/// A session authenticates with the pre-shared key of the credentials, offers
/// their identity, and uses the PSK/AES-128-CCM-8 suite only.
pub fn dtls_parameters(credentials: &Credentials) -> (r: DtlsParameters)
    ensures
        r.psk@ == crate::text::utf8_bytes(credentials.key_text()),
        r.psk_identity_hint@ == crate::text::utf8_bytes(credentials.identity_text()),
        r.cipher_suites@ == seq![CipherSuite::TlsPskWithAes128Ccm8],
{
    let psk = credentials.pre_shared_key().as_bytes_vec();
    let psk_identity_hint = credentials.identity().as_bytes_vec();
    let mut cipher_suites: Vec<CipherSuite> = Vec::new();
    cipher_suites.push(CipherSuite::TlsPskWithAes128Ccm8);
    assert(cipher_suites@ =~= seq![CipherSuite::TlsPskWithAes128Ccm8]);
    DtlsParameters { psk, psk_identity_hint, cipher_suites }
}

/// A plain request can be executed; an observation needs the observation API.
pub fn check_executable(command: &Command) -> (r: Result<(), Error>)
    ensures
        r is Ok <==> !command.observe,
        r matches Err(e) ==> e is ObserveCommandRequiresSubscription,
{
    if command.observe {
        Err(Error::ObserveCommandRequiresSubscription)
    } else {
        Ok(())
    }
}

/// Whether a CoAP response code reports an error. The code holds the class
/// in its top three bits and the detail in the low five; classes 4 (client
/// error) and 5 (server error), and the unassigned classes above them, are
/// errors, as is the code `0xFF` that stands for an unknown response.
pub fn is_error_status(code: u8) -> (r: bool)
    ensures
        r == (code >= 0x80),
{
    code >= 0x80
}

} // verus!
