use glimta::command::{get_device, observe_device};
use glimta::transport::{check_executable, dtls_parameters, CipherSuite};
use glimta::{Credentials, Error};

#[test]
fn classic_gateway_dtls_config_uses_psk_ccm8() {
    let credentials = Credentials::new("client", "secret").expect("valid credentials");
    let config = dtls_parameters(&credentials);

    assert_eq!(config.psk, b"secret".to_vec());
    assert_eq!(config.psk_identity_hint.as_slice(), b"client".as_slice());
    assert_eq!(config.cipher_suites, vec![CipherSuite::TlsPskWithAes128Ccm8]);
}

#[test]
fn observations_need_the_observation_api() {
    assert!(check_executable(&get_device(1)).is_ok());
    assert!(matches!(
        check_executable(&observe_device(1)),
        Err(Error::ObserveCommandRequiresSubscription)
    ));
}
