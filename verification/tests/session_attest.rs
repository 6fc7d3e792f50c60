use migtd_transport::attest::{report_binding, QuoteError, ADDITIONAL_DATA_SIZE, SHA384_DIGEST_SIZE};
use migtd_transport::port::VirtioSerialPort;
use migtd_transport::session::{
    spdm_requester, spdm_responder, HandshakeRole, CAP_CHUNK, CAP_ENCRYPT,
    CAP_HANDSHAKE_IN_CLEAR, CAP_KEY_EXCHANGE, CAP_MAC, CAP_MUT_AUTH, CAP_PUB_KEY_ID,
    REQ_CAPABILITIES,
};

#[test]
fn roles_agree_on_version_and_algorithm_suite() {
    let req = spdm_requester(VirtioSerialPort::new(1));
    let rsp = spdm_responder(VirtioSerialPort::new(2));
    assert_eq!(req.role, HandshakeRole::Initiator);
    assert_eq!(rsp.role, HandshakeRole::Responder);
    assert_eq!(req.config.version, rsp.config.version);
    assert_eq!(req.config.secure_version, rsp.config.secure_version);
    assert_eq!(req.config.base_asym_algo, rsp.config.base_asym_algo);
    assert_eq!(req.config.base_hash_algo, rsp.config.base_hash_algo);
    assert_eq!(req.config.dhe_algo, rsp.config.dhe_algo);
    assert_eq!(req.config.aead_algo, rsp.config.aead_algo);
    assert_eq!(req.config.req_asym_algo, rsp.config.req_asym_algo);
    assert_eq!(req.config.key_schedule_algo, rsp.config.key_schedule_algo);
    assert_eq!(req.config, rsp.config);
    assert_eq!(req.config.version, 0x12);
}

#[test]
fn capability_set_holds_all_seven_capabilities() {
    let all = CAP_ENCRYPT | CAP_MAC | CAP_MUT_AUTH | CAP_KEY_EXCHANGE | CAP_PUB_KEY_ID
        | CAP_HANDSHAKE_IN_CLEAR | CAP_CHUNK;
    assert_eq!(REQ_CAPABILITIES, all);
}

#[test]
fn binding_is_deterministic_and_differs_on_different_data() {
    let a1 = report_binding(b"session public key hash");
    let a2 = report_binding(b"session public key hash");
    let b = report_binding(b"another session");
    assert_eq!(a1, a2);
    assert_ne!(a1, b);
    assert_eq!(a1.len(), ADDITIONAL_DATA_SIZE);
    assert_eq!(b.len(), ADDITIONAL_DATA_SIZE);
    // The two buffers differ only in the leading digest: both tails are zero.
    assert!(a1[SHA384_DIGEST_SIZE..].iter().all(|&x| x == 0));
    assert!(b[SHA384_DIGEST_SIZE..].iter().all(|&x| x == 0));
    assert_ne!(&a1[..SHA384_DIGEST_SIZE], &b[..SHA384_DIGEST_SIZE]);
}

#[test]
fn binding_prefix_is_the_real_sha384_digest() {
    // FIPS 180-4 test vector: SHA-384("abc").
    let expected: [u8; 48] = [
        0xcb, 0x00, 0x75, 0x3f, 0x45, 0xa3, 0x5e, 0x8b, 0xb5, 0xa0, 0x3d, 0x69, 0x9a, 0xc6,
        0x50, 0x07, 0x27, 0x2c, 0x32, 0xab, 0x0e, 0xde, 0xd1, 0x63, 0x1a, 0x8b, 0x60, 0x5a,
        0x43, 0xff, 0x5b, 0xed, 0x80, 0x86, 0x07, 0x2b, 0xa1, 0xe7, 0xcc, 0x23, 0x58, 0xba,
        0xec, 0xa1, 0x34, 0xc8, 0x25, 0xa7,
    ];
    let binding = report_binding(b"abc");
    assert_eq!(&binding[..SHA384_DIGEST_SIZE], &expected[..]);
    assert!(binding[SHA384_DIGEST_SIZE..].iter().all(|&x| x == 0));
}

#[test]
fn quote_bridge_error_classes_are_distinct() {
    assert_ne!(QuoteError::Report, QuoteError::Quote);
    assert_eq!(QuoteError::Report, QuoteError::Report);
}
