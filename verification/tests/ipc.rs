use supervisor::ipc::{
    client_hello, constant_time_eq, create_server_challenge, decode_frame, encode_frame,
    hmac_sha256, negotiate_version, new_client_hello, server_challenge, verify_client_proof,
    verify_server_and_create_client_proof, ClientHello, ClientProof, ProtocolError, SessionToken,
    MAX_FRAME_BYTES,
};

fn hex(bytes: &[u8]) -> String {
    let mut text = String::new();
    for byte in bytes {
        text.push_str(&format!("{byte:02x}"));
    }
    text
}

#[test]
fn hmac_of_a_short_key_is_the_published_value() {
    let key = [0x0bu8; 20];
    assert_eq!(
        hex(&hmac_sha256(&key, b"Hi There")),
        "b0344c61d8db38535ca8afceaf0bf12b881dc200c9833da726e9376c2e32cff7"
    );
}

#[test]
fn hmac_of_a_long_key_is_the_published_value() {
    let key = [0xaau8; 131];
    let message = b"Test Using Larger Than Block-Size Key - Hash Key First";
    assert_eq!(
        hex(&hmac_sha256(&key, message)),
        "60e431591ee0b67f0d8a26aacbf5b77f8e0bc6213728c5140546040f0ee37f54"
    );
}

#[test]
fn proofs_are_compared_byte_by_byte() {
    let left = [7u8; 32];
    let mut right = left;
    assert!(constant_time_eq(&left, &right));
    right[31] = 8;
    assert!(!constant_time_eq(&left, &right));
    right = left;
    right[0] = 0;
    assert!(!constant_time_eq(&left, &right));
}

#[test]
fn the_highest_common_version_is_chosen() {
    assert_eq!(negotiate_version(&[0, 1, 2]).unwrap(), 1);
    assert!(matches!(negotiate_version(&[]), Err(ProtocolError::IncompatibleVersion)));
    assert!(matches!(negotiate_version(&[2, 3]), Err(ProtocolError::IncompatibleVersion)));
    assert_eq!(negotiate_version(&[1; 16]).unwrap(), 1);
    assert!(matches!(negotiate_version(&[1; 17]), Err(ProtocolError::TooManyVersions)));
}

#[test]
fn peers_with_one_token_trust_each_other() {
    let token = SessionToken::from_bytes([3; 32]);
    let hello = client_hello([1; 32]);
    let challenge = server_challenge(&token, &hello, [2; 32]).unwrap();
    assert_eq!(challenge.selected_version, 1);
    assert_eq!(challenge.server_nonce, [2; 32]);
    let proof = verify_server_and_create_client_proof(&token, &hello, &challenge).unwrap();
    assert_ne!(proof.proof, challenge.server_proof);
    assert!(verify_client_proof(&token, &hello, &challenge, &proof).is_ok());
}

#[test]
fn peers_with_random_bytes_trust_each_other() {
    let token = SessionToken::generate().unwrap();
    let hello = new_client_hello().unwrap();
    assert_eq!(hello.supported_versions, vec![1]);
    assert_ne!(hello.client_nonce, [0; 32]);
    let challenge = create_server_challenge(&token, &hello).unwrap();
    assert_ne!(challenge.server_nonce, [0; 32]);
    let proof = verify_server_and_create_client_proof(&token, &hello, &challenge).unwrap();
    assert!(verify_client_proof(&token, &hello, &challenge, &proof).is_ok());
}

#[test]
fn a_token_is_what_was_drawn() {
    let drawn = SessionToken::from_drawn(Some([3; 32])).unwrap();
    let same = SessionToken::from_bytes([3; 32]);
    let hello = client_hello([1; 32]);
    let challenge = server_challenge(&drawn, &hello, [2; 32]).unwrap();
    assert!(verify_server_and_create_client_proof(&same, &hello, &challenge).is_ok());
    assert!(matches!(
        SessionToken::from_drawn(None),
        Err(ProtocolError::RandomnessUnavailable)
    ));
}

#[test]
fn a_server_with_another_token_is_refused() {
    let token = SessionToken::from_bytes([3; 32]);
    let other = SessionToken::from_bytes([4; 32]);
    let hello = client_hello([1; 32]);
    let challenge = server_challenge(&other, &hello, [2; 32]).unwrap();
    assert!(matches!(
        verify_server_and_create_client_proof(&token, &hello, &challenge),
        Err(ProtocolError::AuthenticationFailed)
    ));
}

#[test]
fn a_version_that_was_not_offered_is_refused() {
    let token = SessionToken::from_bytes([3; 32]);
    let hello = client_hello([1; 32]);
    let challenge = server_challenge(&token, &hello, [2; 32]).unwrap();
    let silent = ClientHello { supported_versions: vec![], client_nonce: [1; 32] };
    assert!(matches!(
        verify_server_and_create_client_proof(&token, &silent, &challenge),
        Err(ProtocolError::IncompatibleVersion)
    ));
    let newer = ClientHello { supported_versions: vec![2], client_nonce: [1; 32] };
    assert!(matches!(
        create_server_challenge(&token, &newer),
        Err(ProtocolError::IncompatibleVersion)
    ));
}

#[test]
fn a_server_proof_is_no_client_proof() {
    let token = SessionToken::from_bytes([3; 32]);
    let hello = client_hello([1; 32]);
    let challenge = server_challenge(&token, &hello, [2; 32]).unwrap();
    let echoed = ClientProof { proof: challenge.server_proof };
    assert!(matches!(
        verify_client_proof(&token, &hello, &challenge, &echoed),
        Err(ProtocolError::AuthenticationFailed)
    ));
}

#[test]
fn a_frame_gives_its_payload_back() {
    let frame = encode_frame(b"{}").unwrap();
    assert_eq!(frame, vec![0, 0, 0, 2, b'{', b'}']);
    assert_eq!(decode_frame(&frame).unwrap(), b"{}");
    let empty = encode_frame(b"").unwrap();
    assert_eq!(decode_frame(&empty).unwrap(), b"");
}

#[test]
fn frames_that_are_not_whole_are_refused() {
    assert!(matches!(decode_frame(&[0, 0, 0]), Err(ProtocolError::MissingLengthPrefix)));
    assert!(matches!(decode_frame(&[0, 0, 0, 2, 1]), Err(ProtocolError::FrameLengthMismatch)));
    assert!(matches!(
        decode_frame(&[0, 0, 0, 1, 1, 1]),
        Err(ProtocolError::FrameLengthMismatch)
    ));
    assert!(matches!(decode_frame(&[0, 16, 0, 1]), Err(ProtocolError::FrameTooLarge)));
}

#[test]
fn a_payload_over_the_limit_is_refused() {
    assert!(encode_frame(&vec![0; MAX_FRAME_BYTES]).is_ok());
    assert!(matches!(
        encode_frame(&vec![0; MAX_FRAME_BYTES + 1]),
        Err(ProtocolError::FrameTooLarge)
    ));
}

#[test]
fn a_token_does_not_show_itself() {
    let token = SessionToken::from_bytes([3; 32]);
    assert_eq!(token.debug_text(), "SessionToken([REDACTED])");
    assert_eq!(
        ProtocolError::InvalidJson("eof".to_string()).message(),
        "invalid JSON payload: eof"
    );
    assert_eq!(ProtocolError::AuthenticationFailed.message(), "handshake proof did not match");
}
