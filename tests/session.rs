use patat::evidence::EvidenceProof;
use patat::handshake::{HandshakeError, HandshakePhase, ResponderSession};
use patat::orchestrator::{Action, Orchestrator, Outcome, Stage};
use crypto::digest::Digest;
use snow::{Builder, HandshakeState, Keypair};

const PARAMS: &str = "Noise_XK_25519_ChaChaPoly_BLAKE2s";

fn keypair() -> Keypair {
    Builder::new(PARAMS.parse().unwrap()).generate_keypair().unwrap()
}

fn responder(key: &Keypair) -> HandshakeState {
    Builder::new(PARAMS.parse().unwrap())
        .local_private_key(&key.private)
        .build_responder()
        .unwrap()
}

fn initiator(server: &Keypair, client: &Keypair) -> HandshakeState {
    Builder::new(PARAMS.parse().unwrap())
        .local_private_key(&client.private)
        .remote_public_key(&server.public)
        .build_initiator()
        .unwrap()
}

fn write(hs: &mut HandshakeState, payload: &[u8]) -> Vec<u8> {
    let mut buf = vec![0u8; 65535];
    let n = hs.write_message(payload, &mut buf).unwrap();
    buf.truncate(n);
    buf
}

fn read(hs: &mut HandshakeState, message: &[u8]) {
    let mut buf = vec![0u8; 65535];
    hs.read_message(message, &mut buf).unwrap();
}

#[test]
fn corrupted_first_message_fails_the_session() {
    let server = keypair();
    let mut s = ResponderSession::new(responder(&server));
    assert_eq!(s.phase(), HandshakePhase::AwaitMessage1);
    assert_eq!(s.receive_message1(&[1u8, 2u8, 3u8]), Err(HandshakeError::InvalidMessage1));
    assert_eq!(s.phase(), HandshakePhase::Failed);
    assert_eq!(s.receive_message1(&[0u8; 48]), Err(HandshakeError::InvalidMessage1));
    assert_eq!(s.encrypt(b"x"), Err(HandshakeError::NotEstablished));
}

#[test]
fn truncated_first_message_fails_the_session() {
    let server = keypair();
    let client = keypair();
    let mut i = initiator(&server, &client);
    let m1 = write(&mut i, &[]);
    let mut s = ResponderSession::new(responder(&server));
    assert_eq!(s.receive_message1(&m1[..m1.len() - 1]), Err(HandshakeError::InvalidMessage1));
    assert!(!s.is_established());
    assert_eq!(s.produce_message2().err(), Some(HandshakeError::InvalidMessage2));
}

#[test]
fn encrypting_before_the_handshake_is_refused() {
    let server = keypair();
    let mut s = ResponderSession::new(responder(&server));
    assert_eq!(s.decrypt(b"abc"), Err(HandshakeError::NotEstablished));
    assert_eq!(s.phase(), HandshakePhase::Failed);
}

#[test]
fn messages_out_of_turn_are_refused() {
    let server = keypair();
    let mut s = ResponderSession::new(responder(&server));
    assert_eq!(s.receive_message3(&[0u8; 64]), Err(HandshakeError::InvalidMessage3));
    assert_eq!(s.phase(), HandshakePhase::Failed);
}

#[test]
fn full_handshake_then_transport() {
    let server = keypair();
    let client = keypair();
    let mut i = initiator(&server, &client);
    let mut s = ResponderSession::new(responder(&server));
    let m1 = write(&mut i, &[]);
    assert_eq!(s.receive_message1(&m1), Ok(()));
    assert_eq!(s.phase(), HandshakePhase::ReadyForMessage2);
    let m2 = s.produce_message2().unwrap();
    assert_eq!(s.phase(), HandshakePhase::HaveSentMessage2);
    read(&mut i, &m2);
    let m3 = write(&mut i, &[]);
    assert_eq!(s.receive_message3(&m3), Ok(()));
    assert!(s.is_established());
    let mut t = i.into_transport_mode().unwrap();
    let mut buf = vec![0u8; 65535];
    let n = t.write_message(b"ping", &mut buf).unwrap();
    assert_eq!(s.decrypt(&buf[..n]).unwrap(), b"ping".to_vec());
    let c = s.encrypt(b"pong").unwrap();
    let n = t.read_message(&c, &mut buf).unwrap();
    assert_eq!(&buf[..n], b"pong");
}

fn node(left: &[u8; 32], right: &[u8; 32]) -> [u8; 32] {
    let mut h = crypto::sha2::Sha256::new();
    h.input(left);
    h.input(right);
    let mut out = [0u8; 32];
    h.result(&mut out);
    out
}

#[test]
fn whole_exchange_reports_the_proof_verdict() {
    let server = keypair();
    let client = keypair();
    let mut i = initiator(&server, &client);
    let mut o = Orchestrator::new(responder(&server));
    assert_eq!(o.stage(), Stage::Message1);
    let m1 = write(&mut i, &[]);
    let m2 = match o.on_frame(&m1) {
        Action::Send(m) => m,
        _ => panic!("expected the second handshake message"),
    };
    read(&mut i, &m2);
    let m3 = write(&mut i, &[]);
    assert!(matches!(o.on_frame(&m3), Action::Receive));
    assert_eq!(o.stage(), Stage::Application);
    let mut t = i.into_transport_mode().unwrap();
    let mut buf = vec![0u8; 65535];
    let n = t.write_message(b"hi", &mut buf).unwrap();
    let reply = match o.on_frame(&buf[..n].to_vec()) {
        Action::Deliver { message, reply } => {
            assert_eq!(message, b"hi".to_vec());
            reply
        }
        _ => panic!("expected the application message"),
    };
    let n = t.read_message(&reply, &mut buf).unwrap();
    assert_eq!(&buf[..n], b"hello");
    let mut h1 = [0u8; 32];
    h1[0] = 0x11;
    let mut h2 = [0u8; 32];
    h2[0] = 0x22;
    let proof = EvidenceProof::new(vec![false], vec![h1, h2, node(&h1, &h2)]);
    let n = t.write_message(&proof.to_bytes().unwrap(), &mut buf).unwrap();
    assert!(matches!(o.on_frame(&buf[..n].to_vec()), Action::Finish(Outcome::ProofValid)));
    assert_eq!(o.stage(), Stage::Finished);
}

#[test]
fn failed_handshake_ends_the_exchange() {
    let server = keypair();
    let mut o = Orchestrator::new(responder(&server));
    assert!(matches!(o.on_frame(&[9u8; 5]), Action::Finish(Outcome::HandshakeFailed)));
    assert_eq!(o.stage(), Stage::Finished);
}

#[test]
fn closed_connection_after_handshake_fails_the_exchange() {
    let server = keypair();
    let mut o = Orchestrator::new(responder(&server));
    assert_eq!(o.on_connection_failure(), Outcome::HandshakeFailed);
}
