//! The responder side of a three-message Noise handshake, and the encrypted
//! transport that it leads to.
use snow::{HandshakeState, TransportState};
use vstd::prelude::*;

verus! {

#[verifier::external_type_specification]
#[verifier::external_body]
pub struct ExHandshakeState(snow::HandshakeState);

#[verifier::external_type_specification]
#[verifier::external_body]
pub struct ExTransportState(snow::TransportState);

#[verifier::external_type_specification]
#[verifier::external_body]
pub struct ExSnowError(snow::Error);

/// Relies on `snow::HandshakeState::into_transport_mode`: turns a finished
/// handshake into a transport state, or fails.
pub assume_specification[ snow::HandshakeState::into_transport_mode ](
    hs: snow::HandshakeState,
) -> Result<snow::TransportState, snow::Error>;

/// The largest Noise message, and the size of the buffers handed to snow.
pub const MAX_MESSAGE: usize = 65535;

/// Relies on `snow::HandshakeState::read_message`: takes in the peer's next
/// handshake message, or fails where it is malformed or does not
/// authenticate. The payload it carries is not used.
#[verifier::external_body]
fn handshake_read(hs: &mut HandshakeState, message: &[u8]) -> (r: Result<usize, snow::Error>) {
    let mut payload = vec![0u8; MAX_MESSAGE];
    hs.read_message(message, &mut payload)
}

/// Relies on `snow::HandshakeState::write_message`: writes our next handshake
/// message into a buffer of `MAX_MESSAGE` bytes, so it is no longer.
#[verifier::external_body]
fn handshake_write(hs: &mut HandshakeState, payload: &[u8]) -> (r: Result<Vec<u8>, snow::Error>)
    ensures
        r matches Ok(m) ==> m@.len() <= MAX_MESSAGE,
{
    let mut message = vec![0u8; MAX_MESSAGE];
    let n = hs.write_message(payload, &mut message)?;
    message.truncate(n);
    Ok(message)
}

/// Relies on `snow::TransportState::write_message`: encrypts a payload under
/// the sending direction's key and next nonce into a buffer of `MAX_MESSAGE`
/// bytes, so the result is no longer.
#[verifier::external_body]
fn transport_write(ts: &mut TransportState, payload: &[u8]) -> (r: Result<Vec<u8>, snow::Error>)
    ensures
        r matches Ok(m) ==> m@.len() <= MAX_MESSAGE,
{
    let mut message = vec![0u8; MAX_MESSAGE];
    let n = ts.write_message(payload, &mut message)?;
    message.truncate(n);
    Ok(message)
}

/// Relies on `snow::TransportState::read_message`: decrypts a message under
/// the receiving direction's key and next nonce, or fails where it does not
/// authenticate.
#[verifier::external_body]
fn transport_read(ts: &mut TransportState, message: &[u8]) -> (r: Result<Vec<u8>, snow::Error>)
    ensures
        r matches Ok(p) ==> p@.len() <= MAX_MESSAGE,
{
    let mut payload = vec![0u8; MAX_MESSAGE];
    let n = ts.read_message(message, &mut payload)?;
    payload.truncate(n);
    Ok(payload)
}

/// Where a responder session stands.
#[derive(Debug, Clone, Copy, PartialEq, Eq, Structural)]
pub enum HandshakePhase {
    /// Waiting for the initiator's first message.
    AwaitMessage1,
    /// The first message was accepted; the second is to be produced.
    ReadyForMessage2,
    /// The second message went out; waiting for the third.
    HaveSentMessage2,
    /// The handshake is done; messages are encrypted and decrypted.
    Established,
    /// A step failed; the session serves no further call.
    Failed,
}

/// Why a session step failed. Every failure ends the session.
#[derive(Debug, Clone, Copy, PartialEq, Eq, Structural)]
pub enum HandshakeError {
    /// The first message was refused, or came out of turn.
    InvalidMessage1,
    /// The second message could not be produced, or was asked for out of turn.
    InvalidMessage2,
    /// The third message was refused, or came out of turn.
    InvalidMessage3,
    /// Encryption or decryption was asked for before the handshake ended.
    NotEstablished,
    /// A transport message could not be encrypted or did not decrypt.
    CipherFailure,
}

/// A responder's handshake, then its transport.
pub struct ResponderSession {
    phase: HandshakePhase,
    handshake: Option<HandshakeState>,
    transport: Option<TransportState>,
    sent: Ghost<Seq<Seq<u8>>>,
}

/// The payload that the second handshake message carries.
pub open spec fn message2_payload() -> Seq<u8> {
    seq![1u8]
}

impl ResponderSession {
    pub closed spec fn view(&self) -> HandshakePhase {
        self.phase
    }

    /// Every plaintext handed to snow to be sent, in order: the payload of
    /// the second handshake message, then each encrypted message.
    pub closed spec fn sent(&self) -> Seq<Seq<u8>> {
        self.sent@
    }

    /// The state that each phase needs is there, and no other.
    pub closed spec fn wf(&self) -> bool {
        &&& self.handshake is Some <==> (self.phase == HandshakePhase::AwaitMessage1 || self.phase
            == HandshakePhase::ReadyForMessage2 || self.phase == HandshakePhase::HaveSentMessage2)
        &&& self.transport is Some <==> self.phase == HandshakePhase::Established
    }

    /// A session over a responder handshake that has the local static key
    /// bound and has taken no message yet.
    pub fn new(handshake: HandshakeState) -> (r: ResponderSession)
        ensures
            r.wf(),
            r@ == HandshakePhase::AwaitMessage1,
            r.sent() == Seq::<Seq<u8>>::empty(),
    {
        ResponderSession {
            phase: HandshakePhase::AwaitMessage1,
            handshake: Some(handshake),
            transport: None,
            sent: Ghost(Seq::empty()),
        }
    }

    /// Where the session stands.
    pub fn phase(&self) -> (r: HandshakePhase)
        ensures
            r == self@,
    {
        self.phase
    }

    /// Whether the handshake is done.
    pub fn is_established(&self) -> (r: bool)
        ensures
            r == (self@ == HandshakePhase::Established),
    {
        match self.phase {
            HandshakePhase::Established => true,
            _ => false,
        }
    }

    fn fail(&mut self)
        ensures
            final(self).wf(),
            final(self)@ == HandshakePhase::Failed,
            final(self).sent() == old(self).sent(),
    {
        self.phase = HandshakePhase::Failed;
        self.handshake = None;
        self.transport = None;
    }

    /// Takes in the initiator's first message (its ephemeral key, then the
    /// ephemeral-static agreement).
    pub fn receive_message1(&mut self, frame: &[u8]) -> (r: Result<(), HandshakeError>)
        requires
            old(self).wf(),
        ensures
            final(self).wf(),
            final(self).sent() == old(self).sent(),
            old(self)@ != HandshakePhase::AwaitMessage1 ==> r is Err,
            r is Ok ==> final(self)@ == HandshakePhase::ReadyForMessage2,
            r is Err ==> r == Err::<(), HandshakeError>(HandshakeError::InvalidMessage1)
                && final(self)@ == HandshakePhase::Failed,
    {
        match self.phase {
            HandshakePhase::AwaitMessage1 => {},
            _ => {
                self.fail();
                return Err(HandshakeError::InvalidMessage1);
            },
        }
        let mut hs = match self.handshake.take() {
            Some(h) => h,
            None => {
                self.fail();
                return Err(HandshakeError::InvalidMessage1);
            },
        };
        match handshake_read(&mut hs, frame) {
            Ok(_) => {
                self.handshake = Some(hs);
                self.phase = HandshakePhase::ReadyForMessage2;
                Ok(())
            },
            Err(_) => {
                self.fail();
                Err(HandshakeError::InvalidMessage1)
            },
        }
    }

    /// Produces the second message (a fresh ephemeral key, then the
    /// ephemeral-ephemeral agreement), to be sent to the initiator.
    pub fn produce_message2(&mut self) -> (r: Result<Vec<u8>, HandshakeError>)
        requires
            old(self).wf(),
        ensures
            final(self).wf(),
            r is Ok ==> final(self).sent() == old(self).sent().push(message2_payload()),
            r is Err ==> final(self).sent() == old(self).sent(),
            old(self)@ != HandshakePhase::ReadyForMessage2 ==> r is Err,
            r matches Ok(m) ==> final(self)@ == HandshakePhase::HaveSentMessage2 && m@.len()
                <= MAX_MESSAGE,
            r is Err ==> r == Err::<Vec<u8>, HandshakeError>(HandshakeError::InvalidMessage2)
                && final(self)@ == HandshakePhase::Failed,
    {
        match self.phase {
            HandshakePhase::ReadyForMessage2 => {},
            _ => {
                self.fail();
                return Err(HandshakeError::InvalidMessage2);
            },
        }
        let mut hs = match self.handshake.take() {
            Some(h) => h,
            None => {
                self.fail();
                return Err(HandshakeError::InvalidMessage2);
            },
        };
        let payload: [u8; 1] = [1u8];
        assert(payload@ =~= message2_payload());
        match handshake_write(&mut hs, &payload) {
            Ok(m) => {
                self.handshake = Some(hs);
                self.sent = Ghost(self.sent@.push(message2_payload()));
                self.phase = HandshakePhase::HaveSentMessage2;
                Ok(m)
            },
            Err(_) => {
                self.fail();
                Err(HandshakeError::InvalidMessage2)
            },
        }
    }

    /// Takes in the third message (the initiator's static key, then the
    /// static-ephemeral agreement) and moves to transport mode.
    pub fn receive_message3(&mut self, frame: &[u8]) -> (r: Result<(), HandshakeError>)
        requires
            old(self).wf(),
        ensures
            final(self).wf(),
            final(self).sent() == old(self).sent(),
            old(self)@ != HandshakePhase::HaveSentMessage2 ==> r is Err,
            r is Ok ==> final(self)@ == HandshakePhase::Established,
            r is Err ==> r == Err::<(), HandshakeError>(HandshakeError::InvalidMessage3)
                && final(self)@ == HandshakePhase::Failed,
    {
        match self.phase {
            HandshakePhase::HaveSentMessage2 => {},
            _ => {
                self.fail();
                return Err(HandshakeError::InvalidMessage3);
            },
        }
        let mut hs = match self.handshake.take() {
            Some(h) => h,
            None => {
                self.fail();
                return Err(HandshakeError::InvalidMessage3);
            },
        };
        if handshake_read(&mut hs, frame).is_err() {
            self.fail();
            return Err(HandshakeError::InvalidMessage3);
        }
        match hs.into_transport_mode() {
            Ok(ts) => {
                self.transport = Some(ts);
                self.phase = HandshakePhase::Established;
                Ok(())
            },
            Err(_) => {
                self.fail();
                Err(HandshakeError::InvalidMessage3)
            },
        }
    }

    /// Encrypts a message for the initiator under the next sending nonce.
    pub fn encrypt(&mut self, plaintext: &[u8]) -> (r: Result<Vec<u8>, HandshakeError>)
        requires
            old(self).wf(),
        ensures
            final(self).wf(),
            r is Ok ==> final(self).sent() == old(self).sent().push(plaintext@),
            r is Err ==> final(self).sent() == old(self).sent(),
            old(self)@ != HandshakePhase::Established ==> r == Err::<Vec<u8>, HandshakeError>(
                HandshakeError::NotEstablished,
            ),
            r matches Ok(c) ==> final(self)@ == HandshakePhase::Established && c@.len() <= MAX_MESSAGE,
            r is Err ==> final(self)@ == HandshakePhase::Failed,
            old(self)@ == HandshakePhase::Established && r is Err ==> r == Err::<
                Vec<u8>,
                HandshakeError,
            >(HandshakeError::CipherFailure),
    {
        let mut ts = match self.transport.take() {
            Some(t) => t,
            None => {
                self.fail();
                return Err(HandshakeError::NotEstablished);
            },
        };
        match transport_write(&mut ts, plaintext) {
            Ok(c) => {
                self.transport = Some(ts);
                self.sent = Ghost(self.sent@.push(plaintext@));
                Ok(c)
            },
            Err(_) => {
                self.fail();
                Err(HandshakeError::CipherFailure)
            },
        }
    }

    /// Decrypts a message from the initiator under the next receiving nonce.
    pub fn decrypt(&mut self, ciphertext: &[u8]) -> (r: Result<Vec<u8>, HandshakeError>)
        requires
            old(self).wf(),
        ensures
            final(self).wf(),
            final(self).sent() == old(self).sent(),
            old(self)@ != HandshakePhase::Established ==> r == Err::<Vec<u8>, HandshakeError>(
                HandshakeError::NotEstablished,
            ),
            r matches Ok(p) ==> final(self)@ == HandshakePhase::Established && p@.len() <= MAX_MESSAGE,
            r is Err ==> final(self)@ == HandshakePhase::Failed,
            old(self)@ == HandshakePhase::Established && r is Err ==> r == Err::<
                Vec<u8>,
                HandshakeError,
            >(HandshakeError::CipherFailure),
    {
        let mut ts = match self.transport.take() {
            Some(t) => t,
            None => {
                self.fail();
                return Err(HandshakeError::NotEstablished);
            },
        };
        match transport_read(&mut ts, ciphertext) {
            Ok(p) => {
                self.transport = Some(ts);
                Ok(p)
            },
            Err(_) => {
                self.fail();
                Err(HandshakeError::CipherFailure)
            },
        }
    }
}

} // verus!
