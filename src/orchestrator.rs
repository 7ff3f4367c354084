//! The exchange with one peer, as a state machine: the caller reads each
//! frame from the connection, hands it over, and does what comes back.
use crate::evidence::{proof_decoding, verdict, EvidenceProof};
use crate::handshake::{message2_payload, HandshakePhase, ResponderSession, MAX_MESSAGE};
use snow::HandshakeState;
use vstd::prelude::*;

verus! {

/// How the exchange with a peer ended.
#[derive(Debug, Clone, Copy, PartialEq, Eq, Structural)]
pub enum Outcome {
    /// The handshake did not complete.
    HandshakeFailed,
    /// A message after the handshake failed, or the proof could not be read.
    ExchangeFailed,
    /// The proof holds.
    ProofValid,
    /// The proof does not hold.
    ProofInvalid,
}

/// What the exchange waits for.
#[derive(Debug, Clone, Copy, PartialEq, Eq, Structural)]
pub enum Stage {
    /// The first handshake message.
    Message1,
    /// The third handshake message.
    Message3,
    /// The encrypted application message.
    Application,
    /// The encrypted proof.
    Proof,
    /// Nothing: the exchange is over.
    Finished,
}

/// What the caller does next.
pub enum Action {
    /// Send this frame payload, then hand over the next frame received.
    Send(Vec<u8>),
    /// Hand over the next frame received.
    Receive,
    /// The application message arrived: deliver it, send the encrypted reply,
    /// then hand over the next frame received.
    Deliver { message: Vec<u8>, reply: Vec<u8> },
    /// The exchange is over.
    Finish(Outcome),
}

/// The reply sent, encrypted, to the application message.
pub open spec fn reply_payload() -> Seq<u8> {
    seq![0x68u8, 0x65u8, 0x6cu8, 0x6cu8, 0x6fu8]
}

/// What a decrypted proof message comes to: a failed exchange where it holds
/// no proof or a malformed one, else whether the proof holds.
pub open spec fn proof_outcome_of(plaintext: Seq<u8>) -> Outcome {
    match proof_decoding(plaintext) {
        Err(_) => Outcome::ExchangeFailed,
        Ok((bits, hs)) => match verdict(bits, hs) {
            Ok(true) => Outcome::ProofValid,
            Ok(false) => Outcome::ProofInvalid,
            Err(_) => Outcome::ExchangeFailed,
        },
    }
}

/// Decodes and verifies a decrypted proof message.
pub fn proof_outcome(plaintext: &[u8]) -> (r: Outcome)
    ensures
        r == proof_outcome_of(plaintext@),
{
    let proof = match EvidenceProof::from_bytes(plaintext) {
        Ok(p) => p,
        Err(_) => {
            return Outcome::ExchangeFailed;
        },
    };
    match proof.valid() {
        Ok(true) => Outcome::ProofValid,
        Ok(false) => Outcome::ProofInvalid,
        Err(_) => Outcome::ExchangeFailed,
    }
}

/// The exchange with one peer.
pub struct Orchestrator {
    stage: Stage,
    session: ResponderSession,
}

impl Orchestrator {
    pub closed spec fn view(&self) -> Stage {
        self.stage
    }

    /// Every plaintext handed to snow to be sent over this exchange, in order.
    pub closed spec fn sent(&self) -> Seq<Seq<u8>> {
        self.session.sent()
    }

    /// The session stands where the stage says.
    pub closed spec fn wf(&self) -> bool {
        &&& self.session.wf()
        &&& self.stage == Stage::Message1 ==> self.session@ == HandshakePhase::AwaitMessage1
        &&& self.stage == Stage::Message3 ==> self.session@ == HandshakePhase::HaveSentMessage2
        &&& (self.stage == Stage::Application || self.stage == Stage::Proof) ==> self.session@
            == HandshakePhase::Established
    }

    /// An exchange over a responder handshake that has taken no message yet.
    pub fn new(handshake: HandshakeState) -> (r: Orchestrator)
        ensures
            r.wf(),
            r@ == Stage::Message1,
            r.sent() == Seq::<Seq<u8>>::empty(),
    {
        let session = ResponderSession::new(handshake);
        Orchestrator { stage: Stage::Message1, session }
    }

    /// What the exchange waits for.
    pub fn stage(&self) -> (r: Stage)
        ensures
            r == self@,
    {
        self.stage
    }

    /// The connection failed before the exchange was over: the handshake
    /// failed where it was not done, else the exchange did.
    pub fn on_connection_failure(&mut self) -> (r: Outcome)
        requires
            old(self).wf(),
        ensures
            final(self).wf(),
            final(self)@ == Stage::Finished,
            final(self).sent() == old(self).sent(),
            (old(self)@ == Stage::Message1 || old(self)@ == Stage::Message3) ==> r
                == Outcome::HandshakeFailed,
            !(old(self)@ == Stage::Message1 || old(self)@ == Stage::Message3) ==> r
                == Outcome::ExchangeFailed,
    {
        let r = match self.stage {
            Stage::Message1 | Stage::Message3 => Outcome::HandshakeFailed,
            _ => Outcome::ExchangeFailed,
        };
        self.stage = Stage::Finished;
        r
    }

    /// Takes the payload of the next frame received and says what to do.
    /// The first handshake message is answered with the second; the third
    /// completes the handshake; the application message is answered with
    /// the encrypted reply; the proof ends the exchange with its verdict.
    /// Any failure ends the exchange.
    pub fn on_frame(&mut self, frame: &[u8]) -> (r: Action)
        requires
            old(self).wf(),
        ensures
            final(self).wf(),
            old(self)@ == Stage::Message1 ==> match r {
                Action::Send(m) => final(self)@ == Stage::Message3 && m@.len() <= MAX_MESSAGE
                    && final(self).sent() == old(self).sent().push(message2_payload()),
                Action::Finish(o) => final(self)@ == Stage::Finished && o == Outcome::HandshakeFailed
                    && final(self).sent() == old(self).sent(),
                _ => false,
            },
            old(self)@ == Stage::Message3 ==> match r {
                Action::Receive => final(self)@ == Stage::Application,
                Action::Finish(o) => final(self)@ == Stage::Finished && o == Outcome::HandshakeFailed,
                _ => false,
            },
            old(self)@ == Stage::Application ==> match r {
                Action::Deliver { reply, .. } => final(self)@ == Stage::Proof && reply@.len()
                    <= MAX_MESSAGE && final(self).sent() == old(self).sent().push(reply_payload()),
                Action::Finish(o) => final(self)@ == Stage::Finished && o == Outcome::ExchangeFailed,
                _ => false,
            },
            old(self)@ != Stage::Message1 && !(r is Deliver) ==> final(self).sent() == old(self).sent(),
            old(self)@ == Stage::Proof ==> match r {
                Action::Finish(o) => final(self)@ == Stage::Finished && o != Outcome::HandshakeFailed,
                _ => false,
            },
            old(self)@ == Stage::Finished ==> final(self)@ == Stage::Finished && r == Action::Finish(
                Outcome::ExchangeFailed,
            ),
    {
        match self.stage {
            Stage::Message1 => {
                let sent = match self.session.receive_message1(frame) {
                    Ok(()) => self.session.produce_message2(),
                    Err(e) => Err(e),
                };
                match sent {
                    Ok(m) => {
                        self.stage = Stage::Message3;
                        Action::Send(m)
                    },
                    Err(_) => {
                        self.stage = Stage::Finished;
                        Action::Finish(Outcome::HandshakeFailed)
                    },
                }
            },
            Stage::Message3 => match self.session.receive_message3(frame) {
                Ok(()) => {
                    self.stage = Stage::Application;
                    Action::Receive
                },
                Err(_) => {
                    self.stage = Stage::Finished;
                    Action::Finish(Outcome::HandshakeFailed)
                },
            },
            Stage::Application => {
                let message = match self.session.decrypt(frame) {
                    Ok(m) => m,
                    Err(_) => {
                        self.stage = Stage::Finished;
                        return Action::Finish(Outcome::ExchangeFailed);
                    },
                };
                let payload: [u8; 5] = [0x68u8, 0x65u8, 0x6cu8, 0x6cu8, 0x6fu8];
                assert(payload@ =~= reply_payload());
                match self.session.encrypt(&payload) {
                    Ok(reply) => {
                        self.stage = Stage::Proof;
                        Action::Deliver { message, reply }
                    },
                    Err(_) => {
                        self.stage = Stage::Finished;
                        Action::Finish(Outcome::ExchangeFailed)
                    },
                }
            },
            Stage::Proof => {
                let outcome = match self.session.decrypt(frame) {
                    Ok(p) => proof_outcome(&p),
                    Err(_) => Outcome::ExchangeFailed,
                };
                self.stage = Stage::Finished;
                Action::Finish(outcome)
            },
            Stage::Finished => Action::Finish(Outcome::ExchangeFailed),
        }
    }
}

} // verus!
