//! A handler that asks for nothing but an acknowledgement: the end that listens says `HELO`, and
//! the other end says it twice. Every message fills 64 bytes.

use vstd::prelude::*;
use vstd::utf8::{
    encode_utf8, encode_utf8_valid_utf8, is_ascii_chars, is_ascii_chars_encode_utf8, valid_utf8,
};

use crate::authentication::{name_of_address, RemoteAuthenticationError, TunnelInfo};
use crate::text::utf8_text;
use crate::tunnel::{address_info_text, TunnelName, TunnelSide};

verus! {

/// A message that starts with `bytes` and is filled up with zeros.
pub open spec fn padded(bytes: Seq<u8>) -> Seq<u8> {
    bytes + Seq::new((64 - bytes.len()) as nat, |i: int| 0u8)
}

/// The bytes of `HELO`.
pub open spec fn helo() -> Seq<u8> {
    seq![0x48u8, 0x45, 0x4c, 0x4f]
}

/// What is said in answer to `word`: the word twice, with a slash between.
pub open spec fn twice(word: Seq<u8>) -> Seq<u8> {
    word + seq![0x2fu8] + word
}

/// Where the first zero of a message stands, looking from byte `i` on.
pub open spec fn first_zero(message: Seq<u8>, i: int) -> Option<int>
    decreases message.len() - i,
{
    if i < 0 || i >= message.len() {
        None
    } else if message[i] == 0 {
        Some(i)
    } else {
        first_zero(message, i + 1)
    }
}

/// The word in a message: the bytes in front of the first zero, or, where there is no zero, half of
/// the message.
pub open spec fn word_of(message: Seq<u8>) -> Seq<u8> {
    match first_zero(message, 0) {
        Some(i) => message.take(i),
        None => message.take(32),
    }
}

/// Whether a message acknowledges `HELO`.
pub open spec fn is_ack(message: Seq<u8>) -> bool {
    valid_utf8(message) && message.take(10) == twice(helo()).push(0u8)
}

/// Whether the word in a message, where it is text, can be said twice in one message.
pub open spec fn can_be_answered(message: Seq<u8>) -> bool {
    valid_utf8(word_of(message)) ==> word_of(message).len() <= 31
}

/// Puts bytes into a message.
fn message_of(bytes: &Vec<u8>) -> (r: [u8; 64])
    requires
        bytes.len() <= 64,
    ensures
        r@ == padded(bytes@),
{
    let mut out: [u8; 64] = [0;64];
    let mut i: usize = 0;
    while i < bytes.len()
        invariant
            i <= bytes.len() <= 64,
            forall|j: int| 0 <= j < i ==> out@[j] == bytes@[j],
            forall|j: int| i <= j < 64 ==> out@[j] == 0,
        decreases bytes.len() - i,
    {
        out[i] = bytes[i];
        i += 1;
    }
    assert(out@ =~= padded(bytes@));
    out
}

/// The message with which the end that listens begins.
pub fn helo_message() -> (r: [u8; 64])
    ensures
        r@ == padded(helo()),
{
    let mut bytes: Vec<u8> = Vec::new();
    bytes.push(0x48);
    bytes.push(0x45);
    bytes.push(0x4c);
    bytes.push(0x4f);
    assert(bytes@ =~= helo());
    message_of(&bytes)
}

/// The word in a message.
fn read_word(message: &[u8; 64]) -> (r: Vec<u8>)
    ensures
        r@ == word_of(message@),
{
    let mut out: Vec<u8> = Vec::new();
    let mut i: usize = 0;
    while i < 64
        invariant
            i <= 64,
            out@ == message@.take(i as int),
            first_zero(message@, 0) == first_zero(message@, i as int),
        decreases 64 - i,
    {
        if message[i] == 0 {
            return out;
        }
        out.push(message[i]);
        assert(message@.take(i + 1) =~= message@.take(i as int).push(message@[i as int]));
        i += 1;
    }
    out.truncate(32);
    assert(out@ =~= message@.take(32));
    out
}

/// Whether a message can be answered in one message.
pub fn fits_answer(message: &[u8; 64]) -> (r: bool)
    ensures
        r == can_be_answered(message@),
{
    let word = read_word(message);
    match utf8_text(word.as_slice()) {
        Some(_) => word.len() <= 31,
        None => true,
    }
}

/// The answer to a message.
pub fn answer(message: &[u8; 64]) -> (r: Result<[u8; 64], RemoteAuthenticationError>)
    requires
        can_be_answered(message@),
    ensures
        match r {
            Ok(reply) => valid_utf8(word_of(message@)) && reply@ == padded(
                twice(word_of(message@)),
            ),
            Err(e) => !valid_utf8(word_of(message@)) && violation(
                e,
                "Received string was not valid UTF8"@,
            ),
        },
{
    let word = read_word(message);
    match utf8_text(word.as_slice()) {
        None => Err(
            RemoteAuthenticationError::ProtocolViolation(
                "Received string was not valid UTF8".to_owned(),
            ),
        ),
        Some(_) => {
            let mut reply: Vec<u8> = Vec::new();
            let mut i: usize = 0;
            while i < word.len()
                invariant
                    i <= word.len(),
                    reply@ == word@.take(i as int),
                decreases word.len() - i,
            {
                reply.push(word[i]);
                i += 1;
                assert(word@.take(i as int) =~= word@.take(i - 1).push(word@[i - 1]));
            }
            assert(word@.take(word.len() as int) =~= word@);
            reply.push(0x2f);
            let ghost start = reply@;
            i = 0;
            while i < word.len()
                invariant
                    i <= word.len(),
                    reply@ == start + word@.take(i as int),
                decreases word.len() - i,
            {
                reply.push(word[i]);
                i += 1;
                assert(word@.take(i as int) =~= word@.take(i - 1).push(word@[i - 1]));
            }
            assert(word@.take(word.len() as int) =~= word@);
            assert(reply@ =~= twice(word@));
            Ok(message_of(&reply))
        },
    }
}

/// Whether an error is a breach of protocol with this text.
pub open spec fn violation(e: RemoteAuthenticationError, text: Seq<char>) -> bool {
    e matches RemoteAuthenticationError::ProtocolViolation(m) && m@ == text
}

/// A breach of protocol is reported as one, with its text.
pub proof fn law_violation_is_reported_as_one(e: RemoteAuthenticationError, text: Seq<char>)
    requires
        violation(e, text),
    ensures
        e matches RemoteAuthenticationError::ProtocolViolation(m) && m@ == text,
{
}

/// Looks whether a message acknowledges `HELO`.
pub fn check_ack(message: &[u8; 64]) -> (r: Result<(), RemoteAuthenticationError>)
    ensures
        match r {
            Ok(_) => is_ack(message@),
            Err(e) => if !valid_utf8(message@) {
                violation(e, "Received string was not valid UTF8"@)
            } else {
                !is_ack(message@) && violation(e, "Invalid client ack"@)
            },
        },
{
    if utf8_text(message.as_slice()).is_none() {
        return Err(
            RemoteAuthenticationError::ProtocolViolation(
                "Received string was not valid UTF8".to_owned(),
            ),
        );
    }
    let m = message;
    let ghost expected = twice(helo()).push(0u8);
    proof {
        assert(expected =~= seq![0x48u8, 0x45, 0x4c, 0x4f, 0x2f, 0x48, 0x45, 0x4c, 0x4f, 0x00]);
        assert(m@.take(10) == expected <==> m@.take(10) =~= expected);
    }
    if m[0] == 0x48 && m[1] == 0x45 && m[2] == 0x4c && m[3] == 0x4f && m[4] == 0x2f && m[5] == 0x48
        && m[6] == 0x45 && m[7] == 0x4c && m[8] == 0x4f && m[9] == 0 {
        Ok(())
    } else {
        proof {
            if m@.take(10) == expected {
                assert(m@.take(10)[0] == m@[0] && m@.take(10)[1] == m@[1] && m@.take(10)[2] == m@[2]
                    && m@.take(10)[3] == m@[3] && m@.take(10)[4] == m@[4] && m@.take(10)[5] == m@[5]
                    && m@.take(10)[6] == m@[6] && m@.take(10)[7] == m@[7] && m@.take(10)[8] == m@[8]
                    && m@.take(10)[9] == m@[9]);
            }
        }
        Err(RemoteAuthenticationError::ProtocolViolation("Invalid client ack".to_owned()))
    }
}

/// How far the exchange has come.
#[derive(Debug, Clone, Copy, PartialEq, Eq, Structural)]
pub enum AckPhase {
    /// A message goes out, before the other end's is read.
    Greeting,
    /// A message is awaited.
    Reading,
    /// The answer goes out.
    Answering,
    Over,
}

/// What happened on the link.
#[derive(Debug)]
pub enum AckEvent {
    /// The message was sent, or could not be.
    Sent(bool),
    /// A whole message came, or could not be read.
    Received(Option<[u8; 64]>),
}

/// What is to be done next.
#[derive(Debug)]
pub enum AckAction {
    Send([u8; 64]),
    Receive,
    /// The tunnel is authenticated under this name.
    Complete(TunnelName),
    Fail(RemoteAuthenticationError),
}

/// The handler.
#[derive(Debug, Clone, Copy)]
pub struct SimpleAckAuthenticationHandler {}

/// An exchange on one tunnel.
#[derive(Debug, Clone, Copy)]
pub struct AckExchange {
    pub info: TunnelInfo,
    pub phase: AckPhase,
}

impl SimpleAckAuthenticationHandler {
    pub fn new() -> (r: SimpleAckAuthenticationHandler)
        ensures
            r == (SimpleAckAuthenticationHandler {  }),
    {
        SimpleAckAuthenticationHandler {  }
    }

    /// Starts an exchange: the end that listens begins.
    pub fn authenticate(&self, tunnel_info: TunnelInfo) -> (r: (AckExchange, AckAction))
        ensures
            r.0.info == tunnel_info,
            match tunnel_info.side {
                TunnelSide::Listen => {
                    &&& r.0.phase == AckPhase::Greeting
                    &&& r.1 matches AckAction::Send(m)
                    &&& m@ == padded(helo())
                },
                TunnelSide::Connect => {
                    &&& r.0.phase == AckPhase::Reading
                    &&& r.1 is Receive
                },
            },
    {
        match tunnel_info.side {
            TunnelSide::Listen => (
                AckExchange { info: tunnel_info, phase: AckPhase::Greeting },
                AckAction::Send(helo_message()),
            ),
            TunnelSide::Connect => (
                AckExchange { info: tunnel_info, phase: AckPhase::Reading },
                AckAction::Receive,
            ),
        }
    }
}

impl AckExchange {
    /// Whether this event is one that the exchange waits for.
    pub open spec fn expects(&self, event: AckEvent) -> bool {
        match event {
            AckEvent::Sent(_) => self.phase is Greeting && self.info.side is Listen
                || self.phase is Answering && self.info.side is Connect,
            AckEvent::Received(_) => self.phase is Reading,
        }
    }

    /// Takes the exchange one event further on the end that listens.
    pub fn authenticate_listen_side(&mut self, event: AckEvent) -> (r: AckAction)
        requires
            old(self).info.side is Listen,
            old(self).expects(event),
        ensures
            final(self).info == old(self).info,
            match event {
                AckEvent::Sent(true) => r is Receive && final(self).phase == AckPhase::Reading,
                AckEvent::Sent(false) => {
                    &&& r matches AckAction::Fail(e)
                    &&& violation(e, "Write refused"@)
                    &&& final(self).phase == AckPhase::Over
                },
                AckEvent::Received(None) => {
                    &&& r matches AckAction::Fail(e)
                    &&& violation(e, "Read unavailable"@)
                    &&& final(self).phase == AckPhase::Over
                },
                AckEvent::Received(Some(m)) => {
                    &&& final(self).phase == AckPhase::Over
                    &&& if is_ack(m@) {
                        &&& r matches AckAction::Complete(name)
                        &&& name@ == address_info_text(old(self).info.addr)
                    } else {
                        &&& r matches AckAction::Fail(e)
                        &&& violation(
                            e,
                            if valid_utf8(m@) {
                                "Invalid client ack"@
                            } else {
                                "Received string was not valid UTF8"@
                            },
                        )
                    }
                },
            },
    {
        match event {
            AckEvent::Sent(ok) => {
                if ok {
                    self.phase = AckPhase::Reading;
                    AckAction::Receive
                } else {
                    self.phase = AckPhase::Over;
                    AckAction::Fail(
                        RemoteAuthenticationError::ProtocolViolation("Write refused".to_owned()),
                    )
                }
            },
            AckEvent::Received(None) => {
                self.phase = AckPhase::Over;
                AckAction::Fail(
                    RemoteAuthenticationError::ProtocolViolation("Read unavailable".to_owned()),
                )
            },
            AckEvent::Received(Some(message)) => {
                self.phase = AckPhase::Over;
                match check_ack(&message) {
                    Ok(()) => AckAction::Complete(name_of_address(&self.info)),
                    Err(e) => AckAction::Fail(e),
                }
            },
        }
    }

    /// Takes the exchange one event further on the end that connected.
    pub fn authenticate_connecting_side(&mut self, event: AckEvent) -> (r: AckAction)
        requires
            old(self).info.side is Connect,
            old(self).expects(event),
            event matches AckEvent::Received(Some(m)) ==> can_be_answered(m@),
        ensures
            final(self).info == old(self).info,
            match event {
                AckEvent::Received(None) => {
                    &&& r matches AckAction::Fail(e)
                    &&& violation(e, "Read unavailable"@)
                    &&& final(self).phase == AckPhase::Over
                },
                AckEvent::Received(Some(m)) => if valid_utf8(word_of(m@)) {
                    &&& r matches AckAction::Send(reply)
                    &&& reply@ == padded(twice(word_of(m@)))
                    &&& final(self).phase == AckPhase::Answering
                } else {
                    &&& r matches AckAction::Fail(e)
                    &&& violation(e, "Received string was not valid UTF8"@)
                    &&& final(self).phase == AckPhase::Over
                },
                AckEvent::Sent(true) => {
                    &&& r matches AckAction::Complete(name)
                    &&& name@ == address_info_text(old(self).info.addr)
                    &&& final(self).phase == AckPhase::Over
                },
                AckEvent::Sent(false) => {
                    &&& r matches AckAction::Fail(e)
                    &&& violation(e, "Write refused"@)
                    &&& final(self).phase == AckPhase::Over
                },
            },
    {
        match event {
            AckEvent::Received(None) => {
                self.phase = AckPhase::Over;
                AckAction::Fail(
                    RemoteAuthenticationError::ProtocolViolation("Read unavailable".to_owned()),
                )
            },
            AckEvent::Received(Some(message)) => match answer(&message) {
                Ok(reply) => {
                    self.phase = AckPhase::Answering;
                    AckAction::Send(reply)
                },
                Err(e) => {
                    self.phase = AckPhase::Over;
                    AckAction::Fail(e)
                },
            },
            AckEvent::Sent(ok) => {
                self.phase = AckPhase::Over;
                if ok {
                    AckAction::Complete(name_of_address(&self.info))
                } else {
                    AckAction::Fail(
                        RemoteAuthenticationError::ProtocolViolation("Write refused".to_owned()),
                    )
                }
            },
        }
    }
}

/// Bytes below 128 are text.
proof fn lemma_ascii_valid(bytes: Seq<u8>)
    requires
        forall|i: int| 0 <= i < bytes.len() ==> (#[trigger] bytes[i]) < 128,
    ensures
        valid_utf8(bytes),
{
    let chars = Seq::new(bytes.len(), |i: int| bytes[i] as char);
    assert(is_ascii_chars(chars));
    is_ascii_chars_encode_utf8(chars);
    encode_utf8_valid_utf8(chars);
    assert(encode_utf8(chars) =~= bytes);
}

/// The first zero stands behind as many bytes as are not zero.
proof fn lemma_first_zero(message: Seq<u8>, i: int, k: int)
    requires
        0 <= i <= k < message.len(),
        message[k] == 0,
        forall|j: int| i <= j < k ==> message[j] != 0,
    ensures
        first_zero(message, i) == Some(k),
    decreases k - i,
{
    if i < k {
        lemma_first_zero(message, i + 1, k);
    }
}

/// Two ends that run this handler over a link that loses nothing both complete: what the end that
/// listens says can be answered, and the answer is an acknowledgement.
pub proof fn law_exchange_completes()
    ensures
        word_of(padded(helo())) == helo(),
        can_be_answered(padded(helo())),
        valid_utf8(word_of(padded(helo()))),
        is_ack(padded(twice(word_of(padded(helo()))))),
{
    let hello = padded(helo());
    lemma_first_zero(hello, 0, 4);
    assert(word_of(hello) =~= helo());
    lemma_ascii_valid(helo());
    let reply = padded(twice(helo()));
    assert(reply.take(10) =~= twice(helo()).push(0u8));
    lemma_ascii_valid(reply);
}

/// The first zero that is found is the first zero there is.
proof fn lemma_found_zero(message: Seq<u8>, i: int)
    requires
        0 <= i <= message.len(),
    ensures
        match first_zero(message, i) {
            Some(k) => i <= k < message.len() && message[k] == 0 && forall|j: int|
                i <= j < k ==> message[j] != 0,
            None => forall|j: int| i <= j < message.len() ==> message[j] != 0,
        },
    decreases message.len() - i,
{
    if i < message.len() {
        lemma_found_zero(message, i + 1);
    }
}

/// The word in a message is what the message starts with. It holds no zero, and ends in front of
/// one; only where the message has none at all is it half of the message.
pub proof fn law_word_ends_at_the_first_zero(message: Seq<u8>)
    requires
        message.len() == 64,
    ensures
        ({
            let word = word_of(message);
            &&& word.len() < 64
            &&& forall|i: int| 0 <= i < word.len() ==> #[trigger] word[i] == message[i] && word[i]
                != 0
            &&& message[word.len() as int] == 0 || word.len() == 32 && forall|i: int|
                0 <= i < 64 ==> #[trigger] message[i] != 0
        }),
{
    lemma_found_zero(message, 0);
}

/// A message is answered with its word, a slash and its word again, and then zeros, in 64 bytes.
pub proof fn law_answer_says_the_word_twice(message: Seq<u8>)
    requires
        message.len() == 64,
        word_of(message).len() <= 31,
    ensures
        ({
            let n = word_of(message).len() as int;
            let reply = padded(twice(word_of(message)));
            &&& reply.len() == 64
            &&& reply[n] == 0x2f
            &&& forall|i: int|
                #![trigger message[i]]
                0 <= i < n ==> reply[i] == message[i] && reply[n + 1 + i] == message[i]
            &&& forall|i: int| 2 * n + 1 <= i < 64 ==> #[trigger] reply[i] == 0
        }),
{
    lemma_found_zero(message, 0);
}

/// A message can be answered exactly when its word is no text, or the word twice with a slash
/// between fits into one message.
pub proof fn law_answer_fits(message: Seq<u8>)
    ensures
        can_be_answered(message) <==> !valid_utf8(word_of(message)) || twice(
            word_of(message),
        ).len() <= 64,
{
}

/// The end that listens says `HELO`, and takes as an acknowledgement exactly text that starts with
/// `HELO/HELO` and a zero.
pub proof fn law_what_acknowledges(message: Seq<u8>)
    requires
        message.len() == 64,
    ensures
        ({
            let said = padded(helo());
            &&& said.len() == 64
            &&& said[0] == 0x48 && said[1] == 0x45 && said[2] == 0x4c && said[3] == 0x4f
            &&& forall|i: int| 4 <= i < 64 ==> #[trigger] said[i] == 0
        }),
        is_ack(message) <==> {
            &&& valid_utf8(message)
            &&& message[0] == 0x48 && message[1] == 0x45 && message[2] == 0x4c && message[3] == 0x4f
            &&& message[4] == 0x2f
            &&& message[5] == 0x48 && message[6] == 0x45 && message[7] == 0x4c && message[8] == 0x4f
            &&& message[9] == 0
        },
{
    let expected = twice(helo()).push(0u8);
    let start = message.take(10);
    assert(expected =~= seq![0x48u8, 0x45, 0x4c, 0x4f, 0x2f, 0x48, 0x45, 0x4c, 0x4f, 0x00]);
    assert(start == expected <==> start =~= expected);
    assert(start[0] == message[0] && start[1] == message[1] && start[2] == message[2] && start[3]
        == message[3] && start[4] == message[4] && start[5] == message[5] && start[6] == message[6]
        && start[7] == message[7] && start[8] == message[8] && start[9] == message[9]);
}

} // verus!
