use vstd::prelude::*;

verus! {

/// A raw predicate code as carried on the wire (not necessarily one of the seven).
pub type AxiomId = u8;

/// The largest buffer that decoding looks into.
pub const MAX_MESSAGE_LEN: usize = 10;

/// Payload of a readiness announcement.
#[derive(Clone, Copy, Debug, PartialEq, Eq, Structural, PartialOrd, Ord)]
pub struct ClientReadyPayload {
    pub ready: bool,
}

/// Payload of a round announcement: the six predicate codes on offer.
#[derive(Clone, Copy, Debug, PartialEq, Eq, PartialOrd, Ord)]
pub struct RoundInitPayload {
    pub available_axioms: [AxiomId; 6],
}

/// Payload of a player's pick.
#[derive(Clone, Copy, Debug, PartialEq, Eq, Structural, PartialOrd, Ord)]
pub struct SelectionMadePayload {
    pub selection: AxiomId,
}

/// The application messages, one variant per wire tag (0 to 5, in this order).
#[derive(Clone, Copy, Debug, PartialEq, Eq, PartialOrd, Ord)]
pub enum MessageType {
    ClientReadyStatus(ClientReadyPayload),
    GameInit,
    RoundInit(RoundInitPayload),
    PlayerTurnStart,
    SelectionMade(SelectionMadePayload),
    EvaluateSelections,
}

/// Why a buffer is not a message.
#[derive(Clone, Copy, Debug, PartialEq, Eq, Structural)]
pub enum DeserializationError {
    MessageTooLarge,
    IllegalStructure,
    InvalidMessageType,
}

/// Errors of the messaging layer.
#[derive(Clone, Debug, PartialEq, Eq)]
pub enum MessagingError {
    DeserializationError(DeserializationError),
    SerializationError(String),
}

/// The canonical encoding: the tag byte, then the fixed payload.
pub open spec fn encode_spec(m: MessageType) -> Seq<u8> {
    match m {
        MessageType::ClientReadyStatus(p) => seq![0u8, if p.ready { 1u8 } else { 0u8 }],
        MessageType::GameInit => seq![1u8],
        MessageType::RoundInit(p) => seq![2u8] + p.available_axioms@,
        MessageType::PlayerTurnStart => seq![3u8],
        MessageType::SelectionMade(p) => seq![4u8, p.selection],
        MessageType::EvaluateSelections => seq![5u8],
    }
}

/// The buffer has a known tag and exactly the payload that the tag calls for.
pub open spec fn well_formed(b: Seq<u8>) -> bool {
    &&& b.len() >= 1
    &&& b[0] <= 5
    &&& if b[0] == 0 {
        b.len() == 2 && b[1] <= 1
    } else if b[0] == 2 {
        b.len() == 7
    } else if b[0] == 4 {
        b.len() == 2
    } else {
        b.len() == 1
    }
}

/// Parsing a buffer of any length: empty or badly shaped buffers are illegal,
/// an unknown tag is reported as such, and a well-formed buffer is the message
/// that encodes to it.
pub open spec fn parse_spec(b: Seq<u8>) -> Result<MessageType, DeserializationError> {
    if b.len() == 0 {
        Err(DeserializationError::IllegalStructure)
    } else if b[0] > 5 {
        Err(DeserializationError::InvalidMessageType)
    } else if !well_formed(b) {
        Err(DeserializationError::IllegalStructure)
    } else {
        Ok(choose|m: MessageType| encode_spec(m) == b)
    }
}

/// Decoding an untrusted buffer: anything longer than the limit is refused
/// before it is parsed.
pub open spec fn decode_spec(b: Seq<u8>) -> Result<MessageType, DeserializationError> {
    if b.len() > MAX_MESSAGE_LEN {
        Err(DeserializationError::MessageTooLarge)
    } else {
        parse_spec(b)
    }
}

/// Distinct messages have distinct encodings.
pub proof fn lemma_encode_injective(m1: MessageType, m2: MessageType)
    ensures
        encode_spec(m1) == encode_spec(m2) ==> m1 == m2,
{
    if encode_spec(m1) == encode_spec(m2) {
        assert(encode_spec(m1)[0] == encode_spec(m2)[0]);
        match (m1, m2) {
            (MessageType::ClientReadyStatus(p1), MessageType::ClientReadyStatus(p2)) => {
                assert(encode_spec(m1)[1] == encode_spec(m2)[1]);
            },
            (MessageType::RoundInit(p1), MessageType::RoundInit(p2)) => {
                assert forall|i: int| 0 <= i < 6 implies p1.available_axioms[i]
                    == p2.available_axioms[i] by {
                    assert(encode_spec(m1)[i + 1] == encode_spec(m2)[i + 1]);
                }
                assert(p1.available_axioms =~= p2.available_axioms);
            },
            (MessageType::SelectionMade(p1), MessageType::SelectionMade(p2)) => {
                assert(encode_spec(m1)[1] == encode_spec(m2)[1]);
            },
            _ => {},
        }
    }
}

/// Every encoding is a well-formed buffer within the size limit.
pub proof fn lemma_encoding_well_formed(m: MessageType)
    ensures
        well_formed(encode_spec(m)),
        encode_spec(m).len() <= MAX_MESSAGE_LEN,
{
}

/// Decoding an encoded message gives the message back.
pub proof fn lemma_round_trip(m: MessageType)
    ensures
        decode_spec(encode_spec(m)) == Ok::<MessageType, DeserializationError>(m),
{
    lemma_encoding_well_formed(m);
    let b = encode_spec(m);
    let c = choose|x: MessageType| encode_spec(x) == b;
    lemma_encode_injective(c, m);
}

/// A successful decode yields the message whose encoding is exactly the input,
/// so every message has one and only one accepted buffer.
pub proof fn lemma_decode_canonical(b: Seq<u8>)
    ensures
        decode_spec(b) is Ok ==> encode_spec(decode_spec(b)->Ok_0) == b,
{
    if decode_spec(b) is Ok {
        lemma_well_formed_encodes(b);
    }
}

/// A well-formed buffer is the encoding of some message.
proof fn lemma_well_formed_encodes(b: Seq<u8>)
    requires
        well_formed(b),
    ensures
        exists|m: MessageType| encode_spec(m) == b,
{
    let m = message_of(b);
    if b[0] == 2 {
        assert(encode_spec(m) =~= b);
    } else {
        assert(encode_spec(m) =~= b);
    }
}

/// The message a well-formed buffer spells out (arbitrary otherwise).
spec fn message_of(b: Seq<u8>) -> MessageType {
    if b[0] == 0 {
        MessageType::ClientReadyStatus(ClientReadyPayload { ready: b[1] == 1 })
    } else if b[0] == 1 {
        MessageType::GameInit
    } else if b[0] == 2 {
        MessageType::RoundInit(
            RoundInitPayload { available_axioms: [b[1], b[2], b[3], b[4], b[5], b[6]] },
        )
    } else if b[0] == 3 {
        MessageType::PlayerTurnStart
    } else if b[0] == 4 {
        MessageType::SelectionMade(SelectionMadePayload { selection: b[1] })
    } else {
        MessageType::EvaluateSelections
    }
}

impl MessageType {
    /// The canonical byte encoding of the message.
    pub fn encode(&self) -> (r: Vec<u8>)
        ensures
            r@ == encode_spec(*self),
    {
        match self {
            MessageType::ClientReadyStatus(cl) => {
                let b: u8 = if cl.ready {
                    1
                } else {
                    0
                };
                vec![0x00, b]
            },
            MessageType::GameInit => vec![0x01],
            MessageType::RoundInit(ro) => {
                let mut result: Vec<u8> = vec![0x02];
                let mut i: usize = 0;
                while i < 6
                    invariant
                        i <= 6,
                        result@ == seq![2u8] + ro.available_axioms@.take(i as int),
                    decreases 6 - i,
                {
                    result.push(ro.available_axioms[i]);
                    assert(ro.available_axioms@.take(i + 1) =~= ro.available_axioms@.take(
                        i as int,
                    ).push(ro.available_axioms@[i as int]));
                    i = i + 1;
                }
                assert(ro.available_axioms@.take(6) =~= ro.available_axioms@);
                result
            },
            MessageType::PlayerTurnStart => vec![0x03],
            MessageType::SelectionMade(sl) => vec![0x04, sl.selection],
            MessageType::EvaluateSelections => vec![0x05],
        }
    }
}

impl From<MessageType> for Vec<u8> {
    fn from(value: MessageType) -> (r: Vec<u8>)
        ensures
            r@ == encode_spec(value),
    {
        value.encode()
    }
}

/// Six predicate codes out of a buffer of exactly six bytes.
pub fn vec_to_axiom_ids(vec: Vec<u8>) -> (r: Result<[u8; 6], ()>)
    ensures
        r is Ok <==> vec@.len() == 6,
        r is Ok ==> r->Ok_0@ == vec@,
{
    if vec.len() != 6 {
        return Err(());
    }
    let a: [u8; 6] = [vec[0], vec[1], vec[2], vec[3], vec[4], vec[5]];
    assert(a@ =~= vec@);
    Ok(a)
}

impl TryFrom<Vec<u8>> for MessageType {
    type Error = DeserializationError;

    /// Parses a buffer of any length; see `try_parse_message` for the size limit.
    fn try_from(value: Vec<u8>) -> (r: Result<MessageType, DeserializationError>)
        ensures
            r == parse_spec(value@),
    {
        let b = value;
        if b.len() == 0 {
            return Err(DeserializationError::IllegalStructure);
        }
        let tag = b[0];
        let r = if tag == 0x00 {
            if b.len() != 2 {
                Err(DeserializationError::IllegalStructure)
            } else if b[1] == 0 {
                Ok(MessageType::ClientReadyStatus(ClientReadyPayload { ready: false }))
            } else if b[1] == 1 {
                Ok(MessageType::ClientReadyStatus(ClientReadyPayload { ready: true }))
            } else {
                Err(DeserializationError::IllegalStructure)
            }
        } else if tag == 0x01 || tag == 0x03 || tag == 0x05 {
            if b.len() != 1 {
                Err(DeserializationError::IllegalStructure)
            } else if tag == 0x01 {
                Ok(MessageType::GameInit)
            } else if tag == 0x03 {
                Ok(MessageType::PlayerTurnStart)
            } else {
                Ok(MessageType::EvaluateSelections)
            }
        } else if tag == 0x02 {
            let mut avail: Vec<u8> = Vec::new();
            let mut i: usize = 1;
            while i < b.len()
                invariant
                    1 <= i <= b@.len(),
                    avail@ == b@.subrange(1, i as int),
                decreases b@.len() - i,
            {
                avail.push(b[i]);
                assert(b@.subrange(1, i + 1) =~= b@.subrange(1, i as int).push(b@[i as int]));
                i = i + 1;
            }
            match vec_to_axiom_ids(avail) {
                Ok(slice) => {
                    let m = MessageType::RoundInit(RoundInitPayload { available_axioms: slice });
                    assert(encode_spec(m) =~= b@);
                    Ok(m)
                },
                Err(_) => Err(DeserializationError::IllegalStructure),
            }
        } else if tag == 0x04 {
            if b.len() != 2 {
                Err(DeserializationError::IllegalStructure)
            } else {
                Ok(MessageType::SelectionMade(SelectionMadePayload { selection: b[1] }))
            }
        } else {
            Err(DeserializationError::InvalidMessageType)
        };
        proof {
            if r is Ok {
                let m = r->Ok_0;
                assert(encode_spec(m) =~= b@);
                let c = choose|x: MessageType| encode_spec(x) == b@;
                lemma_encode_injective(c, m);
            }
        }
        r
    }
}

impl vstd::std_specs::convert::TryFromSpecImpl<Vec<u8>> for MessageType {
    open spec fn obeys_try_from_spec() -> bool {
        true
    }

    open spec fn try_from_spec(v: Vec<u8>) -> Result<MessageType, DeserializationError> {
        parse_spec(v@)
    }
}

// The contents of the result are stated by `from`'s own `ensures`, over its view.
impl vstd::std_specs::convert::FromSpecImpl<MessageType> for Vec<u8> {
    open spec fn obeys_from_spec() -> bool {
        false
    }

    open spec fn from_spec(v: MessageType) -> Vec<u8> {
        arbitrary()
    }
}

/// Attempts to parse an untrusted binary message into an application message.
pub fn try_parse_message(binary: Vec<u8>) -> (r: Result<MessageType, DeserializationError>)
    ensures
        r == decode_spec(binary@),
{
    if binary.len() > MAX_MESSAGE_LEN {
        return Err(DeserializationError::MessageTooLarge);
    }
    MessageType::try_from(binary)
}

} // verus!
