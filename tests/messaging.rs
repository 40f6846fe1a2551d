use axioms::messaging::{
    try_parse_message, vec_to_axiom_ids, ClientReadyPayload, DeserializationError, MessageType,
    RoundInitPayload, SelectionMadePayload,
};

#[test]
fn test_try_parse_message() {
    // Tag 0x01 is GameInit, which carries no payload: the extra byte is refused.
    let msg_valid = vec![0x01, 0x00];

    assert_eq!(
        try_parse_message(msg_valid),
        Err(DeserializationError::IllegalStructure)
    );
    assert_eq!(
        try_parse_message(vec![0x00, 0x00]),
        Ok(MessageType::ClientReadyStatus(ClientReadyPayload { ready: false }))
    );
}

#[test]
fn test_msg_bin_serialization() {
    let cl_ready: Vec<u8> =
        MessageType::ClientReadyStatus(ClientReadyPayload { ready: true }).into();
    assert_eq!(cl_ready, vec![0x00, 0x01]);

    let gm_init: Vec<u8> = MessageType::GameInit.into();
    assert_eq!(gm_init, vec![0x01]);

    let rd_init: Vec<u8> = MessageType::RoundInit(RoundInitPayload {
        available_axioms: [0x01, 0x02, 0x03, 0x04, 0x05, 0x06],
    })
    .into();
    assert_eq!(rd_init, vec![0x02, 0x01, 0x02, 0x03, 0x04, 0x05, 0x06])
}

#[test]
fn test_msg_bin_deserialization() {
    let cl_ready_0: MessageType = vec![0x00, 0x00].try_into().unwrap();
    assert_eq!(
        cl_ready_0,
        MessageType::ClientReadyStatus(ClientReadyPayload { ready: false })
    );
    let cl_ready_1: MessageType = vec![0x00, 0x01].try_into().unwrap();
    assert_eq!(
        cl_ready_1,
        MessageType::ClientReadyStatus(ClientReadyPayload { ready: true })
    );

    let gm_init: MessageType = vec![0x01].try_into().unwrap();
    assert_eq!(gm_init, MessageType::GameInit);

    let rd_init: MessageType = vec![0x02, 0x01, 0x03, 0x03, 0x05, 0x01, 0x07]
        .try_into()
        .unwrap();
    assert_eq!(
        rd_init,
        MessageType::RoundInit(RoundInitPayload {
            available_axioms: [0x01, 0x03, 0x03, 0x05, 0x01, 0x07]
        })
    );
}

#[test]
fn encode_remaining_variants() {
    assert_eq!(MessageType::PlayerTurnStart.encode(), vec![0x03]);
    assert_eq!(
        MessageType::SelectionMade(SelectionMadePayload { selection: 0x06 }).encode(),
        vec![0x04, 0x06]
    );
    assert_eq!(MessageType::EvaluateSelections.encode(), vec![0x05]);
    assert_eq!(
        MessageType::ClientReadyStatus(ClientReadyPayload { ready: false }).encode(),
        vec![0x00, 0x00]
    );
}

#[test]
fn round_trip_every_variant() {
    let msgs = vec![
        MessageType::ClientReadyStatus(ClientReadyPayload { ready: true }),
        MessageType::ClientReadyStatus(ClientReadyPayload { ready: false }),
        MessageType::GameInit,
        MessageType::RoundInit(RoundInitPayload { available_axioms: [0x00, 0x06, 0x00, 0x06, 0x03, 0x00] }),
        MessageType::RoundInit(RoundInitPayload { available_axioms: [0xff, 0x07, 0x10, 0x00, 0x06, 0x80] }),
        MessageType::PlayerTurnStart,
        MessageType::SelectionMade(SelectionMadePayload { selection: 0x00 }),
        MessageType::SelectionMade(SelectionMadePayload { selection: 0x06 }),
        MessageType::EvaluateSelections,
    ];
    for m in msgs {
        assert_eq!(try_parse_message(m.encode()), Ok(m));
    }
}

#[test]
fn decode_errors() {
    assert_eq!(try_parse_message(vec![]), Err(DeserializationError::IllegalStructure));
    assert_eq!(try_parse_message(vec![0x01; 11]), Err(DeserializationError::MessageTooLarge));
    assert_eq!(try_parse_message(vec![0x00]), Err(DeserializationError::IllegalStructure));
    assert_eq!(try_parse_message(vec![0x00, 0x02]), Err(DeserializationError::IllegalStructure));
    assert_eq!(try_parse_message(vec![0x07]), Err(DeserializationError::InvalidMessageType));
    assert_eq!(
        try_parse_message(vec![0x02, 0x01, 0x02, 0x03, 0x04, 0x05]),
        Err(DeserializationError::IllegalStructure)
    );
}

#[test]
fn decode_strict_lengths() {
    assert_eq!(try_parse_message(vec![0x03, 0x00]), Err(DeserializationError::IllegalStructure));
    assert_eq!(try_parse_message(vec![0x05, 0x01]), Err(DeserializationError::IllegalStructure));
    assert_eq!(try_parse_message(vec![0x04]), Err(DeserializationError::IllegalStructure));
    assert_eq!(
        try_parse_message(vec![0x04, 0x02, 0x02]),
        Err(DeserializationError::IllegalStructure)
    );
    assert_eq!(
        try_parse_message(vec![0x02, 0, 1, 2, 3, 4, 5, 6]),
        Err(DeserializationError::IllegalStructure)
    );
    // Ten bytes are within the limit and parsed; an unknown tag is reported.
    assert_eq!(try_parse_message(vec![0xff; 10]), Err(DeserializationError::InvalidMessageType));
    // Without the size limit, parsing reports the shape instead.
    let parsed: Result<MessageType, DeserializationError> = vec![0x01; 11].try_into();
    assert_eq!(parsed, Err(DeserializationError::IllegalStructure));
}

#[test]
fn six_ids_from_vec() {
    assert_eq!(vec_to_axiom_ids(vec![1, 2, 3, 4, 5, 6]), Ok([1, 2, 3, 4, 5, 6]));
    assert_eq!(vec_to_axiom_ids(vec![1, 2, 3, 4, 5]), Err(()));
    assert_eq!(vec_to_axiom_ids(vec![1, 2, 3, 4, 5, 6, 7]), Err(()));
}
