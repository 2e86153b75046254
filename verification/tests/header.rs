use partition_core::protocol::{MessageHeader, MessageKind, MessageType, UnknownMessageType};

fn roundtrip(header: MessageHeader) -> MessageHeader {
    MessageHeader::from_u64(header.to_u64()).unwrap()
}

#[test]
fn start() {
    let header = roundtrip(MessageHeader::new_start(1, 25));
    assert_eq!(header.message_type(), MessageType::Start);
    assert_eq!(header.message_kind(), MessageKind::Core);
    assert_eq!(header.completed(), None);
    assert_eq!(header.protocol_version(), Some(1));
    assert_eq!(header.requires_ack(), None);
    assert_eq!(header.frame_length(), 25);
}

#[test]
fn completion() {
    let header = roundtrip(MessageHeader::new(MessageType::Completion, 22));
    assert_eq!(header.message_type(), MessageType::Completion);
    assert_eq!(header.message_kind(), MessageKind::Core);
    assert_eq!(header.completed(), None);
    assert_eq!(header.protocol_version(), None);
    assert_eq!(header.requires_ack(), None);
    assert_eq!(header.frame_length(), 22);
}

fn new_completable_entry(ty: MessageType, completed: bool, length: u32) -> MessageHeader {
    MessageHeader::new_entry_header(ty, Some(completed), None, length)
}

#[test]
fn completed_get_state() {
    let header = roundtrip(new_completable_entry(MessageType::GetStateEntry, true, 0));
    assert_eq!(header.message_type(), MessageType::GetStateEntry);
    assert_eq!(header.message_kind(), MessageKind::State);
    assert_eq!(header.completed(), Some(true));
    assert_eq!(header.protocol_version(), None);
    assert_eq!(header.requires_ack(), None);
    assert_eq!(header.frame_length(), 0);
}

#[test]
fn not_completed_get_state() {
    let header = roundtrip(new_completable_entry(MessageType::GetStateEntry, false, 0));
    assert_eq!(header.message_type(), MessageType::GetStateEntry);
    assert_eq!(header.message_kind(), MessageKind::State);
    assert_eq!(header.completed(), Some(false));
    assert_eq!(header.protocol_version(), None);
    assert_eq!(header.requires_ack(), None);
    assert_eq!(header.frame_length(), 0);
}

#[test]
fn completed_get_state_with_len() {
    let header = roundtrip(new_completable_entry(MessageType::GetStateEntry, true, 10341));
    assert_eq!(header.message_type(), MessageType::GetStateEntry);
    assert_eq!(header.message_kind(), MessageKind::State);
    assert_eq!(header.completed(), Some(true));
    assert_eq!(header.protocol_version(), None);
    assert_eq!(header.requires_ack(), None);
    assert_eq!(header.frame_length(), 10341);
}

#[test]
fn custom_entry() {
    let header = roundtrip(MessageHeader::new(MessageType::Custom(0xFC00), 10341));
    assert_eq!(header.message_type(), MessageType::Custom(0xFC00));
    assert_eq!(header.message_kind(), MessageKind::Custom);
    assert_eq!(header.completed(), None);
    assert_eq!(header.protocol_version(), None);
    assert_eq!(header.requires_ack(), Some(false));
    assert_eq!(header.frame_length(), 10341);
}

#[test]
fn custom_entry_with_requires_ack() {
    let header = roundtrip(MessageHeader::_new(
        MessageType::Custom(0xFC00),
        None,
        None,
        Some(true),
        10341,
    ));
    assert_eq!(header.message_type(), MessageType::Custom(0xFC00));
    assert_eq!(header.message_kind(), MessageKind::Custom);
    assert_eq!(header.completed(), None);
    assert_eq!(header.protocol_version(), None);
    assert_eq!(header.requires_ack(), Some(true));
    assert_eq!(header.frame_length(), 10341);
}

#[test]
fn unknown_message_type_is_refused() {
    // type code 0x0005 is neither named nor in the custom range
    let word = 0x0005u64 << 48;
    assert_eq!(
        MessageHeader::from_u64(word).unwrap_err(),
        UnknownMessageType(0x0005)
    );
    assert_eq!(
        MessageType::from_type_id(0x0005).unwrap_err(),
        UnknownMessageType(0x0005)
    );
}

#[test]
fn named_type_codes_roundtrip() {
    let types = [
        MessageType::Start,
        MessageType::Completion,
        MessageType::Suspension,
        MessageType::Error,
        MessageType::PollInputStreamEntry,
        MessageType::OutputStreamEntry,
        MessageType::GetStateEntry,
        MessageType::SetStateEntry,
        MessageType::ClearStateEntry,
        MessageType::SleepEntry,
        MessageType::InvokeEntry,
        MessageType::BackgroundInvokeEntry,
        MessageType::AwakeableEntry,
        MessageType::CompleteAwakeableEntry,
    ];
    for ty in types {
        assert_eq!(MessageType::from_type_id(ty.type_id()).unwrap(), ty);
    }
}
