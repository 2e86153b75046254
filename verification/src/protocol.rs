//! Wire header of the service invocation protocol.
//!
//! A header is one 64-bit word: the message-type code in the top 16 bits, the
//! frame length in the low 32 bits, and, depending on the message type, a
//! 10-bit protocol version or a completed / requires-ack flag in between.

use vstd::prelude::*;

verus! {

pub const CUSTOM_MESSAGE_MASK: u16 = 0xFC00;

pub const VERSION_MASK: u64 = 0x03FF_0000_0000;

pub const COMPLETED_MASK: u64 = 0x0001_0000_0000;

pub const REQUIRES_ACK_MASK: u64 = 0x0001_0000_0000;

/// Raw 16-bit message-type code.
pub type MessageTypeId = u16;

pub const START_MESSAGE_TYPE: u16 = 0x0000;

pub const COMPLETION_MESSAGE_TYPE: u16 = 0x0001;

pub const SUSPENSION_MESSAGE_TYPE: u16 = 0x0002;

pub const ERROR_MESSAGE_TYPE: u16 = 0x0003;

pub const POLL_INPUT_STREAM_ENTRY_MESSAGE_TYPE: u16 = 0x0400;

pub const OUTPUT_STREAM_ENTRY_MESSAGE_TYPE: u16 = 0x0401;

pub const GET_STATE_ENTRY_MESSAGE_TYPE: u16 = 0x0800;

pub const SET_STATE_ENTRY_MESSAGE_TYPE: u16 = 0x0801;

pub const CLEAR_STATE_ENTRY_MESSAGE_TYPE: u16 = 0x0802;

pub const SLEEP_ENTRY_MESSAGE_TYPE: u16 = 0x0C00;

pub const INVOKE_ENTRY_MESSAGE_TYPE: u16 = 0x0C01;

pub const BACKGROUND_INVOKE_ENTRY_MESSAGE_TYPE: u16 = 0x0C02;

pub const AWAKEABLE_ENTRY_MESSAGE_TYPE: u16 = 0x0C03;

pub const COMPLETE_AWAKEABLE_ENTRY_MESSAGE_TYPE: u16 = 0x0C04;

/// Families of protocol messages.
#[derive(Copy, Clone, Debug, PartialEq, Eq, Structural)]
pub enum MessageKind {
    Core,
    IO,
    State,
    Syscall,
    Custom,
}

/// The kinds of messages the protocol knows, plus an escape hatch for
/// extension messages carrying their raw code.
#[derive(Copy, Clone, Debug, PartialEq, Eq, Structural)]
pub enum MessageType {
    Start,
    Completion,
    Suspension,
    Error,
    PollInputStreamEntry,
    OutputStreamEntry,
    GetStateEntry,
    SetStateEntry,
    ClearStateEntry,
    SleepEntry,
    InvokeEntry,
    BackgroundInvokeEntry,
    AwakeableEntry,
    CompleteAwakeableEntry,
    Custom(u16),
}

impl MessageType {
    /// The family this message type belongs to.
    pub open spec fn spec_kind(self) -> MessageKind {
        match self {
            MessageType::Start => MessageKind::Core,
            MessageType::Completion => MessageKind::Core,
            MessageType::Suspension => MessageKind::Core,
            MessageType::Error => MessageKind::Core,
            MessageType::PollInputStreamEntry => MessageKind::IO,
            MessageType::OutputStreamEntry => MessageKind::IO,
            MessageType::GetStateEntry => MessageKind::State,
            MessageType::SetStateEntry => MessageKind::State,
            MessageType::ClearStateEntry => MessageKind::State,
            MessageType::SleepEntry => MessageKind::Syscall,
            MessageType::InvokeEntry => MessageKind::Syscall,
            MessageType::BackgroundInvokeEntry => MessageKind::Syscall,
            MessageType::AwakeableEntry => MessageKind::Syscall,
            MessageType::CompleteAwakeableEntry => MessageKind::Syscall,
            MessageType::Custom(_) => MessageKind::Custom,
        }
    }

    /// The family this message type belongs to.
    pub fn kind(&self) -> (r: MessageKind)
        ensures
            r == self.spec_kind(),
    {
        match self {
            MessageType::Start => MessageKind::Core,
            MessageType::Completion => MessageKind::Core,
            MessageType::Suspension => MessageKind::Core,
            MessageType::Error => MessageKind::Core,
            MessageType::PollInputStreamEntry => MessageKind::IO,
            MessageType::OutputStreamEntry => MessageKind::IO,
            MessageType::GetStateEntry => MessageKind::State,
            MessageType::SetStateEntry => MessageKind::State,
            MessageType::ClearStateEntry => MessageKind::State,
            MessageType::SleepEntry => MessageKind::Syscall,
            MessageType::InvokeEntry => MessageKind::Syscall,
            MessageType::BackgroundInvokeEntry => MessageKind::Syscall,
            MessageType::AwakeableEntry => MessageKind::Syscall,
            MessageType::CompleteAwakeableEntry => MessageKind::Syscall,
            MessageType::Custom(_) => MessageKind::Custom,
        }
    }

    /// Whether a header of this type carries the completed flag; only
    /// completable journal entries do.
    pub open spec fn spec_has_completed_flag(self) -> bool {
        self == MessageType::PollInputStreamEntry || self == MessageType::GetStateEntry || self
            == MessageType::SleepEntry || self == MessageType::InvokeEntry || self
            == MessageType::AwakeableEntry
    }

    /// Whether a header of this type carries the completed flag.
    pub fn has_completed_flag(&self) -> (r: bool)
        ensures
            r == self.spec_has_completed_flag(),
    {
        matches!(
            self,
            MessageType::PollInputStreamEntry
                | MessageType::GetStateEntry
                | MessageType::SleepEntry
                | MessageType::InvokeEntry
                | MessageType::AwakeableEntry
        )
    }

    /// Whether a header of this type carries a protocol version; only the
    /// start message does.
    pub open spec fn spec_has_protocol_version(self) -> bool {
        self == MessageType::Start
    }

    /// Whether a header of this type carries a protocol version.
    pub fn has_protocol_version(&self) -> (r: bool)
        ensures
            r == self.spec_has_protocol_version(),
    {
        matches!(self, MessageType::Start)
    }

    /// Whether a header of this type carries the requires-ack flag; only
    /// custom entries do.
    pub open spec fn spec_has_requires_ack_flag(self) -> bool {
        self is Custom
    }

    /// Whether a header of this type carries the requires-ack flag.
    pub fn has_requires_ack_flag(&self) -> (r: bool)
        ensures
            r == self.spec_has_requires_ack_flag(),
    {
        matches!(self, MessageType::Custom(_))
    }

    /// The 16-bit wire code of this message type.
    pub open spec fn spec_type_id(self) -> u16 {
        match self {
            MessageType::Start => START_MESSAGE_TYPE,
            MessageType::Completion => COMPLETION_MESSAGE_TYPE,
            MessageType::Suspension => SUSPENSION_MESSAGE_TYPE,
            MessageType::Error => ERROR_MESSAGE_TYPE,
            MessageType::PollInputStreamEntry => POLL_INPUT_STREAM_ENTRY_MESSAGE_TYPE,
            MessageType::OutputStreamEntry => OUTPUT_STREAM_ENTRY_MESSAGE_TYPE,
            MessageType::GetStateEntry => GET_STATE_ENTRY_MESSAGE_TYPE,
            MessageType::SetStateEntry => SET_STATE_ENTRY_MESSAGE_TYPE,
            MessageType::ClearStateEntry => CLEAR_STATE_ENTRY_MESSAGE_TYPE,
            MessageType::SleepEntry => SLEEP_ENTRY_MESSAGE_TYPE,
            MessageType::InvokeEntry => INVOKE_ENTRY_MESSAGE_TYPE,
            MessageType::BackgroundInvokeEntry => BACKGROUND_INVOKE_ENTRY_MESSAGE_TYPE,
            MessageType::AwakeableEntry => AWAKEABLE_ENTRY_MESSAGE_TYPE,
            MessageType::CompleteAwakeableEntry => COMPLETE_AWAKEABLE_ENTRY_MESSAGE_TYPE,
            MessageType::Custom(id) => id,
        }
    }

    /// The 16-bit wire code of this message type.
    pub fn type_id(&self) -> (r: MessageTypeId)
        ensures
            r == self.spec_type_id(),
    {
        match self {
            MessageType::Start => START_MESSAGE_TYPE,
            MessageType::Completion => COMPLETION_MESSAGE_TYPE,
            MessageType::Suspension => SUSPENSION_MESSAGE_TYPE,
            MessageType::Error => ERROR_MESSAGE_TYPE,
            MessageType::PollInputStreamEntry => POLL_INPUT_STREAM_ENTRY_MESSAGE_TYPE,
            MessageType::OutputStreamEntry => OUTPUT_STREAM_ENTRY_MESSAGE_TYPE,
            MessageType::GetStateEntry => GET_STATE_ENTRY_MESSAGE_TYPE,
            MessageType::SetStateEntry => SET_STATE_ENTRY_MESSAGE_TYPE,
            MessageType::ClearStateEntry => CLEAR_STATE_ENTRY_MESSAGE_TYPE,
            MessageType::SleepEntry => SLEEP_ENTRY_MESSAGE_TYPE,
            MessageType::InvokeEntry => INVOKE_ENTRY_MESSAGE_TYPE,
            MessageType::BackgroundInvokeEntry => BACKGROUND_INVOKE_ENTRY_MESSAGE_TYPE,
            MessageType::AwakeableEntry => AWAKEABLE_ENTRY_MESSAGE_TYPE,
            MessageType::CompleteAwakeableEntry => COMPLETE_AWAKEABLE_ENTRY_MESSAGE_TYPE,
            MessageType::Custom(id) => *id,
        }
    }

    /// The message type a 16-bit code decodes to, if any: the named codes
    /// first, then any code with a custom-range bit set, else nothing.
    pub open spec fn spec_of_type_id(value: u16) -> Option<MessageType> {
        if value == START_MESSAGE_TYPE {
            Some(MessageType::Start)
        } else if value == COMPLETION_MESSAGE_TYPE {
            Some(MessageType::Completion)
        } else if value == SUSPENSION_MESSAGE_TYPE {
            Some(MessageType::Suspension)
        } else if value == ERROR_MESSAGE_TYPE {
            Some(MessageType::Error)
        } else if value == POLL_INPUT_STREAM_ENTRY_MESSAGE_TYPE {
            Some(MessageType::PollInputStreamEntry)
        } else if value == OUTPUT_STREAM_ENTRY_MESSAGE_TYPE {
            Some(MessageType::OutputStreamEntry)
        } else if value == GET_STATE_ENTRY_MESSAGE_TYPE {
            Some(MessageType::GetStateEntry)
        } else if value == SET_STATE_ENTRY_MESSAGE_TYPE {
            Some(MessageType::SetStateEntry)
        } else if value == CLEAR_STATE_ENTRY_MESSAGE_TYPE {
            Some(MessageType::ClearStateEntry)
        } else if value == SLEEP_ENTRY_MESSAGE_TYPE {
            Some(MessageType::SleepEntry)
        } else if value == INVOKE_ENTRY_MESSAGE_TYPE {
            Some(MessageType::InvokeEntry)
        } else if value == BACKGROUND_INVOKE_ENTRY_MESSAGE_TYPE {
            Some(MessageType::BackgroundInvokeEntry)
        } else if value == AWAKEABLE_ENTRY_MESSAGE_TYPE {
            Some(MessageType::AwakeableEntry)
        } else if value == COMPLETE_AWAKEABLE_ENTRY_MESSAGE_TYPE {
            Some(MessageType::CompleteAwakeableEntry)
        } else if value & CUSTOM_MESSAGE_MASK != 0 {
            Some(MessageType::Custom(value))
        } else {
            None
        }
    }

    /// Decodes a 16-bit wire code; codes outside the named and custom ranges
    /// are refused with the offending code.
    pub fn from_type_id(value: MessageTypeId) -> (r: Result<MessageType, UnknownMessageType>)
        ensures
            MessageType::spec_of_type_id(value) matches Some(t) ==> r == Ok::<
                MessageType,
                UnknownMessageType,
            >(t),
            MessageType::spec_of_type_id(value) is None ==> r == Err::<
                MessageType,
                UnknownMessageType,
            >(UnknownMessageType(value)),
    {
        if value == START_MESSAGE_TYPE {
            Ok(MessageType::Start)
        } else if value == COMPLETION_MESSAGE_TYPE {
            Ok(MessageType::Completion)
        } else if value == SUSPENSION_MESSAGE_TYPE {
            Ok(MessageType::Suspension)
        } else if value == ERROR_MESSAGE_TYPE {
            Ok(MessageType::Error)
        } else if value == POLL_INPUT_STREAM_ENTRY_MESSAGE_TYPE {
            Ok(MessageType::PollInputStreamEntry)
        } else if value == OUTPUT_STREAM_ENTRY_MESSAGE_TYPE {
            Ok(MessageType::OutputStreamEntry)
        } else if value == GET_STATE_ENTRY_MESSAGE_TYPE {
            Ok(MessageType::GetStateEntry)
        } else if value == SET_STATE_ENTRY_MESSAGE_TYPE {
            Ok(MessageType::SetStateEntry)
        } else if value == CLEAR_STATE_ENTRY_MESSAGE_TYPE {
            Ok(MessageType::ClearStateEntry)
        } else if value == SLEEP_ENTRY_MESSAGE_TYPE {
            Ok(MessageType::SleepEntry)
        } else if value == INVOKE_ENTRY_MESSAGE_TYPE {
            Ok(MessageType::InvokeEntry)
        } else if value == BACKGROUND_INVOKE_ENTRY_MESSAGE_TYPE {
            Ok(MessageType::BackgroundInvokeEntry)
        } else if value == AWAKEABLE_ENTRY_MESSAGE_TYPE {
            Ok(MessageType::AwakeableEntry)
        } else if value == COMPLETE_AWAKEABLE_ENTRY_MESSAGE_TYPE {
            Ok(MessageType::CompleteAwakeableEntry)
        } else if value & CUSTOM_MESSAGE_MASK != 0 {
            Ok(MessageType::Custom(value))
        } else {
            Err(UnknownMessageType(value))
        }
    }
}

/// Raised when a 16-bit code names no known or custom message type.
#[derive(Copy, Clone, Debug, PartialEq, Eq, Structural)]
pub struct UnknownMessageType(pub u16);

/// A decoded protocol header.
#[derive(Copy, Clone, Debug, PartialEq, Eq)]
pub struct MessageHeader {
    /// The message type of the frame.
    pub ty: MessageType,
    /// Length of the frame that follows the header.
    pub length: u32,
    /// Only the start message carries a protocol version.
    pub protocol_version: Option<u16>,
    /// Only completable journal entries carry the completed flag.
    pub completed_flag: Option<bool>,
    /// Only custom entries carry the requires-ack flag.
    pub requires_ack_flag: Option<bool>,
}

impl MessageHeader {
    /// A header without version or flags.
    pub fn new(ty: MessageType, length: u32) -> (r: MessageHeader)
        ensures
            r == (MessageHeader {
                ty,
                length,
                protocol_version: None::<u16>,
                completed_flag: None::<bool>,
                requires_ack_flag: None::<bool>,
            }),
    {
        Self::_new(ty, None, None, None, length)
    }

    /// A start-message header carrying the protocol version.
    pub fn new_start(protocol_version: u16, length: u32) -> (r: MessageHeader)
        ensures
            r == (MessageHeader {
                ty: MessageType::Start,
                length,
                protocol_version: Some(protocol_version),
                completed_flag: None::<bool>,
                requires_ack_flag: None::<bool>,
            }),
    {
        Self::_new(MessageType::Start, Some(protocol_version), None, None, length)
    }

    /// A journal-entry header.  The completed and requires-ack flags must be
    /// present exactly for the types that carry them.
    pub fn new_entry_header(
        ty: MessageType,
        completed_flag: Option<bool>,
        requires_ack_flag: Option<bool>,
        length: u32,
    ) -> (r: MessageHeader)
        requires
            completed_flag is Some <==> ty.spec_has_completed_flag(),
            requires_ack_flag is Some <==> ty.spec_has_requires_ack_flag(),
        ensures
            r == (MessageHeader {
                ty,
                length,
                protocol_version: None::<u16>,
                completed_flag,
                requires_ack_flag,
            }),
    {
        MessageHeader { ty, length, protocol_version: None, completed_flag, requires_ack_flag }
    }

    /// Assembles a header from all of its parts.
    pub fn _new(
        ty: MessageType,
        protocol_version: Option<u16>,
        completed_flag: Option<bool>,
        requires_ack_flag: Option<bool>,
        length: u32,
    ) -> (r: MessageHeader)
        ensures
            r == (MessageHeader { ty, length, protocol_version, completed_flag, requires_ack_flag }),
    {
        MessageHeader { ty, length, protocol_version, completed_flag, requires_ack_flag }
    }

    /// The family of the frame's message type.
    pub fn message_kind(&self) -> (r: MessageKind)
        ensures
            r == self.ty.spec_kind(),
    {
        self.ty.kind()
    }

    /// The message type of the frame.
    pub fn message_type(&self) -> (r: MessageType)
        ensures
            r == self.ty,
    {
        self.ty
    }

    /// The protocol version, on a start message.
    pub fn protocol_version(&self) -> (r: Option<u16>)
        ensures
            r == self.protocol_version,
    {
        self.protocol_version
    }

    /// The completed flag, on a completable journal entry.
    pub fn completed(&self) -> (r: Option<bool>)
        ensures
            r == self.completed_flag,
    {
        self.completed_flag
    }

    /// The requires-ack flag, on a custom entry.
    pub fn requires_ack(&self) -> (r: Option<bool>)
        ensures
            r == self.requires_ack_flag,
    {
        self.requires_ack_flag
    }

    /// Length of the frame that follows the header.
    pub fn frame_length(&self) -> (r: u32)
        ensures
            r == self.length,
    {
        self.length
    }

    /// What a 64-bit word decodes to: the type code sits in the top 16 bits,
    /// the length in the low 32, and version or flags in between, read only
    /// for the types that carry them.
    pub open spec fn spec_decode(value: u64) -> Option<MessageHeader> {
        match MessageType::spec_of_type_id((value >> 48) as u16) {
            Some(ty) => Some(
                MessageHeader {
                    ty,
                    length: value as u32,
                    protocol_version: if ty.spec_has_protocol_version() {
                        Some(((value & VERSION_MASK) >> 32) as u16)
                    } else {
                        None
                    },
                    completed_flag: if ty.spec_has_completed_flag() {
                        Some((value & COMPLETED_MASK) != 0)
                    } else {
                        None
                    },
                    requires_ack_flag: if ty.spec_has_requires_ack_flag() {
                        Some((value & REQUIRES_ACK_MASK) != 0)
                    } else {
                        None
                    },
                },
            ),
            None => None,
        }
    }

    /// The 64-bit word a header serializes to.
    pub open spec fn spec_encode(self) -> u64 {
        let base = ((self.ty.spec_type_id() as u64) << 48) | (self.length as u64);
        let with_version = if self.protocol_version is Some {
            base | ((self.protocol_version->0 as u64) << 32)
        } else {
            base
        };
        let with_completed = if self.completed_flag == Some(true) {
            with_version | COMPLETED_MASK
        } else {
            with_version
        };
        if self.requires_ack_flag == Some(true) {
            with_completed | REQUIRES_ACK_MASK
        } else {
            with_completed
        }
    }

    /// Deserializes the protocol header; an unknown type code is refused.
    pub fn from_u64(value: u64) -> (r: Result<MessageHeader, UnknownMessageType>)
        ensures
            MessageHeader::spec_decode(value) matches Some(h) ==> r == Ok::<
                MessageHeader,
                UnknownMessageType,
            >(h),
            MessageHeader::spec_decode(value) is None ==> r == Err::<
                MessageHeader,
                UnknownMessageType,
            >(UnknownMessageType((value >> 48) as u16)),
    {
        let ty_code: u16 = (value >> 48) as u16;
        let ty = match MessageType::from_type_id(ty_code) {
            Ok(ty) => ty,
            Err(e) => {
                return Err(e);
            },
        };
        let protocol_version: Option<u16> = if ty.has_protocol_version() {
            Some(((value & VERSION_MASK) >> 32) as u16)
        } else {
            None
        };
        let completed_flag: Option<bool> = if ty.has_completed_flag() {
            Some((value & COMPLETED_MASK) != 0)
        } else {
            None
        };
        let requires_ack_flag: Option<bool> = if ty.has_requires_ack_flag() {
            Some((value & REQUIRES_ACK_MASK) != 0)
        } else {
            None
        };
        let length: u32 = value as u32;
        Ok(Self::_new(ty, protocol_version, completed_flag, requires_ack_flag, length))
    }

    /// Serializes the protocol header.
    pub fn to_u64(self) -> (r: u64)
        ensures
            r == self.spec_encode(),
    {
        let mut res: u64 = ((self.ty.type_id() as u64) << 48) | (self.length as u64);
        if let Some(protocol_version) = self.protocol_version {
            res = res | ((protocol_version as u64) << 32);
        }
        if let Some(true) = self.completed_flag {
            res = res | COMPLETED_MASK;
        }
        if let Some(true) = self.requires_ack_flag {
            res = res | REQUIRES_ACK_MASK;
        }
        res
    }
}

/// A header is well formed when version and flags are present exactly for the
/// types that carry them, the version fits its 10 wire bits, and a custom
/// type code decodes back to itself.
pub open spec fn header_wf(h: MessageHeader) -> bool {
    &&& h.protocol_version is Some <==> h.ty.spec_has_protocol_version()
    &&& h.completed_flag is Some <==> h.ty.spec_has_completed_flag()
    &&& h.requires_ack_flag is Some <==> h.ty.spec_has_requires_ack_flag()
    &&& (h.protocol_version is Some ==> h.protocol_version->0 < 0x0400)
    &&& (h.ty is Custom ==> MessageType::spec_of_type_id(h.ty->Custom_0) == Some(h.ty))
}

/// Serializing a well-formed header and deserializing the word gives back
/// exactly the header: the codec loses nothing.
pub proof fn lemma_header_roundtrip(h: MessageHeader)
    requires
        header_wf(h),
    ensures
        MessageHeader::spec_decode(h.spec_encode()) == Some(h),
{
    let tyid = h.ty.spec_type_id();
    let len = h.length;
    let base = ((tyid as u64) << 48) | (len as u64);
    let enc = h.spec_encode();
    // the named type codes and the custom range map back to the type itself
    assert(MessageType::spec_of_type_id(tyid) == Some(h.ty));
    if h.ty.spec_has_protocol_version() {
        // a start header carries the version and no flags
        let v = h.protocol_version->0;
        assert(enc == base | ((v as u64) << 32));
        assert({
            let e = (((tyid as u64) << 48) | (len as u64)) | ((v as u64) << 32);
            (e >> 48) as u16 == tyid && e as u32 == len && ((e & 0x03FF_0000_0000u64)
                >> 32) as u16 == v
        }) by (bit_vector)
            requires
                v < 0x0400u16,
        ;
        assert(((enc & VERSION_MASK) >> 32) as u16 == v);
    } else if h.ty.spec_has_completed_flag() {
        // a completable entry carries the completed bit and nothing else
        if h.completed_flag == Some(true) {
            assert(enc == base | COMPLETED_MASK);
            assert({
                let e = (((tyid as u64) << 48) | (len as u64)) | 0x0001_0000_0000u64;
                (e >> 48) as u16 == tyid && e as u32 == len && (e & 0x0001_0000_0000u64) != 0
            }) by (bit_vector);
        } else {
            assert(enc == base);
            assert({
                let e = ((tyid as u64) << 48) | (len as u64);
                (e >> 48) as u16 == tyid && e as u32 == len && (e & 0x0001_0000_0000u64) == 0
            }) by (bit_vector);
            assert(h.completed_flag == Some(false));
        }
        assert(h.completed_flag == Some((enc & COMPLETED_MASK) != 0));
    } else if h.ty.spec_has_requires_ack_flag() {
        // a custom entry carries the requires-ack bit and nothing else
        if h.requires_ack_flag == Some(true) {
            assert(enc == base | REQUIRES_ACK_MASK);
            assert({
                let e = (((tyid as u64) << 48) | (len as u64)) | 0x0001_0000_0000u64;
                (e >> 48) as u16 == tyid && e as u32 == len && (e & 0x0001_0000_0000u64) != 0
            }) by (bit_vector);
        } else {
            assert(enc == base);
            assert({
                let e = ((tyid as u64) << 48) | (len as u64);
                (e >> 48) as u16 == tyid && e as u32 == len && (e & 0x0001_0000_0000u64) == 0
            }) by (bit_vector);
            assert(h.requires_ack_flag == Some(false));
        }
        assert(h.requires_ack_flag == Some((enc & REQUIRES_ACK_MASK) != 0));
    } else {
        // every other header is the type code and the length alone
        assert(enc == base);
        assert({
            let e = ((tyid as u64) << 48) | (len as u64);
            (e >> 48) as u16 == tyid && e as u32 == len
        }) by (bit_vector);
    }
    assert((enc >> 48) as u16 == tyid);
    assert(enc as u32 == h.length);
}

} // verus!
