//! Wire messages, acknowledgements, registry instructions, and the response
//! bundles that packet-path entry points hand back to the host.

use vstd::prelude::*;

verus! {

/// Spec-level mirror of [`IbcMessage`].
///
/// `transfer` is `true` for a `TransferName`, `false` for a `ReturnName`.
#[verifier::ext_equal]
pub struct MessageView {
    pub transfer: bool,
    pub collection: Seq<char>,
    pub token_id: Seq<char>,
    pub sender_addr: Seq<char>,
    pub receiver_addr: Seq<char>,
}

/// The two wire message variants. The payload of every packet is exactly one
/// of these, serialized by the codec, and is immutable in transit.
pub enum IbcMessage {
    /// An asset moving from its home chain to a remote chain; the asset is
    /// escrowed on the home chain for the lifetime of transit.
    TransferName {
        collection: String,
        token_id: String,
        sender_addr: String,
        receiver_addr: String,
    },
    /// A previously received voucher moving back toward its origin chain;
    /// the voucher is escrowed (held, not yet burned) while in transit.
    ReturnName {
        collection: String,
        token_id: String,
        sender_addr: String,
        receiver_addr: String,
    },
}

impl View for IbcMessage {
    type V = MessageView;

    open spec fn view(&self) -> MessageView {
        match self {
            IbcMessage::TransferName { collection, token_id, sender_addr, receiver_addr } => (
            MessageView {
                transfer: true,
                collection: collection@,
                token_id: token_id@,
                sender_addr: sender_addr@,
                receiver_addr: receiver_addr@,
            }),
            IbcMessage::ReturnName { collection, token_id, sender_addr, receiver_addr } => (
            MessageView {
                transfer: false,
                collection: collection@,
                token_id: token_id@,
                sender_addr: sender_addr@,
                receiver_addr: receiver_addr@,
            }),
        }
    }
}

/// Spec-level mirror of [`Ack`].
#[verifier::ext_equal]
pub struct AckView {
    pub success: bool,
    pub data: Seq<char>,
}

/// The acknowledgement envelope: produced exactly once per received packet,
/// consumed exactly once by the sender's outcome handler.
pub enum Ack {
    /// Delivery succeeded; carries an opaque payload.
    Success(String),
    /// Delivery failed; carries a diagnostic message.
    Error(String),
}

impl View for Ack {
    type V = AckView;

    open spec fn view(&self) -> AckView {
        match self {
            Ack::Success(data) => AckView { success: true, data: data@ },
            Ack::Error(data) => AckView { success: false, data: data@ },
        }
    }
}

/// Spec-level mirror of [`CollectionInstruction`].
#[verifier::ext_equal]
pub enum InstructionView {
    Mint { contract_addr: Seq<char>, token_id: Seq<char>, owner: Seq<char> },
    TransferNft { contract_addr: Seq<char>, token_id: Seq<char>, recipient: Seq<char> },
    Burn { contract_addr: Seq<char>, token_id: Seq<char> },
}

/// One operation for the host to execute against a token registry contract.
/// The core never invokes the registry directly; it only queues these.
pub enum CollectionInstruction {
    /// Mint a voucher token owned by `owner`, with no token metadata.
    Mint { contract_addr: String, token_id: String, owner: String },
    /// Move a token out of escrow custody to `recipient`.
    TransferNft { contract_addr: String, token_id: String, recipient: String },
    /// Destroy a voucher token.
    Burn { contract_addr: String, token_id: String },
}

impl View for CollectionInstruction {
    type V = InstructionView;

    open spec fn view(&self) -> InstructionView {
        match self {
            CollectionInstruction::Mint { contract_addr, token_id, owner } => (
            InstructionView::Mint {
                contract_addr: contract_addr@,
                token_id: token_id@,
                owner: owner@,
            }),
            CollectionInstruction::TransferNft { contract_addr, token_id, recipient } => (
            InstructionView::TransferNft {
                contract_addr: contract_addr@,
                token_id: token_id@,
                recipient: recipient@,
            }),
            CollectionInstruction::Burn { contract_addr, token_id } => (
            InstructionView::Burn { contract_addr: contract_addr@, token_id: token_id@ }),
        }
    }
}

/// Spec-level mirror of [`Attribute`].
#[verifier::ext_equal]
pub struct AttributeView {
    pub key: Seq<char>,
    pub value: Seq<char>,
}

/// One key/value pair of an observability event or of a response.
pub struct Attribute {
    pub key: String,
    pub value: String,
}

impl View for Attribute {
    type V = AttributeView;

    open spec fn view(&self) -> AttributeView {
        AttributeView { key: self.key@, value: self.value@ }
    }
}

/// Spec-level mirror of [`Event`].
#[verifier::ext_equal]
pub struct EventView {
    pub event_type: Seq<char>,
    pub attributes: Seq<AttributeView>,
}

/// An observability event emitted alongside instructions.
pub struct Event {
    pub event_type: String,
    pub attributes: Vec<Attribute>,
}

impl View for Event {
    type V = EventView;

    open spec fn view(&self) -> EventView {
        EventView {
            event_type: self.event_type@,
            attributes: self.attributes@.map_values(|a: Attribute| a@),
        }
    }
}

/// Spec-level mirror of [`IbcReceiveResponse`].
#[verifier::ext_equal]
pub struct ReceiveResponseView {
    pub instructions: Seq<InstructionView>,
    pub events: Seq<EventView>,
    pub attributes: Seq<AttributeView>,
    pub ack: AckView,
}

/// What a packet receive hands back to the host: queued registry
/// instructions, events, diagnostic attributes, and the acknowledgement to
/// relay to the sender.
pub struct IbcReceiveResponse {
    pub instructions: Vec<CollectionInstruction>,
    pub events: Vec<Event>,
    pub attributes: Vec<Attribute>,
    pub ack: Ack,
}

impl View for IbcReceiveResponse {
    type V = ReceiveResponseView;

    open spec fn view(&self) -> ReceiveResponseView {
        ReceiveResponseView {
            instructions: self.instructions@.map_values(|i: CollectionInstruction| i@),
            events: self.events@.map_values(|e: Event| e@),
            attributes: self.attributes@.map_values(|a: Attribute| a@),
            ack: self.ack@,
        }
    }
}

/// Spec-level mirror of [`IbcBasicResponse`].
#[verifier::ext_equal]
pub struct BasicResponseView {
    pub instructions: Seq<InstructionView>,
    pub events: Seq<EventView>,
}

/// What a handshake or outcome entry point hands back to the host.
pub struct IbcBasicResponse {
    pub instructions: Vec<CollectionInstruction>,
    pub events: Vec<Event>,
}

impl View for IbcBasicResponse {
    type V = BasicResponseView;

    open spec fn view(&self) -> BasicResponseView {
        BasicResponseView {
            instructions: self.instructions@.map_values(|i: CollectionInstruction| i@),
            events: self.events@.map_values(|e: Event| e@),
        }
    }
}

impl IbcBasicResponse {
    /// An empty response: nothing for the host to do.
    pub fn new() -> (r: IbcBasicResponse)
        ensures
            r@.instructions == Seq::<InstructionView>::empty(),
            r@.events == Seq::<EventView>::empty(),
    {
        let r = IbcBasicResponse { instructions: Vec::new(), events: Vec::new() };
        assert(r@.instructions =~= Seq::<InstructionView>::empty());
        assert(r@.events =~= Seq::<EventView>::empty());
        r
    }
}

} // verus!
