//! Error taxonomy of the core.
//!
//! Handshake errors reject a handshake before any state is written;
//! provenance and decode errors hard-reject a packet-path invocation;
//! a missing voucher-collection configuration is a business error that the
//! receive path converts into an error acknowledgement.

use vstd::prelude::*;
use vstd::string::*;

verus! {

/// Spec-level mirror of [`ContractError`], with string fields as `Seq<char>`.
#[verifier::ext_equal]
pub enum ErrorView {
    InvalidIbcVersion { version: Seq<char> },
    OrderedChannel,
    ChannelAlreadyExists { channel_id: Seq<char> },
    ChannelClosingNotAllowed,
    UnkownChannel { channel_id: Seq<char> },
    InvalidPacketData,
    VouchersCollectionNotSet,
}

/// Every failure the core can report.
#[derive(Debug)]
pub enum ContractError {
    /// A handshake offered a protocol version other than the single
    /// supported one.
    InvalidIbcVersion { version: String },
    /// A handshake offered an ordered channel; only unordered channels are
    /// accepted, since packets must be independently timeoutable.
    OrderedChannel,
    /// A connect attempt for a channel id that is already registered.
    ChannelAlreadyExists { channel_id: String },
    /// Channels are permanent once open: every close request fails with this.
    ChannelClosingNotAllowed,
    /// A packet-path call named a channel id with no registry entry.
    /// The field spelling follows the protocol's established wire-visible
    /// identifier for this condition.
    UnkownChannel { channel_id: String },
    /// The packet payload does not decode as a wire message.
    InvalidPacketData,
    /// The voucher collection address has not been configured.
    VouchersCollectionNotSet,
}

impl View for ContractError {
    type V = ErrorView;

    open spec fn view(&self) -> ErrorView {
        match self {
            ContractError::InvalidIbcVersion { version } => ErrorView::InvalidIbcVersion {
                version: version@,
            },
            ContractError::OrderedChannel => ErrorView::OrderedChannel,
            ContractError::ChannelAlreadyExists { channel_id } => ErrorView::ChannelAlreadyExists {
                channel_id: channel_id@,
            },
            ContractError::ChannelClosingNotAllowed => ErrorView::ChannelClosingNotAllowed,
            ContractError::UnkownChannel { channel_id } => ErrorView::UnkownChannel {
                channel_id: channel_id@,
            },
            ContractError::InvalidPacketData => ErrorView::InvalidPacketData,
            ContractError::VouchersCollectionNotSet => ErrorView::VouchersCollectionNotSet,
        }
    }
}

/// The diagnostic text of each error, as the receive path embeds it in an
/// error acknowledgement.
pub open spec fn spec_message(e: ErrorView) -> Seq<char> {
    match e {
        ErrorView::InvalidIbcVersion { version } => "invalid ibc version: "@ + version,
        ErrorView::OrderedChannel => "only unordered channels are supported"@,
        ErrorView::ChannelAlreadyExists { channel_id } => "channel already exists: "@ + channel_id,
        ErrorView::ChannelClosingNotAllowed => "closing a channel is not allowed"@,
        ErrorView::UnkownChannel { channel_id } => "unknown channel: "@ + channel_id,
        ErrorView::InvalidPacketData => "invalid packet data"@,
        ErrorView::VouchersCollectionNotSet => "vouchers collection address is not set"@,
    }
}

impl ContractError {
    /// Renders the error as a human-readable message.
    pub fn to_message(&self) -> (r: String)
        ensures
            r@ == spec_message(self@),
    {
        match self {
            ContractError::InvalidIbcVersion { version } => {
                let mut s = String::from_str("invalid ibc version: ");
                s.append(version.as_str());
                s
            },
            ContractError::OrderedChannel => {
                String::from_str("only unordered channels are supported")
            },
            ContractError::ChannelAlreadyExists { channel_id } => {
                let mut s = String::from_str("channel already exists: ");
                s.append(channel_id.as_str());
                s
            },
            ContractError::ChannelClosingNotAllowed => {
                String::from_str("closing a channel is not allowed")
            },
            ContractError::UnkownChannel { channel_id } => {
                let mut s = String::from_str("unknown channel: ");
                s.append(channel_id.as_str());
                s
            },
            ContractError::InvalidPacketData => String::from_str("invalid packet data"),
            ContractError::VouchersCollectionNotSet => {
                String::from_str("vouchers collection address is not set")
            },
        }
    }
}

} // verus!
