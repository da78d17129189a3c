//! Channel lifecycle manager.
//!
//! Validates and records channel handshakes. A handshake is accepted only
//! for the single supported protocol version and for unordered delivery;
//! the connect step records the channel, the open step only validates.
//! Closing is never permitted: once open, a channel is permanent, since
//! in-flight escrow accounting has no recovery path across a closed channel.

use vstd::prelude::*;
use vstd::string::*;

use crate::error::{ContractError, ErrorView};
use crate::msg::IbcBasicResponse;
use crate::state::{ChannelInfo, ChannelInfoView, ChannelRegistry, EndpointView, IbcEndpoint};

verus! {

/// The single protocol version this core speaks.
pub open spec fn spec_protocol_version() -> Seq<char> {
    "ibc-name-transfer-1.0"@
}

/// The single protocol version this core speaks.
pub fn protocol_version() -> (s: &'static str)
    ensures
        s@ == spec_protocol_version(),
{
    "ibc-name-transfer-1.0"
}

/// The delivery ordering a channel was proposed with.
pub enum IbcOrder {
    Unordered,
    Ordered,
}

/// Spec-level mirror of [`IbcChannel`].
#[verifier::ext_equal]
pub struct ChannelView {
    pub endpoint: EndpointView,
    pub counterparty_endpoint: EndpointView,
    pub ordered: bool,
    pub version: Seq<char>,
    pub connection_id: Seq<char>,
}

/// A channel as offered in a handshake: the two endpoints, the proposed
/// ordering, the negotiated version, and the underlying connection.
pub struct IbcChannel {
    pub endpoint: IbcEndpoint,
    pub counterparty_endpoint: IbcEndpoint,
    pub order: IbcOrder,
    pub version: String,
    pub connection_id: String,
}

impl View for IbcChannel {
    type V = ChannelView;

    open spec fn view(&self) -> ChannelView {
        ChannelView {
            endpoint: self.endpoint@,
            counterparty_endpoint: self.counterparty_endpoint@,
            ordered: self.order is Ordered,
            version: self.version@,
            connection_id: self.connection_id@,
        }
    }
}

/// The view of an optional borrowed string.
pub open spec fn opt_str_view(o: Option<&String>) -> Option<Seq<char>> {
    match o {
        Some(s) => Some(s@),
        None => None,
    }
}

/// The first reason a handshake offer is unacceptable, if any: a version
/// mismatch on either side, then an ordered channel.
pub open spec fn handshake_error(c: ChannelView, counterparty_version: Option<Seq<char>>) -> Option<
    ErrorView,
> {
    if c.version != spec_protocol_version() {
        Some(ErrorView::InvalidIbcVersion { version: c.version })
    } else if counterparty_version matches Some(v) && v != spec_protocol_version() {
        Some(ErrorView::InvalidIbcVersion { version: counterparty_version->0 })
    } else if c.ordered {
        Some(ErrorView::OrderedChannel)
    } else {
        None
    }
}

/// The first reason a handshake is rejected against a registry, if any:
/// an unacceptable offer, then a duplicate channel id.
pub open spec fn connect_error(
    reg: Map<Seq<char>, ChannelInfoView>,
    c: ChannelView,
    counterparty_version: Option<Seq<char>>,
) -> Option<ErrorView> {
    match handshake_error(c, counterparty_version) {
        Some(e) => Some(e),
        None => if reg.contains_key(c.endpoint.channel_id) {
            Some(ErrorView::ChannelAlreadyExists { channel_id: c.endpoint.channel_id })
        } else {
            None
        },
    }
}

/// What the registry records for an accepted channel.
pub open spec fn recorded_info(c: ChannelView) -> ChannelInfoView {
    ChannelInfoView {
        channel_id: c.endpoint.channel_id,
        counterparty_endpoint: c.counterparty_endpoint,
        connection_id: c.connection_id,
    }
}

fn is_protocol_version(s: &String) -> (r: bool)
    ensures
        r == (s@ == spec_protocol_version()),
{
    let p = String::from_str(protocol_version());
    *s == p
}

/// Rejects a handshake offer with the wrong version on either side or with
/// ordered delivery.
fn check_channel_order_and_version(
    channel: &IbcChannel,
    counterparty_version: Option<&String>,
) -> (r: Result<(), ContractError>)
    ensures
        match handshake_error(channel@, opt_str_view(counterparty_version)) {
            None => r is Ok,
            Some(e) => r matches Err(err) && err@ == e,
        },
{
    if !is_protocol_version(&channel.version) {
        return Err(ContractError::InvalidIbcVersion { version: channel.version.clone() });
    }
    if let Some(cv) = counterparty_version {
        if !is_protocol_version(cv) {
            return Err(ContractError::InvalidIbcVersion { version: cv.clone() });
        }
    }
    match channel.order {
        IbcOrder::Unordered => Ok(()),
        IbcOrder::Ordered => Err(ContractError::OrderedChannel),
    }
}

/// Rejects a handshake whose channel id is already registered: handshakes
/// are not re-entrant.
fn check_channel_unknown(registry: &ChannelRegistry, channel: &IbcChannel) -> (r: Result<
    (),
    ContractError,
>)
    ensures
        registry@.contains_key(channel@.endpoint.channel_id) ==> (r matches Err(err) && err@
            == (ErrorView::ChannelAlreadyExists { channel_id: channel@.endpoint.channel_id })),
        !registry@.contains_key(channel@.endpoint.channel_id) ==> r is Ok,
{
    if registry.has(&channel.endpoint.channel_id) {
        Err(ContractError::ChannelAlreadyExists {
            channel_id: channel.endpoint.channel_id.clone(),
        })
    } else {
        Ok(())
    }
}

/// The open step of the handshake: validation only. Nothing is persisted,
/// since the handshake may still be aborted before connect; on success the
/// agreed protocol version is returned.
pub fn ibc_channel_open(
    registry: &ChannelRegistry,
    channel: &IbcChannel,
    counterparty_version: Option<&String>,
) -> (r: Result<String, ContractError>)
    ensures
        match connect_error(registry@, channel@, opt_str_view(counterparty_version)) {
            None => r matches Ok(v) && v@ == spec_protocol_version(),
            Some(e) => r matches Err(err) && err@ == e,
        },
{
    match check_channel_order_and_version(channel, counterparty_version) {
        Ok(()) => (),
        Err(e) => {
            return Err(e);
        },
    }
    match check_channel_unknown(registry, channel) {
        Ok(()) => (),
        Err(e) => {
            return Err(e);
        },
    }
    Ok(String::from_str(protocol_version()))
}

/// The connect step of the handshake: validates the offer again and records
/// the channel. The registry gains exactly the new entry; on rejection it is
/// untouched.
pub fn ibc_channel_connect(
    registry: &mut ChannelRegistry,
    channel: &IbcChannel,
    counterparty_version: Option<&String>,
) -> (r: Result<IbcBasicResponse, ContractError>)
    requires
        old(registry).well_formed(),
    ensures
        final(registry).well_formed(),
        match connect_error(old(registry)@, channel@, opt_str_view(counterparty_version)) {
            None => {
                &&& r matches Ok(resp) && resp@.instructions.len() == 0 && resp@.events.len() == 0
                &&& final(registry)@ == old(registry)@.insert(
                    channel@.endpoint.channel_id,
                    recorded_info(channel@),
                )
            },
            Some(e) => {
                &&& r matches Err(err) && err@ == e
                &&& final(registry)@ == old(registry)@
            },
        },
{
    match check_channel_order_and_version(channel, counterparty_version) {
        Ok(()) => (),
        Err(e) => {
            return Err(e);
        },
    }
    match check_channel_unknown(registry, channel) {
        Ok(()) => (),
        Err(e) => {
            return Err(e);
        },
    }
    let info = ChannelInfo {
        channel_id: channel.endpoint.channel_id.clone(),
        counterparty_endpoint: IbcEndpoint {
            port_id: channel.counterparty_endpoint.port_id.clone(),
            channel_id: channel.counterparty_endpoint.channel_id.clone(),
        },
        connection_id: channel.connection_id.clone(),
    };
    proof {
        assert(info@ =~= recorded_info(channel@));
    }
    registry.save(info);
    Ok(IbcBasicResponse::new())
}

/// The close step: always refused, whatever the channel's state. The
/// registry cannot change; this entry point only borrows it.
pub fn ibc_channel_close(_registry: &ChannelRegistry, _channel: &IbcChannel) -> (r: Result<
    IbcBasicResponse,
    ContractError,
>)
    ensures
        r matches Err(err) && err@ == ErrorView::ChannelClosingNotAllowed,
{
    Err(ContractError::ChannelClosingNotAllowed)
}

/// A connect attempt for an already-registered channel id is rejected as a
/// duplicate, whatever else the offer says, provided the offer itself is
/// acceptable; together with the connect contract, the registry keeps the
/// existing entry unchanged.
pub proof fn lemma_connect_duplicate(
    reg: Map<Seq<char>, ChannelInfoView>,
    c: ChannelView,
    counterparty_version: Option<Seq<char>>,
)
    requires
        handshake_error(c, counterparty_version) is None,
        reg.contains_key(c.endpoint.channel_id),
    ensures
        connect_error(reg, c, counterparty_version) == Some(
            ErrorView::ChannelAlreadyExists { channel_id: c.endpoint.channel_id },
        ),
{
}

} // verus!
