//! Packet receive handler and outcome handler.
//!
//! Receiving dispatches an inbound wire message into token-registry
//! instructions and exactly one acknowledgement; business failures after a
//! known channel and a decodable message become an error acknowledgement,
//! never a hard failure. The outcome handler consumes a delivery outcome
//! (acknowledgement or timeout) for a previously sent packet and issues the
//! single compensating instruction the decision table prescribes; a timeout
//! is treated exactly like a failure acknowledgement.

use vstd::prelude::*;
use vstd::seq_lib::assert_seqs_equal;
use vstd::string::*;

use crate::channel::opt_str_view;
use crate::codec::{
    decode_ack, decode_message, encodable, spec_decode, spec_encode, spec_encode_ack,
};
use crate::error::{spec_message, ContractError, ErrorView};
use crate::msg::{
    Ack, AckView, Attribute, AttributeView, BasicResponseView, CollectionInstruction, Event,
    EventView, IbcBasicResponse, IbcMessage, IbcReceiveResponse, InstructionView, MessageView,
    ReceiveResponseView,
};
use crate::state::ChannelRegistry;

verus! {

/// The voucher id derived from a channel and an origin asset: a structured
/// concatenation, recomputable identically by any party from the triple.
pub open spec fn voucher_id(channel_id: Seq<char>, collection: Seq<char>, token_id: Seq<char>) -> Seq<
    char,
> {
    "transfer_name/ibc/"@ + channel_id + "/"@ + collection + "/"@ + token_id
}

/// Derives the deterministic voucher token id of an asset in transit over a
/// channel. Pure: no side effects and no failure mode.
pub fn voucher_token_id(channel_id: &String, collection: &String, token_id: &String) -> (r: String)
    ensures
        r@ == voucher_id(channel_id@, collection@, token_id@),
{
    let mut r = String::from_str("transfer_name/ibc/");
    r.append(channel_id.as_str());
    r.append("/");
    r.append(collection.as_str());
    r.append("/");
    r.append(token_id.as_str());
    proof {
        assert(r@ =~= voucher_id(channel_id@, collection@, token_id@));
    }
    r
}

/// No slash occurs in the sequence.
pub open spec fn slash_free(s: Seq<char>) -> bool {
    forall|i: int| 0 <= i < s.len() ==> s[i] != '/'
}

/// Splitting at a separator that the head cannot contain is unambiguous.
proof fn lemma_split_at_slash(x1: Seq<char>, y1: Seq<char>, x2: Seq<char>, y2: Seq<char>)
    requires
        slash_free(x1),
        slash_free(x2),
        x1 + seq!['/'] + y1 == x2 + seq!['/'] + y2,
    ensures
        x1 == x2,
        y1 == y2,
{
    let s = x1 + seq!['/'] + y1;
    assert(s[x1.len() as int] == '/');
    assert(s[x2.len() as int] == '/');
    if x1.len() < x2.len() {
        assert(s[x1.len() as int] == x2[x1.len() as int]);
        assert(false);
    }
    if x2.len() < x1.len() {
        assert(s[x2.len() as int] == x1[x2.len() as int]);
        assert(false);
    }
    assert(x1.len() == x2.len());
    assert(s.len() == x1.len() + 1 + y1.len());
    assert(s == x2 + seq!['/'] + y2);
    assert(s.len() == x2.len() + 1 + y2.len());
    assert(y1.len() == y2.len());
    assert_seqs_equal!(x1, x2, j => {
        assert(x1[j] == s[j]);
        assert(x2[j] == s[j]);
    });
    assert_seqs_equal!(y1, y2, j => {
        assert(y1[j] == s[x1.len() + 1 + j]);
        assert(y2[j] == s[x2.len() + 1 + j]);
    });
}

/// Voucher derivation is injective: as long as channel and collection
/// identifiers contain no slash, distinct (channel, collection, token id)
/// triples always derive distinct voucher ids.
pub proof fn lemma_voucher_id_injective(
    ch1: Seq<char>,
    co1: Seq<char>,
    tk1: Seq<char>,
    ch2: Seq<char>,
    co2: Seq<char>,
    tk2: Seq<char>,
)
    requires
        slash_free(ch1),
        slash_free(ch2),
        slash_free(co1),
        slash_free(co2),
        voucher_id(ch1, co1, tk1) == voucher_id(ch2, co2, tk2),
    ensures
        ch1 == ch2,
        co1 == co2,
        tk1 == tk2,
{
    reveal_strlit("transfer_name/ibc/");
    reveal_strlit("/");
    let p = "transfer_name/ibc/"@;
    let v1 = voucher_id(ch1, co1, tk1);
    let v2 = voucher_id(ch2, co2, tk2);
    assert(("/"@) =~= seq!['/']);
    let s1 = ch1 + seq!['/'] + (co1 + seq!['/'] + tk1);
    let s2 = ch2 + seq!['/'] + (co2 + seq!['/'] + tk2);
    assert(v1 =~= p + s1);
    assert(v2 =~= p + s2);
    assert(s1.len() == v1.len() - p.len());
    assert(s2.len() == v2.len() - p.len());
    assert_seqs_equal!(s1, s2, j => {
        assert(s1[j] == v1[p.len() + j]);
        assert(s2[j] == v2[p.len() + j]);
    });
    lemma_split_at_slash(ch1, co1 + seq!['/'] + tk1, ch2, co2 + seq!['/'] + tk2);
    lemma_split_at_slash(co1, tk1, co2, tk2);
}

/// The response of a successful transfer receive: one mint of the derived
/// voucher to the receiver, one observability event, a success
/// acknowledgement.
pub open spec fn mint_response(
    voucher_collection: Seq<char>,
    channel_id: Seq<char>,
    v: MessageView,
) -> ReceiveResponseView {
    ReceiveResponseView {
        instructions: seq![
            InstructionView::Mint {
                contract_addr: voucher_collection,
                token_id: voucher_id(channel_id, v.collection, v.token_id),
                owner: v.receiver_addr,
            },
        ],
        events: seq![
            EventView {
                event_type: "ibc-voucher-mint"@,
                attributes: seq![
                    AttributeView { key: "channel"@, value: channel_id },
                    AttributeView { key: "original-collection"@, value: v.collection },
                    AttributeView { key: "token_id"@, value: v.token_id },
                ],
            },
        ],
        attributes: Seq::empty(),
        ack: AckView { success: true, data: Seq::empty() },
    }
}

/// The response of a successful return receive: release the escrowed
/// voucher named by the message to the receiver, a success acknowledgement.
pub open spec fn return_response(v: MessageView) -> ReceiveResponseView {
    ReceiveResponseView {
        instructions: seq![
            InstructionView::TransferNft {
                contract_addr: v.collection,
                token_id: v.token_id,
                recipient: v.receiver_addr,
            },
        ],
        events: Seq::empty(),
        attributes: Seq::empty(),
        ack: AckView { success: true, data: Seq::empty() },
    }
}

/// The soft-failure response: no instruction, diagnostic attributes, and an
/// error acknowledgement carrying the failure's description.
pub open spec fn error_ack_response(e: ErrorView) -> ReceiveResponseView {
    ReceiveResponseView {
        instructions: Seq::empty(),
        events: Seq::empty(),
        attributes: seq![
            AttributeView { key: "method"@, value: "ibc_packet_receive"@ },
            AttributeView { key: "error"@, value: spec_message(e) },
        ],
        ack: AckView { success: false, data: spec_message(e) },
    }
}

/// What a packet receive must produce, for every combination of channel
/// knowledge, configuration, and payload.
pub open spec fn receive_model(
    known: bool,
    voucher_collection: Option<Seq<char>>,
    channel_id: Seq<char>,
    payload: Seq<char>,
) -> Result<ReceiveResponseView, ErrorView> {
    if !known {
        Err(ErrorView::UnkownChannel { channel_id })
    } else {
        match spec_decode(payload) {
            None => Err(ErrorView::InvalidPacketData),
            Some(v) => if v.transfer {
                match voucher_collection {
                    Some(addr) => Ok(mint_response(addr, channel_id, v)),
                    None => Ok(error_ack_response(ErrorView::VouchersCollectionNotSet)),
                }
            } else {
                Ok(return_response(v))
            },
        }
    }
}

/// Gates every packet-path call: an outcome or packet for an unknown
/// channel is a hard reject, since the registry entry needed to establish
/// provenance does not exist.
fn check_channel_exists(registry: &ChannelRegistry, channel_id: &String) -> (r: Result<
    (),
    ContractError,
>)
    ensures
        registry@.contains_key(channel_id@) ==> r is Ok,
        !registry@.contains_key(channel_id@) ==> (r matches Err(err) && err@
            == (ErrorView::UnkownChannel { channel_id: channel_id@ })),
{
    if registry.has(channel_id) {
        Ok(())
    } else {
        Err(ContractError::UnkownChannel { channel_id: channel_id.clone() })
    }
}

/// Builds the soft-failure response for a business error caught during
/// receive processing.
fn error_ack(e: &ContractError) -> (r: IbcReceiveResponse)
    ensures
        r@ == error_ack_response(e@),
{
    let text = e.to_message();
    let r = IbcReceiveResponse {
        instructions: Vec::new(),
        events: Vec::new(),
        attributes: vec![
            Attribute {
                key: String::from_str("method"),
                value: String::from_str("ibc_packet_receive"),
            },
            Attribute { key: String::from_str("error"), value: text.clone() },
        ],
        ack: Ack::Error(text),
    };
    proof {
        assert(r@ =~~= error_ack_response(e@));
    }
    r
}

/// Handles an inbound transfer on a known channel: mints the derived
/// voucher for the receiver on the configured voucher collection.
fn ibc_receive_transfer_name(
    voucher_collection: &String,
    channel_id: &String,
    collection: String,
    token_id: String,
    receiver_addr: String,
    Ghost(v): Ghost<MessageView>,
) -> (r: IbcReceiveResponse)
    requires
        v.collection == collection@,
        v.token_id == token_id@,
        v.receiver_addr == receiver_addr@,
    ensures
        r@ == mint_response(voucher_collection@, channel_id@, v),
{
    let vid = voucher_token_id(channel_id, &collection, &token_id);
    let r = IbcReceiveResponse {
        instructions: vec![
            CollectionInstruction::Mint {
                contract_addr: voucher_collection.clone(),
                token_id: vid,
                owner: receiver_addr,
            },
        ],
        events: vec![
            Event {
                event_type: String::from_str("ibc-voucher-mint"),
                attributes: vec![
                    Attribute { key: String::from_str("channel"), value: channel_id.clone() },
                    Attribute { key: String::from_str("original-collection"), value: collection },
                    Attribute { key: String::from_str("token_id"), value: token_id },
                ],
            },
        ],
        attributes: Vec::new(),
        ack: Ack::Success(String::new()),
    };
    proof {
        assert(r@ =~~= mint_response(voucher_collection@, channel_id@, v));
    }
    r
}

/// Handles an inbound return on a known channel: releases the escrowed
/// voucher named by the message to the receiver.
fn ibc_receive_return_name(
    collection: String,
    token_id: String,
    receiver_addr: String,
    Ghost(v): Ghost<MessageView>,
) -> (r: IbcReceiveResponse)
    requires
        v.collection == collection@,
        v.token_id == token_id@,
        v.receiver_addr == receiver_addr@,
    ensures
        r@ == return_response(v),
{
    let r = IbcReceiveResponse {
        instructions: vec![
            CollectionInstruction::TransferNft {
                contract_addr: collection,
                token_id,
                recipient: receiver_addr,
            },
        ],
        events: Vec::new(),
        attributes: Vec::new(),
        ack: Ack::Success(String::new()),
    };
    proof {
        assert(r@ =~~= return_response(v));
    }
    r
}

/// The packet receive entry point.
///
/// Hard-rejects an unknown channel or an undecodable payload; otherwise it
/// produces exactly the instructions, events, and acknowledgement the
/// receive model prescribes, converting any business failure into an error
/// acknowledgement rather than aborting.
pub fn ibc_packet_receive(
    registry: &ChannelRegistry,
    voucher_collection: Option<&String>,
    channel_id: &String,
    packet_data: &String,
) -> (r: Result<IbcReceiveResponse, ContractError>)
    ensures
        match receive_model(
            registry@.contains_key(channel_id@),
            opt_str_view(voucher_collection),
            channel_id@,
            packet_data@,
        ) {
            Ok(rv) => r matches Ok(resp) && resp@ == rv,
            Err(e) => r matches Err(err) && err@ == e,
        },
{
    match check_channel_exists(registry, channel_id) {
        Ok(()) => (),
        Err(e) => {
            return Err(e);
        },
    }
    let m = match decode_message(packet_data) {
        Some(m) => m,
        None => {
            return Err(ContractError::InvalidPacketData);
        },
    };
    let ghost v = m@;
    match m {
        IbcMessage::TransferName { collection, token_id, sender_addr: _, receiver_addr } => {
            match voucher_collection {
                Some(addr) => Ok(
                    ibc_receive_transfer_name(
                        addr,
                        channel_id,
                        collection,
                        token_id,
                        receiver_addr,
                        Ghost(v),
                    ),
                ),
                None => Ok(error_ack(&ContractError::VouchersCollectionNotSet)),
            }
        },
        IbcMessage::ReturnName { collection, token_id, sender_addr: _, receiver_addr } => {
            Ok(ibc_receive_return_name(collection, token_id, receiver_addr, Ghost(v)))
        },
    }
}

/// An empty outcome response: no compensating action.
pub open spec fn empty_basic() -> BasicResponseView {
    BasicResponseView { instructions: Seq::empty(), events: Seq::empty() }
}

/// The compensation for a failed or timed-out transfer: release the escrow,
/// moving the original token back to its sender.
pub open spec fn transfer_unescrow(v: MessageView) -> BasicResponseView {
    BasicResponseView {
        instructions: seq![
            InstructionView::TransferNft {
                contract_addr: v.collection,
                token_id: v.token_id,
                recipient: v.sender_addr,
            },
        ],
        events: Seq::empty(),
    }
}

/// The completion of a successful return: burn the voucher, and record the
/// burn in an observability event.
pub open spec fn burn_response(
    voucher_collection: Seq<char>,
    channel_id: Seq<char>,
    v: MessageView,
) -> BasicResponseView {
    BasicResponseView {
        instructions: seq![
            InstructionView::Burn {
                contract_addr: voucher_collection,
                token_id: voucher_id(channel_id, v.collection, v.token_id),
            },
        ],
        events: seq![
            EventView {
                event_type: "ibc-voucher-burn"@,
                attributes: seq![
                    AttributeView { key: "channel"@, value: channel_id },
                    AttributeView { key: "original-collection"@, value: v.collection },
                    AttributeView { key: "token_id"@, value: v.token_id },
                ],
            },
        ],
    }
}

/// The compensation for a failed or timed-out return: release the voucher
/// escrow, moving the voucher back to its sender.
pub open spec fn return_unescrow(
    voucher_collection: Seq<char>,
    channel_id: Seq<char>,
    v: MessageView,
) -> BasicResponseView {
    BasicResponseView {
        instructions: seq![
            InstructionView::TransferNft {
                contract_addr: voucher_collection,
                token_id: voucher_id(channel_id, v.collection, v.token_id),
                recipient: v.sender_addr,
            },
        ],
        events: Seq::empty(),
    }
}

/// The sender-side decision table: what reconciling one delivery outcome
/// against the original payload must produce. A timeout enters as
/// `success == false`, indistinguishable from a failure acknowledgement.
pub open spec fn reconcile_model(
    known: bool,
    voucher_collection: Option<Seq<char>>,
    channel_id: Seq<char>,
    original: Seq<char>,
    success: bool,
) -> Result<BasicResponseView, ErrorView> {
    if !known {
        Err(ErrorView::UnkownChannel { channel_id })
    } else {
        match spec_decode(original) {
            None => Err(ErrorView::InvalidPacketData),
            Some(v) => if v.transfer {
                if success {
                    Ok(empty_basic())
                } else {
                    Ok(transfer_unescrow(v))
                }
            } else {
                match voucher_collection {
                    None => Err(ErrorView::VouchersCollectionNotSet),
                    Some(addr) => if success {
                        Ok(burn_response(addr, channel_id, v))
                    } else {
                        Ok(return_unescrow(addr, channel_id, v))
                    },
                }
            },
        }
    }
}

/// Whether an acknowledgement payload decodes to a success envelope; an
/// undecodable payload conservatively counts as failure.
pub open spec fn ack_success(p: Seq<char>) -> bool {
    if exists|a: AckView| spec_encode_ack(a) == p {
        (choose|a: AckView| spec_encode_ack(a) == p).success
    } else {
        false
    }
}

/// Releases the escrow of a failed or timed-out transfer.
fn ibc_unescrow_failed_transfer(
    collection: String,
    token_id: String,
    sender_addr: String,
    Ghost(v): Ghost<MessageView>,
) -> (r: IbcBasicResponse)
    requires
        v.collection == collection@,
        v.token_id == token_id@,
        v.sender_addr == sender_addr@,
    ensures
        r@ == transfer_unescrow(v),
{
    let r = IbcBasicResponse {
        instructions: vec![
            CollectionInstruction::TransferNft {
                contract_addr: collection,
                token_id,
                recipient: sender_addr,
            },
        ],
        events: Vec::new(),
    };
    proof {
        assert(r@ =~~= transfer_unescrow(v));
    }
    r
}

/// Burns the voucher of a successfully returned asset.
fn ibc_burn_successful_return(
    voucher_collection: &String,
    channel_id: &String,
    collection: String,
    token_id: String,
    Ghost(v): Ghost<MessageView>,
) -> (r: IbcBasicResponse)
    requires
        v.collection == collection@,
        v.token_id == token_id@,
    ensures
        r@ == burn_response(voucher_collection@, channel_id@, v),
{
    let vid = voucher_token_id(channel_id, &collection, &token_id);
    let r = IbcBasicResponse {
        instructions: vec![
            CollectionInstruction::Burn { contract_addr: voucher_collection.clone(), token_id: vid },
        ],
        events: vec![
            Event {
                event_type: String::from_str("ibc-voucher-burn"),
                attributes: vec![
                    Attribute { key: String::from_str("channel"), value: channel_id.clone() },
                    Attribute { key: String::from_str("original-collection"), value: collection },
                    Attribute { key: String::from_str("token_id"), value: token_id },
                ],
            },
        ],
    };
    proof {
        assert(r@ =~~= burn_response(voucher_collection@, channel_id@, v));
    }
    r
}

/// Releases the voucher escrow of a failed or timed-out return.
fn ibc_unescrow_failed_return(
    voucher_collection: &String,
    channel_id: &String,
    collection: String,
    token_id: String,
    sender_addr: String,
    Ghost(v): Ghost<MessageView>,
) -> (r: IbcBasicResponse)
    requires
        v.collection == collection@,
        v.token_id == token_id@,
        v.sender_addr == sender_addr@,
    ensures
        r@ == return_unescrow(voucher_collection@, channel_id@, v),
{
    let vid = voucher_token_id(channel_id, &collection, &token_id);
    let r = IbcBasicResponse {
        instructions: vec![
            CollectionInstruction::TransferNft {
                contract_addr: voucher_collection.clone(),
                token_id: vid,
                recipient: sender_addr,
            },
        ],
        events: Vec::new(),
    };
    proof {
        assert(r@ =~~= return_unescrow(voucher_collection@, channel_id@, v));
    }
    r
}

/// Reconciles one delivery outcome with the original payload, issuing the
/// single compensating instruction the decision table prescribes.
fn reconcile(
    registry: &ChannelRegistry,
    voucher_collection: Option<&String>,
    channel_id: &String,
    original_data: &String,
    success: bool,
) -> (r: Result<IbcBasicResponse, ContractError>)
    ensures
        match reconcile_model(
            registry@.contains_key(channel_id@),
            opt_str_view(voucher_collection),
            channel_id@,
            original_data@,
            success,
        ) {
            Ok(rv) => r matches Ok(resp) && resp@ == rv,
            Err(e) => r matches Err(err) && err@ == e,
        },
{
    match check_channel_exists(registry, channel_id) {
        Ok(()) => (),
        Err(e) => {
            return Err(e);
        },
    }
    let m = match decode_message(original_data) {
        Some(m) => m,
        None => {
            return Err(ContractError::InvalidPacketData);
        },
    };
    let ghost v = m@;
    match m {
        IbcMessage::TransferName { collection, token_id, sender_addr, receiver_addr: _ } => {
            if success {
                let r = IbcBasicResponse::new();
                proof {
                    assert(r@ =~~= empty_basic());
                }
                Ok(r)
            } else {
                Ok(ibc_unescrow_failed_transfer(collection, token_id, sender_addr, Ghost(v)))
            }
        },
        IbcMessage::ReturnName { collection, token_id, sender_addr, receiver_addr: _ } => {
            let addr = match voucher_collection {
                Some(addr) => addr,
                None => {
                    return Err(ContractError::VouchersCollectionNotSet);
                },
            };
            if success {
                Ok(ibc_burn_successful_return(addr, channel_id, collection, token_id, Ghost(v)))
            } else {
                Ok(
                    ibc_unescrow_failed_return(
                        addr,
                        channel_id,
                        collection,
                        token_id,
                        sender_addr,
                        Ghost(v),
                    ),
                )
            }
        },
    }
}

/// The acknowledgement entry point: decodes the acknowledgement envelope
/// (an undecodable one conservatively counts as failure) and reconciles the
/// outcome with the original payload.
pub fn ibc_packet_ack(
    registry: &ChannelRegistry,
    voucher_collection: Option<&String>,
    channel_id: &String,
    original_data: &String,
    ack_data: &String,
) -> (r: Result<IbcBasicResponse, ContractError>)
    ensures
        match reconcile_model(
            registry@.contains_key(channel_id@),
            opt_str_view(voucher_collection),
            channel_id@,
            original_data@,
            ack_success(ack_data@),
        ) {
            Ok(rv) => r matches Ok(resp) && resp@ == rv,
            Err(e) => r matches Err(err) && err@ == e,
        },
{
    let success = match decode_ack(ack_data) {
        Some(a) => {
            let ghost av = a@;
            let is_success = match &a {
                Ack::Success(_) => true,
                Ack::Error(_) => false,
            };
            proof {
                assert(spec_encode_ack(av) == ack_data@);
                let a0 = choose|x: AckView| spec_encode_ack(x) == ack_data@;
                crate::codec::lemma_encode_ack_injective(a0, av);
                assert(ack_success(ack_data@) == av.success);
            }
            is_success
        },
        None => {
            proof {
                assert(!ack_success(ack_data@));
            }
            false
        },
    };
    reconcile(registry, voucher_collection, channel_id, original_data, success)
}

/// The timeout entry point: a lost packet is reconciled exactly like a
/// failure acknowledgement.
pub fn ibc_packet_timeout(
    registry: &ChannelRegistry,
    voucher_collection: Option<&String>,
    channel_id: &String,
    original_data: &String,
) -> (r: Result<IbcBasicResponse, ContractError>)
    ensures
        match reconcile_model(
            registry@.contains_key(channel_id@),
            opt_str_view(voucher_collection),
            channel_id@,
            original_data@,
            false,
        ) {
            Ok(rv) => r matches Ok(resp) && resp@ == rv,
            Err(e) => r matches Err(err) && err@ == e,
        },
{
    reconcile(registry, voucher_collection, channel_id, original_data, false)
}

/// A transfer received on a known channel with the voucher collection
/// configured mints exactly one voucher, with the id derived from the
/// channel and the origin asset, owned by the message's receiver; on an
/// unknown channel the receive is rejected outright and nothing is minted.
pub proof fn lemma_transfer_receive_mints(
    known: bool,
    voucher_collection: Seq<char>,
    channel_id: Seq<char>,
    v: MessageView,
)
    requires
        v.transfer,
        encodable(v),
    ensures
        known ==> (receive_model(true, Some(voucher_collection), channel_id, spec_encode(v))
            matches Ok(rv) && rv.instructions == seq![
            InstructionView::Mint {
                contract_addr: voucher_collection,
                token_id: voucher_id(channel_id, v.collection, v.token_id),
                owner: v.receiver_addr,
            },
        ]),
        !known ==> receive_model(false, Some(voucher_collection), channel_id, spec_encode(v))
            matches Err(e),
{
    crate::codec::lemma_decode_encode(v);
}

/// For one sent transfer, exactly one of the two outcomes' compensations
/// happens, and never both: a success acknowledgement leaves the escrow
/// alone (no instruction at all), while a failure or timeout issues exactly
/// one release of the original token back to the sender.
pub proof fn lemma_transfer_outcome_exclusive(
    voucher_collection: Option<Seq<char>>,
    channel_id: Seq<char>,
    v: MessageView,
    success: bool,
)
    requires
        v.transfer,
        encodable(v),
    ensures
        reconcile_model(true, voucher_collection, channel_id, spec_encode(v), success) matches Ok(
            rv,
        ) && rv.instructions == (if success {
            Seq::<InstructionView>::empty()
        } else {
            seq![
                InstructionView::TransferNft {
                    contract_addr: v.collection,
                    token_id: v.token_id,
                    recipient: v.sender_addr,
                },
            ]
        }),
{
    crate::codec::lemma_decode_encode(v);
}

/// For one sent return, exactly one of the two outcomes' compensations
/// happens, and never both: a success acknowledgement issues exactly one
/// burn of the voucher, while a failure or timeout issues exactly one
/// release of the voucher back to the sender — never a burn and a release
/// for the same outcome.
pub proof fn lemma_return_outcome_exclusive(
    voucher_collection: Seq<char>,
    channel_id: Seq<char>,
    v: MessageView,
    success: bool,
)
    requires
        !v.transfer,
        encodable(v),
    ensures
        reconcile_model(true, Some(voucher_collection), channel_id, spec_encode(v), success)
            matches Ok(rv) && rv.instructions == (if success {
            seq![
                InstructionView::Burn {
                    contract_addr: voucher_collection,
                    token_id: voucher_id(channel_id, v.collection, v.token_id),
                },
            ]
        } else {
            seq![
                InstructionView::TransferNft {
                    contract_addr: voucher_collection,
                    token_id: voucher_id(channel_id, v.collection, v.token_id),
                    recipient: v.sender_addr,
                },
            ]
        }),
{
    crate::codec::lemma_decode_encode(v);
}

} // verus!
