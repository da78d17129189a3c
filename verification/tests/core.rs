use name_transfer::channel::{ibc_channel_close, ibc_channel_connect, ibc_channel_open, IbcChannel, IbcOrder};
use name_transfer::codec::{decode_ack, decode_message, encode_ack, encode_message};
use name_transfer::error::ContractError;
use name_transfer::msg::{Ack, CollectionInstruction, IbcMessage};
use name_transfer::packet::{ibc_packet_ack, ibc_packet_receive, ibc_packet_timeout, voucher_token_id};
use name_transfer::state::{ChannelRegistry, IbcEndpoint};

const VERSION: &str = "ibc-name-transfer-1.0";

fn channel(id: &str, order: IbcOrder, version: &str) -> IbcChannel {
    IbcChannel {
        endpoint: IbcEndpoint { port_id: "wasm.manager".to_string(), channel_id: id.to_string() },
        counterparty_endpoint: IbcEndpoint {
            port_id: "wasm.remote".to_string(),
            channel_id: "ch-9".to_string(),
        },
        order,
        version: version.to_string(),
        connection_id: "connection-0".to_string(),
    }
}

fn connected_registry(id: &str) -> ChannelRegistry {
    let mut registry = ChannelRegistry::new();
    let ch = channel(id, IbcOrder::Unordered, VERSION);
    let cv = VERSION.to_string();
    ibc_channel_connect(&mut registry, &ch, Some(&cv)).expect("connect should succeed");
    registry
}

fn transfer_msg() -> IbcMessage {
    IbcMessage::TransferName {
        collection: "C".to_string(),
        token_id: "alice".to_string(),
        sender_addr: "S".to_string(),
        receiver_addr: "R".to_string(),
    }
}

fn return_msg() -> IbcMessage {
    IbcMessage::ReturnName {
        collection: "C".to_string(),
        token_id: "alice".to_string(),
        sender_addr: "R".to_string(),
        receiver_addr: "S".to_string(),
    }
}

#[test]
fn voucher_id_is_structured_concatenation() {
    let id = voucher_token_id(&"ch-1".to_string(), &"C".to_string(), &"alice".to_string());
    assert_eq!(id, "transfer_name/ibc/ch-1/C/alice");
}

#[test]
fn voucher_id_is_deterministic() {
    let a = voucher_token_id(&"ch-1".to_string(), &"coll".to_string(), &"tok".to_string());
    let b = voucher_token_id(&"ch-1".to_string(), &"coll".to_string(), &"tok".to_string());
    assert_eq!(a, b);
}

#[test]
fn voucher_id_distinguishes_distinct_triples() {
    let base = voucher_token_id(&"ch-1".to_string(), &"coll".to_string(), &"tok".to_string());
    let other_channel = voucher_token_id(&"ch-2".to_string(), &"coll".to_string(), &"tok".to_string());
    let other_collection = voucher_token_id(&"ch-1".to_string(), &"col".to_string(), &"tok".to_string());
    let other_token = voucher_token_id(&"ch-1".to_string(), &"coll".to_string(), &"tok2".to_string());
    assert_ne!(base, other_channel);
    assert_ne!(base, other_collection);
    assert_ne!(base, other_token);
}

#[test]
fn message_round_trips_through_codec() {
    for msg in [transfer_msg(), return_msg()] {
        let payload = encode_message(&msg).expect("fields fit the frame");
        let back = decode_message(&payload).expect("own encoding decodes");
        match (&msg, &back) {
            (
                IbcMessage::TransferName { collection: c1, token_id: t1, sender_addr: s1, receiver_addr: r1 },
                IbcMessage::TransferName { collection: c2, token_id: t2, sender_addr: s2, receiver_addr: r2 },
            ) => {
                assert_eq!(c1, c2);
                assert_eq!(t1, t2);
                assert_eq!(s1, s2);
                assert_eq!(r1, r2);
            }
            (
                IbcMessage::ReturnName { collection: c1, token_id: t1, sender_addr: s1, receiver_addr: r1 },
                IbcMessage::ReturnName { collection: c2, token_id: t2, sender_addr: s2, receiver_addr: r2 },
            ) => {
                assert_eq!(c1, c2);
                assert_eq!(t1, t2);
                assert_eq!(s1, s2);
                assert_eq!(r1, r2);
            }
            _ => panic!("variant changed in transit"),
        }
    }
}

#[test]
fn message_round_trips_with_empty_and_awkward_fields() {
    let msg = IbcMessage::TransferName {
        collection: "".to_string(),
        token_id: "00000012:/T R \u{1F600}".to_string(),
        sender_addr: "/".to_string(),
        receiver_addr: "name/with/slashes".to_string(),
    };
    let payload = encode_message(&msg).expect("fields fit the frame");
    let back = decode_message(&payload).expect("own encoding decodes");
    match back {
        IbcMessage::TransferName { collection, token_id, sender_addr, receiver_addr } => {
            assert_eq!(collection, "");
            assert_eq!(token_id, "00000012:/T R \u{1F600}");
            assert_eq!(sender_addr, "/");
            assert_eq!(receiver_addr, "name/with/slashes");
        }
        _ => panic!("variant changed in transit"),
    }
}

#[test]
fn garbage_payloads_do_not_decode() {
    assert!(decode_message(&"".to_string()).is_none());
    assert!(decode_message(&"hello".to_string()).is_none());
    assert!(decode_message(&"T0000000".to_string()).is_none());
    assert!(decode_message(&"Tx0000000a".to_string()).is_none());
    assert!(decode_message(&"T00000005ab".to_string()).is_none());
    let valid = encode_message(&transfer_msg()).unwrap();
    let mut trailing = valid.clone();
    trailing.push('x');
    assert!(decode_message(&trailing).is_none());
    assert!(decode_message(&valid).is_some());
}

#[test]
fn ack_round_trips_through_codec() {
    let ok = encode_ack(&Ack::Success("1".to_string()));
    assert_eq!(ok, "S1");
    match decode_ack(&ok) {
        Some(Ack::Success(data)) => assert_eq!(data, "1"),
        _ => panic!("success envelope lost"),
    }
    let err = encode_ack(&Ack::Error("boom".to_string()));
    assert_eq!(err, "Eboom");
    match decode_ack(&err) {
        Some(Ack::Error(data)) => assert_eq!(data, "boom"),
        _ => panic!("error envelope lost"),
    }
    assert!(decode_ack(&"".to_string()).is_none());
    assert!(decode_ack(&"xyz".to_string()).is_none());
}

#[test]
fn open_validates_without_recording() {
    let registry = ChannelRegistry::new();
    let ch = channel("ch-1", IbcOrder::Unordered, VERSION);
    let cv = VERSION.to_string();
    let agreed = ibc_channel_open(&registry, &ch, Some(&cv)).expect("valid handshake");
    assert_eq!(agreed, VERSION);
    assert!(!registry.has(&"ch-1".to_string()));
}

#[test]
fn open_rejects_wrong_version() {
    let registry = ChannelRegistry::new();
    let ch = channel("ch-1", IbcOrder::Unordered, "ics20-1");
    let r = ibc_channel_open(&registry, &ch, None);
    match r {
        Err(ContractError::InvalidIbcVersion { version }) => assert_eq!(version, "ics20-1"),
        _ => panic!("wrong version must be rejected"),
    }
}

#[test]
fn open_rejects_wrong_counterparty_version() {
    let registry = ChannelRegistry::new();
    let ch = channel("ch-1", IbcOrder::Unordered, VERSION);
    let cv = "ics721-1".to_string();
    let r = ibc_channel_open(&registry, &ch, Some(&cv));
    match r {
        Err(ContractError::InvalidIbcVersion { version }) => assert_eq!(version, "ics721-1"),
        _ => panic!("wrong counterparty version must be rejected"),
    }
}

#[test]
fn open_rejects_known_channel() {
    let registry = connected_registry("ch-1");
    let ch = channel("ch-1", IbcOrder::Unordered, VERSION);
    let r = ibc_channel_open(&registry, &ch, None);
    match r {
        Err(ContractError::ChannelAlreadyExists { channel_id }) => assert_eq!(channel_id, "ch-1"),
        _ => panic!("handshakes are not re-entrant"),
    }
}

#[test]
fn open_rejects_ordered_channel() {
    let registry = ChannelRegistry::new();
    let ch = channel("ch-1", IbcOrder::Ordered, VERSION);
    let r = ibc_channel_open(&registry, &ch, None);
    assert!(matches!(r, Err(ContractError::OrderedChannel)));
}

#[test]
fn connect_records_channel_info() {
    let mut registry = ChannelRegistry::new();
    let ch = channel("ch-1", IbcOrder::Unordered, VERSION);
    let resp = ibc_channel_connect(&mut registry, &ch, None).expect("valid handshake");
    assert!(resp.instructions.is_empty());
    assert!(resp.events.is_empty());
    let info = registry.get(&"ch-1".to_string()).expect("recorded");
    assert_eq!(info.channel_id, "ch-1");
    assert_eq!(info.counterparty_endpoint.port_id, "wasm.remote");
    assert_eq!(info.counterparty_endpoint.channel_id, "ch-9");
    assert_eq!(info.connection_id, "connection-0");
}

#[test]
fn second_connect_is_rejected_and_keeps_existing_entry() {
    let mut registry = ChannelRegistry::new();
    let first = channel("ch-1", IbcOrder::Unordered, VERSION);
    ibc_channel_connect(&mut registry, &first, None).expect("first connect");
    let mut second = channel("ch-1", IbcOrder::Unordered, VERSION);
    second.connection_id = "connection-7".to_string();
    let r = ibc_channel_connect(&mut registry, &second, None);
    match r {
        Err(ContractError::ChannelAlreadyExists { channel_id }) => assert_eq!(channel_id, "ch-1"),
        _ => panic!("duplicate connect must be rejected"),
    }
    let info = registry.get(&"ch-1".to_string()).expect("still recorded");
    assert_eq!(info.connection_id, "connection-0");
}

#[test]
fn close_always_fails_and_removes_nothing() {
    let empty = ChannelRegistry::new();
    let ch = channel("ch-1", IbcOrder::Unordered, VERSION);
    assert!(matches!(
        ibc_channel_close(&empty, &ch),
        Err(ContractError::ChannelClosingNotAllowed)
    ));
    let registry = connected_registry("ch-1");
    assert!(matches!(
        ibc_channel_close(&registry, &ch),
        Err(ContractError::ChannelClosingNotAllowed)
    ));
    assert!(registry.has(&"ch-1".to_string()));
}

#[test]
fn transfer_receive_mints_voucher_for_receiver() {
    let registry = connected_registry("ch-1");
    let vouchers = "voucher-contract".to_string();
    let payload = encode_message(&transfer_msg()).unwrap();
    let resp = ibc_packet_receive(&registry, Some(&vouchers), &"ch-1".to_string(), &payload)
        .expect("receive succeeds");
    assert_eq!(resp.instructions.len(), 1);
    match &resp.instructions[0] {
        CollectionInstruction::Mint { contract_addr, token_id, owner } => {
            assert_eq!(contract_addr, "voucher-contract");
            assert_eq!(token_id, "transfer_name/ibc/ch-1/C/alice");
            assert_eq!(owner, "R");
        }
        _ => panic!("a transfer receive must mint"),
    }
    assert_eq!(resp.events.len(), 1);
    assert_eq!(resp.events[0].event_type, "ibc-voucher-mint");
    assert!(matches!(resp.ack, Ack::Success(_)));
}

#[test]
fn return_receive_releases_named_voucher() {
    let registry = connected_registry("ch-1");
    let vouchers = "voucher-contract".to_string();
    let msg = IbcMessage::ReturnName {
        collection: "voucher-contract".to_string(),
        token_id: "transfer_name/ibc/ch-1/C/alice".to_string(),
        sender_addr: "R".to_string(),
        receiver_addr: "S".to_string(),
    };
    let payload = encode_message(&msg).unwrap();
    let resp = ibc_packet_receive(&registry, Some(&vouchers), &"ch-1".to_string(), &payload)
        .expect("receive succeeds");
    assert_eq!(resp.instructions.len(), 1);
    match &resp.instructions[0] {
        CollectionInstruction::TransferNft { contract_addr, token_id, recipient } => {
            assert_eq!(contract_addr, "voucher-contract");
            assert_eq!(token_id, "transfer_name/ibc/ch-1/C/alice");
            assert_eq!(recipient, "S");
        }
        _ => panic!("a return receive must release the voucher"),
    }
    assert!(matches!(resp.ack, Ack::Success(_)));
}

#[test]
fn receive_on_unknown_channel_is_hard_rejected() {
    let registry = connected_registry("ch-1");
    let vouchers = "voucher-contract".to_string();
    let payload = encode_message(&transfer_msg()).unwrap();
    let r = ibc_packet_receive(&registry, Some(&vouchers), &"ch-unknown".to_string(), &payload);
    match r {
        Err(ContractError::UnkownChannel { channel_id }) => assert_eq!(channel_id, "ch-unknown"),
        _ => panic!("unknown channel must hard-reject"),
    }
    assert!(registry.has(&"ch-1".to_string()));
    assert!(!registry.has(&"ch-unknown".to_string()));
}

#[test]
fn receive_of_undecodable_payload_is_hard_rejected() {
    let registry = connected_registry("ch-1");
    let vouchers = "voucher-contract".to_string();
    let r = ibc_packet_receive(&registry, Some(&vouchers), &"ch-1".to_string(), &"{}".to_string());
    assert!(matches!(r, Err(ContractError::InvalidPacketData)));
}

#[test]
fn receive_without_voucher_collection_soft_fails_with_error_ack() {
    let registry = connected_registry("ch-1");
    let payload = encode_message(&transfer_msg()).unwrap();
    let resp = ibc_packet_receive(&registry, None, &"ch-1".to_string(), &payload)
        .expect("business failures must not abort the receive");
    assert!(resp.instructions.is_empty());
    assert_eq!(resp.attributes.len(), 2);
    assert_eq!(resp.attributes[0].key, "method");
    assert_eq!(resp.attributes[0].value, "ibc_packet_receive");
    assert_eq!(resp.attributes[1].key, "error");
    match &resp.ack {
        Ack::Error(text) => {
            assert_eq!(text, "vouchers collection address is not set");
            assert_eq!(&resp.attributes[1].value, text);
        }
        _ => panic!("a business failure must produce an error acknowledgement"),
    }
}

#[test]
fn transfer_acked_with_error_releases_escrow_to_sender() {
    let registry = connected_registry("ch-1");
    let vouchers = "voucher-contract".to_string();
    let original = encode_message(&transfer_msg()).unwrap();
    let ack = encode_ack(&Ack::Error("remote failure".to_string()));
    let resp = ibc_packet_ack(&registry, Some(&vouchers), &"ch-1".to_string(), &original, &ack)
        .expect("reconciliation succeeds");
    assert_eq!(resp.instructions.len(), 1);
    match &resp.instructions[0] {
        CollectionInstruction::TransferNft { contract_addr, token_id, recipient } => {
            assert_eq!(contract_addr, "C");
            assert_eq!(token_id, "alice");
            assert_eq!(recipient, "S");
        }
        _ => panic!("a failed transfer must release its escrow"),
    }
}

#[test]
fn transfer_acked_with_success_leaves_escrow_alone() {
    let registry = connected_registry("ch-1");
    let vouchers = "voucher-contract".to_string();
    let original = encode_message(&transfer_msg()).unwrap();
    let ack = encode_ack(&Ack::Success("1".to_string()));
    let resp = ibc_packet_ack(&registry, Some(&vouchers), &"ch-1".to_string(), &original, &ack)
        .expect("reconciliation succeeds");
    assert!(resp.instructions.is_empty());
    assert!(resp.events.is_empty());
}

#[test]
fn return_acked_with_success_burns_voucher() {
    let registry = connected_registry("ch-1");
    let vouchers = "voucher-contract".to_string();
    let original = encode_message(&return_msg()).unwrap();
    let ack = encode_ack(&Ack::Success("1".to_string()));
    let resp = ibc_packet_ack(&registry, Some(&vouchers), &"ch-1".to_string(), &original, &ack)
        .expect("reconciliation succeeds");
    assert_eq!(resp.instructions.len(), 1);
    match &resp.instructions[0] {
        CollectionInstruction::Burn { contract_addr, token_id } => {
            assert_eq!(contract_addr, "voucher-contract");
            assert_eq!(token_id, "transfer_name/ibc/ch-1/C/alice");
        }
        _ => panic!("a successful return must burn the voucher"),
    }
    assert_eq!(resp.events.len(), 1);
    assert_eq!(resp.events[0].event_type, "ibc-voucher-burn");
}

#[test]
fn return_acked_with_error_releases_voucher_to_sender() {
    let registry = connected_registry("ch-1");
    let vouchers = "voucher-contract".to_string();
    let original = encode_message(&return_msg()).unwrap();
    let ack = encode_ack(&Ack::Error("remote failure".to_string()));
    let resp = ibc_packet_ack(&registry, Some(&vouchers), &"ch-1".to_string(), &original, &ack)
        .expect("reconciliation succeeds");
    assert_eq!(resp.instructions.len(), 1);
    match &resp.instructions[0] {
        CollectionInstruction::TransferNft { contract_addr, token_id, recipient } => {
            assert_eq!(contract_addr, "voucher-contract");
            assert_eq!(token_id, "transfer_name/ibc/ch-1/C/alice");
            assert_eq!(recipient, "R");
        }
        _ => panic!("a failed return must release the voucher escrow"),
    }
}

#[test]
fn undecodable_ack_counts_as_failure() {
    let registry = connected_registry("ch-1");
    let vouchers = "voucher-contract".to_string();
    let original = encode_message(&transfer_msg()).unwrap();
    let resp = ibc_packet_ack(
        &registry,
        Some(&vouchers),
        &"ch-1".to_string(),
        &original,
        &"not an envelope".to_string(),
    )
    .expect("reconciliation succeeds");
    assert_eq!(resp.instructions.len(), 1);
    assert!(matches!(
        &resp.instructions[0],
        CollectionInstruction::TransferNft { .. }
    ));
}

#[test]
fn timeout_is_reconciled_like_a_failure_ack() {
    let registry = connected_registry("ch-1");
    let vouchers = "voucher-contract".to_string();
    let original = encode_message(&transfer_msg()).unwrap();
    let by_timeout = ibc_packet_timeout(&registry, Some(&vouchers), &"ch-1".to_string(), &original)
        .expect("reconciliation succeeds");
    let ack = encode_ack(&Ack::Error("remote failure".to_string()));
    let by_ack = ibc_packet_ack(&registry, Some(&vouchers), &"ch-1".to_string(), &original, &ack)
        .expect("reconciliation succeeds");
    assert_eq!(by_timeout.instructions.len(), by_ack.instructions.len());
    match (&by_timeout.instructions[0], &by_ack.instructions[0]) {
        (
            CollectionInstruction::TransferNft { contract_addr: a1, token_id: t1, recipient: r1 },
            CollectionInstruction::TransferNft { contract_addr: a2, token_id: t2, recipient: r2 },
        ) => {
            assert_eq!(a1, a2);
            assert_eq!(t1, t2);
            assert_eq!(r1, r2);
        }
        _ => panic!("timeout and failure ack must compensate identically"),
    }
}

#[test]
fn ack_on_unknown_channel_is_hard_rejected() {
    let registry = ChannelRegistry::new();
    let vouchers = "voucher-contract".to_string();
    let original = encode_message(&transfer_msg()).unwrap();
    let ack = encode_ack(&Ack::Success("1".to_string()));
    let r = ibc_packet_ack(&registry, Some(&vouchers), &"ch-1".to_string(), &original, &ack);
    assert!(matches!(r, Err(ContractError::UnkownChannel { .. })));
    let t = ibc_packet_timeout(&registry, Some(&vouchers), &"ch-1".to_string(), &original);
    assert!(matches!(t, Err(ContractError::UnkownChannel { .. })));
}

#[test]
fn return_outcome_without_configuration_is_hard_rejected() {
    let registry = connected_registry("ch-1");
    let original = encode_message(&return_msg()).unwrap();
    let ack = encode_ack(&Ack::Success("1".to_string()));
    let r = ibc_packet_ack(&registry, None, &"ch-1".to_string(), &original, &ack);
    assert!(matches!(r, Err(ContractError::VouchersCollectionNotSet)));
}

#[test]
fn error_messages_describe_each_condition() {
    assert_eq!(
        ContractError::InvalidIbcVersion { version: "v2".to_string() }.to_message(),
        "invalid ibc version: v2"
    );
    assert_eq!(
        ContractError::OrderedChannel.to_message(),
        "only unordered channels are supported"
    );
    assert_eq!(
        ContractError::ChannelAlreadyExists { channel_id: "ch-1".to_string() }.to_message(),
        "channel already exists: ch-1"
    );
    assert_eq!(
        ContractError::ChannelClosingNotAllowed.to_message(),
        "closing a channel is not allowed"
    );
    assert_eq!(
        ContractError::UnkownChannel { channel_id: "ch-9".to_string() }.to_message(),
        "unknown channel: ch-9"
    );
    assert_eq!(ContractError::InvalidPacketData.to_message(), "invalid packet data");
    assert_eq!(
        ContractError::VouchersCollectionNotSet.to_message(),
        "vouchers collection address is not set"
    );
}
