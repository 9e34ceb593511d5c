use dropair::shelf::{AppState, PathEntry, PathProbe, ShelfItem, ShelfItemKind};
use dropair::transfer::{
    discovery_message, file_header, handshake_peer_name, next_chunk_len, next_send_step,
    next_transfer_item,
    outgoing_item, parse_discovery_message, payload_after_read, received_file_name,
    received_message, sanitize_component, sanitize_file_name, transfer_handshake,
    transfer_outcome, OutgoingItem, PeersState, DISCOVERY_PORT, TRANSFER_PORT,
};

#[test]
fn sanitizes_unsafe_file_names() {
    assert_eq!(sanitize_file_name("../secret:name?.txt"), "secret_name_.txt");
    assert_eq!(sanitize_file_name("plain.txt"), "plain.txt");
    assert_eq!(sanitize_file_name(""), "received");
}

#[test]
fn sanitizing_replaces_controls_and_blank_names() {
    assert_eq!(sanitize_file_name("dir/a<b>|c*\"d\u{7}.txt"), "a_b__c__d_.txt");
    assert_eq!(sanitize_file_name(".."), "received");
    assert_eq!(sanitize_component(Some(" \u{a0}\u{2003} ".to_string())), "received");
    assert_eq!(sanitize_component(Some(" \t ".to_string())), " _ ");
    assert_eq!(sanitize_component(Some("\n".to_string())), "_");
    assert_eq!(sanitize_component(None), "received");
}

#[test]
fn ports_are_the_documented_ones() {
    assert_eq!(DISCOVERY_PORT, 47653);
    assert_eq!(TRANSFER_PORT, 47654);
}

#[test]
fn discovery_message_roundtrip() {
    let m = discovery_message(&"42-ff".to_string(), &"Desk PC".to_string());
    assert_eq!(m, "DROP_AIR_DISCOVERY_V1|42-ff|Desk PC|47654");
    let a = parse_discovery_message(&m).unwrap();
    assert_eq!(a.id, "42-ff");
    assert_eq!(a.name, "Desk PC");
    assert_eq!(a.port, 47654);
}

#[test]
fn discovery_parsing_rejects_malformed_datagrams() {
    assert!(parse_discovery_message("HELLO|a|b|1").is_none());
    assert!(parse_discovery_message("DROP_AIR_DISCOVERY_V1|a").is_none());
    assert!(parse_discovery_message("DROP_AIR_DISCOVERY_V1|a|b").is_none());
    assert!(parse_discovery_message("DROP_AIR_DISCOVERY_V1|a|b|70000").is_none());
    assert!(parse_discovery_message("DROP_AIR_DISCOVERY_V1|a|b|-1").is_none());
    assert!(parse_discovery_message("DROP_AIR_DISCOVERY_V1|a|b|+").is_none());
    assert!(parse_discovery_message("DROP_AIR_DISCOVERY_V1|a|b|4x").is_none());
    let a = parse_discovery_message("DROP_AIR_DISCOVERY_V1|a|b| +0080 |extra|more").unwrap();
    assert_eq!(a.port, 80);
    let a = parse_discovery_message("DROP_AIR_DISCOVERY_V1|||65535").unwrap();
    assert_eq!(a.id, "");
    assert_eq!(a.name, "");
    assert_eq!(a.port, 65535);
}

#[test]
fn peers_are_added_updated_and_ignored() {
    let mut peers = PeersState::new();
    let own = "me".to_string();
    assert!(!peers.handle_discovery_message("DROP_AIR_DISCOVERY_V1|me|Me|47654", "10.0.0.1".to_string(), &own, 5));
    assert!(!peers.handle_discovery_message("garbage", "10.0.0.1".to_string(), &own, 5));
    assert!(peers.list_peers().is_empty());

    assert!(peers.handle_discovery_message("DROP_AIR_DISCOVERY_V1|p1|Laptop|47654", "10.0.0.2".to_string(), &own, 10));
    assert!(!peers.handle_discovery_message("DROP_AIR_DISCOVERY_V1|p1|Laptop|47654", "10.0.0.2".to_string(), &own, 20));
    let list = peers.list_peers();
    assert_eq!(list.len(), 1);
    assert_eq!(list[0].last_seen, 20);
    assert!(peers.handle_discovery_message("DROP_AIR_DISCOVERY_V1|p1|Laptop 2|47654", "10.0.0.2".to_string(), &own, 30));
    assert!(peers.handle_discovery_message("DROP_AIR_DISCOVERY_V1|p1|Laptop 2|47654", "10.0.0.3".to_string(), &own, 40));
    assert!(peers.handle_discovery_message("DROP_AIR_DISCOVERY_V1|p1|Laptop 2|1000", "10.0.0.3".to_string(), &own, 50));
    assert!(peers.handle_discovery_message("DROP_AIR_DISCOVERY_V1|p2|Phone|47654", "10.0.0.4".to_string(), &own, 60));
    let list = peers.list_peers();
    assert_eq!(list.len(), 2);
    assert_eq!(list[0].name, "Laptop 2");
    assert_eq!(list[0].address, "10.0.0.3");
    assert_eq!(list[0].port, 1000);
    assert_eq!(list[1].id, "p2");
}

#[test]
fn stale_peers_are_pruned() {
    let mut peers = PeersState::new();
    let own = "me".to_string();
    peers.handle_discovery_message("DROP_AIR_DISCOVERY_V1|old|A|1", "a".to_string(), &own, 1_000);
    peers.handle_discovery_message("DROP_AIR_DISCOVERY_V1|new|B|2", "b".to_string(), &own, 15_000);
    assert!(!peers.prune_stale_peers(5_000));
    assert!(!peers.prune_stale_peers(21_000));
    assert!(peers.prune_stale_peers(21_001));
    let list = peers.list_peers();
    assert_eq!(list.len(), 1);
    assert_eq!(list[0].id, "new");
}

#[test]
fn peer_address_joins_address_and_port() {
    let mut peers = PeersState::new();
    peers.handle_discovery_message("DROP_AIR_DISCOVERY_V1|p|P|47654", "192.168.1.9".to_string(), &"me".to_string(), 0);
    assert_eq!(peers.peer_address(&"p".to_string()).unwrap(), "192.168.1.9:47654");
    assert_eq!(peers.peer_address(&"q".to_string()).unwrap_err(), "device is no longer on the network");
}

#[test]
fn handshake_roundtrip() {
    let line = transfer_handshake(&"42-ff".to_string(), &"Desk".to_string());
    assert_eq!(line, "DROP_AIR_TRANSFER_V1|42-ff|Desk\n");
    assert_eq!(handshake_peer_name(&line), "Desk");
    assert_eq!(handshake_peer_name("DROP_AIR_TRANSFER_V1|id|Name|extra\r\n"), "Name");
    assert_eq!(handshake_peer_name("DROP_AIR_TRANSFER_V1|id"), "Unknown device");
    assert_eq!(handshake_peer_name("HELLO|id|Name"), "Unknown device");
    assert_eq!(handshake_peer_name("  DROP_AIR_TRANSFER_V1|id|Name  "), "Name");
}

#[test]
fn received_files_are_stamped_with_the_time() {
    assert_eq!(received_file_name(1700000000123, &"a.txt".to_string()), "1700000000123_a.txt");
    assert_eq!(received_message(&"a.txt".to_string(), &"Desk".to_string()), "Received a.txt from Desk");
}

fn item(kind: ShelfItemKind, content: Option<&str>) -> ShelfItem {
    ShelfItem {
        id: 1,
        path: "/p/note".to_string(),
        name: "note".to_string(),
        kind,
        size: None,
        content: content.map(|c| c.to_string()),
    }
}

#[test]
fn texts_and_files_go_out_and_folders_are_skipped() {
    match outgoing_item(&item(ShelfItemKind::Text, Some("héllo"))) {
        Some(OutgoingItem::Text { header, content }) => {
            assert_eq!(header.kind, "text");
            assert_eq!(header.name, "note.txt");
            assert_eq!(header.size, 6);
            assert_eq!(content, "héllo");
        }
        _ => panic!("expected a text item"),
    }
    match outgoing_item(&item(ShelfItemKind::Text, None)) {
        Some(OutgoingItem::Text { header, content }) => {
            assert_eq!(header.size, 0);
            assert_eq!(content, "");
        }
        _ => panic!("expected a text item"),
    }
    match outgoing_item(&item(ShelfItemKind::File, None)) {
        Some(OutgoingItem::File { name, path }) => {
            assert_eq!(name, "note");
            assert_eq!(path, "/p/note");
        }
        _ => panic!("expected a file item"),
    }
    assert!(outgoing_item(&item(ShelfItemKind::Directory, None)).is_none());
    assert!(outgoing_item(&item(ShelfItemKind::Other, None)).is_none());
    let h = file_header("a.bin".to_string(), 10);
    assert_eq!((h.kind.as_str(), h.name.as_str(), h.size), ("file", "a.bin", 10));
}

#[test]
fn missing_items_stop_the_transfer() {
    let mut state = AppState::new();
    state.add_shelf_paths(vec![PathProbe {
        path: "/p/a.bin".to_string(),
        entry: Some(PathEntry { is_file: true, is_dir: false, len: 3 }),
    }]);
    assert!(matches!(next_transfer_item(&state, 1), Ok(Some(OutgoingItem::File { .. }))));
    assert_eq!(next_transfer_item(&state, 7).unwrap_err(), "shelf item 7 no longer exists");
}

#[test]
fn payload_is_read_in_buffer_sized_chunks() {
    assert_eq!(next_chunk_len(100, 64), 64);
    assert_eq!(next_chunk_len(10, 64), 10);
    assert_eq!(payload_after_read(100, 64).unwrap(), 36);
    assert_eq!(payload_after_read(100, 0).unwrap_err(), "connection closed before payload finished");
}

#[test]
fn transfer_outcome_messages() {
    let (state, message) = transfer_outcome(&Ok(3));
    assert_eq!((state, message.as_str()), ("sent", "Sent 3 item(s)"));
    let (state, message) = transfer_outcome(&Err("refused".to_string()));
    assert_eq!((state, message.as_str()), ("error", "Transfer failed: refused"));
}

#[test]
fn dot_names_are_never_used_for_received_files() {
    assert_eq!(sanitize_file_name("."), "received");
    assert_eq!(sanitize_file_name("a/.."), "received");
    assert_eq!(sanitize_file_name("plain:name"), "plain_name");
}

#[test]
fn send_steps_count_only_items_that_go_out() {
    let mut state = AppState::new();
    state.add_shelf_paths(vec![
        PathProbe { path: "/p/a.bin".to_string(), entry: Some(PathEntry { is_file: true, is_dir: false, len: 3 }) },
        PathProbe { path: "/p/dir".to_string(), entry: Some(PathEntry { is_file: false, is_dir: true, len: 0 }) },
    ]);
    let (o, n) = next_send_step(&state, 1, 0).unwrap();
    assert!(matches!(o, Some(OutgoingItem::File { .. })));
    assert_eq!(n, 1);
    let (o, n) = next_send_step(&state, 2, n).unwrap();
    assert!(o.is_none());
    assert_eq!(n, 1);
    assert_eq!(next_send_step(&state, 3, n).unwrap_err(), "shelf item 3 no longer exists");
}
