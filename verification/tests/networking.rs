use pill_engine::networking::{
    decode_inbox, decode_wire, encode_wire, server_inbox, ConnectionEvent, NetworkAction, NetworkPacket, WireError, RELIABLE_CHANNEL_ID,
    UNRELIABLE_CHANNEL_ID,
};

#[test]
fn channel_ids() {
    assert_eq!(RELIABLE_CHANNEL_ID, 1);
    assert_eq!(UNRELIABLE_CHANNEL_ID, 0);
}

#[test]
fn action_codes() {
    assert_eq!(NetworkAction::Update.to_u8(), 0);
    assert_eq!(NetworkAction::Join.to_u8(), 1);
    assert_eq!(NetworkAction::Exit.to_u8(), 2);
    assert_eq!(NetworkAction::try_from(2), Ok(NetworkAction::Exit));
    assert_eq!(NetworkAction::try_from(9), Err(WireError::InvalidNetworkAction(9)));
}

#[test]
fn wire_roundtrip() {
    let p = NetworkPacket { tag: NetworkAction::Join, data: vec![7, 8, 9] };
    let bytes = encode_wire(&p);
    assert_eq!(bytes, vec![1, 7, 8, 9]);
    let q = decode_wire(&bytes).unwrap();
    assert_eq!(q.tag, NetworkAction::Join);
    assert_eq!(q.data, vec![7, 8, 9]);
}

#[test]
fn empty_payload_roundtrip() {
    let p = NetworkPacket { tag: NetworkAction::Exit, data: vec![] };
    let bytes = encode_wire(&p);
    assert_eq!(bytes, vec![2]);
    let q = decode_wire(&bytes).unwrap();
    assert_eq!(q.tag, NetworkAction::Exit);
    assert!(q.data.is_empty());
}

#[test]
fn empty_message_is_refused() {
    assert_eq!(decode_wire(&[]).unwrap_err(), WireError::EmptyMessage);
}

#[test]
fn unknown_tag_is_refused() {
    assert_eq!(decode_wire(&[200, 1]).unwrap_err(), WireError::InvalidNetworkAction(200));
}

#[test]
fn inbox_skips_empty_messages_and_stops_at_first_bad_one() {
    let ok = decode_inbox(&vec![vec![0, 1], vec![1]]).unwrap();
    assert_eq!(ok.len(), 2);
    assert_eq!(ok[0].tag, NetworkAction::Update);
    assert_eq!(ok[0].data, vec![1]);
    assert_eq!(ok[1].tag, NetworkAction::Join);
    let skipped = decode_inbox(&vec![vec![], vec![2, 3], vec![]]).unwrap();
    assert_eq!(skipped.len(), 1);
    assert_eq!(skipped[0].tag, NetworkAction::Exit);
    let bad = decode_inbox(&vec![vec![0], vec![], vec![5], vec![7]]);
    assert_eq!(bad.unwrap_err(), WireError::InvalidNetworkAction(5));
}

fn view(r: Result<Vec<(u64, NetworkPacket)>, WireError>) -> Result<Vec<(u64, NetworkAction, Vec<u8>)>, WireError> {
    r.map(|v| v.into_iter().map(|(c, p)| (c, p.tag, p.data)).collect())
}

#[test]
fn server_inbox_tags_each_message_with_its_sender() {
    let events = vec![ConnectionEvent::Connected(7), ConnectionEvent::Disconnected(3)];
    let per_client = vec![(7u64, vec![vec![0, 9], vec![], vec![2]]), (11u64, vec![vec![1, 5, 6]])];
    assert_eq!(
        view(server_inbox(&events, &per_client)),
        Ok(vec![
            (7, NetworkAction::Join, vec![]),
            (3, NetworkAction::Exit, vec![]),
            (7, NetworkAction::Update, vec![9]),
            (7, NetworkAction::Exit, vec![]),
            (11, NetworkAction::Join, vec![5, 6]),
        ])
    );
}

#[test]
fn server_inbox_stops_at_first_bad_tag() {
    let per_client = vec![(1u64, vec![vec![0]]), (2u64, vec![vec![9, 1]]), (3u64, vec![vec![8]])];
    assert_eq!(view(server_inbox(&Vec::new(), &per_client)), Err(WireError::InvalidNetworkAction(9)));
    assert_eq!(view(server_inbox(&Vec::new(), &Vec::new())), Ok(vec![]));
}
