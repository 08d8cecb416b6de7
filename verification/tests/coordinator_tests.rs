use spv_filter::coordinator::{
    NetworkEvent, Notification, OutboundCommand, Polled, ScanCoordinator, ScanRange, TxId,
    UserCommand,
};
use spv_filter::error::{Delivery, Error};
use spv_filter::filter::ProbabilisticFilter;
use spv_filter::peers::{PeerId, PeerRecord};
use spv_filter::state::{ITEM_FILTER_BITMAP_BYTES, ITEM_FILTER_ITEM_COUNT};

fn peer(n: u16) -> PeerId {
    PeerId { addr: 0x0000_0000_0000_0000_0000_ffff_0a00_0001, port: n }
}

fn txid(n: u8) -> TxId {
    TxId { bytes: [n; 32] }
}

fn add(data: &str) -> UserCommand {
    UserCommand::AddFilterItem { data: data.to_string(), address_payload: None }
}

fn with_peers(ports: &[u16]) -> ScanCoordinator {
    let mut c = ScanCoordinator::with_tweak(1);
    for p in ports {
        assert!(c.handle_network_event(NetworkEvent::PeerNegotiated { peer: peer(*p) }).is_empty());
    }
    c
}

#[test]
fn a_new_coordinator_is_empty() {
    let c = ScanCoordinator::with_tweak(4);
    assert_eq!(c.tip(), None);
    assert!(c.peers().records().is_empty());
    assert!(!c.filter_state().is_dirty());
    assert_eq!(c.filter_state().snapshot().tweak, 4);
    assert!(!c.has_seen(&txid(1)));
    let r = ScanCoordinator::new();
    assert_eq!(r.tip(), None);
    assert_eq!(r.filter_state().snapshot().content, vec![0u8; 11_982]);
}

#[test]
fn ready_records_the_tip_and_announces_the_network() {
    let mut c = ScanCoordinator::with_tweak(1);
    let shown = c.handle_network_event(NetworkEvent::Ready { tip: 800_000 });
    assert_eq!(shown, vec![Notification::HeaderLoaded(800_000), Notification::NetworkConnected]);
    assert_eq!(c.tip(), Some(800_000));
}

#[test]
fn block_heights_are_forwarded() {
    let mut c = ScanCoordinator::with_tweak(1);
    assert_eq!(
        c.handle_network_event(NetworkEvent::BlockConnected { height: 12 }),
        vec![Notification::BlockConnected(12)]
    );
    assert_eq!(
        c.handle_network_event(NetworkEvent::ReceivedMerkleBlock { height: 13 }),
        vec![Notification::ReceivedBlock(13)]
    );
    assert_eq!(c.tip(), None);
}

#[test]
fn negotiated_then_disconnected_peer_is_absent() {
    let mut c = with_peers(&[1]);
    assert!(c.handle_network_event(NetworkEvent::PeerNegotiated { peer: peer(2) }).is_empty());
    assert!(c.peers().is_known(peer(2)));
    assert!(c.handle_network_event(NetworkEvent::PeerDisconnected { peer: peer(2) }).is_empty());
    assert!(!c.peers().is_known(peer(2)));
    assert!(!c.peers().is_armed(peer(2)));
    assert_eq!(c.peers().known_peers(), vec![peer(1)]);
    assert!(c.peers().armed_peers().is_empty());
}

#[test]
fn an_armed_peer_that_disconnects_is_absent_from_both_sets() {
    let mut c = with_peers(&[1, 2]);
    assert!(c.handle_user_command_with_tweak(UserCommand::SendLoadFilter, 0).is_ok());
    assert!(c.peers().is_armed(peer(2)));
    assert!(c.handle_network_event(NetworkEvent::PeerDisconnected { peer: peer(2) }).is_empty());
    assert_eq!(c.peers().known_peers(), vec![peer(1)]);
    assert_eq!(c.peers().armed_peers(), vec![peer(1)]);
}

#[test]
fn a_matched_transaction_is_forwarded_once() {
    let mut c = ScanCoordinator::with_tweak(1);
    let first = c.handle_network_event(NetworkEvent::MatchedTransaction { txid: txid(7) });
    assert_eq!(first, vec![Notification::MatchedTransaction(txid(7))]);
    assert!(c.has_seen(&txid(7)));
    let second = c.handle_network_event(NetworkEvent::MatchedTransaction { txid: txid(7) });
    assert!(second.is_empty());
    let other = c.handle_network_event(NetworkEvent::MatchedTransaction { txid: txid(8) });
    assert_eq!(other, vec![Notification::MatchedTransaction(txid(8))]);
    assert!(c.handle_network_event(NetworkEvent::MatchedTransaction { txid: txid(7) }).is_empty());
}

#[test]
fn transactions_that_differ_in_one_byte_are_two() {
    let mut a = [0u8; 32];
    let mut b = [0u8; 32];
    a[31] = 1;
    b[31] = 2;
    let mut c = ScanCoordinator::with_tweak(1);
    assert_eq!(
        c.handle_network_event(NetworkEvent::MatchedTransaction { txid: TxId { bytes: a } }).len(),
        1
    );
    assert_eq!(
        c.handle_network_event(NetworkEvent::MatchedTransaction { txid: TxId { bytes: b } }).len(),
        1
    );
    assert!(TxId { bytes: a }.same_as(&TxId { bytes: a }));
    assert!(!TxId { bytes: a }.same_as(&TxId { bytes: b }));
}

#[test]
fn scanning_is_announced_on_edges_only() {
    let mut c = with_peers(&[1, 2]);
    assert!(c.handle_user_command_with_tweak(UserCommand::SendLoadFilter, 0).is_ok());
    assert_eq!(
        c.handle_network_event(NetworkEvent::MerkleScanStarted { peer: peer(1) }),
        vec![Notification::ScanningChanged(true)]
    );
    assert!(c.handle_network_event(NetworkEvent::MerkleScanStarted { peer: peer(2) }).is_empty());
    assert!(c.handle_network_event(NetworkEvent::MerkleScanStopped { peer: peer(1) }).is_empty());
    assert_eq!(
        c.handle_network_event(NetworkEvent::MerkleScanStopped { peer: peer(2) }),
        vec![Notification::ScanningChanged(false)]
    );
    assert!(c.handle_network_event(NetworkEvent::MerkleScanStopped { peer: peer(2) }).is_empty());
}

#[test]
fn scan_events_of_untracked_peers_are_ignored() {
    let mut c = with_peers(&[1]);
    assert!(c.handle_network_event(NetworkEvent::MerkleScanStarted { peer: peer(1) }).is_empty());
    assert!(c.handle_network_event(NetworkEvent::MerkleScanStarted { peer: peer(9) }).is_empty());
    assert!(c.handle_network_event(NetworkEvent::MerkleScanStopped { peer: peer(9) }).is_empty());
    assert!(!c.peers().any_scanning());
}

#[test]
fn a_loaded_filter_is_announced_once_an_item_was_added() {
    let mut c = with_peers(&[1]);
    assert!(c.handle_network_event(NetworkEvent::PeerLoadedFilter { peer: peer(1) }).is_empty());
    assert_eq!(c.handle_user_command_with_tweak(add("c0ffee"), 3), Ok(vec![]));
    assert_eq!(
        c.handle_network_event(NetworkEvent::PeerLoadedFilter { peer: peer(1) }),
        vec![Notification::PeerLoadedFilter(peer(1))]
    );
    assert_eq!(c.handle_user_command_with_tweak(UserCommand::ResetFilter, 3), Ok(vec![]));
    assert!(c.handle_network_event(NetworkEvent::PeerLoadedFilter { peer: peer(1) }).is_empty());
}

#[test]
fn add_filter_item_installs_the_item() {
    let mut c = with_peers(&[1]);
    assert_eq!(c.handle_user_command_with_tweak(add("c0ffee"), 41), Ok(vec![]));
    assert!(c.filter_state().is_dirty());
    let mut f =
        ProbabilisticFilter::with_tweak(ITEM_FILTER_BITMAP_BYTES, ITEM_FILTER_ITEM_COUNT, 41)
            .unwrap();
    f.insert(&[0xc0, 0xff, 0xee]);
    assert_eq!(c.filter_state().snapshot(), f.to_wire_form());
}

#[test]
fn add_filter_item_takes_an_address_payload() {
    let mut c = with_peers(&[1]);
    let command = UserCommand::AddFilterItem {
        data: "bitcoincash:qpm2qsznhks23z7629mms6s4cwef74vcwvy22gdx6a".to_string(),
        address_payload: Some(vec![1, 2, 3, 4]),
    };
    assert_eq!(c.handle_user_command_with_tweak(command, 41), Ok(vec![]));
    assert!(c.filter_state().filter().contains(&[1, 2, 3, 4]));
}

#[test]
fn an_item_that_cannot_be_decoded_is_reported_and_changes_nothing() {
    let mut c = with_peers(&[1, 2]);
    assert!(c.handle_user_command_with_tweak(UserCommand::SendLoadFilter, 0).is_ok());
    let filter = c.filter_state().snapshot();
    let records = c.peers().records().to_vec();
    assert_eq!(c.handle_user_command_with_tweak(add("nothex"), 5), Err(Error::DecodeError));
    assert_eq!(c.handle_user_command(add("abc")), Err(Error::DecodeError));
    assert_eq!(c.filter_state().snapshot(), filter);
    assert!(!c.filter_state().is_dirty());
    assert_eq!(c.peers().records().to_vec(), records);
}

#[test]
fn send_load_filter_reaches_the_peers_that_lack_it() {
    let mut c = with_peers(&[1, 2]);
    let snapshot = c.filter_state().snapshot();
    let sent = c.handle_user_command_with_tweak(UserCommand::SendLoadFilter, 0);
    assert_eq!(
        sent,
        Ok(vec![OutboundCommand::LoadFilter {
            filter: snapshot.clone(),
            peers: vec![peer(1), peer(2)]
        }])
    );
    assert_eq!(c.peers().armed_peers(), vec![peer(1), peer(2)]);

    assert_eq!(c.handle_user_command_with_tweak(UserCommand::SendLoadFilter, 0), Ok(vec![]));

    assert!(c.handle_network_event(NetworkEvent::PeerNegotiated { peer: peer(3) }).is_empty());
    assert_eq!(
        c.handle_user_command_with_tweak(UserCommand::SendLoadFilter, 0),
        Ok(vec![OutboundCommand::LoadFilter { filter: snapshot, peers: vec![peer(3)] }])
    );
    assert_eq!(c.peers().armed_peers(), vec![peer(1), peer(2), peer(3)]);
}

#[test]
fn send_load_filter_without_peers_sends_nothing() {
    let mut c = ScanCoordinator::with_tweak(1);
    assert_eq!(c.handle_user_command_with_tweak(UserCommand::SendLoadFilter, 0), Ok(vec![]));
    assert_eq!(c.handle_user_command(UserCommand::SendLoadFilter), Ok(vec![]));
}

#[test]
fn reset_then_send_transmits_an_empty_filter_to_every_known_peer() {
    let mut c = with_peers(&[1, 2, 3]);
    assert_eq!(c.handle_user_command_with_tweak(add("c0ffee"), 41), Ok(vec![]));
    assert!(c.handle_user_command_with_tweak(UserCommand::SendLoadFilter, 0).is_ok());
    assert!(!c.handle_network_event(NetworkEvent::MerkleScanStarted { peer: peer(2) }).is_empty());

    assert_eq!(c.handle_user_command_with_tweak(UserCommand::ResetFilter, 77), Ok(vec![]));
    assert!(!c.filter_state().is_dirty());
    assert!(c.peers().armed_peers().is_empty());
    assert!(!c.peers().any_scanning());
    assert_eq!(c.peers().known_peers(), vec![peer(1), peer(2), peer(3)]);

    let sent = c.handle_user_command_with_tweak(UserCommand::SendLoadFilter, 0).unwrap();
    assert_eq!(sent.len(), 1);
    match &sent[0] {
        OutboundCommand::LoadFilter { filter, peers } => {
            assert_eq!(filter.content, vec![0u8; 11_982]);
            assert_eq!(filter.hash_count, 7);
            assert_eq!(filter.tweak, 77);
            assert_eq!(filter.flags, 0);
            assert_eq!(peers, &vec![peer(1), peer(2), peer(3)]);
        }
        other => panic!("unexpected command {:?}", other),
    }
    assert_eq!(c.peers().armed_peers(), vec![peer(1), peer(2), peer(3)]);
}

#[test]
fn clear_filter_and_peers_broadcasts_the_empty_filter() {
    let mut c = with_peers(&[1, 2]);
    assert_eq!(c.handle_user_command_with_tweak(add("c0ffee"), 41), Ok(vec![]));
    assert!(c.handle_user_command_with_tweak(UserCommand::SendLoadFilter, 0).is_ok());
    let sent = c.handle_user_command_with_tweak(UserCommand::ClearFilterAndPeers, 5).unwrap();
    assert_eq!(sent.len(), 1);
    match &sent[0] {
        OutboundCommand::LoadFilter { filter, peers } => {
            assert_eq!(filter.content, vec![0u8; 11_982]);
            assert_eq!(filter.tweak, 5);
            assert_eq!(peers, &vec![peer(1), peer(2)]);
        }
        other => panic!("unexpected command {:?}", other),
    }
    assert!(!c.filter_state().is_dirty());
    assert_eq!(c.peers().known_peers(), vec![peer(1), peer(2)]);
    assert_eq!(
        c.peers().records().to_vec(),
        vec![
            PeerRecord { peer: peer(1), armed: true, scanning: false },
            PeerRecord { peer: peer(2), armed: true, scanning: false }
        ]
    );
}

#[test]
fn clear_filter_and_peers_without_peers_sends_nothing() {
    let mut c = ScanCoordinator::with_tweak(1);
    assert_eq!(c.handle_user_command_with_tweak(UserCommand::ClearFilterAndPeers, 5), Ok(vec![]));
    assert_eq!(c.filter_state().snapshot().tweak, 5);
}

#[test]
fn rescan_range_is_normalized() {
    let mut c = with_peers(&[1]);
    assert!(c.handle_user_command_with_tweak(UserCommand::SendLoadFilter, 0).is_ok());
    let sent = c.handle_user_command_with_tweak(
        UserCommand::RequestRescan(ScanRange { begin_height: 100, end_height: 50 }),
        0,
    );
    assert_eq!(
        sent,
        Ok(vec![OutboundCommand::RequestRescan { from: 100, to: 100, peers: vec![peer(1)] }])
    );
    assert_eq!(
        ScanRange::new(100, 50).normalize(),
        ScanRange { begin_height: 100, end_height: 100 }
    );
    assert_eq!(ScanRange::new(50, 100).normalize(), ScanRange::new(50, 100));
    assert_eq!(ScanRange::new(7, 7).normalize(), ScanRange::new(7, 7));
}

#[test]
fn rescan_goes_to_the_armed_peers_only() {
    let mut c = with_peers(&[1, 2]);
    assert!(c.handle_user_command_with_tweak(UserCommand::SendLoadFilter, 0).is_ok());
    assert!(c.handle_network_event(NetworkEvent::PeerNegotiated { peer: peer(3) }).is_empty());
    let sent = c.handle_user_command(UserCommand::RequestRescan(ScanRange::new(10, 20)));
    assert_eq!(
        sent,
        Ok(vec![OutboundCommand::RequestRescan {
            from: 10,
            to: 20,
            peers: vec![peer(1), peer(2)]
        }])
    );
    let mut none = with_peers(&[1]);
    assert_eq!(
        none.handle_user_command(UserCommand::RequestRescan(ScanRange::new(10, 20))),
        Ok(vec![OutboundCommand::RequestRescan { from: 10, to: 20, peers: vec![] }])
    );
}

#[test]
fn a_turn_takes_one_message_from_each_source() {
    let mut c = with_peers(&[1]);
    let turn = c.step_with_tweak(
        Polled::Item(UserCommand::SendLoadFilter),
        Polled::Item(NetworkEvent::MerkleScanStarted { peer: peer(1) }),
        0,
    );
    assert_eq!(turn.commands.len(), 1);
    assert_eq!(turn.notifications, vec![Notification::ScanningChanged(true)]);
    assert_eq!(turn.rejected, None);
    assert_eq!(turn.stop, None);
    assert!(c.peers().any_scanning());
}

#[test]
fn an_idle_turn_changes_nothing() {
    let mut c = with_peers(&[1]);
    let turn = c.step(Polled::Empty, Polled::Empty);
    assert!(turn.commands.is_empty());
    assert!(turn.notifications.is_empty());
    assert_eq!(turn.rejected, None);
    assert_eq!(turn.stop, None);
    assert_eq!(c.peers().known_peers(), vec![peer(1)]);
}

#[test]
fn a_rejected_command_does_not_end_the_loop() {
    let mut c = with_peers(&[1]);
    let turn = c.step_with_tweak(
        Polled::Item(add("zz")),
        Polled::Item(NetworkEvent::BlockConnected { height: 5 }),
        0,
    );
    assert!(turn.commands.is_empty());
    assert_eq!(turn.notifications, vec![Notification::BlockConnected(5)]);
    assert_eq!(turn.rejected, Some(Error::DecodeError));
    assert_eq!(turn.stop, None);
    assert!(!c.filter_state().is_dirty());
}

#[test]
fn a_closed_channel_ends_the_loop() {
    let mut c = with_peers(&[1]);
    let turn = c.step_with_tweak(
        Polled::Closed,
        Polled::Item(NetworkEvent::BlockConnected { height: 5 }),
        0,
    );
    assert_eq!(turn.stop, Some(Error::ChannelClosed));
    assert_eq!(turn.notifications, vec![Notification::BlockConnected(5)]);

    let turn = c.step_with_tweak(Polled::Item(UserCommand::SendLoadFilter), Polled::Closed, 0);
    assert_eq!(turn.stop, Some(Error::ChannelClosed));
    assert_eq!(turn.commands.len(), 1);
    assert_eq!(turn.rejected, None);

    let turn = c.step(Polled::Closed, Polled::Closed);
    assert_eq!(turn.stop, Some(Error::ChannelClosed));
}

#[test]
fn failed_deliveries_are_reported() {
    assert_eq!(Delivery::Delivered.report(), Ok(()));
    assert_eq!(Delivery::ConsumerGone.report(), Err(Error::ChannelClosed));
    assert_eq!(Delivery::Rejected.report(), Err(Error::UpstreamCommandFailed));
}

#[test]
fn local_errors_are_recoverable() {
    assert!(Error::DecodeError.is_recoverable());
    assert!(Error::InvalidArgument.is_recoverable());
    assert!(!Error::ChannelClosed.is_recoverable());
    assert!(!Error::UpstreamCommandFailed.is_recoverable());
}
