//! The coordinator: the one owner of the filter state and of the peers'
//! records. Each network event and each user command is one transition, which
//! gives the notifications to show and the commands to send.

use vstd::prelude::*;
use crate::error::Error;
use crate::filter::{
    lemma_empty_contains_nothing, lemma_fresh_is_empty, lemma_inserted_wf, random_tweak, FilterView,
    WireFilter, WireView,
};
use crate::item::item_bytes;
use crate::peers::{
    armed, armed_peers, cleared, deregistered, is_armed, is_known, known_peers,
    lemma_armed_leaves_none_unarmed, lemma_changes_keep_wf, lemma_cleared_disarms_all,
    lemma_negotiated_then_disconnected, records_wf, registered, scan_marked, scanning_edge,
    unarmed_peers, PeerId, PeerRecord, PeerScanTracker,
};
use crate::state::{FilterState, FilterStateView, DEFAULT_BITMAP_BYTES, DEFAULT_ITEM_COUNT};

verus! {

/// The identifier of a transaction.
#[derive(Clone, Copy, Debug, PartialEq, Eq, Hash)]
pub struct TxId {
    /// The 32 bytes of the hash, in wire order.
    pub bytes: [u8; 32],
}

impl TxId {
    /// Whether two identifiers are the same.
    pub fn same_as(&self, other: &TxId) -> (r: bool)
        ensures
            r == (*self == *other),
    {
        let mut i: usize = 0;
        while i < 32
            invariant
                i <= 32,
                forall|j: int| 0 <= j < i ==> self.bytes@[j] == other.bytes@[j],
            decreases 32 - i,
        {
            if self.bytes[i] != other.bytes[i] {
                return false;
            }
            i += 1;
        }
        assert(self.bytes =~= other.bytes);
        true
    }
}

/// The heights between which a rescan is asked for, both included.
#[derive(Clone, Copy, Debug, PartialEq, Eq, Structural)]
pub struct ScanRange {
    /// The first height.
    pub begin_height: u64,
    /// The last height.
    pub end_height: u64,
}

impl ScanRange {
    /// The range between the two heights.
    pub fn new(begin_height: u64, end_height: u64) -> (r: ScanRange)
        ensures
            r == (ScanRange { begin_height, end_height }),
    {
        ScanRange { begin_height, end_height }
    }

    /// The range with an end that is not before its beginning: the larger of
    /// the two heights.
    pub open spec fn normalized(self) -> ScanRange {
        ScanRange {
            begin_height: self.begin_height,
            end_height: if self.end_height < self.begin_height {
                self.begin_height
            } else {
                self.end_height
            },
        }
    }

    /// Computes [`ScanRange::normalized`].
    pub fn normalize(&self) -> (r: ScanRange)
        ensures
            r == self.normalized(),
            r.begin_height == self.begin_height,
            r.begin_height <= r.end_height,
            self.begin_height <= self.end_height ==> r == *self,
    {
        if self.end_height < self.begin_height {
            ScanRange { begin_height: self.begin_height, end_height: self.begin_height }
        } else {
            ScanRange { begin_height: self.begin_height, end_height: self.end_height }
        }
    }
}

/// What the network engine reports.
#[derive(Clone, Copy, Debug, PartialEq, Eq)]
pub enum NetworkEvent {
    /// The engine is in step with the network, at this height.
    Ready { tip: u64 },
    /// A block was connected at this height.
    BlockConnected { height: u64 },
    /// The handshake with a peer is done.
    PeerNegotiated { peer: PeerId },
    /// A peer is gone.
    PeerDisconnected { peer: PeerId },
    /// A peer started to stream matched blocks.
    MerkleScanStarted { peer: PeerId },
    /// A peer stopped streaming matched blocks.
    MerkleScanStopped { peer: PeerId },
    /// A transaction matched the filter.
    MatchedTransaction { txid: TxId },
    /// A merkle block came in, at this height.
    ReceivedMerkleBlock { height: u64 },
    /// A peer has loaded the filter that was sent to it.
    PeerLoadedFilter { peer: PeerId },
}

/// What is shown to the user.
#[derive(Clone, Copy, Debug, PartialEq, Eq)]
pub enum Notification {
    /// The chain's height when the network became ready.
    HeaderLoaded(u64),
    /// The network is connected.
    NetworkConnected,
    /// A block was connected at this height.
    BlockConnected(u64),
    /// Whether any peer is scanning, when that has changed.
    ScanningChanged(bool),
    /// A transaction matched that had not matched before.
    MatchedTransaction(TxId),
    /// A merkle block came in, at this height.
    ReceivedBlock(u64),
    /// A peer has loaded a filter that holds an item.
    PeerLoadedFilter(PeerId),
}

/// What the user asks for.
#[derive(Clone, Debug, PartialEq, Eq)]
pub enum UserCommand {
    /// Watch an item: an encoded address, with the payload that decoding it
    /// gave, or a hex byte string, without one.
    AddFilterItem { data: String, address_payload: Option<Vec<u8>> },
    /// Send the filter to the peers that do not have it.
    SendLoadFilter,
    /// Start again from an empty filter.
    ResetFilter,
    /// Start again from an empty filter and tell every peer.
    ClearFilterAndPeers,
    /// Have the armed peers scan a range of blocks again.
    RequestRescan(ScanRange),
}

/// A user command as plain values.
pub enum UserCommandView {
    AddFilterItem { data: Seq<char>, address_payload: Option<Seq<u8>> },
    SendLoadFilter,
    ResetFilter,
    ClearFilterAndPeers,
    RequestRescan(ScanRange),
}

impl View for UserCommand {
    type V = UserCommandView;

    open spec fn view(&self) -> UserCommandView {
        match *self {
            UserCommand::AddFilterItem { data, address_payload } => UserCommandView::AddFilterItem {
                data: data@,
                address_payload: match address_payload {
                    Some(payload) => Some(payload@),
                    None => None,
                },
            },
            UserCommand::SendLoadFilter => UserCommandView::SendLoadFilter,
            UserCommand::ResetFilter => UserCommandView::ResetFilter,
            UserCommand::ClearFilterAndPeers => UserCommandView::ClearFilterAndPeers,
            UserCommand::RequestRescan(range) => UserCommandView::RequestRescan(range),
        }
    }
}

impl UserCommandView {
    /// An item and its payload are short enough to be hashed: their lengths
    /// fit in 32 bits.
    pub open spec fn fits(self) -> bool {
        match self {
            UserCommandView::AddFilterItem { data, address_payload } => {
                &&& data.len() <= u32::MAX
                &&& address_payload matches Some(payload) ==> payload.len() <= u32::MAX
            },
            _ => true,
        }
    }
}

/// What is sent to the network engine.
#[derive(Clone, Debug, PartialEq, Eq)]
pub enum OutboundCommand {
    /// Load this filter on these peers.
    LoadFilter { filter: WireFilter, peers: Vec<PeerId> },
    /// Have these peers scan the blocks between the two heights, both
    /// included.
    RequestRescan { from: u64, to: u64, peers: Vec<PeerId> },
    /// Ask for the peers that offer these services.
    QueryPeers { services: u64 },
}

/// An outbound command as plain values.
pub enum OutboundCommandView {
    LoadFilter { filter: WireView, peers: Seq<PeerId> },
    RequestRescan { from: u64, to: u64, peers: Seq<PeerId> },
    QueryPeers { services: u64 },
}

impl View for OutboundCommand {
    type V = OutboundCommandView;

    open spec fn view(&self) -> OutboundCommandView {
        match *self {
            OutboundCommand::LoadFilter { filter, peers } => OutboundCommandView::LoadFilter {
                filter: filter@,
                peers: peers@,
            },
            OutboundCommand::RequestRescan { from, to, peers } => OutboundCommandView::RequestRescan {
                from,
                to,
                peers: peers@,
            },
            OutboundCommand::QueryPeers { services } => OutboundCommandView::QueryPeers { services },
        }
    }
}

/// A list of outbound commands as plain values.
pub open spec fn commands_view(commands: Seq<OutboundCommand>) -> Seq<OutboundCommandView> {
    commands.map_values(|c: OutboundCommand| c@)
}

/// The answer to a user command as plain values.
pub open spec fn output_view(output: Result<Vec<OutboundCommand>, Error>) -> Result<
    Seq<OutboundCommandView>,
    Error,
> {
    match output {
        Ok(commands) => Ok(commands_view(commands@)),
        Err(e) => Err(e),
    }
}

/// What the coordinator holds: the filter state, the peers' records, the
/// transactions that have matched, and the height at which the network became
/// ready.
pub struct CoordinatorView {
    pub filter: FilterStateView,
    pub peers: Seq<PeerRecord>,
    pub seen: Set<TxId>,
    pub tip: Option<u64>,
}

impl CoordinatorView {
    /// The state is valid when the filter and the records are.
    pub open spec fn wf(self) -> bool {
        &&& self.filter.filter.wf()
        &&& records_wf(self.peers)
    }

    /// The state before anything happened, with the nonce `tweak`.
    pub open spec fn initial(tweak: u32) -> CoordinatorView {
        CoordinatorView {
            filter: FilterStateView::initial(tweak),
            peers: Seq::empty(),
            seen: Set::empty(),
            tip: None,
        }
    }

    /// The state after a network event.
    pub open spec fn after_event(self, event: NetworkEvent) -> CoordinatorView {
        match event {
            NetworkEvent::Ready { tip } => CoordinatorView { tip: Some(tip), ..self },
            NetworkEvent::PeerNegotiated { peer } => CoordinatorView {
                peers: registered(self.peers, peer),
                ..self
            },
            NetworkEvent::PeerDisconnected { peer } => CoordinatorView {
                peers: deregistered(self.peers, peer),
                ..self
            },
            NetworkEvent::MerkleScanStarted { peer } => CoordinatorView {
                peers: scan_marked(self.peers, peer, true),
                ..self
            },
            NetworkEvent::MerkleScanStopped { peer } => CoordinatorView {
                peers: scan_marked(self.peers, peer, false),
                ..self
            },
            NetworkEvent::MatchedTransaction { txid } => CoordinatorView {
                seen: self.seen.insert(txid),
                ..self
            },
            NetworkEvent::BlockConnected { .. } => self,
            NetworkEvent::ReceivedMerkleBlock { .. } => self,
            NetworkEvent::PeerLoadedFilter { .. } => self,
        }
    }

    /// The notifications that a network event gives rise to, in order.
    pub open spec fn notifications(self, event: NetworkEvent) -> Seq<Notification> {
        match event {
            NetworkEvent::Ready { tip } => seq![
                Notification::HeaderLoaded(tip),
                Notification::NetworkConnected,
            ],
            NetworkEvent::BlockConnected { height } => seq![Notification::BlockConnected(height)],
            NetworkEvent::PeerNegotiated { .. } => seq![],
            NetworkEvent::PeerDisconnected { .. } => seq![],
            NetworkEvent::MerkleScanStarted { peer } => match scanning_edge(
                self.peers,
                scan_marked(self.peers, peer, true),
            ) {
                Some(scanning) => seq![Notification::ScanningChanged(scanning)],
                None => seq![],
            },
            NetworkEvent::MerkleScanStopped { peer } => match scanning_edge(
                self.peers,
                scan_marked(self.peers, peer, false),
            ) {
                Some(scanning) => seq![Notification::ScanningChanged(scanning)],
                None => seq![],
            },
            NetworkEvent::MatchedTransaction { txid } => if self.seen.contains(txid) {
                seq![]
            } else {
                seq![Notification::MatchedTransaction(txid)]
            },
            NetworkEvent::ReceivedMerkleBlock { height } => seq![Notification::ReceivedBlock(height)],
            NetworkEvent::PeerLoadedFilter { peer } => if self.filter.dirty {
                seq![Notification::PeerLoadedFilter(peer)]
            } else {
                seq![]
            },
        }
    }

    /// The state after the filter was reset under the nonce `tweak`: an empty
    /// filter, and no peer armed or scanning.
    pub open spec fn after_reset(self, tweak: u32) -> CoordinatorView {
        CoordinatorView {
            filter: FilterStateView::initial(tweak),
            peers: cleared(self.peers),
            ..self
        }
    }

    /// The state after the filter was sent to the peers that lacked it: they
    /// are armed.
    pub open spec fn after_send(self) -> CoordinatorView {
        CoordinatorView { peers: armed(self.peers, unarmed_peers(self.peers)), ..self }
    }

    /// The command that sends the current filter to the peers that lack it; no
    /// command where no peer lacks it.
    pub open spec fn send_output(self) -> Seq<OutboundCommandView> {
        if unarmed_peers(self.peers).len() == 0 {
            seq![]
        } else {
            seq![
                OutboundCommandView::LoadFilter {
                    filter: self.filter.filter.wire(),
                    peers: unarmed_peers(self.peers),
                },
            ]
        }
    }

    /// The state after a user command, where a new filter gets the nonce
    /// `tweak`.
    pub open spec fn after_command(self, command: UserCommandView, tweak: u32) -> CoordinatorView {
        match command {
            UserCommandView::AddFilterItem { data, address_payload } => CoordinatorView {
                filter: self.filter.added(data, address_payload, tweak),
                ..self
            },
            UserCommandView::SendLoadFilter => self.after_send(),
            UserCommandView::ResetFilter => self.after_reset(tweak),
            UserCommandView::ClearFilterAndPeers => self.after_reset(tweak).after_send(),
            UserCommandView::RequestRescan(_) => self,
        }
    }

    /// The answer to a user command: the commands to send, in order, or the
    /// error to report.
    pub open spec fn command_output(self, command: UserCommandView, tweak: u32) -> Result<
        Seq<OutboundCommandView>,
        Error,
    > {
        match command {
            UserCommandView::AddFilterItem { data, address_payload } => if item_bytes(
                data,
                address_payload,
            ) is Some {
                Ok(seq![])
            } else {
                Err(Error::DecodeError)
            },
            UserCommandView::SendLoadFilter => Ok(self.send_output()),
            UserCommandView::ResetFilter => Ok(seq![]),
            UserCommandView::ClearFilterAndPeers => Ok(self.after_reset(tweak).send_output()),
            UserCommandView::RequestRescan(range) => Ok(
                seq![
                    OutboundCommandView::RequestRescan {
                        from: range.normalized().begin_height,
                        to: range.normalized().end_height,
                        peers: armed_peers(self.peers),
                    },
                ],
            ),
        }
    }
}

/// What a poll of one of the two input channels gave.
#[derive(Clone, Debug, PartialEq, Eq)]
pub enum Polled<T> {
    /// The next message.
    Item(T),
    /// Nothing is waiting.
    Empty,
    /// The other end is gone.
    Closed,
}

/// What one turn of the loop gives: the commands to send, the notifications to
/// show, the error to report to the user, and the error that ends the loop.
#[derive(Clone, Debug, PartialEq, Eq)]
pub struct Turn {
    /// The commands to send, in order.
    pub commands: Vec<OutboundCommand>,
    /// The notifications to show, in order.
    pub notifications: Vec<Notification>,
    /// The error of a user command that changed nothing.
    pub rejected: Option<Error>,
    /// The error that ends the loop.
    pub stop: Option<Error>,
}

/// One turn as plain values.
pub struct TurnView {
    pub commands: Seq<OutboundCommandView>,
    pub notifications: Seq<Notification>,
    pub rejected: Option<Error>,
    pub stop: Option<Error>,
}

impl View for Turn {
    type V = TurnView;

    open spec fn view(&self) -> TurnView {
        TurnView {
            commands: commands_view(self.commands@),
            notifications: self.notifications@,
            rejected: self.rejected,
            stop: self.stop,
        }
    }
}

/// What a poll for a user command gave, as plain values.
pub open spec fn polled_command_view(user: Polled<UserCommand>) -> Polled<UserCommandView> {
    match user {
        Polled::Item(command) => Polled::Item(command@),
        Polled::Empty => Polled::Empty,
        Polled::Closed => Polled::Closed,
    }
}

impl CoordinatorView {
    /// The state after the user's part of a turn.
    pub open spec fn after_user_poll(self, user: Polled<UserCommandView>, tweak: u32) -> CoordinatorView {
        match user {
            Polled::Item(command) => self.after_command(command, tweak),
            _ => self,
        }
    }

    /// The state after a turn: the user's command is applied first, then the
    /// network's event, one of each at most.
    pub open spec fn after_turn(
        self,
        user: Polled<UserCommandView>,
        network: Polled<NetworkEvent>,
        tweak: u32,
    ) -> CoordinatorView {
        match network {
            Polled::Item(event) => self.after_user_poll(user, tweak).after_event(event),
            _ => self.after_user_poll(user, tweak),
        }
    }

    /// What a turn gives. An error of the user's command is reported and does
    /// not end the loop; a channel whose other end is gone does.
    pub open spec fn turn(
        self,
        user: Polled<UserCommandView>,
        network: Polled<NetworkEvent>,
        tweak: u32,
    ) -> TurnView {
        TurnView {
            commands: match user {
                Polled::Item(command) => match self.command_output(command, tweak) {
                    Ok(commands) => commands,
                    Err(_) => seq![],
                },
                _ => seq![],
            },
            notifications: match network {
                Polled::Item(event) => self.after_user_poll(user, tweak).notifications(event),
                _ => seq![],
            },
            rejected: match user {
                Polled::Item(command) => match self.command_output(command, tweak) {
                    Ok(_) => None,
                    Err(e) => Some(e),
                },
                _ => None,
            },
            stop: if user is Closed || network is Closed {
                Some(Error::ChannelClosed)
            } else {
                None
            },
        }
    }
}

/// Every network event leaves a valid state valid.
pub proof fn lemma_event_keeps_wf(s: CoordinatorView, event: NetworkEvent)
    requires
        s.wf(),
    ensures
        s.after_event(event).wf(),
{
    match event {
        NetworkEvent::PeerNegotiated { peer } => lemma_changes_keep_wf(s.peers, peer, seq![], true),
        NetworkEvent::PeerDisconnected { peer } => lemma_changes_keep_wf(
            s.peers,
            peer,
            seq![],
            true,
        ),
        NetworkEvent::MerkleScanStarted { peer } => lemma_changes_keep_wf(
            s.peers,
            peer,
            seq![],
            true,
        ),
        NetworkEvent::MerkleScanStopped { peer } => lemma_changes_keep_wf(
            s.peers,
            peer,
            seq![],
            false,
        ),
        _ => {},
    }
}

/// Every user command leaves a valid state valid, whether it succeeds or not,
/// and one that is rejected leaves the state as it was.
pub proof fn lemma_command_keeps_wf(s: CoordinatorView, command: UserCommandView, tweak: u32)
    requires
        s.wf(),
    ensures
        s.after_command(command, tweak).wf(),
        s.command_output(command, tweak) is Err ==> s.after_command(command, tweak) == s,
{
    let peer = PeerId { addr: 0, port: 0 };
    lemma_fresh_is_empty(DEFAULT_BITMAP_BYTES as nat, DEFAULT_ITEM_COUNT as nat, tweak);
    match command {
        UserCommandView::AddFilterItem { data, address_payload } => {
            match item_bytes(data, address_payload) {
                Some(item) => {
                    lemma_fresh_is_empty(
                        crate::state::ITEM_FILTER_BITMAP_BYTES as nat,
                        crate::state::ITEM_FILTER_ITEM_COUNT as nat,
                        tweak,
                    );
                    lemma_inserted_wf(
                        FilterView::empty(
                            crate::state::ITEM_FILTER_BITMAP_BYTES as nat,
                            crate::state::ITEM_FILTER_ITEM_COUNT as nat,
                            tweak,
                        ),
                        item,
                    );
                },
                None => {},
            }
        },
        UserCommandView::SendLoadFilter => {
            lemma_changes_keep_wf(s.peers, peer, unarmed_peers(s.peers), true);
        },
        UserCommandView::ResetFilter => {
            lemma_changes_keep_wf(s.peers, peer, seq![], true);
        },
        UserCommandView::ClearFilterAndPeers => {
            lemma_changes_keep_wf(s.peers, peer, seq![], true);
            lemma_changes_keep_wf(
                cleared(s.peers),
                peer,
                unarmed_peers(cleared(s.peers)),
                true,
            );
        },
        UserCommandView::RequestRescan(_) => {},
    }
}

/// A peer that was negotiated with and then disconnected is absent from the
/// known peers and from the armed ones.
pub proof fn lemma_disconnected_peer_is_absent(s: CoordinatorView, peer: PeerId)
    ensures
        ({
            let after = s.after_event(NetworkEvent::PeerNegotiated { peer }).after_event(
                NetworkEvent::PeerDisconnected { peer },
            );
            &&& !is_known(after.peers, peer)
            &&& !is_armed(after.peers, peer)
            &&& !known_peers(after.peers).contains(peer)
            &&& !armed_peers(after.peers).contains(peer)
            &&& !unarmed_peers(after.peers).contains(peer)
        }),
{
    lemma_negotiated_then_disconnected(s.peers, peer);
    let after = deregistered(registered(s.peers, peer), peer);
    if unarmed_peers(after).contains(peer) {
        let lacking = after.filter(|r: PeerRecord| !r.armed);
        let i = choose|i: int|
            0 <= i < unarmed_peers(after).len() && unarmed_peers(after)[i] == peer;
        assert(lacking.contains(lacking[i]));
        after.lemma_filter_contains_rev(|r: PeerRecord| !r.armed, lacking[i]);
        let j = choose|j: int| 0 <= j < after.len() && after[j] == lacking[i];
        assert(after[j].peer == peer);
    }
}

/// A transaction that matches twice is shown once: the first event shows it
/// unless it had matched before, and the second shows nothing.
pub proof fn lemma_matched_twice_shown_once(s: CoordinatorView, txid: TxId)
    ensures
        ({
            let event = NetworkEvent::MatchedTransaction { txid };
            let first = s.notifications(event);
            let second = s.after_event(event).notifications(event);
            &&& second == Seq::<Notification>::empty()
            &&& !s.seen.contains(txid) ==> first + second == seq![
                Notification::MatchedTransaction(txid),
            ]
            &&& s.seen.contains(txid) ==> first + second == Seq::<Notification>::empty()
            &&& s.after_event(event).after_event(event) == s.after_event(event)
        }),
{
    let event = NetworkEvent::MatchedTransaction { txid };
    let first = s.notifications(event);
    let second = s.after_event(event).notifications(event);
    assert(second =~= Seq::<Notification>::empty());
    assert(first + second =~= first);
    assert(s.seen.insert(txid).insert(txid) =~= s.seen.insert(txid));
}

/// A rescan is asked of the armed peers alone, in one command, from the
/// range's beginning to the larger of its two heights.
pub proof fn lemma_rescan_is_normalized(s: CoordinatorView, range: ScanRange, tweak: u32)
    ensures
        s.command_output(UserCommandView::RequestRescan(range), tweak) == Ok::<
            Seq<OutboundCommandView>,
            Error,
        >(
            seq![
                OutboundCommandView::RequestRescan {
                    from: range.begin_height,
                    to: if range.end_height < range.begin_height {
                        range.begin_height
                    } else {
                        range.end_height
                    },
                    peers: armed_peers(s.peers),
                },
            ],
        ),
        s.after_command(UserCommandView::RequestRescan(range), tweak) == s,
{
}

/// After a reset, sending the filter sends one that holds no item to every
/// known peer, in one command, and leaves every known peer armed.
pub proof fn lemma_reset_then_send_reaches_all(s: CoordinatorView, reset_tweak: u32, send_tweak: u32)
    requires
        s.wf(),
    ensures
        ({
            let fresh = FilterView::empty(
                DEFAULT_BITMAP_BYTES as nat,
                DEFAULT_ITEM_COUNT as nat,
                reset_tweak,
            );
            let reset = s.after_command(UserCommandView::ResetFilter, reset_tweak);
            let sent = reset.command_output(UserCommandView::SendLoadFilter, send_tweak);
            let after = reset.after_command(UserCommandView::SendLoadFilter, send_tweak);
            &&& fresh.is_empty()
            &&& forall|item: Seq<u8>| !fresh.contains(item)
            &&& known_peers(s.peers).len() > 0 ==> sent == Ok::<Seq<OutboundCommandView>, Error>(
                seq![
                    OutboundCommandView::LoadFilter {
                        filter: fresh.wire(),
                        peers: known_peers(s.peers),
                    },
                ],
            )
            &&& known_peers(s.peers).len() == 0 ==> sent == Ok::<Seq<OutboundCommandView>, Error>(
                seq![],
            )
            &&& known_peers(after.peers) == known_peers(s.peers)
            &&& unarmed_peers(after.peers) == Seq::<PeerId>::empty()
        }),
{
    let fresh = FilterView::empty(
        DEFAULT_BITMAP_BYTES as nat,
        DEFAULT_ITEM_COUNT as nat,
        reset_tweak,
    );
    lemma_fresh_is_empty(DEFAULT_BITMAP_BYTES as nat, DEFAULT_ITEM_COUNT as nat, reset_tweak);
    assert forall|item: Seq<u8>| !fresh.contains(item) by {
        lemma_empty_contains_nothing(fresh, item);
    }
    lemma_cleared_disarms_all(s.peers);
    lemma_armed_leaves_none_unarmed(cleared(s.peers));
}

/// Clearing the filter and the peers is a reset followed by sending the
/// filter: the empty filter goes to every known peer.
pub proof fn lemma_clear_is_reset_then_send(s: CoordinatorView, tweak: u32, send_tweak: u32)
    ensures
        s.after_command(UserCommandView::ClearFilterAndPeers, tweak) == s.after_command(
            UserCommandView::ResetFilter,
            tweak,
        ).after_command(UserCommandView::SendLoadFilter, send_tweak),
        s.command_output(UserCommandView::ClearFilterAndPeers, tweak) == s.after_command(
            UserCommandView::ResetFilter,
            tweak,
        ).command_output(UserCommandView::SendLoadFilter, send_tweak),
{
}

/// The single owner of the filter state and of the peers' records.
pub struct ScanCoordinator {
    filter_state: FilterState,
    peers: PeerScanTracker,
    seen: Vec<TxId>,
    tip: Option<u64>,
}

impl View for ScanCoordinator {
    type V = CoordinatorView;

    closed spec fn view(&self) -> CoordinatorView {
        CoordinatorView {
            filter: self.filter_state@,
            peers: self.peers@,
            seen: self.seen@.to_set(),
            tip: self.tip,
        }
    }
}

impl ScanCoordinator {
    /// The validity of a coordinator, stated of its view.
    pub open spec fn wf(&self) -> bool {
        self@.wf()
    }

    /// A coordinator to which nothing has happened, with the nonce given.
    pub fn with_tweak(tweak: u32) -> (c: ScanCoordinator)
        ensures
            c.wf(),
            c@ == CoordinatorView::initial(tweak),
    {
        let c = ScanCoordinator {
            filter_state: FilterState::with_tweak(tweak),
            peers: PeerScanTracker::new(),
            seen: Vec::new(),
            tip: None,
        };
        assert(c.seen@.to_set() =~= Set::<TxId>::empty());
        c
    }

    /// A coordinator to which nothing has happened, with a nonce drawn at
    /// random.
    pub fn new() -> (c: ScanCoordinator)
        ensures
            c.wf(),
            c@ == CoordinatorView::initial(c@.filter.filter.tweak),
    {
        ScanCoordinator::with_tweak(random_tweak())
    }

    /// The filter state.
    pub fn filter_state(&self) -> (s: &FilterState)
        ensures
            s@ == self@.filter,
    {
        &self.filter_state
    }

    /// The peers' records.
    pub fn peers(&self) -> (t: &PeerScanTracker)
        ensures
            t@ == self@.peers,
    {
        &self.peers
    }

    /// The height at which the network became ready, once it has.
    pub fn tip(&self) -> (t: Option<u64>)
        ensures
            t == self@.tip,
    {
        self.tip
    }

    /// Whether the transaction has matched before.
    pub fn has_seen(&self, txid: &TxId) -> (r: bool)
        ensures
            r == self@.seen.contains(*txid),
    {
        let mut i: usize = 0;
        while i < self.seen.len()
            invariant
                i <= self.seen@.len(),
                forall|j: int| 0 <= j < i ==> self.seen@[j] != *txid,
            decreases self.seen@.len() - i,
        {
            if self.seen[i].same_as(txid) {
                assert(self.seen@.contains(*txid));
                return true;
            }
            i += 1;
        }
        assert(!self.seen@.contains(*txid));
        false
    }

    /// Applies a network event and returns the notifications to show, in
    /// order.
    pub fn handle_network_event(&mut self, event: NetworkEvent) -> (shown: Vec<Notification>)
        requires
            old(self).wf(),
        ensures
            final(self).wf(),
            final(self)@ == old(self)@.after_event(event),
            shown@ == old(self)@.notifications(event),
    {
        let mut shown: Vec<Notification> = Vec::new();
        match event {
            NetworkEvent::Ready { tip } => {
                self.tip = Some(tip);
                shown.push(Notification::HeaderLoaded(tip));
                shown.push(Notification::NetworkConnected);
            },
            NetworkEvent::BlockConnected { height } => {
                shown.push(Notification::BlockConnected(height));
            },
            NetworkEvent::PeerNegotiated { peer } => {
                self.peers.register(peer);
            },
            NetworkEvent::PeerDisconnected { peer } => {
                self.peers.deregister(peer);
            },
            NetworkEvent::MerkleScanStarted { peer } => {
                if let Some(scanning) = self.peers.mark_scanning(peer, true) {
                    shown.push(Notification::ScanningChanged(scanning));
                }
            },
            NetworkEvent::MerkleScanStopped { peer } => {
                if let Some(scanning) = self.peers.mark_scanning(peer, false) {
                    shown.push(Notification::ScanningChanged(scanning));
                }
            },
            NetworkEvent::MatchedTransaction { txid } => {
                if !self.has_seen(&txid) {
                    let ghost before = self.seen@;
                    self.seen.push(txid);
                    shown.push(Notification::MatchedTransaction(txid));
                    assert(self.seen@.to_set() =~= before.to_set().insert(txid)) by {
                        assert forall|t: TxId| self.seen@.contains(t) <==> before.contains(t) || t
                            == txid by {
                            if before.contains(t) {
                                let j = choose|j: int| 0 <= j < before.len() && before[j] == t;
                                assert(self.seen@[j] == t);
                            }
                            if t == txid {
                                assert(self.seen@[before.len() as int] == t);
                            }
                        }
                    }
                } else {
                    assert(self.seen@.to_set() =~= self.seen@.to_set().insert(txid));
                }
            },
            NetworkEvent::ReceivedMerkleBlock { height } => {
                shown.push(Notification::ReceivedBlock(height));
            },
            NetworkEvent::PeerLoadedFilter { peer } => {
                if self.filter_state.is_dirty() {
                    shown.push(Notification::PeerLoadedFilter(peer));
                }
            },
        }
        assert(shown@ =~= old(self)@.notifications(event));
        shown
    }

    /// Sends the current filter to the known peers that do not have it, and
    /// arms them. Nothing is sent when there is no such peer.
    fn send_load_filter(&mut self) -> (sent: Vec<OutboundCommand>)
        requires
            old(self).wf(),
        ensures
            final(self).wf(),
            final(self)@ == old(self)@.after_send(),
            commands_view(sent@) == old(self)@.send_output(),
    {
        let mut sent: Vec<OutboundCommand> = Vec::new();
        let targets = self.peers.unarmed_peers();
        self.peers.arm(targets.as_slice());
        if targets.len() > 0 {
            let filter = self.filter_state.snapshot();
            sent.push(OutboundCommand::LoadFilter { filter, peers: targets });
            assert(commands_view(sent@) =~= seq![
                OutboundCommandView::LoadFilter {
                    filter: old(self)@.filter.filter.wire(),
                    peers: unarmed_peers(old(self)@.peers),
                },
            ]);
        } else {
            assert(commands_view(sent@) =~= Seq::<OutboundCommandView>::empty());
        }
        sent
    }

    /// Applies a user command, giving a new filter the nonce `tweak`, and
    /// returns the commands to send, in order, or the error to report. An item
    /// that cannot be decoded changes nothing.
    pub fn handle_user_command_with_tweak(&mut self, command: UserCommand, tweak: u32) -> (output:
        Result<Vec<OutboundCommand>, Error>)
        requires
            old(self).wf(),
            command@.fits(),
        ensures
            final(self).wf(),
            final(self)@ == old(self)@.after_command(command@, tweak),
            output_view(output) == old(self)@.command_output(command@, tweak),
    {
        match command {
            UserCommand::AddFilterItem { data, address_payload } => {
                match self.filter_state.add_item_with_tweak(data.as_str(), address_payload, tweak) {
                    Ok(()) => {
                        let sent: Vec<OutboundCommand> = Vec::new();
                        assert(commands_view(sent@) =~= Seq::<OutboundCommandView>::empty());
                        Ok(sent)
                    },
                    Err(e) => Err(e),
                }
            },
            UserCommand::SendLoadFilter => Ok(self.send_load_filter()),
            UserCommand::ResetFilter => {
                self.filter_state.reset_with_tweak(tweak);
                self.peers.clear();
                let sent: Vec<OutboundCommand> = Vec::new();
                assert(commands_view(sent@) =~= Seq::<OutboundCommandView>::empty());
                Ok(sent)
            },
            UserCommand::ClearFilterAndPeers => {
                self.filter_state.reset_with_tweak(tweak);
                self.peers.clear();
                Ok(self.send_load_filter())
            },
            UserCommand::RequestRescan(range) => {
                let range = range.normalize();
                let mut sent: Vec<OutboundCommand> = Vec::new();
                sent.push(
                    OutboundCommand::RequestRescan {
                        from: range.begin_height,
                        to: range.end_height,
                        peers: self.peers.armed_peers(),
                    },
                );
                assert(commands_view(sent@) =~= seq![
                    OutboundCommandView::RequestRescan {
                        from: range.begin_height,
                        to: range.end_height,
                        peers: armed_peers(self@.peers),
                    },
                ]);
                Ok(sent)
            },
        }
    }

    /// As [`ScanCoordinator::handle_user_command_with_tweak`], with a nonce
    /// drawn at random.
    pub fn handle_user_command(&mut self, command: UserCommand) -> (output: Result<
        Vec<OutboundCommand>,
        Error,
    >)
        requires
            old(self).wf(),
            command@.fits(),
        ensures
            final(self).wf(),
            exists|tweak: u32|
                {
                    &&& final(self)@ == #[trigger] old(self)@.after_command(command@, tweak)
                    &&& output_view(output) == old(self)@.command_output(command@, tweak)
                },
    {
        let tweak = random_tweak();
        self.handle_user_command_with_tweak(command, tweak)
    }
    /// One turn of the loop, after both channels were polled: applies the
    /// user's command, if one was waiting, then the network's event, if one
    /// was. A command that is rejected is reported and changes nothing; a
    /// channel whose other end is gone ends the loop after this turn.
    pub fn step_with_tweak(
        &mut self,
        user: Polled<UserCommand>,
        network: Polled<NetworkEvent>,
        tweak: u32,
    ) -> (turn: Turn)
        requires
            old(self).wf(),
            user matches Polled::Item(command) ==> command@.fits(),
        ensures
            final(self).wf(),
            final(self)@ == old(self)@.after_turn(polled_command_view(user), network, tweak),
            turn@ == old(self)@.turn(polled_command_view(user), network, tweak),
    {
        let mut turn = Turn {
            commands: Vec::new(),
            notifications: Vec::new(),
            rejected: None,
            stop: None,
        };
        assert(commands_view(turn.commands@) =~= Seq::<OutboundCommandView>::empty());
        match user {
            Polled::Item(command) => {
                match self.handle_user_command_with_tweak(command, tweak) {
                    Ok(commands) => {
                        turn.commands = commands;
                    },
                    Err(e) => {
                        turn.rejected = Some(e);
                    },
                }
            },
            Polled::Empty => {},
            Polled::Closed => {
                turn.stop = Some(Error::ChannelClosed);
            },
        }
        match network {
            Polled::Item(event) => {
                turn.notifications = self.handle_network_event(event);
            },
            Polled::Empty => {},
            Polled::Closed => {
                turn.stop = Some(Error::ChannelClosed);
            },
        }
        turn
    }

    /// As [`ScanCoordinator::step_with_tweak`], with a nonce drawn at random.
    pub fn step(&mut self, user: Polled<UserCommand>, network: Polled<NetworkEvent>) -> (turn: Turn)
        requires
            old(self).wf(),
            user matches Polled::Item(command) ==> command@.fits(),
        ensures
            final(self).wf(),
            exists|tweak: u32|
                {
                    &&& final(self)@ == #[trigger] old(self)@.after_turn(
                        polled_command_view(user),
                        network,
                        tweak,
                    )
                    &&& turn@ == old(self)@.turn(polled_command_view(user), network, tweak)
                },
    {
        let tweak = random_tweak();
        self.step_with_tweak(user, network, tweak)
    }
}

} // verus!
