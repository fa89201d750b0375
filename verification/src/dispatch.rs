//! The dispatch engine: what a node does on each event.
//!
//! The engine is a function from its state and one event to its next state and
//! the actions to perform. The caller owns the event sources (the network
//! stack and a timer), hands each event over as it comes, and performs the
//! actions in the order given. The engine never waits and never fails.

use crate::file_exchange::file_response_in;
use crate::membership::{MembershipView, PeerId};
use crate::message::{
    is_refusal, FileRequest, FileResponse, GitResponse, GitResponseView, Request, Response,
    ResponseView,
};
use crate::text::{same_text, string_from_utf8};
use vstd::prelude::*;
use vstd::slice::slice_to_vec;
use vstd::utf8::{decode_utf8, valid_utf8};

verus! {

broadcast use vstd::utf8::encode_utf8_decode_utf8;

/// The topic that carries chat text.
pub const CHAT_TOPIC: &'static str = "universal-connectivity";

/// The topic on which peers announce content by its identifier.
pub const FILE_TOPIC: &'static str = "universal-connectivity-file";

/// The topic that carries peer-discovery signals.
pub const PEER_DISCOVERY_TOPIC: &'static str = "universal-connectivity-browser-peer-discovery";

/// The seconds between two timer ticks, unless the engine is made with another
/// interval.
pub const TICK_INTERVAL_SECS: u64 = 15;

/// The cause stated in the answer to a request that the engine does not serve.
pub const UNSUPPORTED_REQUEST: &'static str = "request not supported";

/// What a gossip message on a topic means.
#[derive(Debug, Clone, Copy, PartialEq, Eq, Structural)]
pub enum TopicKind {
    Chat,
    File,
    PeerDiscovery,
    Unknown,
}

/// The meaning of a topic name. A name other than the three known ones means
/// nothing.
pub open spec fn topic_kind(topic: Seq<char>) -> TopicKind {
    if topic == CHAT_TOPIC@ {
        TopicKind::Chat
    } else if topic == FILE_TOPIC@ {
        TopicKind::File
    } else if topic == PEER_DISCOVERY_TOPIC@ {
        TopicKind::PeerDiscovery
    } else {
        TopicKind::Unknown
    }
}

/// The meaning of a topic name.
pub fn classify_topic(topic: &str) -> (kind: TopicKind)
    ensures
        kind == topic_kind(topic@),
{
    if same_text(topic, CHAT_TOPIC) {
        TopicKind::Chat
    } else if same_text(topic, FILE_TOPIC) {
        TopicKind::File
    } else if same_text(topic, PEER_DISCOVERY_TOPIC) {
        TopicKind::PeerDiscovery
    } else {
        TopicKind::Unknown
    }
}

/// What the network stack or the timer reports.
#[derive(Debug, Clone, PartialEq, Eq)]
pub enum Event {
    /// A gossip message arrived on `topic`.
    Gossip { topic: String, source: Option<PeerId>, data: Vec<u8> },
    /// A connection to `peer` is up.
    ConnectionEstablished { peer: PeerId },
    /// The connection to `peer` is gone.
    ConnectionClosed { peer: PeerId },
    /// `peer` did not answer the identify probe in time.
    IdentifyTimeout { peer: PeerId },
    /// A peer reported the address under which it sees this node.
    AddressObserved { address: Vec<u8> },
    /// `peer` sent a request.
    RequestReceived { peer: PeerId, request: Request },
    /// `peer` answered a request of this node.
    ResponseReceived { peer: PeerId, response: FileResponse },
    /// The last routing refresh could not be started.
    RefreshFailed,
    /// The timer fired.
    Tick,
}

/// Something for the caller to record. It changes nothing.
#[derive(Debug, Clone, PartialEq, Eq)]
pub enum Notice {
    /// Chat text arrived.
    Chat { source: Option<PeerId>, text: Vec<u8> },
    /// A peer-discovery signal arrived.
    PeerDiscovery { source: Option<PeerId> },
    /// A content announcement that names no peer to ask, or whose identifier
    /// is not text. No request is sent for it.
    UnusableAnnouncement { source: Option<PeerId>, data: Vec<u8> },
    /// A message arrived on a topic that means nothing here.
    UnexpectedTopic { topic: String },
    /// A response of `size` bytes arrived from `peer`.
    ResponseReceived { peer: PeerId, size: usize },
    /// A routing refresh failed. The next tick tries again.
    RefreshFailed,
}

/// What the caller is to do.
#[derive(Debug, Clone, PartialEq, Eq)]
pub enum Action {
    /// Send `request` to `peer`, and to no one else.
    SendRequest { peer: PeerId, request: FileRequest },
    /// Answer the request of `peer` with `response`, on the exchange that the
    /// request came by.
    SendResponse { peer: PeerId, response: Response },
    /// Tell the routing table that `peer` is gone.
    RemovePeer { peer: PeerId },
    /// Advertise `address` as an address of this node.
    AddExternalAddress { address: Vec<u8> },
    /// Set the timer to fire `seconds` from now.
    RearmTimer { seconds: u64 },
    /// Start a routing refresh.
    Bootstrap,
    /// Record a notice.
    Report(Notice),
}

/// The view of a [`Notice`].
pub enum NoticeView {
    Chat { source: Option<Seq<u8>>, text: Seq<u8> },
    PeerDiscovery { source: Option<Seq<u8>> },
    UnusableAnnouncement { source: Option<Seq<u8>>, data: Seq<u8> },
    UnexpectedTopic { topic: Seq<char> },
    ResponseReceived { peer: Seq<u8>, size: usize },
    RefreshFailed,
}

/// The view of an [`Action`].
pub enum ActionView {
    SendRequest { peer: Seq<u8>, file_id: Seq<char> },
    SendResponse { peer: Seq<u8>, response: ResponseView },
    RemovePeer { peer: Seq<u8> },
    AddExternalAddress { address: Seq<u8> },
    RearmTimer { seconds: u64 },
    Bootstrap,
    Report(NoticeView),
}

/// The identifier of the peer that a message names as its source, if it names
/// one.
pub open spec fn source_view(source: Option<PeerId>) -> Option<Seq<u8>> {
    match source {
        Some(peer) => Some(peer@),
        None => None,
    }
}

impl View for Notice {
    type V = NoticeView;

    open spec fn view(&self) -> NoticeView {
        match self {
            Notice::Chat { source, text } => NoticeView::Chat {
                source: source_view(*source),
                text: text@,
            },
            Notice::PeerDiscovery { source } => NoticeView::PeerDiscovery {
                source: source_view(*source),
            },
            Notice::UnusableAnnouncement { source, data } => NoticeView::UnusableAnnouncement {
                source: source_view(*source),
                data: data@,
            },
            Notice::UnexpectedTopic { topic } => NoticeView::UnexpectedTopic { topic: topic@ },
            Notice::ResponseReceived { peer, size } => NoticeView::ResponseReceived {
                peer: peer@,
                size: *size,
            },
            Notice::RefreshFailed => NoticeView::RefreshFailed,
        }
    }
}

impl View for Action {
    type V = ActionView;

    open spec fn view(&self) -> ActionView {
        match self {
            Action::SendRequest { peer, request } => ActionView::SendRequest {
                peer: peer@,
                file_id: request.file_id@,
            },
            Action::SendResponse { peer, response } => ActionView::SendResponse {
                peer: peer@,
                response: response@,
            },
            Action::RemovePeer { peer } => ActionView::RemovePeer { peer: peer@ },
            Action::AddExternalAddress { address } => ActionView::AddExternalAddress {
                address: address@,
            },
            Action::RearmTimer { seconds } => ActionView::RearmTimer { seconds: *seconds },
            Action::Bootstrap => ActionView::Bootstrap,
            Action::Report(notice) => ActionView::Report(notice@),
        }
    }
}

/// The views of a list of actions, in order.
pub open spec fn action_views(actions: Seq<Action>) -> Seq<ActionView> {
    Seq::new(actions.len(), |i: int| actions[i]@)
}

/// What a gossip message calls for.
///
/// A content announcement that names its source and whose payload is text
/// calls for one request, to that source, for that identifier. Everything else
/// calls for a notice and nothing more.
pub open spec fn gossip_reaction(
    topic: Seq<char>,
    source: Option<Seq<u8>>,
    data: Seq<u8>,
) -> Seq<ActionView> {
    match topic_kind(topic) {
        TopicKind::Chat => seq![ActionView::Report(NoticeView::Chat { source, text: data })],
        TopicKind::File => if source is Some && valid_utf8(data) {
            seq![ActionView::SendRequest { peer: source->0, file_id: decode_utf8(data) }]
        } else {
            seq![ActionView::Report(NoticeView::UnusableAnnouncement { source, data })]
        },
        TopicKind::PeerDiscovery => seq![
            ActionView::Report(NoticeView::PeerDiscovery { source }),
        ],
        TopicKind::Unknown => seq![ActionView::Report(NoticeView::UnexpectedTopic { topic })],
    }
}

/// The answer to a request that the engine does not serve: on the git
/// exchange the `Error` variant with the cause, on the file exchange the
/// response without content.
pub open spec fn refusal_of(request: Request) -> ResponseView {
    match request {
        Request::Git(_) => ResponseView::Git(GitResponseView::Error(UNSUPPORTED_REQUEST@)),
        Request::File(_) => ResponseView::File(Seq::empty()),
    }
}

/// What an event calls for, with the timer interval `seconds`.
pub open spec fn reaction(event: Event, seconds: u64) -> Seq<ActionView> {
    match event {
        Event::Gossip { topic, source, data } => gossip_reaction(
            topic@,
            source_view(source),
            data@,
        ),
        Event::ConnectionEstablished { peer } => seq![],
        Event::ConnectionClosed { peer } => seq![ActionView::RemovePeer { peer: peer@ }],
        Event::IdentifyTimeout { peer } => seq![ActionView::RemovePeer { peer: peer@ }],
        Event::AddressObserved { address } => seq![
            ActionView::AddExternalAddress { address: address@ },
        ],
        Event::RequestReceived { peer, request } => seq![
            ActionView::SendResponse { peer: peer@, response: refusal_of(request) },
        ],
        Event::ResponseReceived { peer, response } => seq![
            ActionView::Report(
                NoticeView::ResponseReceived {
                    peer: peer@,
                    size: response.file_body@.len() as usize,
                },
            ),
        ],
        Event::RefreshFailed => seq![ActionView::Report(NoticeView::RefreshFailed)],
        Event::Tick => seq![ActionView::RearmTimer { seconds }, ActionView::Bootstrap],
    }
}

/// The membership view after an event.
///
/// A peer enters when a connection to it is established, or when a message on
/// a known topic names it as its source. It leaves when its connection is
/// closed or its identify probe times out. Nothing else touches the view.
pub open spec fn members_after(members: Set<Seq<u8>>, event: Event) -> Set<Seq<u8>> {
    match event {
        Event::Gossip { topic, source, data } => if source is Some && topic_kind(topic@)
            != TopicKind::Unknown {
            members.insert(source->0@)
        } else {
            members
        },
        Event::ConnectionEstablished { peer } => members.insert(peer@),
        Event::ConnectionClosed { peer } => members.remove(peer@),
        Event::IdentifyTimeout { peer } => members.remove(peer@),
        _ => members,
    }
}

/// The dispatch engine: the membership view and the timer interval.
pub struct Engine {
    membership: MembershipView,
    tick_interval: u64,
}

impl Engine {
    /// The peers that the engine believes reachable.
    pub closed spec fn members(&self) -> Set<Seq<u8>> {
        self.membership@
    }

    /// The seconds between two ticks.
    pub closed spec fn interval(&self) -> u64 {
        self.tick_interval
    }

    /// An engine that knows no peer and ticks every `TICK_INTERVAL_SECS`.
    pub fn new() -> (engine: Engine)
        ensures
            engine.members() == Set::<Seq<u8>>::empty(),
            engine.interval() == TICK_INTERVAL_SECS,
    {
        Engine { membership: MembershipView::new(), tick_interval: TICK_INTERVAL_SECS }
    }

    /// An engine that knows no peer and ticks every `seconds`.
    pub fn with_interval(seconds: u64) -> (engine: Engine)
        ensures
            engine.members() == Set::<Seq<u8>>::empty(),
            engine.interval() == seconds,
    {
        Engine { membership: MembershipView::new(), tick_interval: seconds }
    }

    /// The seconds between two ticks.
    pub fn tick_interval(&self) -> (seconds: u64)
        ensures
            seconds == self.interval(),
    {
        self.tick_interval
    }

    /// Whether the engine believes `peer` reachable.
    pub fn is_member(&self, peer: &PeerId) -> (member: bool)
        ensures
            member == self.members().contains(peer@),
    {
        self.membership.contains(peer)
    }

    /// The peers that the engine believes reachable.
    pub fn membership(&self) -> (view: &MembershipView)
        ensures
            view@ == self.members(),
    {
        &self.membership
    }

    /// Takes a gossip message.
    pub fn on_gossip(&mut self, topic: String, source: Option<PeerId>, data: Vec<u8>) -> (actions:
        Vec<Action>)
        ensures
            action_views(actions@) == gossip_reaction(topic@, source_view(source), data@),
            final(self).members() == members_after(
                old(self).members(),
                Event::Gossip { topic, source, data },
            ),
            final(self).interval() == old(self).interval(),
    {
        let kind = classify_topic(topic.as_str());
        match kind {
            TopicKind::Unknown => {},
            _ => {
                match &source {
                    Some(peer) => {
                        self.membership.observe(peer.duplicate());
                    },
                    None => {},
                }
            },
        }
        let action = match kind {
            TopicKind::Chat => Action::Report(Notice::Chat { source, text: data }),
            TopicKind::PeerDiscovery => Action::Report(Notice::PeerDiscovery { source }),
            TopicKind::Unknown => Action::Report(Notice::UnexpectedTopic { topic }),
            TopicKind::File => {
                match source {
                    Some(peer) => {
                        let kept = slice_to_vec(data.as_slice());
                        match string_from_utf8(data) {
                            Some(file_id) => Action::SendRequest {
                                peer,
                                request: FileRequest { file_id },
                            },
                            None => Action::Report(
                                Notice::UnusableAnnouncement { source: Some(peer), data: kept },
                            ),
                        }
                    },
                    None => Action::Report(Notice::UnusableAnnouncement { source: None, data }),
                }
            },
        };
        let mut actions: Vec<Action> = Vec::new();
        actions.push(action);
        actions
    }

    /// Takes the loss of `peer`: its connection closed, or it did not answer
    /// the identify probe. The peer leaves the view at once, and the routing
    /// table is told so, whether or not the peer was in the view.
    pub fn on_peer_lost(&mut self, peer: PeerId) -> (actions: Vec<Action>)
        ensures
            action_views(actions@) == seq![ActionView::RemovePeer { peer: peer@ }],
            final(self).members() == old(self).members().remove(peer@),
            !old(self).members().contains(peer@) ==> final(self).members() == old(self).members(),
            final(self).interval() == old(self).interval(),
    {
        self.membership.remove(&peer);
        let mut actions: Vec<Action> = Vec::new();
        actions.push(Action::RemovePeer { peer });
        actions
    }

    /// Takes a request of `peer`. The engine serves no request: it answers
    /// each with one refusal, on the exchange that the request came by.
    pub fn on_request(&self, peer: PeerId, request: Request) -> (actions: Vec<Action>)
        ensures
            action_views(actions@) == seq![
                ActionView::SendResponse { peer: peer@, response: refusal_of(request) },
            ],
    {
        let response = match request {
            Request::Git(_) => Response::Git(GitResponse::Error(UNSUPPORTED_REQUEST.to_owned())),
            Request::File(_) => Response::File(FileResponse { file_body: Vec::new() }),
        };
        let mut actions: Vec<Action> = Vec::new();
        actions.push(Action::SendResponse { peer, response });
        actions
    }

    /// Takes a timer tick: the timer is set again first, then the routing
    /// refresh is started.
    pub fn on_tick(&self) -> (actions: Vec<Action>)
        ensures
            action_views(actions@) == seq![
                ActionView::RearmTimer { seconds: self.interval() },
                ActionView::Bootstrap,
            ],
    {
        let mut actions: Vec<Action> = Vec::new();
        actions.push(Action::RearmTimer { seconds: self.tick_interval });
        actions.push(Action::Bootstrap);
        actions
    }

    /// Takes one event and says what to do, in order.
    pub fn handle(&mut self, event: Event) -> (actions: Vec<Action>)
        ensures
            action_views(actions@) == reaction(event, old(self).interval()),
            final(self).members() == members_after(old(self).members(), event),
            final(self).interval() == old(self).interval(),
    {
        match event {
            Event::Gossip { topic, source, data } => self.on_gossip(topic, source, data),
            Event::ConnectionEstablished { peer } => {
                self.membership.observe(peer);
                Vec::new()
            },
            Event::ConnectionClosed { peer } => self.on_peer_lost(peer),
            Event::IdentifyTimeout { peer } => self.on_peer_lost(peer),
            Event::AddressObserved { address } => {
                let mut actions: Vec<Action> = Vec::new();
                actions.push(Action::AddExternalAddress { address });
                actions
            },
            Event::RequestReceived { peer, request } => self.on_request(peer, request),
            Event::ResponseReceived { peer, response } => {
                let size = response.file_body.len();
                let mut actions: Vec<Action> = Vec::new();
                actions.push(Action::Report(Notice::ResponseReceived { peer, size }));
                actions
            },
            Event::RefreshFailed => {
                let mut actions: Vec<Action> = Vec::new();
                actions.push(Action::Report(Notice::RefreshFailed));
                actions
            },
            Event::Tick => self.on_tick(),
        }
    }
}

/// The three topics are three different names, so each message has one
/// meaning.
pub proof fn lemma_topics_are_distinct()
    ensures
        topic_kind(CHAT_TOPIC@) == TopicKind::Chat,
        topic_kind(FILE_TOPIC@) == TopicKind::File,
        topic_kind(PEER_DISCOVERY_TOPIC@) == TopicKind::PeerDiscovery,
{
    reveal_strlit("universal-connectivity");
    reveal_strlit("universal-connectivity-file");
    reveal_strlit("universal-connectivity-browser-peer-discovery");
    assert(CHAT_TOPIC@.len() == 22);
    assert(FILE_TOPIC@.len() == 27);
    assert(PEER_DISCOVERY_TOPIC@.len() == 45);
}

/// An announcement of a content identifier by a peer calls for exactly one
/// request, addressed to that peer, for that identifier.
pub proof fn lemma_announcement_is_fetched_from_its_source(source: Seq<u8>, data: Seq<u8>)
    requires
        valid_utf8(data),
    ensures
        gossip_reaction(FILE_TOPIC@, Some(source), data) == seq![
            ActionView::SendRequest { peer: source, file_id: decode_utf8(data) },
        ],
{
    lemma_topics_are_distinct();
}

/// Every request is answered with exactly one response, to the peer that
/// asked, and that response is a refusal: an error on the git exchange, and on
/// the file exchange a response that its reader reports as a failure.
pub proof fn lemma_request_gets_one_error(peer: PeerId, request: Request, seconds: u64)
    ensures
        reaction(Event::RequestReceived { peer, request }, seconds).len() == 1,
        reaction(Event::RequestReceived { peer, request }, seconds)[0] matches ActionView::SendResponse {
            peer: to,
            response,
        } && to == peer@ && is_refusal(response) && match response {
            ResponseView::Git(answer) => request is Git,
            ResponseView::File(file_body) => request is File && file_response_in(file_body) is Err,
        },
{
}

/// Losing a peer twice is losing it once: after a closed connection and an
/// identify timeout of the same peer, in either order, the peer is out of the
/// view and every other peer is where it was.
pub proof fn lemma_lost_peer_stays_out(members: Set<Seq<u8>>, first: PeerId, second: PeerId)
    requires
        first@ == second@,
    ensures
        members_after(
            members_after(members, Event::ConnectionClosed { peer: first }),
            Event::IdentifyTimeout { peer: second },
        ) == members.remove(first@),
        members_after(
            members_after(members, Event::IdentifyTimeout { peer: first }),
            Event::ConnectionClosed { peer: second },
        ) == members.remove(first@),
        !members.contains(first@) ==> members_after(
            members,
            Event::ConnectionClosed { peer: first },
        ) == members,
{
    crate::membership::lemma_remove_is_idempotent(members, first@);
}

/// A tick calls for exactly one routing refresh, after the timer is set
/// again, and leaves the view alone.
pub proof fn lemma_tick_refreshes_once(members: Set<Seq<u8>>, seconds: u64)
    ensures
        reaction(Event::Tick, seconds) == seq![
            ActionView::RearmTimer { seconds },
            ActionView::Bootstrap,
        ],
        members_after(members, Event::Tick) == members,
{
}

} // verus!
