//! The decisions of a transaction-status WebSocket session: which
//! transaction ids a client follows, what each incoming frame or status
//! update asks of the server, and when the session ends.
//!
//! The server loop feeds each thing that happens to `SocketSession::handle`
//! and carries out the actions it returns, in order.
use vstd::prelude::*;
use vstd::string::StringExecFns;

verus! {

/// Transaction status.
#[derive(Clone, Copy, Debug, PartialEq, Eq, Structural)]
pub enum TransactionStatus {
    /// Transaction is pending
    Pending,
    /// Transaction submitted to network
    Submitted,
    /// Transaction confirmed on-chain
    Confirmed,
    /// Transaction failed
    Failed,
}

/// Transaction status event.
pub struct TransactionStatusEvent {
    /// Transaction ID
    pub tx_id: String,
    /// Current status
    pub status: TransactionStatus,
    /// Timestamp of status update
    pub timestamp: String,
    /// Optional message
    pub message: Option<String>,
}

/// WebSocket subscription message.
pub struct SubscribeMessage {
    /// Action type
    pub action: String,
    /// Transaction ID to subscribe to
    pub tx_id: String,
}

/// Something that happened on a session.
pub enum SocketEvent {
    /// A text frame that reads as a subscription message.
    Message(SubscribeMessage),
    /// A text frame that does not read as a subscription message.
    Unreadable,
    /// A close frame.
    Close,
    /// A binary, ping or pong frame.
    OtherFrame,
    /// The connection failed.
    Error,
    /// The connection ended without a close frame.
    Ended,
    /// A status update arrived from the server's status channel.
    Update(TransactionStatusEvent),
    /// A frame could not be sent to the client.
    SendFailed,
}

/// What the server does for the session.
pub enum SocketAction {
    /// Register the client as a subscriber of the transaction.
    AddSubscriber(String),
    /// Unregister the client as a subscriber of the transaction.
    RemoveSubscriber(String),
    /// Start receiving status updates for the transaction.
    Listen(String),
    /// Stop receiving status updates for the transaction.
    StopListening(String),
    /// Send the client a `subscribed` confirmation for the transaction.
    SendSubscribed(String),
    /// Send the client a `status_update` frame.
    SendStatus(TransactionStatusEvent),
    /// End the session.
    Exit,
}

/// A session's state: the transaction ids followed, in subscription order
/// (an id subscribed twice appears twice), and whether it has ended.
pub struct SocketSession {
    subscriptions: Vec<String>,
    ended: bool,
}

/// A session's state as plain values.
pub struct SessionState {
    pub subscriptions: Seq<String>,
    pub ended: bool,
}

impl View for SocketSession {
    type V = SessionState;

    closed spec fn view(&self) -> SessionState {
        SessionState { subscriptions: self.subscriptions@, ended: self.ended }
    }
}

/// `ids` without those equal to `id`, in order.
pub open spec fn without(ids: Seq<String>, id: Seq<char>) -> Seq<String>
    decreases ids.len(),
{
    if ids.len() == 0 {
        seq![]
    } else {
        let rest = without(ids.drop_last(), id);
        if ids.last()@ == id {
            rest
        } else {
            rest.push(ids.last())
        }
    }
}

/// Some id in `ids` is `id`.
pub open spec fn follows(ids: Seq<String>, id: Seq<char>) -> bool {
    exists|i: int| 0 <= i < ids.len() && (#[trigger] ids[i])@ == id
}

/// One `RemoveSubscriber` per followed id, in order.
pub open spec fn removals(ids: Seq<String>) -> Seq<SocketAction> {
    ids.map_values(|id: String| SocketAction::RemoveSubscriber(id))
}

/// The session's next state and the actions it asks for, after `event`.
pub open spec fn step(s: SessionState, event: SocketEvent) -> (SessionState, Seq<SocketAction>) {
    match event {
        SocketEvent::Message(m) => if m.action@ == "subscribe"@ {
            (
                SessionState { subscriptions: s.subscriptions.push(m.tx_id), ..s },
                seq![
                    SocketAction::AddSubscriber(m.tx_id),
                    SocketAction::Listen(m.tx_id),
                    SocketAction::SendSubscribed(m.tx_id),
                ],
            )
        } else if m.action@ == "unsubscribe"@ {
            (
                SessionState { subscriptions: without(s.subscriptions, m.tx_id@), ..s },
                seq![SocketAction::RemoveSubscriber(m.tx_id), SocketAction::StopListening(m.tx_id)],
            )
        } else {
            (s, seq![])
        },
        SocketEvent::Close | SocketEvent::Ended => (
            SessionState { ended: true, ..s },
            removals(s.subscriptions).push(SocketAction::Exit),
        ),
        SocketEvent::Error | SocketEvent::SendFailed => (
            SessionState { ended: true, ..s },
            seq![SocketAction::Exit],
        ),
        SocketEvent::Update(e) => if follows(s.subscriptions, e.tx_id@) {
            (s, seq![SocketAction::SendStatus(e)])
        } else {
            (s, seq![])
        },
        SocketEvent::Unreadable | SocketEvent::OtherFrame => (s, seq![]),
    }
}

impl SocketSession {
    /// A session that follows nothing yet.
    pub fn new() -> (s: SocketSession)
        ensures
            s@.subscriptions == Seq::<String>::empty(),
            !s@.ended,
    {
        SocketSession { subscriptions: Vec::new(), ended: false }
    }

    /// The transaction ids followed, in subscription order.
    pub fn subscriptions(&self) -> (ids: &Vec<String>)
        ensures
            ids@ == self@.subscriptions,
    {
        &self.subscriptions
    }

    /// Whether the session has ended.
    pub fn is_ended(&self) -> (b: bool)
        ensures
            b == self@.ended,
    {
        self.ended
    }

    /// Handles `event` and returns what the server must do, in order.
    ///
    /// A `subscribe` message follows its transaction, registers the client,
    /// starts listening and confirms; `unsubscribe` stops following the
    /// transaction (every time it was subscribed), unregisters the client
    /// once and stops listening; other actions, unreadable frames and other
    /// frame kinds change nothing. A close frame or the end of the stream
    /// unregisters the client for each followed id, then ends the session;
    /// a connection error or a failed send ends it at once. A status update
    /// is forwarded to the client when it is about a followed transaction,
    /// and dropped otherwise.
    pub fn handle(&mut self, event: SocketEvent) -> (actions: Vec<SocketAction>)
        requires
            !old(self)@.ended,
        ensures
            (final(self)@, actions@) == step(old(self)@, event),
    {
        match event {
            SocketEvent::Message(m) => {
                if m.action == String::from_str("subscribe") {
                    let id = m.tx_id;
                    self.subscriptions.push(id.clone());
                    let mut actions: Vec<SocketAction> = Vec::new();
                    actions.push(SocketAction::AddSubscriber(id.clone()));
                    actions.push(SocketAction::Listen(id.clone()));
                    actions.push(SocketAction::SendSubscribed(id));
                    assert(actions@ =~= seq![
                        SocketAction::AddSubscriber(m.tx_id),
                        SocketAction::Listen(m.tx_id),
                        SocketAction::SendSubscribed(m.tx_id),
                    ]);
                    actions
                } else if m.action == String::from_str("unsubscribe") {
                    let id = m.tx_id;
                    self.subscriptions = without_id(&self.subscriptions, &id);
                    let mut actions: Vec<SocketAction> = Vec::new();
                    actions.push(SocketAction::RemoveSubscriber(id.clone()));
                    actions.push(SocketAction::StopListening(id));
                    assert(actions@ =~= seq![
                        SocketAction::RemoveSubscriber(m.tx_id),
                        SocketAction::StopListening(m.tx_id),
                    ]);
                    actions
                } else {
                    let actions: Vec<SocketAction> = Vec::new();
                    assert(actions@ =~= Seq::<SocketAction>::empty());
                    actions
                }
            },
            SocketEvent::Close | SocketEvent::Ended => {
                let mut actions = removal_actions(&self.subscriptions);
                actions.push(SocketAction::Exit);
                self.ended = true;
                actions
            },
            SocketEvent::Error | SocketEvent::SendFailed => {
                self.ended = true;
                let mut actions: Vec<SocketAction> = Vec::new();
                actions.push(SocketAction::Exit);
                assert(actions@ =~= seq![SocketAction::Exit]);
                actions
            },
            SocketEvent::Update(e) => {
                let mut actions: Vec<SocketAction> = Vec::new();
                if is_followed(&self.subscriptions, &e.tx_id) {
                    actions.push(SocketAction::SendStatus(e));
                    assert(actions@ =~= seq![SocketAction::SendStatus(e)]);
                } else {
                    assert(actions@ =~= Seq::<SocketAction>::empty());
                }
                actions
            },
            SocketEvent::Unreadable | SocketEvent::OtherFrame => {
                let actions: Vec<SocketAction> = Vec::new();
                assert(actions@ =~= Seq::<SocketAction>::empty());
                actions
            },
        }
    }
}

/// `ids` without those equal to `id`, in order.
fn without_id(ids: &Vec<String>, id: &String) -> (r: Vec<String>)
    ensures
        r@ == without(ids@, id@),
{
    let mut r: Vec<String> = Vec::new();
    let mut i: usize = 0;
    while i < ids.len()
        invariant
            i <= ids@.len(),
            r@ == without(ids@.take(i as int), id@),
        decreases ids@.len() - i,
    {
        proof {
            assert(ids@.take(i + 1).drop_last() =~= ids@.take(i as int));
            assert(ids@.take(i + 1).last() == ids@[i as int]);
        }
        if !(ids[i] == *id) {
            r.push(ids[i].clone());
        }
        i = i + 1;
    }
    assert(ids@.take(ids@.len() as int) =~= ids@);
    r
}

/// Whether some id in `ids` is `id`.
fn is_followed(ids: &Vec<String>, id: &String) -> (b: bool)
    ensures
        b == follows(ids@, id@),
{
    let mut i: usize = 0;
    while i < ids.len()
        invariant
            i <= ids@.len(),
            forall|j: int| 0 <= j < i ==> (#[trigger] ids@[j])@ != id@,
        decreases ids@.len() - i,
    {
        if ids[i] == *id {
            return true;
        }
        i = i + 1;
    }
    false
}

/// One `RemoveSubscriber` per id, in order.
fn removal_actions(ids: &Vec<String>) -> (r: Vec<SocketAction>)
    ensures
        r@ == removals(ids@),
{
    let mut r: Vec<SocketAction> = Vec::new();
    let mut i: usize = 0;
    while i < ids.len()
        invariant
            i <= ids@.len(),
            r@ == removals(ids@.take(i as int)),
        decreases ids@.len() - i,
    {
        r.push(SocketAction::RemoveSubscriber(ids[i].clone()));
        proof {
            assert(removals(ids@.take(i + 1)) =~= removals(ids@.take(i as int)).push(
                SocketAction::RemoveSubscriber(ids@[i as int]),
            ));
        }
        i = i + 1;
    }
    assert(ids@.take(ids@.len() as int) =~= ids@);
    r
}

proof fn lemma_without_absent(ids: Seq<String>, id: Seq<char>)
    requires
        forall|i: int| 0 <= i < ids.len() ==> (#[trigger] ids[i])@ != id,
    ensures
        without(ids, id) == ids,
    decreases ids.len(),
{
    if ids.len() > 0 {
        assert forall|i: int| 0 <= i < ids.drop_last().len() implies (#[trigger] ids.drop_last()[i])@
            != id by {
            assert(ids.drop_last()[i] == ids[i]);
        }
        lemma_without_absent(ids.drop_last(), id);
        assert(ids.drop_last().push(ids.last()) =~= ids);
    }
}

/// After unsubscribing from a transaction, the session follows no
/// transaction id equal to it.
pub proof fn law_unsubscribe_removes_every_occurrence(ids: Seq<String>, id: Seq<char>)
    ensures
        forall|i: int| 0 <= i < without(ids, id).len() ==> (#[trigger] without(ids, id)[i])@ != id,
    decreases ids.len(),
{
    if ids.len() > 0 {
        law_unsubscribe_removes_every_occurrence(ids.drop_last(), id);
        let rest = without(ids.drop_last(), id);
        assert forall|i: int| 0 <= i < without(ids, id).len() implies (#[trigger] without(
            ids,
            id,
        )[i])@ != id by {
            if ids.last()@ != id && i == rest.len() {
                assert(without(ids, id)[i] == ids.last());
            } else {
                assert(without(ids, id)[i] == rest[i]);
            }
        }
    }
}

/// Subscribing to a transaction the session does not follow yet and then
/// unsubscribing from it leaves the session as it was.
pub proof fn law_subscribe_then_unsubscribe(
    s: SessionState,
    subscribe: SubscribeMessage,
    unsubscribe: SubscribeMessage,
)
    requires
        subscribe.action@ == "subscribe"@,
        unsubscribe.action@ == "unsubscribe"@,
        unsubscribe.tx_id@ == subscribe.tx_id@,
        forall|i: int| 0 <= i < s.subscriptions.len() ==> (#[trigger] s.subscriptions[i])@
            != subscribe.tx_id@,
    ensures
        step(step(s, SocketEvent::Message(subscribe)).0, SocketEvent::Message(unsubscribe)).0 == s,
{
    reveal_strlit("subscribe");
    reveal_strlit("unsubscribe");
    assert("unsubscribe"@.len() != "subscribe"@.len());
    let after = step(s, SocketEvent::Message(subscribe)).0;
    assert(after.subscriptions == s.subscriptions.push(subscribe.tx_id));
    assert(after.subscriptions.drop_last() =~= s.subscriptions);
    lemma_without_absent(s.subscriptions, subscribe.tx_id@);
}

/// A session that ends on a close frame or at the end of the stream
/// unregisters the client once for each transaction it followed, in order,
/// and then exits; on an error it exits at once. Either way it has ended.
pub proof fn law_ending(s: SessionState, event: SocketEvent)
    requires
        event is Close || event is Ended || event is Error || event is SendFailed,
    ensures
        step(s, event).0.ended,
        step(s, event).0.subscriptions == s.subscriptions,
        step(s, event).1.last() == SocketAction::Exit,
        (event is Close || event is Ended) ==> step(s, event).1.len() == s.subscriptions.len() + 1
            && forall|i: int| 0 <= i < s.subscriptions.len() ==> #[trigger] step(s, event).1[i]
            == SocketAction::RemoveSubscriber(s.subscriptions[i]),
{
}

/// A session forwards exactly the status updates about transactions it
/// follows, each once, and drops the others; updates never change what it follows.
pub proof fn law_updates_only_for_followed(s: SessionState, e: TransactionStatusEvent)
    ensures
        step(s, SocketEvent::Update(e)).0 == s,
        follows(s.subscriptions, e.tx_id@) ==> step(s, SocketEvent::Update(e)).1 == seq![
            SocketAction::SendStatus(e),
        ],
        !follows(s.subscriptions, e.tx_id@) ==> step(s, SocketEvent::Update(e)).1.len() == 0,
{
}

/// Unsubscribing from `id` keeps exactly the followed ids that are not `id`,
/// in their order: the subscriptions filtered by `x@ != id`.
pub proof fn law_unsubscribe_keeps_the_others(ids: Seq<String>, id: Seq<char>)
    ensures
        without(ids, id) == ids.filter(|x: String| x@ != id),
    decreases ids.len(),
{
    reveal(Seq::filter);
    if ids.len() > 0 {
        law_unsubscribe_keeps_the_others(ids.drop_last(), id);
    }
}

} // verus!
