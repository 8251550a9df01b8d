use stellar_router::session::{
    SocketAction, SocketEvent, SocketSession, SubscribeMessage, TransactionStatus,
    TransactionStatusEvent,
};

fn message(action: &str, tx: &str) -> SocketEvent {
    SocketEvent::Message(SubscribeMessage { action: action.to_string(), tx_id: tx.to_string() })
}

fn describe(actions: &[SocketAction]) -> Vec<String> {
    actions
        .iter()
        .map(|a| match a {
            SocketAction::AddSubscriber(id) => format!("add {}", id),
            SocketAction::RemoveSubscriber(id) => format!("remove {}", id),
            SocketAction::Listen(id) => format!("listen {}", id),
            SocketAction::StopListening(id) => format!("stop {}", id),
            SocketAction::SendSubscribed(id) => format!("subscribed {}", id),
            SocketAction::SendStatus(e) => format!("status {}", e.tx_id),
            SocketAction::Exit => "exit".to_string(),
        })
        .collect()
}

#[test]
fn subscribe_registers_listens_and_confirms() {
    let mut s = SocketSession::new();
    let actions = s.handle(message("subscribe", "tx1"));
    assert_eq!(describe(&actions), ["add tx1", "listen tx1", "subscribed tx1"]);
    assert_eq!(s.subscriptions(), &vec!["tx1".to_string()]);
    assert!(!s.is_ended());
}

#[test]
fn unsubscribe_drops_every_occurrence() {
    let mut s = SocketSession::new();
    s.handle(message("subscribe", "tx1"));
    s.handle(message("subscribe", "tx2"));
    s.handle(message("subscribe", "tx1"));
    let actions = s.handle(message("unsubscribe", "tx1"));
    assert_eq!(describe(&actions), ["remove tx1", "stop tx1"]);
    assert_eq!(s.subscriptions(), &vec!["tx2".to_string()]);
}

#[test]
fn subscribe_then_unsubscribe_restores_session() {
    let mut s = SocketSession::new();
    s.handle(message("subscribe", "a"));
    s.handle(message("subscribe", "b"));
    s.handle(message("unsubscribe", "b"));
    assert_eq!(s.subscriptions(), &vec!["a".to_string()]);
}

#[test]
fn unknown_actions_and_frames_change_nothing() {
    let mut s = SocketSession::new();
    s.handle(message("subscribe", "a"));
    assert!(s.handle(message("Subscribe", "b")).is_empty());
    assert!(s.handle(SocketEvent::Unreadable).is_empty());
    assert!(s.handle(SocketEvent::OtherFrame).is_empty());
    assert_eq!(s.subscriptions(), &vec!["a".to_string()]);
}

#[test]
fn close_unregisters_each_subscription_then_exits() {
    let mut s = SocketSession::new();
    s.handle(message("subscribe", "a"));
    s.handle(message("subscribe", "b"));
    s.handle(message("subscribe", "a"));
    let actions = s.handle(SocketEvent::Close);
    assert_eq!(describe(&actions), ["remove a", "remove b", "remove a", "exit"]);
    assert!(s.is_ended());
}

#[test]
fn end_of_stream_behaves_like_close() {
    let mut s = SocketSession::new();
    s.handle(message("subscribe", "a"));
    assert_eq!(describe(&s.handle(SocketEvent::Ended)), ["remove a", "exit"]);
}

#[test]
fn errors_exit_without_cleanup() {
    let mut s = SocketSession::new();
    s.handle(message("subscribe", "a"));
    assert_eq!(describe(&s.handle(SocketEvent::Error)), ["exit"]);
    let mut t = SocketSession::new();
    t.handle(message("subscribe", "a"));
    assert_eq!(describe(&t.handle(SocketEvent::SendFailed)), ["exit"]);
    assert!(t.is_ended());
}

fn update(tx: &str) -> SocketEvent {
    SocketEvent::Update(TransactionStatusEvent {
        tx_id: tx.to_string(),
        status: TransactionStatus::Confirmed,
        timestamp: "2024-01-01T00:00:00Z".to_string(),
        message: None,
    })
}

#[test]
fn status_updates_are_forwarded_for_followed_transactions() {
    let mut s = SocketSession::new();
    s.handle(message("subscribe", "tx9"));
    assert_eq!(describe(&s.handle(update("tx9"))), ["status tx9"]);
}

#[test]
fn status_updates_for_other_transactions_are_dropped() {
    let mut s = SocketSession::new();
    assert!(s.handle(update("B")).is_empty());
    s.handle(message("subscribe", "A"));
    assert!(s.handle(update("B")).is_empty());
    s.handle(message("unsubscribe", "A"));
    assert!(s.handle(update("A")).is_empty());
    assert_eq!(describe(&s.handle(SocketEvent::Close)), ["exit"]);
}
