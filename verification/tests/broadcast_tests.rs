use broadcaster::actions::Action;
use broadcaster::actions::MovePlantActionPayload;
use broadcaster::broadcaster::Broadcaster;
use broadcaster::broadcaster::ConnectedClient;
use broadcaster::broadcaster::SubscribeError;
use broadcaster::broadcaster::fanout_batches;

fn move_action(user: &str, id: &str, x: i32, y: i32) -> Action {
    Action::MovePlanting(MovePlantActionPayload {
        user_id: user.to_string(),
        id: id.to_string(),
        x,
        y,
    })
}

#[test]
fn broadcast_without_subscribers_is_a_noop() {
    let b = Broadcaster::new();
    let r = b.broadcast(5, &move_action("U", "p1", 1, 2));
    let (_, recipients) = r.expect("broadcast to an empty map must succeed");
    assert!(recipients.is_empty());
}

#[test]
fn rejected_subscription_registers_nothing() {
    let mut b = Broadcaster::new();
    let r = b.new_client(3, ConnectedClient { id: 1 }, false);
    assert_eq!(r, Err(SubscribeError::SubscriptionRejected));
    assert!(!b.has_client(1));
    let (_, recipients) = b.broadcast(3, &move_action("U", "p1", 0, 0)).unwrap();
    assert!(recipients.is_empty());
}

#[test]
fn accepted_subscription_receives_broadcasts() {
    let mut b = Broadcaster::new();
    b.new_client(3, ConnectedClient { id: 1 }, true).unwrap();
    assert!(b.has_client(1));
    let (frame, recipients) = b.broadcast(3, &move_action("U", "p1", 4, 5)).unwrap();
    assert_eq!(recipients, vec![1]);
    assert_eq!(
        frame,
        "{\"type\":\"MovePlanting\",\"payload\":{\"userId\":\"U\",\"id\":\"p1\",\"x\":4,\"y\":5}}"
    );
}

#[test]
fn recipients_keep_registration_order_across_broadcasts() {
    let mut b = Broadcaster::new();
    b.new_client(3, ConnectedClient { id: 10 }, true).unwrap();
    b.new_client(3, ConnectedClient { id: 11 }, true).unwrap();
    b.new_client(3, ConnectedClient { id: 12 }, true).unwrap();
    let (_, first) = b.broadcast(3, &move_action("U", "p1", 1, 1)).unwrap();
    let (_, second) = b.broadcast(3, &move_action("U", "p1", 2, 2)).unwrap();
    assert_eq!(first, vec![10, 11, 12]);
    assert_eq!(second, vec![10, 11, 12]);
}

#[test]
fn sweep_removes_failed_probe_and_keeps_the_rest() {
    let mut b = Broadcaster::new();
    b.new_client(7, ConnectedClient { id: 1 }, true).unwrap();
    b.new_client(7, ConnectedClient { id: 2 }, true).unwrap();
    b.new_client(8, ConnectedClient { id: 3 }, true).unwrap();

    // client 2's connection is already closed: its probe fails
    let alive = vec![1, 3];
    b.remove_stale_clients(&alive);

    assert!(b.has_client(1));
    assert!(!b.has_client(2));
    assert!(b.has_client(3));

    // subsequent broadcasts to its former map do not attempt delivery to it
    let (_, recipients) = b.broadcast(7, &move_action("U", "p", 0, 0)).unwrap();
    assert_eq!(recipients, vec![1]);
    let (_, others) = b.broadcast(8, &move_action("U", "p", 0, 0)).unwrap();
    assert_eq!(others, vec![3]);
}

#[test]
fn sweep_drops_a_map_whose_every_handle_failed() {
    let mut b = Broadcaster::new();
    b.new_client(7, ConnectedClient { id: 1 }, true).unwrap();
    b.new_client(8, ConnectedClient { id: 2 }, true).unwrap();
    let alive = vec![2];
    b.remove_stale_clients(&alive);
    assert_eq!(b.snapshot_all(), vec![2]);
    let (_, recipients) = b.broadcast(7, &move_action("U", "p", 0, 0)).unwrap();
    assert!(recipients.is_empty());
}

#[test]
fn sweep_tolerates_an_empty_registry() {
    let mut b = Broadcaster::new();
    let alive: Vec<u64> = Vec::new();
    b.remove_stale_clients(&alive);
    assert!(b.snapshot_all().is_empty());
}

#[test]
fn snapshot_lists_every_handle_once() {
    let mut b = Broadcaster::new();
    b.new_client(1, ConnectedClient { id: 5 }, true).unwrap();
    b.new_client(2, ConnectedClient { id: 6 }, true).unwrap();
    b.new_client(1, ConnectedClient { id: 7 }, true).unwrap();
    let mut snap = b.snapshot_all();
    snap.sort();
    assert_eq!(snap, vec![5, 6, 7]);
}

#[test]
fn fanout_batches_bound_the_inflight_width() {
    let clients: Vec<u64> = (0..35).collect();
    let batches = fanout_batches(&clients, 15);
    assert_eq!(batches.len(), 3);
    assert_eq!(batches[0].len(), 15);
    assert_eq!(batches[1].len(), 15);
    assert_eq!(batches[2].len(), 5);
    let flat: Vec<u64> = batches.into_iter().flatten().collect();
    assert_eq!(flat, clients);
}

#[test]
fn fanout_batches_serve_fewer_clients_in_one_wave() {
    let clients: Vec<u64> = vec![4, 2, 9];
    let batches = fanout_batches(&clients, 15);
    assert_eq!(batches.len(), 1);
    assert_eq!(batches[0], vec![4, 2, 9]);
}

#[test]
fn map_seven_scenario_reaches_its_two_subscribers_only() {
    let mut b = Broadcaster::new();
    let a = ConnectedClient { id: 100 };
    let bb = ConnectedClient { id: 101 };
    let c = ConnectedClient { id: 102 };
    b.new_client(7, a, true).unwrap();
    b.new_client(7, bb, true).unwrap();
    b.new_client(8, c, true).unwrap();

    let action = move_action("U", "plating-7", 42, 17);
    let action = match action {
        Action::MovePlanting(mut p) => {
            p.id = "f4c9".to_string();
            Action::MovePlanting(p)
        },
        other => other,
    };
    let (frame, recipients) = b.broadcast(7, &action).unwrap();
    assert_eq!(recipients, vec![100, 101]);
    assert_eq!(
        frame,
        "{\"type\":\"MovePlanting\",\"payload\":{\"userId\":\"U\",\"id\":\"f4c9\",\"x\":42,\"y\":17}}"
    );
    assert!(!recipients.contains(&102));

    // the frame is real JSON with the documented shape
    let parsed: serde_json::Value = serde_json::from_str(&frame).unwrap();
    assert_eq!(parsed["type"], serde_json::Value::String("MovePlanting".to_string()));
    assert_eq!(parsed["payload"]["userId"], serde_json::Value::String("U".to_string()));
    assert_eq!(parsed["payload"]["x"], serde_json::Value::from(42));
    assert_eq!(parsed["payload"]["y"], serde_json::Value::from(17));
}
