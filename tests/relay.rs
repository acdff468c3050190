use serde_json::Value;
use server::protocol::{MessageRecieve, MessageType};
use server::registry::{ConnectError, DamageResult, Player, Registry};
use server::relay::{Outbound, Relay, CONNECTED_TEXT, NAME_TAKEN_TEXT};

fn request(kind: MessageType, name: &str, content: Value, id: usize) -> MessageRecieve {
    MessageRecieve {
        message_type: kind,
        player_name: name.to_string(),
        content,
        id_player: id,
    }
}

fn connect(relay: &mut Relay, name: &str, addr: &str) -> Vec<Outbound> {
    relay.handle(request(MessageType::Connect, name, Value::Null, 0), addr.to_string())
}

fn life(relay: &Relay, name: &str) -> i64 {
    relay.registry().find_by_name(&name.to_string()).unwrap().life
}

#[test]
fn three_players_action_then_death() {
    let mut relay = Relay::new(2).unwrap();
    let a = connect(&mut relay, "A", "10.0.0.1:1000");
    let b = connect(&mut relay, "B", "10.0.0.2:1000");
    let c = connect(&mut relay, "C", "10.0.0.3:1000");
    for (out, id) in [(&a, 0usize), (&b, 1), (&c, 2)] {
        assert_eq!(out.len(), 1);
        assert_eq!(out[0].message.message_type, MessageType::ConnectSuccessfull);
        assert_eq!(out[0].message.id_player, id);
        assert_eq!(out[0].message.player_life, 20);
        assert_eq!(out[0].message.level, 2);
    }
    for name in ["A", "B", "C"] {
        assert_eq!(life(&relay, name), 20);
    }

    let payload = Value::String("X".to_string());
    let out = relay.handle(request(MessageType::Action, "A", payload.clone(), 0), "10.0.0.1:1000".to_string());
    assert_eq!(out.len(), 2);
    let mut dests: Vec<String> = out.iter().map(|o| o.destination.clone()).collect();
    dests.sort();
    assert_eq!(dests, vec!["10.0.0.2:1000".to_string(), "10.0.0.3:1000".to_string()]);
    for o in &out {
        assert_eq!(o.message.message_type, MessageType::Action);
        assert_eq!(o.message.player_name, "A");
        assert_eq!(o.message.id_player, 0);
        assert_eq!(o.message.player_life, 20);
        assert_eq!(o.message.content, payload);
    }

    for hit in 1..=20 {
        let out = relay.handle(request(MessageType::UpdateLife, "B", Value::Null, 0), "10.0.0.2:1000".to_string());
        assert!(out.is_empty());
        assert_eq!(life(&relay, "A"), 20 - hit);
    }
    let out = relay.handle(request(MessageType::UpdateLife, "B", Value::Null, 0), "10.0.0.2:1000".to_string());
    assert_eq!(out.len(), 1);
    assert_eq!(out[0].destination, "10.0.0.1:1000");
    assert_eq!(out[0].message.message_type, MessageType::PlayerDeath);
    assert_eq!(out[0].message.id_player, 0);
    assert_eq!(out[0].message.player_life, 0);
    assert_eq!(life(&relay, "A"), 0);
    assert_eq!(life(&relay, "B"), 20);
}

#[test]
fn ids_follow_connection_order() {
    let mut relay = Relay::new(1).unwrap();
    let mut last: Option<usize> = None;
    for k in 0..12usize {
        let out = connect(&mut relay, &format!("p{}", k), "127.0.0.1:9");
        let id = out[0].message.id_player;
        assert_eq!(id, k);
        if let Some(prev) = last {
            assert!(id > prev);
        }
        last = Some(id);
    }
}

#[test]
fn ids_are_not_reused_after_disconnect() {
    let mut relay = Relay::new(1).unwrap();
    connect(&mut relay, "A", "a:1");
    connect(&mut relay, "B", "b:1");
    relay.handle(request(MessageType::Disconnect, "A", Value::Null, 0), "a:1".to_string());
    let out = connect(&mut relay, "A", "a:2");
    assert_eq!(out[0].message.message_type, MessageType::ConnectSuccessfull);
    assert_eq!(out[0].message.id_player, 2);
}

#[test]
fn taken_name_is_refused_without_change() {
    let mut relay = Relay::new(3).unwrap();
    connect(&mut relay, "A", "a:1");
    let out = connect(&mut relay, "A", "other:2");
    assert_eq!(out.len(), 1);
    assert_eq!(out[0].destination, "other:2");
    assert_eq!(out[0].message.message_type, MessageType::ConnectFailed);
    assert_eq!(out[0].message.content, Value::String(NAME_TAKEN_TEXT.to_string()));
    assert_eq!(out[0].message.player_life, 0);
    assert!(!out[0].message.canconnect);
    assert_eq!(out[0].message.id_player, 1);
    assert_eq!(relay.registry().len(), 1);
    assert_eq!(relay.registry().next_player_id(), 1);
    let a = relay.registry().find_by_name(&"A".to_string()).unwrap();
    assert_eq!(a.ip_address, "a:1");
    assert_eq!(a.id, 0);
}

#[test]
fn names_are_case_sensitive() {
    let mut relay = Relay::new(1).unwrap();
    connect(&mut relay, "alice", "a:1");
    let out = connect(&mut relay, "Alice", "a:2");
    assert_eq!(out[0].message.message_type, MessageType::ConnectSuccessfull);
}

#[test]
fn connect_reply_text() {
    let mut relay = Relay::new(1).unwrap();
    let out = connect(&mut relay, "A", "a:1");
    assert_eq!(out[0].message.content, Value::String(CONNECTED_TEXT.to_string()));
    assert_eq!(out[0].message.player_name, "A");
    assert_eq!(out[0].destination, "a:1");
}

#[test]
fn admission_open_for_first_nine_only() {
    let mut relay = Relay::new(1).unwrap();
    for k in 0..11usize {
        let out = connect(&mut relay, &format!("p{}", k), "h:1");
        assert_eq!(out[0].message.canconnect, k < 9, "connection {}", k + 1);
    }
}

#[test]
fn admission_flag_echoed_in_actions() {
    let mut relay = Relay::new(1).unwrap();
    for k in 0..10usize {
        connect(&mut relay, &format!("p{}", k), "h:1");
    }
    let out = relay.handle(request(MessageType::Action, "p0", Value::Null, 0), "h:1".to_string());
    assert_eq!(out.len(), 9);
    assert!(out.iter().all(|o| !o.message.canconnect));
}

#[test]
fn damage_on_last_point_then_dead() {
    let mut reg = Registry::new();
    reg.try_connect("A".to_string(), "a:1".to_string()).unwrap();
    for _ in 0..19 {
        reg.apply_damage(0);
    }
    assert_eq!(reg.find_by_id(0).unwrap().life, 1);
    assert_eq!(reg.apply_damage(0), Some(DamageResult::Alive(0)));
    assert_eq!(reg.apply_damage(0), Some(DamageResult::Dead(0)));
    assert_eq!(reg.apply_damage(0), Some(DamageResult::Dead(0)));
    assert_eq!(reg.find_by_id(0).unwrap().life, 0);
}

#[test]
fn damage_on_unknown_id() {
    let mut reg = Registry::new();
    reg.try_connect("A".to_string(), "a:1".to_string()).unwrap();
    assert_eq!(reg.apply_damage(5), None);
    assert_eq!(reg.find_by_id(0).unwrap().life, 20);
}

#[test]
fn update_life_on_unknown_id_sends_nothing() {
    let mut relay = Relay::new(1).unwrap();
    connect(&mut relay, "A", "a:1");
    let out = relay.handle(request(MessageType::UpdateLife, "A", Value::Null, 7), "a:1".to_string());
    assert!(out.is_empty());
    assert_eq!(life(&relay, "A"), 20);
}

#[test]
fn registry_connect_results() {
    let mut reg = Registry::new();
    let a = reg.try_connect("A".to_string(), "a:1".to_string()).unwrap();
    assert_eq!(a.id, 0);
    assert_eq!(a.life, 20);
    assert!(a.admission_allowed);
    assert_eq!(reg.try_connect("A".to_string(), "a:2".to_string()), Err(ConnectError::NameTaken));
    assert_eq!(reg.len(), 1);
}

#[test]
fn lone_sender_reaches_nobody() {
    let mut relay = Relay::new(1).unwrap();
    connect(&mut relay, "A", "a:1");
    let out = relay.handle(request(MessageType::Action, "A", Value::Null, 0), "a:1".to_string());
    assert!(out.is_empty());
}

#[test]
fn action_never_goes_to_sender() {
    let mut relay = Relay::new(1).unwrap();
    connect(&mut relay, "A", "a:1");
    connect(&mut relay, "B", "b:1");
    let out = relay.handle(request(MessageType::Action, "B", Value::Null, 1), "b:1".to_string());
    assert_eq!(out.len(), 1);
    assert_eq!(out[0].destination, "a:1");
}

#[test]
fn action_from_unregistered_sender_has_life_zero() {
    let mut relay = Relay::new(1).unwrap();
    connect(&mut relay, "A", "a:1");
    let out = relay.handle(request(MessageType::Action, "ghost", Value::Null, 9), "g:1".to_string());
    assert_eq!(out.len(), 1);
    assert_eq!(out[0].message.player_life, 0);
}

#[test]
fn disconnect_of_unknown_name_is_noop() {
    let mut relay = Relay::new(1).unwrap();
    connect(&mut relay, "A", "a:1");
    connect(&mut relay, "B", "b:1");
    let out = relay.handle(request(MessageType::Disconnect, "Z", Value::Null, 0), "z:1".to_string());
    assert!(out.is_empty());
    assert_eq!(relay.registry().len(), 2);
    assert_eq!(life(&relay, "A"), 20);
    assert_eq!(life(&relay, "B"), 20);
}

#[test]
fn disconnect_removes_only_that_player() {
    let mut relay = Relay::new(1).unwrap();
    connect(&mut relay, "A", "a:1");
    connect(&mut relay, "B", "b:1");
    connect(&mut relay, "C", "c:1");
    relay.handle(request(MessageType::Disconnect, "B", Value::Null, 0), "b:1".to_string());
    let rest = relay.registry().all_except(&"nobody".to_string());
    let names: Vec<String> = rest.iter().map(|p: &Player| p.player_name.clone()).collect();
    assert_eq!(names, vec!["A".to_string(), "C".to_string()]);
    assert!(relay.registry().find_by_name(&"B".to_string()).is_none());
}

#[test]
fn level_must_be_one_to_three() {
    assert!(Relay::new(0).is_none());
    assert!(Relay::new(4).is_none());
    assert!(Relay::new(-1).is_none());
    for level in 1..=3 {
        assert_eq!(Relay::new(level).unwrap().level(), level);
    }
}

#[test]
fn other_kinds_are_ignored() {
    let mut relay = Relay::new(1).unwrap();
    connect(&mut relay, "A", "a:1");
    for kind in [
        MessageType::ConnectSuccessfull,
        MessageType::ConnectFailed,
        MessageType::BallMovement,
        MessageType::PlayerDeath,
    ] {
        let out = relay.handle(request(kind, "A", Value::Null, 0), "a:1".to_string());
        assert!(out.is_empty());
    }
    assert_eq!(relay.registry().len(), 1);
}

#[test]
fn player_constructor_and_lookups() {
    let p = Player::new_player("n".to_string(), "h:1".to_string(), 4, 7);
    assert_eq!(p.player_name, "n");
    assert_eq!(p.ip_address, "h:1");
    assert_eq!(p.id, 4);
    assert_eq!(p.life, 7);
    assert_eq!(p.duplicate(), p);
    let mut reg = Registry::new();
    reg.try_connect("A".to_string(), "a:1".to_string()).unwrap();
    reg.try_connect("B".to_string(), "b:1".to_string()).unwrap();
    assert_eq!(reg.find_by_id(1).unwrap().player_name, "B");
    assert!(reg.find_by_name(&"C".to_string()).is_none());
    let others = reg.all_except(&"A".to_string());
    assert_eq!(others.len(), 1);
    assert_eq!(others[0].player_name, "B");
}
