use omikron::anonymous::{AnonymousManager, AnonymousProfile};
use omikron::auth::user_url;
use omikron::call_connection::CallConnection;
use omikron::calls::{CallRegistry, Caller, TokenKeys};
use omikron::communication::CommunicationValue;
use omikron::omega_connection::{Inbound, LinkState, OmegaConnection};
use omikron::rho::{ClientRef, RhoConnection, RhoManager};
use omikron::wire::{CommunicationType, DataTypes};

const CALL: u128 = 0x1234_5678_9abc_def0_1234_5678_9abc_def0;

fn uuid_to_string(x: u128) -> String {
    uuid::Uuid::from_u128(x).to_string()
}

fn no_keys() -> TokenKeys {
    TokenKeys { api_key: None, api_secret: None }
}

#[test]
fn the_first_to_join_a_call_administers_it() {
    let mut calls = CallRegistry::new();
    let first = calls.join_call(1, CALL);
    assert_eq!(first, Caller { user_id: 1, call_id: CALL, has_admin: true, timeout: 0 });
    let second = calls.join_call(2, CALL);
    assert!(!second.has_admin());
    assert_eq!(calls.len(), 1);
}

#[test]
fn joining_twice_changes_nothing() {
    let mut calls = CallRegistry::new();
    let a = calls.join_call(1, CALL);
    let b = calls.join_call(1, CALL);
    assert_eq!(a, b);
    assert_eq!(calls.get_call(CALL).unwrap().members.len(), 1);
}

#[test]
fn a_token_request_joins_the_call() {
    let mut calls = CallRegistry::new();
    let token = calls.get_call_token(&no_keys(), 7, CALL);
    assert_eq!(token, Some(String::new()));
    assert_eq!(calls.get_call_groups(7), vec![CALL]);
}

#[test]
fn only_members_invite() {
    let mut calls = CallRegistry::new();
    calls.join_call(1, CALL);
    assert!(!calls.add_invite(CALL, 5, 6));
    assert!(calls.add_invite(CALL, 1, 6));
    assert!(calls.get_call(CALL).unwrap().get_caller(6).is_some());
    assert!(!calls.add_invite(CALL + 1, 1, 6));
    assert_eq!(calls.get_call_invites(6).len(), 1);
}

#[test]
fn removing_and_timing_out_callers() {
    let mut calls = CallRegistry::new();
    calls.join_call(1, CALL);
    calls.join_call(2, CALL);
    assert!(calls.set_timeout(CALL, 2, 5000));
    assert_eq!(calls.get_call(CALL).unwrap().get_caller(2).unwrap().timeout, 5000);
    assert!(calls.get_call(CALL).unwrap().get_caller(2).unwrap().is_timeouted_at(4999));
    assert!(!calls.get_call(CALL).unwrap().get_caller(2).unwrap().is_timeouted_at(5000));
    assert!(!calls.set_timeout(CALL, 9, 5000));
    assert!(calls.remove_caller(CALL, 2));
    assert!(calls.get_call(CALL).unwrap().get_caller(2).is_none());
    assert!(!calls.remove_caller(CALL + 1, 2));
}

#[test]
fn anonymous_joining_gives_metadata_and_a_link_to_shorten() {
    let mut calls = CallRegistry::new();
    calls.join_call(1, CALL);
    let (metadata, link) = calls.set_anonymous_joining(CALL, true, Some("17")).unwrap();
    assert_eq!(metadata, "{\"anonymous_joining\": \"true\"}");
    let link = link.unwrap();
    assert!(link.starts_with("https://app.tensamin.net/call/anonymous?call_id="));
    assert!(link.ends_with("&omikron_id=17"));
    assert!(calls.get_call(CALL).unwrap().is_anonymous());
    assert!(calls.set_short_link(CALL, "https://s/x".to_string()));
    let (_, again) = calls.set_anonymous_joining(CALL, false, Some("17")).unwrap();
    assert_eq!(again, None);
    assert!(calls.set_anonymous_joining(CALL + 1, true, None).is_none());
}

#[test]
fn cleaning_keeps_only_calls_with_rooms() {
    let mut calls = CallRegistry::new();
    calls.join_call(1, CALL);
    calls.join_call(1, CALL + 1);
    calls.join_call(1, CALL + 2);
    let rooms = vec![
        (uuid_to_string(CALL), 0u32),
        (uuid_to_string(CALL + 2), 3u32),
        ("lobby".to_string(), 5u32),
    ];
    let (before, after) = calls.clean_calls(&rooms);
    assert_eq!((before, after), (3, 2));
    assert!(!calls.get_call(CALL).unwrap().show);
    assert!(calls.get_call(CALL + 1).is_none());
    assert!(calls.get_call(CALL + 2).unwrap().show);
}

#[test]
fn uuid_text_round_trip() {
    let mut channel = CallConnection::new();
    let join = CommunicationValue::new(CommunicationType::identification)
        .add_data_str(DataTypes::user_id, uuid_to_string(7))
        .add_data_str(DataTypes::call_id, uuid_to_string(CALL));
    assert_eq!(channel.identify(&join), Some((7, CALL)));
    assert_eq!(user_url(1), "https://auth.tensamin.net/api/get/00000000-0000-0000-0000-000000000001");
    let bad = CommunicationValue::new(CommunicationType::identification)
        .add_data_str(DataTypes::user_id, "nope".to_string())
        .add_data_str(DataTypes::call_id, uuid_to_string(CALL));
    assert_eq!(CallConnection::new().identify(&bad), None);
}

#[test]
fn rho_connections_by_iota_and_user() {
    let mut rhos = RhoManager::new();
    rhos.add_rho(RhoConnection::new(100, vec![1, 2]));
    rhos.add_rho(RhoConnection::new(200, vec![3]));
    assert_eq!(rhos.connection_count(), 2);
    assert_eq!(rhos.get_rho_con_for_user(2), Some(100));
    assert_eq!(rhos.get_rho_con_for_user(3), Some(200));
    assert_eq!(rhos.get_rho_con_for_user(4), None);
    assert!(rhos.bind_user_to_iota(4, 200));
    assert_eq!(rhos.get_rho_con_for_user(4), Some(200));
    assert!(!rhos.bind_user_to_iota(5, 300));
    rhos.add_rho(RhoConnection::new(100, vec![9]));
    assert_eq!(rhos.connection_count(), 2);
    assert_eq!(rhos.get_rho_con_for_user(1), None);
}

#[test]
fn clients_join_and_leave_a_rho_connection() {
    let mut rhos = RhoManager::new();
    rhos.add_rho(RhoConnection::new(100, vec![1]));
    let (to_iota, to_omega) = rhos.add_client_connection(100, ClientRef { conn: 11, user_id: 1 }).unwrap();
    assert!(to_iota.is_type(CommunicationType::client_connected));
    assert!(to_omega.is_type(CommunicationType::user_connected));
    rhos.add_client_connection(100, ClientRef { conn: 12, user_id: 1 });
    let to_user = CommunicationValue::new(CommunicationType::message).with_receiver(1);
    assert_eq!(rhos.get_rho_by_iota(100).unwrap().message_to_client(&to_user), vec![11, 12]);
    rhos.add_client_connection(100, ClientRef { conn: 13, user_id: 2 });
    rhos.add_client_connection(100, ClientRef { conn: 14, user_id: 3 });
    let offline = rhos.close_client_connection(100, ClientRef { conn: 12, user_id: 1 }).unwrap();
    assert!(offline.is_type(CommunicationType::user_disconnected));
    assert_eq!(rhos.get_rho_by_iota(100).unwrap().client_count(), 2);
    let (conns, notice) = rhos.close_iota_connection(100).unwrap();
    assert_eq!(conns, vec![13, 14]);
    assert!(notice.is_type(CommunicationType::iota_disconnected));
    assert_eq!(notice.get_data(DataTypes::iota_id).and_then(|v| v.as_i64()), Some(100));
    assert!(!rhos.contains_iota(100));
}

#[test]
fn guests_by_id_and_name() {
    let mut guests = AnonymousManager::new();
    guests.add_anonymous_user(AnonymousProfile::new(5, "Brave Fox".to_string()));
    let g = guests.get_anonymous_user(5).unwrap();
    assert_eq!(g.get_user_name(), "brave fox");
    assert_eq!(g.get_display_name(), "Brave Fox");
    assert!(guests.get_anonymous_user_by_name("brave fox").is_some());
    assert!(guests.set_display_name(5, "Fox".to_string()));
    assert_eq!(guests.get_anonymous_user(5).unwrap().get_display_name(), "Fox");
    guests.remove_anonymous_user(5);
    assert!(guests.get_anonymous_user(5).is_none());
    assert!(!guests.set_display_name(5, "x".to_string()));
}

#[test]
fn an_answer_from_omega_is_delivered_once() {
    let mut link = OmegaConnection::new();
    assert_eq!(link.state, LinkState::Disconnected);
    link.await_response(9, 1000);
    let answer = CommunicationValue::new(CommunicationType::get_user_data).with_id(9);
    assert!(matches!(link.on_message(&answer), Inbound::Answer));
    assert!(matches!(link.on_message(&answer), Inbound::Ignore));
    let ping = CommunicationValue::new(CommunicationType::ping).with_id(4);
    match link.on_message(&ping) {
        Inbound::Pong(p) => {
            assert!(p.is_type(CommunicationType::pong));
            assert_eq!(p.get_id(), 4);
        }
        _ => panic!("a ping is answered"),
    }
    link.await_response(10, 1000);
    assert!(link.give_up(10));
    assert!(!link.give_up(10));
}

#[test]
fn ping_latency_is_measured_from_the_pong() {
    let mut link = OmegaConnection::new();
    let ping = link.send_ping(77, 1000);
    assert!(ping.is_type(CommunicationType::ping));
    assert_eq!(ping.get_data(DataTypes::last_ping).and_then(|v| v.as_i64()), Some(0));
    let pong = CommunicationValue::new(CommunicationType::pong).with_id(77);
    link.handle_pong(&pong, 1250);
    assert_eq!(link.last_ping, 250);
    link.handle_pong(&pong, 5000);
    assert_eq!(link.last_ping, 250);
    link.send_ping(78, 1000);
    link.send_ping(79, 40000);
    let late = CommunicationValue::new(CommunicationType::pong).with_id(78);
    link.handle_pong(&late, 40001);
    assert_eq!(link.last_ping, 250);
}

#[test]
fn the_identification_to_omega() {
    let m = OmegaConnection::identify();
    assert!(m.is_type(CommunicationType::identification));
    assert_eq!(m.get_data(DataTypes::omikron).and_then(|v| v.as_i64()), Some(1));
}

#[test]
fn a_caller_with_keys_gets_a_signed_token() {
    let keys = TokenKeys { api_key: Some("key".to_string()), api_secret: Some("secret".to_string()) };
    let token = Caller::new(7, CALL, true).create_token(&keys);
    assert_eq!(token.split('.').count(), 3);
    let empty = TokenKeys { api_key: Some(String::new()), api_secret: Some("secret".to_string()) };
    assert_eq!(Caller::new(7, CALL, true).create_token(&empty), "");
    assert_eq!(Caller::new(7, CALL, true).create_token(&no_keys()), "");
}
