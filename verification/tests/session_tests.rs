use omikron::anonymous::{AnonymousManager, AnonymousProfile};
use omikron::anonymous_client_connection::{AnonymousRoute, AnonymousClientConnection};
use omikron::call_connection::{CallRoute, CallConnection};
use omikron::calls::{CallRegistry, TokenKeys};
use omikron::client_requests::{anonymous_joining_reply, IotaRequest};
use omikron::client_connection::{ClientRoute, ClientConnection};
use omikron::communication::CommunicationValue;
use omikron::crypto_helper::{generate_keypair, public_key_to_base64};
use omikron::crypto_util::{DataFormat, SecurePayload};
use omikron::general_connection::{ConnectionKind, GeneralConnection, GeneralStep};
use omikron::iota_connection::{IotaRoute, IotaConnection};
use omikron::json::{Json, JsonNumber};
use omikron::outgoing::Outgoing;
use omikron::rho::{RhoConnection, RhoManager};
use omikron::wire::{CommunicationType, DataTypes};

use base64::Engine;

const CALL: u128 = 0xabcdef;

fn uuid_to_string(x: u128) -> String {
    uuid::Uuid::from_u128(x).to_string()
}

fn b64_encode(bytes: &[u8]) -> String {
    base64::engine::general_purpose::STANDARD.encode(bytes)
}

fn number(x: i64) -> Json {
    Json::Number(JsonNumber::from_i64(x))
}

fn reply_kind(o: &Outgoing) -> Option<CommunicationType> {
    match o {
        Outgoing::Reply(m) => Some(m.get_type()),
        _ => None,
    }
}

#[test]
fn an_unidentified_client_is_refused() {
    let s = ClientConnection::new(1);
    let cv = CommunicationValue::new(CommunicationType::send_chat);
    assert_eq!(s.route(&cv), ClientRoute::NotAuthenticated);
    let ping = CommunicationValue::new(CommunicationType::ping);
    assert_eq!(s.route(&ping), ClientRoute::Ping);
    let ident = CommunicationValue::new(CommunicationType::identification);
    assert_eq!(s.route(&ident), ClientRoute::Identify);
}

#[test]
fn identification_without_a_user_is_invalid() {
    let mut s = ClientConnection::new(1);
    let cv = CommunicationValue::new(CommunicationType::identification).with_id(5);
    match s.begin_identification(&cv) {
        Err(out) => {
            assert_eq!(out.len(), 2);
            assert_eq!(reply_kind(&out[0]), Some(CommunicationType::error_invalid_data));
            assert!(matches!(out[1], Outgoing::Close));
        }
        Ok(_) => panic!("refused"),
    }
}

#[test]
fn a_client_identifies_and_answers_the_challenge() {
    let server = generate_keypair();
    let client = generate_keypair();
    let mut rhos = RhoManager::new();
    rhos.add_rho(RhoConnection::new(900, vec![42]));
    let mut s = ClientConnection::new(7);
    let ident = CommunicationValue::new(CommunicationType::identification)
        .with_id(5)
        .add_data(DataTypes::user_id, number(42));
    let request = s.begin_identification(&ident).ok().unwrap();
    assert!(request.is_type(CommunicationType::get_user_data));
    assert_eq!(request.get_data(DataTypes::user_id).and_then(|v| v.as_i64()), Some(42));
    assert_eq!(s.get_user_id(), 42);
    let omega_answer = CommunicationValue::new(CommunicationType::get_user_data)
        .add_data_str(DataTypes::public_key, public_key_to_base64(&client.public));
    let server_pub = public_key_to_base64(&server.public);
    let out = s.finish_identification(5, Some(&omega_answer), &server.secret, &server_pub, "abcdefghijklmnopqrstuvwxyz012345".to_string());
    assert!(s.is_identified());
    let challenge_msg = match &out[0] {
        Outgoing::Reply(m) => m,
        _ => panic!("a challenge is sent"),
    };
    assert!(challenge_msg.is_type(CommunicationType::challenge));
    let sealed = challenge_msg.get_data(DataTypes::challenge).and_then(|v| v.as_str()).unwrap().to_string();
    let received = SecurePayload::new(sealed.as_bytes(), DataFormat::Base64, &client.secret).unwrap();
    let opened = received.decrypt_x448(&server.public).unwrap();
    assert_eq!(opened.export(DataFormat::Raw), "abcdefghijklmnopqrstuvwxyz012345");
    let wrong = CommunicationValue::new(CommunicationType::challenge_response)
        .with_id(6)
        .add_data_str(DataTypes::challenge, b64_encode(b"nope"));
    let mut s2 = ClientConnection::new(8);
    s2.user_id = 42;
    s2.identified = true;
    s2.challenge = "abc".to_string();
    let refused = s2.check_challenge_response(&wrong, &mut rhos);
    assert_eq!(reply_kind(&refused[0]), Some(CommunicationType::error_not_authenticated));
    let answer = CommunicationValue::new(CommunicationType::challenge_response)
        .with_id(6)
        .add_data_str(DataTypes::challenge, b64_encode(opened.get_bytes()));
    assert_eq!(s.route(&answer), ClientRoute::ChallengeResponse);
    let done = s.check_challenge_response(&answer, &mut rhos);
    assert_eq!(done.len(), 3);
    assert!(matches!(&done[0], Outgoing::ToIota(900, m) if m.is_type(CommunicationType::client_connected)));
    assert!(matches!(&done[1], Outgoing::ToOmega(m) if m.is_type(CommunicationType::user_connected)));
    assert_eq!(reply_kind(&done[2]), Some(CommunicationType::identification_response));
    assert_eq!(s.get_rho_connection(), Some(900));
    assert_eq!(rhos.get_rho_by_iota(900).unwrap().client_count(), 1);
}

#[test]
fn a_bad_key_from_omega_closes_the_client() {
    let server = generate_keypair();
    let mut s = ClientConnection::new(7);
    let omega_answer = CommunicationValue::new(CommunicationType::get_user_data)
        .add_data_str(DataTypes::public_key, b64_encode(&[0u8; 56]));
    let out = s.finish_identification(5, Some(&omega_answer), &server.secret, "k", "x".to_string());
    assert_eq!(reply_kind(&out[0]), Some(CommunicationType::error_invalid_public_key));
    assert!(matches!(out[1], Outgoing::Close));
    let none = s.finish_identification(5, None, &server.secret, "k", "x".to_string());
    assert_eq!(reply_kind(&none[0]), Some(CommunicationType::error_internal));
    assert!(!s.is_identified());
}

#[test]
fn a_client_ping_is_answered_with_the_iota_ping() {
    let mut s = ClientConnection::new(1);
    let ping = CommunicationValue::new(CommunicationType::ping).with_id(3).add_data(DataTypes::last_ping, number(17));
    let pong = s.handle_ping(&ping, Some(40));
    assert_eq!(s.get_ping(), 17);
    assert!(pong.is_type(CommunicationType::pong));
    assert_eq!(pong.get_id(), 3);
    assert_eq!(pong.get_data(DataTypes::ping_iota).and_then(|v| v.as_i64()), Some(40));
    let pong2 = s.handle_ping(&ping, None);
    assert_eq!(pong2.get_data(DataTypes::ping_iota).and_then(|v| v.as_i64()), Some(-1));
}

#[test]
fn call_invites_from_a_client() {
    let mut calls = CallRegistry::new();
    let mut rhos = RhoManager::new();
    rhos.add_rho(RhoConnection::new(900, vec![2]));
    let mut s = ClientConnection::new(1);
    s.user_id = 1;
    s.identified = true;
    calls.join_call(1, CALL);
    let no_receiver = CommunicationValue::new(CommunicationType::call_invite).with_id(1);
    assert_eq!(reply_kind(&s.call_invite(&no_receiver, &mut calls, &rhos)[0]), Some(CommunicationType::error_no_user_id));
    let no_call = no_receiver.add_data(DataTypes::receiver_id, number(2));
    assert_eq!(reply_kind(&s.call_invite(&no_call, &mut calls, &rhos)[0]), Some(CommunicationType::error_no_call_id));
    let bad_call = CommunicationValue::new(CommunicationType::call_invite)
        .add_data(DataTypes::receiver_id, number(2))
        .add_data_str(DataTypes::call_id, "nope".to_string());
    assert_eq!(reply_kind(&s.call_invite(&bad_call, &mut calls, &rhos)[0]), Some(CommunicationType::error_invalid_call_id));
    let good = CommunicationValue::new(CommunicationType::call_invite)
        .with_id(9)
        .add_data(DataTypes::receiver_id, number(2))
        .add_data_str(DataTypes::call_id, uuid_to_string(CALL));
    let out = s.call_invite(&good, &mut calls, &rhos);
    assert_eq!(out.len(), 2);
    match &out[0] {
        Outgoing::ToClients(conns, m) => {
            assert!(conns.is_empty());
            assert_eq!(m.get_receiver(), 2);
            assert_eq!(m.get_sender(), 1);
            assert_eq!(m.get_data(DataTypes::sender_id).and_then(|v| v.as_str()), Some("1"));
        }
        _ => panic!("the invitation goes to the invitee"),
    }
    assert_eq!(reply_kind(&out[1]), Some(CommunicationType::success));
    assert!(calls.get_call(CALL).unwrap().get_caller(2).is_some());
    let unserved = CommunicationValue::new(CommunicationType::call_invite)
        .add_data(DataTypes::receiver_id, number(3))
        .add_data_str(DataTypes::call_id, uuid_to_string(CALL));
    assert_eq!(reply_kind(&s.call_invite(&unserved, &mut calls, &rhos)[0]), Some(CommunicationType::error));
}

#[test]
fn moderation_by_an_admin() {
    let mut calls = CallRegistry::new();
    calls.join_call(1, CALL);
    calls.join_call(2, CALL);
    let mut admin = ClientConnection::new(1);
    admin.user_id = 1;
    let mut member = ClientConnection::new(2);
    member.user_id = 2;
    let kick = CommunicationValue::new(CommunicationType::call_disconnect_user)
        .add_data_str(DataTypes::call_id, uuid_to_string(CALL))
        .add_data(DataTypes::user_id, number(1));
    assert_eq!(member.try_call_disconnect_user(&kick, &mut calls), Some(None));
    let kick2 = CommunicationValue::new(CommunicationType::call_disconnect_user)
        .add_data_str(DataTypes::call_id, uuid_to_string(CALL))
        .add_data(DataTypes::user_id, number(2));
    assert_eq!(admin.try_call_disconnect_user(&kick2, &mut calls), Some(Some((CALL, 2))));
    assert!(calls.get_call(CALL).unwrap().get_caller(2).is_none());
    let outsider = ClientConnection::new(3);
    assert_eq!(outsider.try_call_disconnect_user(&kick2, &mut calls), None);
    let unnamed = CommunicationValue::new(CommunicationType::call_timeout_user);
    assert_eq!(admin.try_call_timeout_user(&unnamed, &mut calls), None);
}

#[test]
fn a_timed_out_user() {
    let mut calls = CallRegistry::new();
    calls.join_call(1, CALL);
    calls.join_call(2, CALL);
    let mut admin = ClientConnection::new(1);
    admin.user_id = 1;
    let timeout = CommunicationValue::new(CommunicationType::call_timeout_user)
        .add_data_str(DataTypes::call_id, uuid_to_string(CALL))
        .add_data(DataTypes::user_id, number(2))
        .add_data(DataTypes::untill, number(99));
    assert_eq!(admin.try_call_timeout_user(&timeout, &mut calls), Some(Some((CALL, 2))));
    assert_eq!(calls.get_call(CALL).unwrap().get_caller(2).unwrap().timeout, 99);
}

#[test]
fn a_call_token_reply() {
    let mut calls = CallRegistry::new();
    let mut s = ClientConnection::new(1);
    s.user_id = 4;
    let keys = TokenKeys { api_key: None, api_secret: None };
    let ask = CommunicationValue::new(CommunicationType::call_token).with_id(8).add_data_str(DataTypes::call_id, uuid_to_string(CALL));
    let r = s.call_token(&ask, &mut calls, &keys);
    assert!(r.is_type(CommunicationType::call_token));
    assert_eq!(r.get_id(), 8);
    assert_eq!(r.get_receiver(), 4);
    assert!(calls.get_call(CALL).unwrap().get_caller(4).unwrap().has_admin());
    let bad = CommunicationValue::new(CommunicationType::call_token).with_id(8);
    assert!(s.call_token(&bad, &mut calls, &keys).is_type(CommunicationType::error));
}

#[test]
fn conversations_with_a_guest_are_refused() {
    let mut guests = AnonymousManager::new();
    guests.add_anonymous_user(AnonymousProfile::new(50, "Quiet Owl".to_string()));
    let mut s = ClientConnection::new(1);
    s.user_id = 1;
    s.iota_id = Some(900);
    let ask = CommunicationValue::new(CommunicationType::add_conversation)
        .add_data_str(DataTypes::chat_partner_name, "quiet owl".to_string());
    match s.forward_to_iota(ask, &guests) {
        IotaRequest::Done(out) => assert_eq!(reply_kind(&out[0]), Some(CommunicationType::error_anonymous)),
        _ => panic!("refused"),
    }
    let ask2 = CommunicationValue::new(CommunicationType::add_conversation)
        .with_id(3)
        .add_data_str(DataTypes::chat_partner_name, "bob".to_string());
    let q = match s.forward_to_iota(ask2.add_data(DataTypes::content, Json::Null), &guests) {
        IotaRequest::AskOmega(q) => q,
        _ => panic!("omega is asked"),
    };
    assert!(q.is_type(CommunicationType::get_user_data));
    assert_eq!(q.get_id(), 3);
    assert_eq!(q.get_data(DataTypes::username).and_then(|v| v.as_str()), Some("bob"));
    let answer = CommunicationValue::new(CommunicationType::get_user_data).add_data(DataTypes::user_id, number(77));
    let ask3 = CommunicationValue::new(CommunicationType::add_conversation);
    let out = s.finish_conversation(ask3, Some(&answer));
    match &out[0] {
        Outgoing::ToIota(900, m) => {
            assert_eq!(m.get_sender(), 1);
            assert_eq!(m.get_data(DataTypes::chat_partner_id).and_then(|v| v.as_i64()), Some(77));
        }
        _ => panic!("to the iota"),
    }
    let plain = CommunicationValue::new(CommunicationType::send_chat);
    match s.forward_to_iota(plain, &guests) {
        IotaRequest::Done(out) => assert!(matches!(&out[0], Outgoing::ToIota(900, m) if m.get_sender() == 1)),
        _ => panic!("forwarded"),
    }
}

#[test]
fn guest_data_is_answered_by_the_relay() {
    let mut guests = AnonymousManager::new();
    guests.add_anonymous_user(AnonymousProfile::new(50, "Quiet Owl".to_string()));
    let s = ClientConnection::new(1);
    let ask = CommunicationValue::new(CommunicationType::get_user_data).with_id(2).add_data(DataTypes::user_id, number(50));
    let r = s.guest_user_data(&ask, &guests).unwrap();
    assert_eq!(r.get_data(DataTypes::username).and_then(|v| v.as_str()), Some("quiet owl"));
    assert_eq!(r.get_data(DataTypes::user_state).and_then(|v| v.as_str()), Some("online"));
    let other = CommunicationValue::new(CommunicationType::get_user_data).add_data(DataTypes::user_id, number(51));
    assert!(s.guest_user_data(&other, &guests).is_none());
}

#[test]
fn interests_of_a_client() {
    let mut s = ClientConnection::new(1);
    s.set_interested_users(vec![4, 5]);
    assert_eq!(s.get_interested_users(), vec![4, 5]);
    let n = s.are_you_interested(5).unwrap();
    assert!(n.is_type(CommunicationType::client_changed));
    assert_eq!(n.get_data(DataTypes::user_id).and_then(|v| v.as_str()), Some("5"));
    assert!(s.are_you_interested(6).is_none());
}

#[test]
fn closing_a_client_closes_it_once() {
    let mut s = ClientConnection::new(1);
    assert!(s.close());
    assert!(!s.can_send());
    assert!(!s.close());
    assert!(!s.can_send());
    let mut g = AnonymousClientConnection::from_general(4);
    assert!(g.close());
    assert!(!g.can_send());
    assert!(!g.close());
}

#[test]
fn iota_routes() {
    let mut iota = IotaConnection::new(1);
    let ident = CommunicationValue::new(CommunicationType::identification);
    assert_eq!(iota.route(&ident), IotaRoute::Identify);
    assert_eq!(iota.route(&CommunicationValue::new(CommunicationType::ping)), IotaRoute::NotAuthenticated);
    iota.identified = true;
    iota.user_ids = vec![1, 2];
    assert_eq!(iota.route(&CommunicationValue::new(CommunicationType::ping)), IotaRoute::Ping);
    assert_eq!(iota.route(&CommunicationValue::new(CommunicationType::message).with_receiver(3)), IotaRoute::Forward);
    assert_eq!(iota.route(&CommunicationValue::new(CommunicationType::send_chat).with_receiver(1)), IotaRoute::Forward);
    assert_eq!(iota.route(&CommunicationValue::new(CommunicationType::get_chats).with_receiver(1)), IotaRoute::GetChats);
    assert_eq!(iota.route(&CommunicationValue::new(CommunicationType::get_register).with_receiver(1)), IotaRoute::OmegaForward);
    assert_eq!(iota.route(&CommunicationValue::new(CommunicationType::message).with_receiver(1)), IotaRoute::ToClient);
}

#[test]
fn iota_identification_with_checked_users() {
    let mut rhos = RhoManager::new();
    rhos.add_rho(RhoConnection::new(5, vec![]));
    let mut iota = IotaConnection::new(1);
    let cv = CommunicationValue::new(CommunicationType::identification)
        .with_id(4)
        .add_data(DataTypes::iota_id, number(5))
        .add_data_str(DataTypes::user_ids, "1,x,2,,3".to_string());
    let (iota_id, candidates) = iota.identification_request(&cv).ok().unwrap();
    assert_eq!(iota_id, 5);
    assert_eq!(candidates, vec![1, 2, 3]);
    let out = iota.accept_identification(4, iota_id, &candidates, &vec![Some(5), Some(6), Some(5)], &mut rhos);
    assert_eq!(iota.get_user_ids(), vec![1, 3]);
    assert_eq!(out.len(), 3);
    assert!(matches!(&out[0], Outgoing::CloseClients(c) if c.is_empty()));
    match &out[2] {
        Outgoing::Reply(m) => {
            assert_eq!(m.get_data(DataTypes::accepted_ids).and_then(|v| v.as_str()), Some(",1,3"));
            assert_eq!(m.get_data(DataTypes::accepted).and_then(|v| v.as_str()), Some("2"));
        }
        _ => panic!("answered"),
    }
    assert_eq!(rhos.get_rho_con_for_user(3), Some(5));
    let no_iota = CommunicationValue::new(CommunicationType::identification).with_id(6);
    assert!(iota.identification_request(&no_iota).err().unwrap().is_type(CommunicationType::error));
}

#[test]
fn iota_forwarding() {
    let mut rhos = RhoManager::new();
    rhos.add_rho(RhoConnection::new(5, vec![1]));
    rhos.add_rho(RhoConnection::new(6, vec![2]));
    let mut iota = IotaConnection::new(1);
    iota.identified = true;
    iota.iota_id = 5;
    iota.user_ids = vec![1];
    let to_other = CommunicationValue::new(CommunicationType::send_chat).with_sender(1).with_receiver(2);
    assert!(matches!(&iota.forward_message(to_other, &rhos)[0], Outgoing::ToIota(6, _)));
    let nowhere = CommunicationValue::new(CommunicationType::send_chat).with_sender(1).with_receiver(3);
    assert_eq!(reply_kind(&iota.forward_message(nowhere, &rhos)[0]), Some(CommunicationType::error_no_iota));
    let forged = CommunicationValue::new(CommunicationType::send_chat).with_sender(9).with_receiver(2);
    match &iota.forward_message(forged, &rhos)[0] {
        Outgoing::Reply(m) => {
            assert!(m.is_type(CommunicationType::error_invalid_user_id));
            assert_eq!(
                m.get_data(DataTypes::error_type).and_then(|v| v.as_str()),
                Some("You are sending to another User without authority.")
            );
        }
        _ => panic!("complaint"),
    }
    let to_client = CommunicationValue::new(CommunicationType::message).with_receiver(1);
    assert!(matches!(&iota.forward_to_client(to_client, &rhos)[0], Outgoing::ToClients(_, m) if m.get_sender() == 5));
}

#[test]
fn iota_ping_reports_client_pings() {
    let mut iota = IotaConnection::new(1);
    let ping = CommunicationValue::new(CommunicationType::ping).with_id(2).add_data(DataTypes::last_ping, number(30));
    let pong = iota.handle_ping(&ping, &vec![(1, 10), (2, 20), (1, 15)]);
    assert_eq!(iota.get_ping(), 30);
    let pings = pong.get_data(DataTypes::ping_clients).unwrap();
    assert_eq!(pings.get("1").and_then(|v| v.as_str()), Some("15"));
    assert_eq!(pings.get("2").and_then(|v| v.as_str()), Some("20"));
}

#[test]
fn chats_are_enriched_with_shared_calls() {
    let mut calls = CallRegistry::new();
    calls.join_call(1, CALL);
    calls.join_call(2, CALL);
    let mut rhos = RhoManager::new();
    rhos.add_rho(RhoConnection::new(5, vec![1]));
    let mut iota = IotaConnection::new(1);
    iota.identified = true;
    iota.iota_id = 5;
    iota.user_ids = vec![1];
    let contacts = vec![
        Json::Object(vec![("user_id".to_string(), number(2))]),
        Json::Object(vec![("user_id".to_string(), number(3))]),
    ];
    let cv = CommunicationValue::new(CommunicationType::get_chats).with_receiver(1).add_array(DataTypes::user_ids, contacts);
    let answer = iota.get_chats(cv, &calls, &rhos);
    assert!(matches!(&answer.out[0], Outgoing::ToOmega(m) if m.is_type(CommunicationType::get_states)));
    match &answer.out[1] {
        Outgoing::ToClients(_, m) => {
            let list = m.get_data(DataTypes::user_ids).unwrap();
            let first = match list {
                Json::Array(items) => items[0].deep_clone(),
                _ => panic!("a list"),
            };
            let ids = first.get("calls").unwrap();
            match ids {
                Json::Array(items) => assert_eq!(items[0].as_str(), Some(uuid_to_string(CALL).as_str())),
                _ => panic!("calls listed"),
            }
        }
        _ => panic!("to the receiver's clients"),
    }
    assert!(answer.interested.is_none());
}

#[test]
fn a_general_connection_becomes_an_iota() {
    let mut rhos = RhoManager::new();
    let mut g = GeneralConnection::new();
    assert_eq!(g.step(), GeneralStep::Identification);
    assert!(g.handle_identification(&CommunicationValue::new(CommunicationType::ping)).is_none());
    let ident = CommunicationValue::new(CommunicationType::identification).add_data(DataTypes::iota_id, number(33));
    let q = g.handle_identification(&ident).unwrap();
    assert!(q.is_type(CommunicationType::get_iota_data));
    assert_eq!(g.connection_kind, Some(ConnectionKind::Iota));
    g.identified = true;
    g.challenge = "c0de".to_string();
    assert_eq!(g.step(), GeneralStep::ChallengeResponse);
    let wrong = CommunicationValue::new(CommunicationType::challenge_response).add_data_str(DataTypes::challenge, "x".to_string());
    assert!(g.handle_challenge_response(&wrong).is_none());
    let right = CommunicationValue::new(CommunicationType::challenge_response).with_id(4).add_data_str(DataTypes::challenge, "c0de".to_string());
    let accepted = g.handle_challenge_response(&right).unwrap();
    assert_eq!(accepted.get_data(DataTypes::accepted).and_then(|v| v.as_bool()), Some(true));
    assert_eq!(g.step(), GeneralStep::Migrate);
    assert_eq!(g.migrate(&mut rhos), Some((ConnectionKind::Iota, 33)));
    assert!(rhos.contains_iota(33));
}

#[test]
fn a_call_channel_member() {
    let mut c = CallConnection::new();
    let id_text = uuid_to_string(1);
    let call_text = uuid_to_string(2);
    let ident = CommunicationValue::new(CommunicationType::identification)
        .add_data_str(DataTypes::user_id, id_text.clone())
        .add_data_str(DataTypes::call_id, call_text);
    assert_eq!(c.route(&ident), CallRoute::Identification);
    assert_eq!(c.identify(&ident), Some((1, 2)));
    let (notice, answer) = c.joined(5, 1, &vec![1, 3]);
    assert!(notice.is_type(CommunicationType::client_connected));
    assert_eq!(notice.get_data(DataTypes::call_state).and_then(|v| v.as_str()), Some("muted"));
    let about = answer.get_data(DataTypes::about).unwrap();
    assert!(about.get(&id_text).is_some());
    let relay = CommunicationValue::new(CommunicationType::webrtc_sdp).add_data_str(DataTypes::receiver_id, uuid_to_string(3));
    let (call, to, m) = c.direct_relay(relay).unwrap();
    assert_eq!((call, to), (2, 3));
    assert_eq!(m.get_data(DataTypes::sender_id).and_then(|v| v.as_str()), Some(id_text.as_str()));
    let (_, who, bye) = c.leave().unwrap();
    assert_eq!(who, 1);
    assert!(bye.is_type(CommunicationType::client_disconnected));
}

#[test]
fn a_guest_joins_an_open_call() {
    let mut calls = CallRegistry::new();
    calls.join_call(1, CALL);
    let guest = AnonymousClientConnection::from_general(50);
    let ask = CommunicationValue::new(CommunicationType::identification).with_id(3).add_data_str(DataTypes::call_id, uuid_to_string(CALL));
    assert_eq!(guest.route(&ask), AnonymousRoute::Identify);
    let refused = guest.join_call(&ask, &calls).err().unwrap();
    assert!(refused.is_type(CommunicationType::error_not_authenticated));
    calls.set_anonymous_joining(CALL, true, None);
    let (call, requests) = guest.join_call(&ask, &calls).ok().unwrap();
    assert_eq!(call, CALL);
    assert_eq!(requests.len(), 1);
    assert_eq!(requests[0].get_data(DataTypes::user_id).and_then(|v| v.as_i64()), Some(1));
    let keys = TokenKeys { api_key: None, api_secret: None };
    let profile = AnonymousProfile::new(50, "Quiet Owl".to_string());
    assert!(guest.welcome(3, CALL, &vec![], &profile, &calls, &keys).is_none());
}

#[test]
fn a_guest_renames_itself() {
    let mut guests = AnonymousManager::new();
    guests.add_anonymous_user(AnonymousProfile::new(50, "Quiet Owl".to_string()));
    let guest = AnonymousClientConnection::from_general(50);
    let rename = CommunicationValue::new(CommunicationType::change_user_data).add_data_str(DataTypes::display, "Owl".to_string());
    assert_eq!(guest.route(&rename), AnonymousRoute::ChangeUserData);
    guest.change_user_data(&rename, &mut guests);
    assert_eq!(guests.get_anonymous_user(50).unwrap().get_display_name(), "Owl");
}

#[test]
fn an_admin_opens_a_call_to_guests() {
    let mut calls = CallRegistry::new();
    calls.join_call(1, CALL);
    calls.join_call(2, CALL);
    let mut admin = ClientConnection::new(1);
    admin.user_id = 1;
    let mut member = ClientConnection::new(2);
    member.user_id = 2;
    let open = CommunicationValue::new(CommunicationType::call_set_anonymous_joining)
        .add_data_str(DataTypes::call_id, uuid_to_string(CALL));
    let by_member = member.try_call_set_anonymous_joining(&open, &mut calls, Some("42")).unwrap();
    assert!(by_member.enable);
    assert!(by_member.room_update.is_none());
    assert!(!calls.get_call(CALL).unwrap().is_anonymous());
    let by_admin = admin.try_call_set_anonymous_joining(&open, &mut calls, Some("42")).unwrap();
    let (metadata, link) = by_admin.room_update.clone().unwrap();
    assert_eq!(metadata, "{\"anonymous_joining\": \"true\"}");
    assert_eq!(
        link,
        Some(format!("https://app.tensamin.net/call/anonymous?call_id={}&omikron_id=42", uuid_to_string(CALL)))
    );
    assert!(calls.get_call(CALL).unwrap().is_anonymous());
    assert!(calls.set_short_link(CALL, "https://s/x".to_string()));
    let reply = anonymous_joining_reply(open.get_id(), &by_admin, &calls);
    assert_eq!(reply.get_type(), CommunicationType::call_set_anonymous_joining);
    assert_eq!(reply.get_data(DataTypes::enabled).and_then(|v| v.as_bool()), Some(true));
    assert_eq!(reply.get_data(DataTypes::link).and_then(|v| v.as_str()), Some("https://s/x"));
    let outsider = ClientConnection::new(3);
    let unknown = CommunicationValue::new(CommunicationType::call_set_anonymous_joining)
        .add_data_str(DataTypes::call_id, "no uuid".to_string());
    assert!(outsider.try_call_set_anonymous_joining(&unknown, &mut calls, None).is_none());
}

#[test]
fn a_call_token_reply_with_keys_carries_a_token() {
    let mut calls = CallRegistry::new();
    let mut s = ClientConnection::new(1);
    s.user_id = 4;
    let keys = TokenKeys { api_key: Some("key".to_string()), api_secret: Some("secret".to_string()) };
    let ask = CommunicationValue::new(CommunicationType::call_token)
        .with_id(8)
        .add_data_str(DataTypes::call_id, uuid_to_string(CALL));
    let r = s.call_token(&ask, &mut calls, &keys);
    let token = r.get_data(DataTypes::call_token).and_then(|v| v.as_str()).unwrap();
    assert_eq!(token.split('.').count(), 3);
}
