use omikron::communication::CommunicationValue;
use omikron::json::{Json, JsonNumber};
use omikron::logger::format_cv;
use omikron::wire::{CommunicationType, DataTypes};

fn number(x: i64) -> Json {
    Json::Number(JsonNumber::from_i64(x))
}

#[test]
fn a_datum_set_is_read_back() {
    let cv = CommunicationValue::new(CommunicationType::message)
        .add_data(DataTypes::user_id, number(5))
        .add_data_str(DataTypes::content, "hi".to_string());
    assert_eq!(cv.get_data(DataTypes::user_id).and_then(|v| v.as_i64()), Some(5));
    assert_eq!(cv.get_data(DataTypes::content).and_then(|v| v.as_str()), Some("hi"));
    assert!(cv.get_data(DataTypes::iota_id).is_none());
}

#[test]
fn setting_a_datum_again_replaces_it() {
    let cv = CommunicationValue::new(CommunicationType::message)
        .add_data(DataTypes::user_id, number(5))
        .add_data(DataTypes::user_id, number(9));
    assert_eq!(cv.data_len(), 1);
    assert_eq!(cv.get_data(DataTypes::user_id).and_then(|v| v.as_i64()), Some(9));
}

#[test]
fn a_message_survives_its_json_text() {
    let cv = CommunicationValue::new(CommunicationType::send_chat)
        .with_id(77)
        .with_sender(12)
        .with_receiver(34)
        .add_data_str(DataTypes::content, "hello".to_string())
        .add_data(DataTypes::user_id, number(-3));
    let text = cv.to_text();
    let back = CommunicationValue::from_json_or(&text, 1);
    assert_eq!(back.get_id(), 77);
    assert!(back.is_type(CommunicationType::send_chat));
    assert_eq!(back.get_sender(), 12);
    assert_eq!(back.get_receiver(), 34);
    assert_eq!(back.get_data(DataTypes::content).and_then(|v| v.as_str()), Some("hello"));
    assert_eq!(back.get_data(DataTypes::user_id).and_then(|v| v.as_i64()), Some(-3));
}

#[test]
fn json_text_leaves_out_unset_sender_and_receiver() {
    let cv = CommunicationValue::new(CommunicationType::ping).with_id(1);
    let v = cv.to_json();
    assert!(v.get("sender").is_none());
    assert!(v.get("receiver").is_none());
    assert_eq!(v.get("type").and_then(|t| t.as_str()), Some("ping"));
    assert!(v.get("data").map(|d| d.is_object()).unwrap_or(false));
}

#[test]
fn unreadable_text_is_an_empty_error() {
    let cv = CommunicationValue::from_json_or("not json", 42);
    assert!(cv.is_type(CommunicationType::error));
    assert_eq!(cv.get_id(), 42);
    assert_eq!(cv.get_sender(), 0);
    assert_eq!(cv.data_len(), 0);
}

#[test]
fn unknown_kinds_in_text_become_error() {
    let cv = CommunicationValue::from_json_or(
        "{\"id\":\"00000000-0000-0000-0000-000000000005\",\"type\":\"whatever\",\"data\":{}}",
        9,
    );
    assert!(cv.is_type(CommunicationType::error));
    assert_eq!(cv.get_id(), 5);
}

#[test]
fn forwarding_to_another_iota_keeps_sender_receiver_and_content() {
    let mut cv = CommunicationValue::new(CommunicationType::send_chat)
        .with_id(3)
        .with_sender(10)
        .add_data(DataTypes::receiver_id, number(20))
        .add_data_str(DataTypes::content, "msg".to_string());
    let f = CommunicationValue::forward_to_other_iota_at(&mut cv, 1234);
    assert!(f.is_type(CommunicationType::message_other_iota));
    assert_eq!(f.get_id(), 3);
    assert_eq!(f.get_sender(), 10);
    assert_eq!(f.get_receiver(), 20);
    assert_eq!(f.get_data(DataTypes::send_time).and_then(|v| v.as_str()), Some("1234"));
    assert_eq!(f.get_data(DataTypes::sender_id).and_then(|v| v.as_i64()), Some(10));
    assert_eq!(f.get_data(DataTypes::content).and_then(|v| v.as_str()), Some("msg"));
}

#[test]
fn summary_of_a_message() {
    let cv = CommunicationValue::new(CommunicationType::message_send)
        .with_sender(5)
        .with_receiver(7)
        .add_data_str(DataTypes::content, "hi".to_string())
        .add_data(DataTypes::user_id, number(3));
    assert_eq!(format_cv(&cv), "5 > 7: message_send: content hi, user_id 3");
    let only_receiver = CommunicationValue::new(CommunicationType::ping).with_receiver(8);
    assert_eq!(format_cv(&only_receiver), "> 8: ping");
    let plain = CommunicationValue::new(CommunicationType::pong);
    assert_eq!(format_cv(&plain), "pong");
}

#[test]
fn json_text_with_lists_is_read() {
    let cv = CommunicationValue::from_json_or(
        "{\"type\": \"get_chats\", \"data\": {\"user_ids\": [1, true, null], \"content\": \"x\"}}",
        5,
    );
    assert_eq!(cv.get_id(), 5);
    assert!(cv.is_type(CommunicationType::get_chats));
    match cv.get_data(DataTypes::user_ids) {
        Some(Json::Array(items)) => assert_eq!(items.len(), 3),
        _ => panic!("the list is not read"),
    }
    assert_eq!(cv.get_data(DataTypes::content).and_then(|v| v.as_str()), Some("x"));
    assert!(CommunicationValue::from_json_or("{", 5).is_type(CommunicationType::error));
}

#[test]
fn a_parsed_value_is_read_as_a_message() {
    let v = Json::Object(vec![
        ("type".to_string(), Json::Str("ping".to_string())),
        ("sender".to_string(), number(3)),
    ]);
    let cv = CommunicationValue::from_parsed(Some(&v), 9);
    assert!(cv.is_type(CommunicationType::ping));
    assert_eq!(cv.get_sender(), 3);
    assert_eq!(cv.get_id(), 9);
    assert!(CommunicationValue::from_parsed(None, 9).is_type(CommunicationType::error));
}
