use omikron::user::UserStatus;
use omikron::wire::{CommunicationType, DataTypes};

#[test]
fn every_communication_type_is_read_back_from_its_name() {
    for t in CommunicationType::all() {
        assert_eq!(CommunicationType::parse(t.to_string()), t);
    }
}

#[test]
fn every_data_type_is_read_back_from_its_name() {
    for t in DataTypes::all() {
        assert_eq!(DataTypes::parse(t.to_string()), t);
    }
}

#[test]
fn names_are_matched_ignoring_case_and_underscores() {
    assert_eq!(
        CommunicationType::parse("IdentificationResponse".to_string()),
        CommunicationType::identification_response
    );
    assert_eq!(CommunicationType::parse("call_TOKEN".to_string()), CommunicationType::call_token);
    assert_eq!(DataTypes::parse("UserId".to_string()), DataTypes::user_id);
    assert_eq!(DataTypes::parse("chat__partner_id".to_string()), DataTypes::chat_partner_id);
}

#[test]
fn unknown_names_fall_back() {
    assert_eq!(CommunicationType::parse("no_such_kind".to_string()), CommunicationType::error);
    assert_eq!(DataTypes::parse("".to_string()), DataTypes::error_type);
}

#[test]
fn wire_names_are_the_variant_names() {
    assert_eq!(CommunicationType::ping.to_string(), "ping");
    assert_eq!(CommunicationType::error_invalid_omikron_id.to_string(), "error_invalid_omikron_id");
    assert_eq!(DataTypes::ping_clients.to_string(), "ping_clients");
}

#[test]
fn user_status_round_trip() {
    for s in UserStatus::all() {
        assert_eq!(UserStatus::from_str(&s.to_string()), Some(s));
    }
    assert_eq!(UserStatus::user_dnd.to_string(), "user_dnd");
}

#[test]
fn user_status_needs_the_exact_name() {
    assert_eq!(UserStatus::from_str("online"), None);
    assert_eq!(UserStatus::from_str("USER_ONLINE"), None);
    assert_eq!(UserStatus::from_str("iota_borked"), Some(UserStatus::iota_borked));
}
