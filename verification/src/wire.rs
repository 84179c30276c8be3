//! The wire vocabulary: the kinds of messages and the keys of their data.

use vstd::prelude::*;

use crate::text::{chars_equal, match_key, match_key_of};

verus! {

/// The keys of the data fields a message may carry.
#[derive(Debug, Clone, Copy, PartialEq, Eq, Hash, Structural)]
#[allow(non_camel_case_types)]
pub enum DataTypes {
    error_type,
    accepted_ids,
    uuid,
    register_id,
    link,
    settings,
    settings_name,
    chat_partner_id,
    chat_partner_name,
    iota_id,
    user_id,
    user_ids,
    iota_ids,
    user_state,
    user_states,
    user_pings,
    call_state,
    screen_share,
    private_key_hash,
    accepted,
    accepted_profiles,
    denied_profiles,
    content,
    messages,
    notifications,
    send_time,
    get_time,
    get_variant,
    shared_secret_own,
    shared_secret_other,
    shared_secret_sign,
    shared_secret,
    call_id,
    call_token,
    untill,
    enabled,
    start_date,
    end_date,
    receiver_id,
    sender_id,
    signature,
    signed,
    message,
    message_state,
    last_ping,
    ping_iota,
    ping_clients,
    matches,
    omikron,
    offset,
    amount,
    position,
    name,
    path,
    codec,
    function,
    payload,
    result,
    interactables,
    want_to_watch,
    watcher,
    created_at,
    username,
    display,
    avatar,
    about,
    status,
    public_key,
    sub_level,
    sub_end,
    community_address,
    challenge,
    community_title,
    communities,
    rho_connections,
    user,
    online_status,
    omikron_id,
    omikron_connections,
    reset_token,
    new_token,
}

impl DataTypes {
    /// The name of the variant, as it travels on the wire.
    pub open spec fn spec_name(self) -> Seq<char> {
        match self {
            DataTypes::error_type => "error_type"@,
            DataTypes::accepted_ids => "accepted_ids"@,
            DataTypes::uuid => "uuid"@,
            DataTypes::register_id => "register_id"@,
            DataTypes::link => "link"@,
            DataTypes::settings => "settings"@,
            DataTypes::settings_name => "settings_name"@,
            DataTypes::chat_partner_id => "chat_partner_id"@,
            DataTypes::chat_partner_name => "chat_partner_name"@,
            DataTypes::iota_id => "iota_id"@,
            DataTypes::user_id => "user_id"@,
            DataTypes::user_ids => "user_ids"@,
            DataTypes::iota_ids => "iota_ids"@,
            DataTypes::user_state => "user_state"@,
            DataTypes::user_states => "user_states"@,
            DataTypes::user_pings => "user_pings"@,
            DataTypes::call_state => "call_state"@,
            DataTypes::screen_share => "screen_share"@,
            DataTypes::private_key_hash => "private_key_hash"@,
            DataTypes::accepted => "accepted"@,
            DataTypes::accepted_profiles => "accepted_profiles"@,
            DataTypes::denied_profiles => "denied_profiles"@,
            DataTypes::content => "content"@,
            DataTypes::messages => "messages"@,
            DataTypes::notifications => "notifications"@,
            DataTypes::send_time => "send_time"@,
            DataTypes::get_time => "get_time"@,
            DataTypes::get_variant => "get_variant"@,
            DataTypes::shared_secret_own => "shared_secret_own"@,
            DataTypes::shared_secret_other => "shared_secret_other"@,
            DataTypes::shared_secret_sign => "shared_secret_sign"@,
            DataTypes::shared_secret => "shared_secret"@,
            DataTypes::call_id => "call_id"@,
            DataTypes::call_token => "call_token"@,
            DataTypes::untill => "untill"@,
            DataTypes::enabled => "enabled"@,
            DataTypes::start_date => "start_date"@,
            DataTypes::end_date => "end_date"@,
            DataTypes::receiver_id => "receiver_id"@,
            DataTypes::sender_id => "sender_id"@,
            DataTypes::signature => "signature"@,
            DataTypes::signed => "signed"@,
            DataTypes::message => "message"@,
            DataTypes::message_state => "message_state"@,
            DataTypes::last_ping => "last_ping"@,
            DataTypes::ping_iota => "ping_iota"@,
            DataTypes::ping_clients => "ping_clients"@,
            DataTypes::matches => "matches"@,
            DataTypes::omikron => "omikron"@,
            DataTypes::offset => "offset"@,
            DataTypes::amount => "amount"@,
            DataTypes::position => "position"@,
            DataTypes::name => "name"@,
            DataTypes::path => "path"@,
            DataTypes::codec => "codec"@,
            DataTypes::function => "function"@,
            DataTypes::payload => "payload"@,
            DataTypes::result => "result"@,
            DataTypes::interactables => "interactables"@,
            DataTypes::want_to_watch => "want_to_watch"@,
            DataTypes::watcher => "watcher"@,
            DataTypes::created_at => "created_at"@,
            DataTypes::username => "username"@,
            DataTypes::display => "display"@,
            DataTypes::avatar => "avatar"@,
            DataTypes::about => "about"@,
            DataTypes::status => "status"@,
            DataTypes::public_key => "public_key"@,
            DataTypes::sub_level => "sub_level"@,
            DataTypes::sub_end => "sub_end"@,
            DataTypes::community_address => "community_address"@,
            DataTypes::challenge => "challenge"@,
            DataTypes::community_title => "community_title"@,
            DataTypes::communities => "communities"@,
            DataTypes::rho_connections => "rho_connections"@,
            DataTypes::user => "user"@,
            DataTypes::online_status => "online_status"@,
            DataTypes::omikron_id => "omikron_id"@,
            DataTypes::omikron_connections => "omikron_connections"@,
            DataTypes::reset_token => "reset_token"@,
            DataTypes::new_token => "new_token"@,
        }
    }

    /// The name of the variant, as it travels on the wire.
    pub fn name(&self) -> (r: &'static str)
        ensures
            r@ == self.spec_name(),
    {
        match self {
            DataTypes::error_type => "error_type",
            DataTypes::accepted_ids => "accepted_ids",
            DataTypes::uuid => "uuid",
            DataTypes::register_id => "register_id",
            DataTypes::link => "link",
            DataTypes::settings => "settings",
            DataTypes::settings_name => "settings_name",
            DataTypes::chat_partner_id => "chat_partner_id",
            DataTypes::chat_partner_name => "chat_partner_name",
            DataTypes::iota_id => "iota_id",
            DataTypes::user_id => "user_id",
            DataTypes::user_ids => "user_ids",
            DataTypes::iota_ids => "iota_ids",
            DataTypes::user_state => "user_state",
            DataTypes::user_states => "user_states",
            DataTypes::user_pings => "user_pings",
            DataTypes::call_state => "call_state",
            DataTypes::screen_share => "screen_share",
            DataTypes::private_key_hash => "private_key_hash",
            DataTypes::accepted => "accepted",
            DataTypes::accepted_profiles => "accepted_profiles",
            DataTypes::denied_profiles => "denied_profiles",
            DataTypes::content => "content",
            DataTypes::messages => "messages",
            DataTypes::notifications => "notifications",
            DataTypes::send_time => "send_time",
            DataTypes::get_time => "get_time",
            DataTypes::get_variant => "get_variant",
            DataTypes::shared_secret_own => "shared_secret_own",
            DataTypes::shared_secret_other => "shared_secret_other",
            DataTypes::shared_secret_sign => "shared_secret_sign",
            DataTypes::shared_secret => "shared_secret",
            DataTypes::call_id => "call_id",
            DataTypes::call_token => "call_token",
            DataTypes::untill => "untill",
            DataTypes::enabled => "enabled",
            DataTypes::start_date => "start_date",
            DataTypes::end_date => "end_date",
            DataTypes::receiver_id => "receiver_id",
            DataTypes::sender_id => "sender_id",
            DataTypes::signature => "signature",
            DataTypes::signed => "signed",
            DataTypes::message => "message",
            DataTypes::message_state => "message_state",
            DataTypes::last_ping => "last_ping",
            DataTypes::ping_iota => "ping_iota",
            DataTypes::ping_clients => "ping_clients",
            DataTypes::matches => "matches",
            DataTypes::omikron => "omikron",
            DataTypes::offset => "offset",
            DataTypes::amount => "amount",
            DataTypes::position => "position",
            DataTypes::name => "name",
            DataTypes::path => "path",
            DataTypes::codec => "codec",
            DataTypes::function => "function",
            DataTypes::payload => "payload",
            DataTypes::result => "result",
            DataTypes::interactables => "interactables",
            DataTypes::want_to_watch => "want_to_watch",
            DataTypes::watcher => "watcher",
            DataTypes::created_at => "created_at",
            DataTypes::username => "username",
            DataTypes::display => "display",
            DataTypes::avatar => "avatar",
            DataTypes::about => "about",
            DataTypes::status => "status",
            DataTypes::public_key => "public_key",
            DataTypes::sub_level => "sub_level",
            DataTypes::sub_end => "sub_end",
            DataTypes::community_address => "community_address",
            DataTypes::challenge => "challenge",
            DataTypes::community_title => "community_title",
            DataTypes::communities => "communities",
            DataTypes::rho_connections => "rho_connections",
            DataTypes::user => "user",
            DataTypes::online_status => "online_status",
            DataTypes::omikron_id => "omikron_id",
            DataTypes::omikron_connections => "omikron_connections",
            DataTypes::reset_token => "reset_token",
            DataTypes::new_token => "new_token",
        }
    }

    /// Every variant, in declaration order.
    pub open spec fn spec_all() -> Seq<DataTypes> {
        seq![
            DataTypes::error_type,
            DataTypes::accepted_ids,
            DataTypes::uuid,
            DataTypes::register_id,
            DataTypes::link,
            DataTypes::settings,
            DataTypes::settings_name,
            DataTypes::chat_partner_id,
            DataTypes::chat_partner_name,
            DataTypes::iota_id,
            DataTypes::user_id,
            DataTypes::user_ids,
            DataTypes::iota_ids,
            DataTypes::user_state,
            DataTypes::user_states,
            DataTypes::user_pings,
            DataTypes::call_state,
            DataTypes::screen_share,
            DataTypes::private_key_hash,
            DataTypes::accepted,
            DataTypes::accepted_profiles,
            DataTypes::denied_profiles,
            DataTypes::content,
            DataTypes::messages,
            DataTypes::notifications,
            DataTypes::send_time,
            DataTypes::get_time,
            DataTypes::get_variant,
            DataTypes::shared_secret_own,
            DataTypes::shared_secret_other,
            DataTypes::shared_secret_sign,
            DataTypes::shared_secret,
            DataTypes::call_id,
            DataTypes::call_token,
            DataTypes::untill,
            DataTypes::enabled,
            DataTypes::start_date,
            DataTypes::end_date,
            DataTypes::receiver_id,
            DataTypes::sender_id,
            DataTypes::signature,
            DataTypes::signed,
            DataTypes::message,
            DataTypes::message_state,
            DataTypes::last_ping,
            DataTypes::ping_iota,
            DataTypes::ping_clients,
            DataTypes::matches,
            DataTypes::omikron,
            DataTypes::offset,
            DataTypes::amount,
            DataTypes::position,
            DataTypes::name,
            DataTypes::path,
            DataTypes::codec,
            DataTypes::function,
            DataTypes::payload,
            DataTypes::result,
            DataTypes::interactables,
            DataTypes::want_to_watch,
            DataTypes::watcher,
            DataTypes::created_at,
            DataTypes::username,
            DataTypes::display,
            DataTypes::avatar,
            DataTypes::about,
            DataTypes::status,
            DataTypes::public_key,
            DataTypes::sub_level,
            DataTypes::sub_end,
            DataTypes::community_address,
            DataTypes::challenge,
            DataTypes::community_title,
            DataTypes::communities,
            DataTypes::rho_connections,
            DataTypes::user,
            DataTypes::online_status,
            DataTypes::omikron_id,
            DataTypes::omikron_connections,
            DataTypes::reset_token,
            DataTypes::new_token,
        ]
    }

    /// Every variant, in declaration order.
    pub fn all() -> (r: Vec<DataTypes>)
        ensures
            r@ == DataTypes::spec_all(),
    {
        let v = vec![
            DataTypes::error_type,
            DataTypes::accepted_ids,
            DataTypes::uuid,
            DataTypes::register_id,
            DataTypes::link,
            DataTypes::settings,
            DataTypes::settings_name,
            DataTypes::chat_partner_id,
            DataTypes::chat_partner_name,
            DataTypes::iota_id,
            DataTypes::user_id,
            DataTypes::user_ids,
            DataTypes::iota_ids,
            DataTypes::user_state,
            DataTypes::user_states,
            DataTypes::user_pings,
            DataTypes::call_state,
            DataTypes::screen_share,
            DataTypes::private_key_hash,
            DataTypes::accepted,
            DataTypes::accepted_profiles,
            DataTypes::denied_profiles,
            DataTypes::content,
            DataTypes::messages,
            DataTypes::notifications,
            DataTypes::send_time,
            DataTypes::get_time,
            DataTypes::get_variant,
            DataTypes::shared_secret_own,
            DataTypes::shared_secret_other,
            DataTypes::shared_secret_sign,
            DataTypes::shared_secret,
            DataTypes::call_id,
            DataTypes::call_token,
            DataTypes::untill,
            DataTypes::enabled,
            DataTypes::start_date,
            DataTypes::end_date,
            DataTypes::receiver_id,
            DataTypes::sender_id,
            DataTypes::signature,
            DataTypes::signed,
            DataTypes::message,
            DataTypes::message_state,
            DataTypes::last_ping,
            DataTypes::ping_iota,
            DataTypes::ping_clients,
            DataTypes::matches,
            DataTypes::omikron,
            DataTypes::offset,
            DataTypes::amount,
            DataTypes::position,
            DataTypes::name,
            DataTypes::path,
            DataTypes::codec,
            DataTypes::function,
            DataTypes::payload,
            DataTypes::result,
            DataTypes::interactables,
            DataTypes::want_to_watch,
            DataTypes::watcher,
            DataTypes::created_at,
            DataTypes::username,
            DataTypes::display,
            DataTypes::avatar,
            DataTypes::about,
            DataTypes::status,
            DataTypes::public_key,
            DataTypes::sub_level,
            DataTypes::sub_end,
            DataTypes::community_address,
            DataTypes::challenge,
            DataTypes::community_title,
            DataTypes::communities,
            DataTypes::rho_connections,
            DataTypes::user,
            DataTypes::online_status,
            DataTypes::omikron_id,
            DataTypes::omikron_connections,
            DataTypes::reset_token,
            DataTypes::new_token,
        ];
        assert(v@ =~= DataTypes::spec_all());
        v
    }

}

impl DataTypes {
    /// The variant that `parse` picks for a matching key: the first one, in
    /// declaration order, whose name has that key, or `error_type` when none has.
    pub open spec fn parse_from(key: Seq<char>, i: nat) -> DataTypes
        decreases DataTypes::spec_all().len() - i,
    {
        if i >= DataTypes::spec_all().len() {
            DataTypes::error_type
        } else if match_key(DataTypes::spec_all()[i as int].spec_name()) == key {
            DataTypes::spec_all()[i as int]
        } else {
            DataTypes::parse_from(key, i + 1)
        }
    }

    /// What `parse` returns for a text: the variant whose name equals it up to
    /// case and underscores, or `error_type`.
    pub open spec fn spec_parse(s: Seq<char>) -> DataTypes {
        DataTypes::parse_from(match_key(s), 0)
    }

    /// Reads a variant from its name, ignoring case and underscores; an unknown
    /// name gives `error_type`.
    pub fn parse(p0: String) -> (r: DataTypes)
        ensures
            r == DataTypes::spec_parse(p0@),
    {
        let key = match_key_of(p0.as_str());
        let all = DataTypes::all();
        let mut i: usize = 0;
        while i < all.len()
            invariant
                all@ == DataTypes::spec_all(),
                key@ == match_key(p0@),
                i <= all.len(),
                DataTypes::parse_from(key@, 0) == DataTypes::parse_from(key@, i as nat),
            decreases all.len() - i,
        {
            let v = all[i];
            let k = match_key_of(v.name());
            if chars_equal(&k, &key) {
                assert(v == DataTypes::spec_all()[i as int]);
                assert(DataTypes::parse_from(key@, i as nat) == v);
                return v;
            }
            i = i + 1;
        }
        DataTypes::error_type
    }

    /// The variant's name as an owned string.
    pub fn to_string(&self) -> (r: String)
        ensures
            r@ == self.spec_name(),
    {
        String::from_str(self.name())
    }
}

/// The kinds of messages exchanged with clients, iotas and omega.
#[derive(Debug, Clone, Copy, PartialEq, Eq, Hash, Structural)]
#[allow(non_camel_case_types)]
pub enum CommunicationType {
    error,
    error_anonymous,
    error_internal,
    error_invalid_data,
    error_invalid_user_id,
    error_invalid_omikron_id,
    error_not_found,
    error_not_authenticated,
    error_no_iota,
    error_invalid_challenge,
    error_invalid_secret,
    error_invalid_private_key,
    error_invalid_public_key,
    error_no_user_id,
    error_no_call_id,
    error_invalid_call_id,
    success,
    shorten_link,
    settings_save,
    settings_load,
    settings_list,
    message,
    message_state,
    message_send,
    message_live,
    message_other_iota,
    message_chunk,
    messages_get,
    push_notification,
    read_notification,
    get_notifications,
    change_confirm,
    confirm_receive,
    confirm_read,
    get_chats,
    get_states,
    add_community,
    remove_community,
    get_communities,
    challenge,
    challenge_response,
    register,
    register_response,
    identification,
    identification_response,
    register_iota,
    register_iota_success,
    ping,
    pong,
    add_conversation,
    send_chat,
    client_changed,
    client_connected,
    client_disconnected,
    client_closed,
    public_key,
    private_key,
    webrtc_sdp,
    webrtc_ice,
    start_stream,
    end_stream,
    watch_stream,
    call_token,
    call_invite,
    call_disconnect_user,
    call_timeout_user,
    call_set_anonymous_joining,
    end_call,
    function,
    update,
    create_user,
    rho_update,
    user_connected,
    user_disconnected,
    iota_connected,
    iota_disconnected,
    sync_client_iota_status,
    get_user_data,
    get_iota_data,
    iota_user_data,
    change_user_data,
    change_iota_data,
    get_register,
    complete_register_user,
    complete_register_iota,
    delete_user,
    delete_iota,
    start_register,
    complete_register,
}

impl CommunicationType {
    /// The name of the variant, as it travels on the wire.
    pub open spec fn spec_name(self) -> Seq<char> {
        match self {
            CommunicationType::error => "error"@,
            CommunicationType::error_anonymous => "error_anonymous"@,
            CommunicationType::error_internal => "error_internal"@,
            CommunicationType::error_invalid_data => "error_invalid_data"@,
            CommunicationType::error_invalid_user_id => "error_invalid_user_id"@,
            CommunicationType::error_invalid_omikron_id => "error_invalid_omikron_id"@,
            CommunicationType::error_not_found => "error_not_found"@,
            CommunicationType::error_not_authenticated => "error_not_authenticated"@,
            CommunicationType::error_no_iota => "error_no_iota"@,
            CommunicationType::error_invalid_challenge => "error_invalid_challenge"@,
            CommunicationType::error_invalid_secret => "error_invalid_secret"@,
            CommunicationType::error_invalid_private_key => "error_invalid_private_key"@,
            CommunicationType::error_invalid_public_key => "error_invalid_public_key"@,
            CommunicationType::error_no_user_id => "error_no_user_id"@,
            CommunicationType::error_no_call_id => "error_no_call_id"@,
            CommunicationType::error_invalid_call_id => "error_invalid_call_id"@,
            CommunicationType::success => "success"@,
            CommunicationType::shorten_link => "shorten_link"@,
            CommunicationType::settings_save => "settings_save"@,
            CommunicationType::settings_load => "settings_load"@,
            CommunicationType::settings_list => "settings_list"@,
            CommunicationType::message => "message"@,
            CommunicationType::message_state => "message_state"@,
            CommunicationType::message_send => "message_send"@,
            CommunicationType::message_live => "message_live"@,
            CommunicationType::message_other_iota => "message_other_iota"@,
            CommunicationType::message_chunk => "message_chunk"@,
            CommunicationType::messages_get => "messages_get"@,
            CommunicationType::push_notification => "push_notification"@,
            CommunicationType::read_notification => "read_notification"@,
            CommunicationType::get_notifications => "get_notifications"@,
            CommunicationType::change_confirm => "change_confirm"@,
            CommunicationType::confirm_receive => "confirm_receive"@,
            CommunicationType::confirm_read => "confirm_read"@,
            CommunicationType::get_chats => "get_chats"@,
            CommunicationType::get_states => "get_states"@,
            CommunicationType::add_community => "add_community"@,
            CommunicationType::remove_community => "remove_community"@,
            CommunicationType::get_communities => "get_communities"@,
            CommunicationType::challenge => "challenge"@,
            CommunicationType::challenge_response => "challenge_response"@,
            CommunicationType::register => "register"@,
            CommunicationType::register_response => "register_response"@,
            CommunicationType::identification => "identification"@,
            CommunicationType::identification_response => "identification_response"@,
            CommunicationType::register_iota => "register_iota"@,
            CommunicationType::register_iota_success => "register_iota_success"@,
            CommunicationType::ping => "ping"@,
            CommunicationType::pong => "pong"@,
            CommunicationType::add_conversation => "add_conversation"@,
            CommunicationType::send_chat => "send_chat"@,
            CommunicationType::client_changed => "client_changed"@,
            CommunicationType::client_connected => "client_connected"@,
            CommunicationType::client_disconnected => "client_disconnected"@,
            CommunicationType::client_closed => "client_closed"@,
            CommunicationType::public_key => "public_key"@,
            CommunicationType::private_key => "private_key"@,
            CommunicationType::webrtc_sdp => "webrtc_sdp"@,
            CommunicationType::webrtc_ice => "webrtc_ice"@,
            CommunicationType::start_stream => "start_stream"@,
            CommunicationType::end_stream => "end_stream"@,
            CommunicationType::watch_stream => "watch_stream"@,
            CommunicationType::call_token => "call_token"@,
            CommunicationType::call_invite => "call_invite"@,
            CommunicationType::call_disconnect_user => "call_disconnect_user"@,
            CommunicationType::call_timeout_user => "call_timeout_user"@,
            CommunicationType::call_set_anonymous_joining => "call_set_anonymous_joining"@,
            CommunicationType::end_call => "end_call"@,
            CommunicationType::function => "function"@,
            CommunicationType::update => "update"@,
            CommunicationType::create_user => "create_user"@,
            CommunicationType::rho_update => "rho_update"@,
            CommunicationType::user_connected => "user_connected"@,
            CommunicationType::user_disconnected => "user_disconnected"@,
            CommunicationType::iota_connected => "iota_connected"@,
            CommunicationType::iota_disconnected => "iota_disconnected"@,
            CommunicationType::sync_client_iota_status => "sync_client_iota_status"@,
            CommunicationType::get_user_data => "get_user_data"@,
            CommunicationType::get_iota_data => "get_iota_data"@,
            CommunicationType::iota_user_data => "iota_user_data"@,
            CommunicationType::change_user_data => "change_user_data"@,
            CommunicationType::change_iota_data => "change_iota_data"@,
            CommunicationType::get_register => "get_register"@,
            CommunicationType::complete_register_user => "complete_register_user"@,
            CommunicationType::complete_register_iota => "complete_register_iota"@,
            CommunicationType::delete_user => "delete_user"@,
            CommunicationType::delete_iota => "delete_iota"@,
            CommunicationType::start_register => "start_register"@,
            CommunicationType::complete_register => "complete_register"@,
        }
    }

    /// The name of the variant, as it travels on the wire.
    pub fn name(&self) -> (r: &'static str)
        ensures
            r@ == self.spec_name(),
    {
        match self {
            CommunicationType::error => "error",
            CommunicationType::error_anonymous => "error_anonymous",
            CommunicationType::error_internal => "error_internal",
            CommunicationType::error_invalid_data => "error_invalid_data",
            CommunicationType::error_invalid_user_id => "error_invalid_user_id",
            CommunicationType::error_invalid_omikron_id => "error_invalid_omikron_id",
            CommunicationType::error_not_found => "error_not_found",
            CommunicationType::error_not_authenticated => "error_not_authenticated",
            CommunicationType::error_no_iota => "error_no_iota",
            CommunicationType::error_invalid_challenge => "error_invalid_challenge",
            CommunicationType::error_invalid_secret => "error_invalid_secret",
            CommunicationType::error_invalid_private_key => "error_invalid_private_key",
            CommunicationType::error_invalid_public_key => "error_invalid_public_key",
            CommunicationType::error_no_user_id => "error_no_user_id",
            CommunicationType::error_no_call_id => "error_no_call_id",
            CommunicationType::error_invalid_call_id => "error_invalid_call_id",
            CommunicationType::success => "success",
            CommunicationType::shorten_link => "shorten_link",
            CommunicationType::settings_save => "settings_save",
            CommunicationType::settings_load => "settings_load",
            CommunicationType::settings_list => "settings_list",
            CommunicationType::message => "message",
            CommunicationType::message_state => "message_state",
            CommunicationType::message_send => "message_send",
            CommunicationType::message_live => "message_live",
            CommunicationType::message_other_iota => "message_other_iota",
            CommunicationType::message_chunk => "message_chunk",
            CommunicationType::messages_get => "messages_get",
            CommunicationType::push_notification => "push_notification",
            CommunicationType::read_notification => "read_notification",
            CommunicationType::get_notifications => "get_notifications",
            CommunicationType::change_confirm => "change_confirm",
            CommunicationType::confirm_receive => "confirm_receive",
            CommunicationType::confirm_read => "confirm_read",
            CommunicationType::get_chats => "get_chats",
            CommunicationType::get_states => "get_states",
            CommunicationType::add_community => "add_community",
            CommunicationType::remove_community => "remove_community",
            CommunicationType::get_communities => "get_communities",
            CommunicationType::challenge => "challenge",
            CommunicationType::challenge_response => "challenge_response",
            CommunicationType::register => "register",
            CommunicationType::register_response => "register_response",
            CommunicationType::identification => "identification",
            CommunicationType::identification_response => "identification_response",
            CommunicationType::register_iota => "register_iota",
            CommunicationType::register_iota_success => "register_iota_success",
            CommunicationType::ping => "ping",
            CommunicationType::pong => "pong",
            CommunicationType::add_conversation => "add_conversation",
            CommunicationType::send_chat => "send_chat",
            CommunicationType::client_changed => "client_changed",
            CommunicationType::client_connected => "client_connected",
            CommunicationType::client_disconnected => "client_disconnected",
            CommunicationType::client_closed => "client_closed",
            CommunicationType::public_key => "public_key",
            CommunicationType::private_key => "private_key",
            CommunicationType::webrtc_sdp => "webrtc_sdp",
            CommunicationType::webrtc_ice => "webrtc_ice",
            CommunicationType::start_stream => "start_stream",
            CommunicationType::end_stream => "end_stream",
            CommunicationType::watch_stream => "watch_stream",
            CommunicationType::call_token => "call_token",
            CommunicationType::call_invite => "call_invite",
            CommunicationType::call_disconnect_user => "call_disconnect_user",
            CommunicationType::call_timeout_user => "call_timeout_user",
            CommunicationType::call_set_anonymous_joining => "call_set_anonymous_joining",
            CommunicationType::end_call => "end_call",
            CommunicationType::function => "function",
            CommunicationType::update => "update",
            CommunicationType::create_user => "create_user",
            CommunicationType::rho_update => "rho_update",
            CommunicationType::user_connected => "user_connected",
            CommunicationType::user_disconnected => "user_disconnected",
            CommunicationType::iota_connected => "iota_connected",
            CommunicationType::iota_disconnected => "iota_disconnected",
            CommunicationType::sync_client_iota_status => "sync_client_iota_status",
            CommunicationType::get_user_data => "get_user_data",
            CommunicationType::get_iota_data => "get_iota_data",
            CommunicationType::iota_user_data => "iota_user_data",
            CommunicationType::change_user_data => "change_user_data",
            CommunicationType::change_iota_data => "change_iota_data",
            CommunicationType::get_register => "get_register",
            CommunicationType::complete_register_user => "complete_register_user",
            CommunicationType::complete_register_iota => "complete_register_iota",
            CommunicationType::delete_user => "delete_user",
            CommunicationType::delete_iota => "delete_iota",
            CommunicationType::start_register => "start_register",
            CommunicationType::complete_register => "complete_register",
        }
    }

    /// Every variant, in declaration order.
    pub open spec fn spec_all() -> Seq<CommunicationType> {
        seq![
            CommunicationType::error,
            CommunicationType::error_anonymous,
            CommunicationType::error_internal,
            CommunicationType::error_invalid_data,
            CommunicationType::error_invalid_user_id,
            CommunicationType::error_invalid_omikron_id,
            CommunicationType::error_not_found,
            CommunicationType::error_not_authenticated,
            CommunicationType::error_no_iota,
            CommunicationType::error_invalid_challenge,
            CommunicationType::error_invalid_secret,
            CommunicationType::error_invalid_private_key,
            CommunicationType::error_invalid_public_key,
            CommunicationType::error_no_user_id,
            CommunicationType::error_no_call_id,
            CommunicationType::error_invalid_call_id,
            CommunicationType::success,
            CommunicationType::shorten_link,
            CommunicationType::settings_save,
            CommunicationType::settings_load,
            CommunicationType::settings_list,
            CommunicationType::message,
            CommunicationType::message_state,
            CommunicationType::message_send,
            CommunicationType::message_live,
            CommunicationType::message_other_iota,
            CommunicationType::message_chunk,
            CommunicationType::messages_get,
            CommunicationType::push_notification,
            CommunicationType::read_notification,
            CommunicationType::get_notifications,
            CommunicationType::change_confirm,
            CommunicationType::confirm_receive,
            CommunicationType::confirm_read,
            CommunicationType::get_chats,
            CommunicationType::get_states,
            CommunicationType::add_community,
            CommunicationType::remove_community,
            CommunicationType::get_communities,
            CommunicationType::challenge,
            CommunicationType::challenge_response,
            CommunicationType::register,
            CommunicationType::register_response,
            CommunicationType::identification,
            CommunicationType::identification_response,
            CommunicationType::register_iota,
            CommunicationType::register_iota_success,
            CommunicationType::ping,
            CommunicationType::pong,
            CommunicationType::add_conversation,
            CommunicationType::send_chat,
            CommunicationType::client_changed,
            CommunicationType::client_connected,
            CommunicationType::client_disconnected,
            CommunicationType::client_closed,
            CommunicationType::public_key,
            CommunicationType::private_key,
            CommunicationType::webrtc_sdp,
            CommunicationType::webrtc_ice,
            CommunicationType::start_stream,
            CommunicationType::end_stream,
            CommunicationType::watch_stream,
            CommunicationType::call_token,
            CommunicationType::call_invite,
            CommunicationType::call_disconnect_user,
            CommunicationType::call_timeout_user,
            CommunicationType::call_set_anonymous_joining,
            CommunicationType::end_call,
            CommunicationType::function,
            CommunicationType::update,
            CommunicationType::create_user,
            CommunicationType::rho_update,
            CommunicationType::user_connected,
            CommunicationType::user_disconnected,
            CommunicationType::iota_connected,
            CommunicationType::iota_disconnected,
            CommunicationType::sync_client_iota_status,
            CommunicationType::get_user_data,
            CommunicationType::get_iota_data,
            CommunicationType::iota_user_data,
            CommunicationType::change_user_data,
            CommunicationType::change_iota_data,
            CommunicationType::get_register,
            CommunicationType::complete_register_user,
            CommunicationType::complete_register_iota,
            CommunicationType::delete_user,
            CommunicationType::delete_iota,
            CommunicationType::start_register,
            CommunicationType::complete_register,
        ]
    }

    /// Every variant, in declaration order.
    pub fn all() -> (r: Vec<CommunicationType>)
        ensures
            r@ == CommunicationType::spec_all(),
    {
        let v = vec![
            CommunicationType::error,
            CommunicationType::error_anonymous,
            CommunicationType::error_internal,
            CommunicationType::error_invalid_data,
            CommunicationType::error_invalid_user_id,
            CommunicationType::error_invalid_omikron_id,
            CommunicationType::error_not_found,
            CommunicationType::error_not_authenticated,
            CommunicationType::error_no_iota,
            CommunicationType::error_invalid_challenge,
            CommunicationType::error_invalid_secret,
            CommunicationType::error_invalid_private_key,
            CommunicationType::error_invalid_public_key,
            CommunicationType::error_no_user_id,
            CommunicationType::error_no_call_id,
            CommunicationType::error_invalid_call_id,
            CommunicationType::success,
            CommunicationType::shorten_link,
            CommunicationType::settings_save,
            CommunicationType::settings_load,
            CommunicationType::settings_list,
            CommunicationType::message,
            CommunicationType::message_state,
            CommunicationType::message_send,
            CommunicationType::message_live,
            CommunicationType::message_other_iota,
            CommunicationType::message_chunk,
            CommunicationType::messages_get,
            CommunicationType::push_notification,
            CommunicationType::read_notification,
            CommunicationType::get_notifications,
            CommunicationType::change_confirm,
            CommunicationType::confirm_receive,
            CommunicationType::confirm_read,
            CommunicationType::get_chats,
            CommunicationType::get_states,
            CommunicationType::add_community,
            CommunicationType::remove_community,
            CommunicationType::get_communities,
            CommunicationType::challenge,
            CommunicationType::challenge_response,
            CommunicationType::register,
            CommunicationType::register_response,
            CommunicationType::identification,
            CommunicationType::identification_response,
            CommunicationType::register_iota,
            CommunicationType::register_iota_success,
            CommunicationType::ping,
            CommunicationType::pong,
            CommunicationType::add_conversation,
            CommunicationType::send_chat,
            CommunicationType::client_changed,
            CommunicationType::client_connected,
            CommunicationType::client_disconnected,
            CommunicationType::client_closed,
            CommunicationType::public_key,
            CommunicationType::private_key,
            CommunicationType::webrtc_sdp,
            CommunicationType::webrtc_ice,
            CommunicationType::start_stream,
            CommunicationType::end_stream,
            CommunicationType::watch_stream,
            CommunicationType::call_token,
            CommunicationType::call_invite,
            CommunicationType::call_disconnect_user,
            CommunicationType::call_timeout_user,
            CommunicationType::call_set_anonymous_joining,
            CommunicationType::end_call,
            CommunicationType::function,
            CommunicationType::update,
            CommunicationType::create_user,
            CommunicationType::rho_update,
            CommunicationType::user_connected,
            CommunicationType::user_disconnected,
            CommunicationType::iota_connected,
            CommunicationType::iota_disconnected,
            CommunicationType::sync_client_iota_status,
            CommunicationType::get_user_data,
            CommunicationType::get_iota_data,
            CommunicationType::iota_user_data,
            CommunicationType::change_user_data,
            CommunicationType::change_iota_data,
            CommunicationType::get_register,
            CommunicationType::complete_register_user,
            CommunicationType::complete_register_iota,
            CommunicationType::delete_user,
            CommunicationType::delete_iota,
            CommunicationType::start_register,
            CommunicationType::complete_register,
        ];
        assert(v@ =~= CommunicationType::spec_all());
        v
    }

}

impl CommunicationType {
    /// The variant that `parse` picks for a matching key: the first one, in
    /// declaration order, whose name has that key, or `error` when none has.
    pub open spec fn parse_from(key: Seq<char>, i: nat) -> CommunicationType
        decreases CommunicationType::spec_all().len() - i,
    {
        if i >= CommunicationType::spec_all().len() {
            CommunicationType::error
        } else if match_key(CommunicationType::spec_all()[i as int].spec_name()) == key {
            CommunicationType::spec_all()[i as int]
        } else {
            CommunicationType::parse_from(key, i + 1)
        }
    }

    /// What `parse` returns for a text: the variant whose name equals it up to
    /// case and underscores, or `error`.
    pub open spec fn spec_parse(s: Seq<char>) -> CommunicationType {
        CommunicationType::parse_from(match_key(s), 0)
    }

    /// Reads a variant from its name, ignoring case and underscores; an unknown
    /// name gives `error`.
    pub fn parse(p0: String) -> (r: CommunicationType)
        ensures
            r == CommunicationType::spec_parse(p0@),
    {
        let key = match_key_of(p0.as_str());
        let all = CommunicationType::all();
        let mut i: usize = 0;
        while i < all.len()
            invariant
                all@ == CommunicationType::spec_all(),
                key@ == match_key(p0@),
                i <= all.len(),
                CommunicationType::parse_from(key@, 0) == CommunicationType::parse_from(key@, i as nat),
            decreases all.len() - i,
        {
            let v = all[i];
            let k = match_key_of(v.name());
            if chars_equal(&k, &key) {
                assert(v == CommunicationType::spec_all()[i as int]);
                assert(CommunicationType::parse_from(key@, i as nat) == v);
                return v;
            }
            i = i + 1;
        }
        CommunicationType::error
    }

    /// The variant's name as an owned string.
    pub fn to_string(&self) -> (r: String)
        ensures
            r@ == self.spec_name(),
    {
        String::from_str(self.name())
    }
}

} // verus!
