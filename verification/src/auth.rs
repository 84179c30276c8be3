//! The authority's answers, read: the addresses the relay asks the
//! authority at, and what it takes from the JSON messages it gets back.

use vstd::prelude::*;

use crate::communication::{CommunicationValue, MessageView};
use crate::ids::{spec_uuid_string, uuid_to_string};
use crate::json::{display, spec_json_display, JsonView};
use crate::outgoing::datum;
use crate::text::{
    concat_text, decimal_int, i64_to_string, parse_i32, parse_i64, replace_all, replace_text,
    spec_parse_i32, spec_parse_i64,
};
use crate::communication::spec_from_json;
use crate::wire::{CommunicationType, DataTypes};

verus! {

/// A user as the authority describes it.
pub struct AuthUser {
    pub created_at: i64,
    pub username: String,
    pub display: String,
    pub avatar: String,
    pub about: String,
    pub status: String,
    pub public_key: String,
    pub sub_level: i32,
    pub sub_end: i32,
}

/// The message an answer's body holds (its id does not matter).
pub open spec fn answer_of(body: Seq<char>) -> MessageView {
    spec_from_json(body, 0)
}

/// The text of the value under a key, where there is one.
pub open spec fn datum_text(m: MessageView, key: DataTypes) -> Option<Seq<char>> {
    match datum(m, key) {
        Some(v) => Some(spec_json_display(v)),
        None => None,
    }
}

/// The message an answer's body holds.
fn read_answer(body: &str) -> (r: CommunicationValue)
    ensures
        r.wf(),
        r@ == answer_of(body@),
{
    CommunicationValue::from_json_or(body, 0)
}

/// The text of the value under a key.
fn text_of(m: &CommunicationValue, key: DataTypes) -> (r: Option<String>)
    ensures
        r is Some == datum_text(m@, key) is Some,
        r matches Some(t) ==> t@ == datum_text(m@, key)->0,
{
    match m.get_data(key) {
        Some(v) => Some(display(v)),
        None => None,
    }
}

/// Whether an answer reports success.
pub fn is_success(body: &str) -> (r: bool)
    ensures
        r == (answer_of(body@).comm_type == CommunicationType::success),
{
    read_answer(body).is_type(CommunicationType::success)
}

/// A successful answer carries the authority's public key.
pub open spec fn public_key_answer_ok(body: Seq<char>) -> bool {
    answer_of(body).comm_type == CommunicationType::success ==> datum(answer_of(body), DataTypes::public_key) is Some
}

/// The authority's public key from its answer: the text under `public_key`
/// of a successful answer; `None` otherwise.
pub fn auth_public_key_of(body: &str) -> (r: Option<String>)
    requires
        public_key_answer_ok(body@),
    ensures
        answer_of(body@).comm_type != CommunicationType::success ==> r is None,
        answer_of(body@).comm_type == CommunicationType::success ==> (r matches Some(k) && k@ == datum_text(
            answer_of(body@),
            DataTypes::public_key,
        )->0),
{
    let cv = read_answer(body);
    if !cv.is_type(CommunicationType::success) {
        return None;
    }
    text_of(&cv, DataTypes::public_key)
}

/// `auth_public_key_of` where the answer can be read; `None` where a
/// successful answer lacks the key.
pub fn try_auth_public_key_of(body: &str) -> (r: Option<Option<String>>)
    ensures
        r is None <==> !public_key_answer_ok(body@),
        r matches Some(x) ==> (answer_of(body@).comm_type != CommunicationType::success ==> x is None),
        r matches Some(x) ==> (answer_of(body@).comm_type == CommunicationType::success ==> (x matches Some(k)
            && k@ == datum_text(answer_of(body@), DataTypes::public_key)->0)),
{
    let cv = read_answer(body);
    if cv.is_type(CommunicationType::success) && cv.get_data(DataTypes::public_key).is_none() {
        return None;
    }
    Some(auth_public_key_of(body))
}

/// The keys a successful answer describing a user carries.
pub open spec fn user_answer_ok(body: Seq<char>) -> bool {
    let m = answer_of(body);
    m.comm_type == CommunicationType::success ==> {
        &&& datum(m, DataTypes::created_at) is Some
        &&& datum(m, DataTypes::username) is Some
        &&& datum(m, DataTypes::display) is Some
        &&& datum(m, DataTypes::avatar) is Some
        &&& datum(m, DataTypes::about) is Some
        &&& datum(m, DataTypes::status) is Some
        &&& datum(m, DataTypes::public_key) is Some
        &&& datum(m, DataTypes::sub_level) is Some
        &&& datum(m, DataTypes::sub_end) is Some
    }
}

/// An integer read from a text, or -1.
pub open spec fn int_or_minus_one(t: Seq<char>) -> i64 {
    match spec_parse_i64(t) {
        Some(x) => x,
        None => -1i64,
    }
}

/// A small integer read from a text, or -1.
pub open spec fn i32_or_minus_one(t: Seq<char>) -> i32 {
    match spec_parse_i32(t) {
        Some(x) => x,
        None => -1i32,
    }
}

/// A user from the authority's answer: each field the text of its value,
/// the numbers read from theirs (-1 where they do not read); `None` where
/// the answer is no success.
pub fn auth_user_of(body: &str) -> (r: Option<AuthUser>)
    requires
        user_answer_ok(body@),
    ensures
        ({
            let m = answer_of(body@);
            if m.comm_type != CommunicationType::success {
                r is None
            } else {
                r matches Some(u) && {
                    &&& u.created_at == int_or_minus_one(datum_text(m, DataTypes::created_at)->0)
                    &&& u.username@ == datum_text(m, DataTypes::username)->0
                    &&& u.display@ == datum_text(m, DataTypes::display)->0
                    &&& u.avatar@ == datum_text(m, DataTypes::avatar)->0
                    &&& u.about@ == datum_text(m, DataTypes::about)->0
                    &&& u.status@ == datum_text(m, DataTypes::status)->0
                    &&& u.public_key@ == datum_text(m, DataTypes::public_key)->0
                    &&& u.sub_level == i32_or_minus_one(datum_text(m, DataTypes::sub_level)->0)
                    &&& u.sub_end == i32_or_minus_one(datum_text(m, DataTypes::sub_end)->0)
                }
            }
        }),
{
    let cv = read_answer(body);
    if !cv.is_type(CommunicationType::success) {
        return None;
    }
    let (created, username, display_name, avatar, about, status, public_key, level, end) = match (
        text_of(&cv, DataTypes::created_at),
        text_of(&cv, DataTypes::username),
        text_of(&cv, DataTypes::display),
        text_of(&cv, DataTypes::avatar),
        text_of(&cv, DataTypes::about),
        text_of(&cv, DataTypes::status),
        text_of(&cv, DataTypes::public_key),
        text_of(&cv, DataTypes::sub_level),
        text_of(&cv, DataTypes::sub_end),
    ) {
        (Some(a), Some(b), Some(c), Some(d), Some(e), Some(f), Some(g), Some(h), Some(i)) => (a, b, c, d, e, f, g, h, i),
        _ => {
            proof {
                assert(false);
            }
            return None;
        },
    };
    let created_at = match parse_i64(created.as_str()) {
        Some(x) => x,
        None => -1,
    };
    let sub_level = match parse_i32(level.as_str()) {
        Some(x) => x,
        None => -1,
    };
    let sub_end = match parse_i32(end.as_str()) {
        Some(x) => x,
        None => -1,
    };
    Some(AuthUser {
        created_at,
        username,
        display: display_name,
        avatar,
        about,
        status,
        public_key,
        sub_level,
        sub_end,
    })
}

/// `auth_user_of` where the answer can be read; `None` where a successful
/// answer lacks one of the user's keys.
pub fn try_auth_user_of(body: &str) -> (r: Option<Option<AuthUser>>)
    ensures
        r is None <==> !user_answer_ok(body@),
        r matches Some(x) ==> (x is Some <==> answer_of(body@).comm_type == CommunicationType::success),
{
    let cv = read_answer(body);
    if cv.is_type(CommunicationType::success) {
        if cv.get_data(DataTypes::created_at).is_none() || cv.get_data(DataTypes::username).is_none()
            || cv.get_data(DataTypes::display).is_none() || cv.get_data(DataTypes::avatar).is_none()
            || cv.get_data(DataTypes::about).is_none() || cv.get_data(DataTypes::status).is_none()
            || cv.get_data(DataTypes::public_key).is_none() || cv.get_data(DataTypes::sub_level).is_none()
            || cv.get_data(DataTypes::sub_end).is_none() {
            return None;
        }
    }
    Some(auth_user_of(body))
}

/// The iota of a user from the authority's answer, read after `iota_uuid`
/// is renamed `iota_id` in its text: the integer under `iota_id` of a
/// successful answer, where it is one and not 0.
pub fn iota_id_of(body: &str) -> (r: Option<i64>)
    ensures
        ({
            let m = answer_of(replace_all(body@, "iota_uuid"@, "iota_id"@));
            let id = match datum(m, DataTypes::iota_id) {
                Some(v) => match v.spec_as_i64() {
                    Some(x) => x,
                    None => 0,
                },
                None => 0,
            };
            r == (if m.comm_type == CommunicationType::success && id != 0 {
                Some(id)
            } else {
                None
            })
        }),
{
    proof {
        reveal_strlit("iota_uuid");
    }
    let renamed = replace_text(body, "iota_uuid", "iota_id");
    let cv = read_answer(renamed.as_str());
    if !cv.is_type(CommunicationType::success) {
        return None;
    }
    let id: i64 = match cv.get_data(DataTypes::iota_id) {
        Some(v) => match v.as_i64() {
            Some(x) => x,
            None => 0,
        },
        None => {
            return None;
        },
    };
    if id == 0 {
        None
    } else {
        Some(id)
    }
}

/// Whether the authority confirms a private key's hash: a successful answer
/// whose `matches` is `true`.
pub fn private_key_valid_of(body: &str) -> (r: bool)
    ensures
        r == (answer_of(body@).comm_type == CommunicationType::success && datum(
            answer_of(body@),
            DataTypes::matches,
        ) == Some(JsonView::Bool(true))),
{
    let cv = read_answer(body);
    if !cv.is_type(CommunicationType::success) {
        return false;
    }
    match cv.get_data(DataTypes::matches) {
        Some(v) => match v.as_bool() {
            Some(b) => b,
            None => false,
        },
        None => false,
    }
}

/// A user's public key from the authority's answer: the text under
/// `ping_clients` of an answer of kind `message_send`.
pub fn user_public_key_of(body: &str) -> (r: Option<String>)
    ensures
        answer_of(body@).comm_type != CommunicationType::message_send ==> r is None,
        answer_of(body@).comm_type == CommunicationType::message_send ==> (r is Some == datum_text(
            answer_of(body@),
            DataTypes::ping_clients,
        ) is Some && (r matches Some(k) ==> k@ == datum_text(answer_of(body@), DataTypes::ping_clients)->0)),
{
    let cv = read_answer(body);
    if !cv.is_type(CommunicationType::message_send) {
        return None;
    }
    text_of(&cv, DataTypes::ping_clients)
}

/// The user id a registration starts with: the integer under `user_id` (0
/// where there is none); `None` where the value is no integer.
pub fn register_id_of(body: &str) -> (r: Option<i64>)
    ensures
        r == (match datum(answer_of(body@), DataTypes::user_id) {
            Some(v) => v.spec_as_i64(),
            None => Some(0i64),
        }),
{
    let cv = read_answer(body);
    match cv.get_data(DataTypes::user_id) {
        Some(v) => v.as_i64(),
        None => Some(0),
    }
}

/// The address of the authority's public key.
pub fn auth_public_key_url() -> (r: String)
    ensures
        r@ == "https://auth.tensamin.net/api/get/public_key"@,
{
    String::from_str("https://auth.tensamin.net/api/get/public_key")
}

/// The address of a user's description.
pub fn user_url(user_id: u128) -> (r: String)
    ensures
        r@ == "https://auth.tensamin.net/api/get/"@ + spec_uuid_string(user_id),
{
    concat_text("https://auth.tensamin.net/api/get/", uuid_to_string(user_id).as_str())
}

/// The address of the iota of a user.
pub fn iota_id_url(user_id: i64) -> (r: String)
    ensures
        r@ == "https://auth.tensamin.net/api/get/iota-id/"@ + decimal_int(user_id as int),
{
    concat_text("https://auth.tensamin.net/api/get/iota-id/", i64_to_string(user_id).as_str())
}

/// The address of the hash of a user's private key.
pub fn private_key_hash_url(user_id: i64) -> (r: String)
    ensures
        r@ == "https://auth.tensamin.net/api/get/private-key-hash/"@ + decimal_int(user_id as int) + "/"@,
{
    let head = concat_text("https://auth.tensamin.net/api/get/private-key-hash/", i64_to_string(user_id).as_str());
    concat_text(head.as_str(), "/")
}

/// The address of a user's public key.
pub fn public_key_url(user_id: i64) -> (r: String)
    ensures
        r@ == "https://auth.tensamin.net/api/"@ + decimal_int(user_id as int) + "/public-key"@,
{
    let head = concat_text("https://auth.tensamin.net/api/", i64_to_string(user_id).as_str());
    concat_text(head.as_str(), "/public-key")
}

/// The address at which a registration starts.
pub fn register_url() -> (r: String)
    ensures
        r@ == "https://auth.tensamin.net/api/register/init"@,
{
    String::from_str("https://auth.tensamin.net/api/register/init")
}

} // verus!
