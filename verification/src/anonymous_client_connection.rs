//! The state and decisions of a guest's connection: joining a call by its
//! link, the call requests a guest may make, its display name, and the user
//! data it may ask for.

use vstd::prelude::*;

use crate::anonymous::{AnonymousManager, AnonymousProfile, AnonymousView, guest_index_from, profile_view};
use crate::calls::{find_group, CallRegistry, TokenKeys};
use crate::client_requests::{
    disconnect_result, disconnect_user, guest_user_data, interest_notice, invite_into_call,
    invite_result, moderated_call, moderation_served, requested_guest, spec_guest_data,
    spec_interest_notice, timeout_result, timeout_served, timeout_user, token_for_call,
    token_result, try_disconnect_user, try_timeout_user,
};
use crate::client_connection::{int_datum, str_datum};
use crate::communication::{with_field, CommunicationValue, MessageView};
use crate::ids::{new_uuid, spec_uuid_parse, spec_uuid_string, uuid_parse, uuid_to_string};
use crate::json::{
    entry_views, json_views, lemma_entry_views_push, lemma_json_views_push, number_text,
    spec_number_from_i64, spec_number_text, Json, JsonNumber, JsonView,
};
use crate::outgoing::{all_wf, bare_reply, datum, error_reply, outgoing_views, Outgoing};
use crate::rho::RhoManager;
use crate::text::{parse_i64, spec_parse_i64};
use crate::wire::{CommunicationType, DataTypes};

verus! {

/// Where a guest's message goes.
#[derive(Debug, Clone, Copy, PartialEq, Eq, Structural)]
pub enum AnonymousRoute {
    Ping,
    /// Joining a call by its link.
    Identify,
    /// A presence change: nothing is done.
    ClientChanged,
    CallInvite,
    CallToken,
    CallDisconnectUser,
    CallTimeoutUser,
    ChangeUserData,
    /// Answered from the guests where the user is one, else asked of omega.
    UserData,
    OmegaForward,
    /// Nothing is done.
    Dropped,
}

/// The route of a guest's message.
pub open spec fn spec_anonymous_route(t: CommunicationType) -> AnonymousRoute {
    if t == CommunicationType::ping {
        AnonymousRoute::Ping
    } else if t == CommunicationType::identification {
        AnonymousRoute::Identify
    } else if t == CommunicationType::client_changed {
        AnonymousRoute::ClientChanged
    } else if t == CommunicationType::call_invite {
        AnonymousRoute::CallInvite
    } else if t == CommunicationType::call_token {
        AnonymousRoute::CallToken
    } else if t == CommunicationType::call_disconnect_user {
        AnonymousRoute::CallDisconnectUser
    } else if t == CommunicationType::call_timeout_user {
        AnonymousRoute::CallTimeoutUser
    } else if t == CommunicationType::change_user_data {
        AnonymousRoute::ChangeUserData
    } else if t == CommunicationType::get_user_data {
        AnonymousRoute::UserData
    } else if t == CommunicationType::get_iota_data || t == CommunicationType::delete_user {
        AnonymousRoute::OmegaForward
    } else {
        AnonymousRoute::Dropped
    }
}

/// The state of a guest's connection; the guest's names live in its profile
/// among the guests.
pub struct AnonymousClientConnection {
    pub user_id: u64,
    pub ping: i64,
    pub interested_users: Vec<i64>,
    pub is_open: bool,
}

/// The ping a guest reports: a number under `last_ping`, its text read as an
/// integer; `old` otherwise.
pub open spec fn guest_reported_ping(m: MessageView, old: i64) -> i64 {
    match datum(m, DataTypes::last_ping) {
        Some(JsonView::Number(n)) => match spec_parse_i64(spec_number_text(n)) {
            Some(x) => x,
            None => old,
        },
        _ => old,
    }
}

/// The call a guest asks to join: the text under `call_id` read as a UUID.
pub open spec fn joined_call(m: MessageView) -> Option<u128> {
    spec_uuid_parse(str_datum(m, DataTypes::call_id))
}

/// The call a guest's call request names: the string under `call_id` read
/// as a UUID (`None` where there is no string there).
pub open spec fn guest_named_call(m: MessageView) -> Option<Option<u128>> {
    match datum(m, DataTypes::call_id) {
        Some(JsonView::Str(s)) => Some(spec_uuid_parse(s)),
        _ => None,
    }
}

/// The request to omega for the data of a member of a call.
pub open spec fn spec_member_request(id: u128, user_id: u64) -> MessageView {
    with_field(
        bare_reply(id, CommunicationType::get_user_data),
        DataTypes::user_id,
        JsonView::Number(spec_number_from_i64(user_id as i64)),
    )
}

/// A member as omega describes it: its user id, user name, display name and
/// avatar, each `null` where omega's answer has none.
pub open spec fn member_entry(answer: MessageView) -> JsonView {
    JsonView::Object(
        seq![
            (DataTypes::user_id.spec_name(), datum_or_null(answer, DataTypes::user_id)),
            (DataTypes::username.spec_name(), datum_or_null(answer, DataTypes::username)),
            (DataTypes::display.spec_name(), datum_or_null(answer, DataTypes::display)),
            (DataTypes::avatar.spec_name(), datum_or_null(answer, DataTypes::avatar)),
        ],
    )
}

/// The value under a key, or `null`.
pub open spec fn datum_or_null(m: MessageView, key: DataTypes) -> JsonView {
    match datum(m, key) {
        Some(v) => v,
        None => JsonView::Null,
    }
}

/// The state of the call a guest joined: the call, its members (twice, as
/// invited and as members), and the guest's token.
pub open spec fn spec_call_state(call_id: u128, answers: Seq<MessageView>, token: Seq<char>) -> JsonView {
    let members = JsonView::Array(answers.map_values(|a: MessageView| member_entry(a)));
    JsonView::Object(
        seq![
            (DataTypes::call_id.spec_name(), JsonView::Str(spec_uuid_string(call_id))),
            ("call_invited"@, members),
            ("call_members"@, members),
            (DataTypes::call_token.spec_name(), JsonView::Str(token)),
        ],
    )
}

/// The answer to a guest that joined a call: its id, its names as its
/// profile gives them, and the call's state.
pub open spec fn spec_guest_welcome(id: u128, user_id: u64, guest: AnonymousView, call_state: JsonView) -> MessageView {
    with_field(
        with_field(
            with_field(
                with_field(
                    with_field(
                        bare_reply(id, CommunicationType::identification_response),
                        DataTypes::user_id,
                        JsonView::Number(spec_number_from_i64(user_id as i64)),
                    ),
                    DataTypes::username,
                    JsonView::Str(guest.user_name),
                ),
                DataTypes::display,
                JsonView::Str(guest.display_name),
            ),
            DataTypes::avatar,
            JsonView::Str(guest.avatar),
        ),
        DataTypes::call_state,
        call_state,
    )
}

/// The views of a list of messages.
pub open spec fn message_views(ms: Seq<CommunicationValue>) -> Seq<MessageView> {
    ms.map_values(|m: CommunicationValue| m@)
}

/// The value under a key, or `null`, as a value of its own.
fn datum_copy(m: &CommunicationValue, key: DataTypes) -> (r: Json)
    ensures
        r@ == datum_or_null(m@, key),
{
    match m.get_data(key) {
        Some(v) => v.deep_clone(),
        None => Json::Null,
    }
}

/// An object entry under a key's name.
fn named_entry(key: DataTypes, v: Json) -> (r: (String, Json))
    ensures
        r.0@ == key.spec_name(),
        r.1 == v,
{
    (String::from_str(key.name()), v)
}

/// The JSON description of a member, from omega's answer.
fn member_json(answer: &CommunicationValue) -> (r: Json)
    ensures
        r@ == member_entry(answer@),
{
    let mut es: Vec<(String, Json)> = Vec::new();
    let e0 = named_entry(DataTypes::user_id, datum_copy(answer, DataTypes::user_id));
    proof { lemma_entry_views_push(es@, e0); }
    es.push(e0);
    let e1 = named_entry(DataTypes::username, datum_copy(answer, DataTypes::username));
    proof { lemma_entry_views_push(es@, e1); }
    es.push(e1);
    let e2 = named_entry(DataTypes::display, datum_copy(answer, DataTypes::display));
    proof { lemma_entry_views_push(es@, e2); }
    es.push(e2);
    let e3 = named_entry(DataTypes::avatar, datum_copy(answer, DataTypes::avatar));
    proof { lemma_entry_views_push(es@, e3); }
    es.push(e3);
    proof {
        assert(entry_views(Seq::<(String, Json)>::empty()) =~= Seq::empty());
        assert(entry_views(es@) =~= seq![
            (DataTypes::user_id.spec_name(), datum_or_null(answer@, DataTypes::user_id)),
            (DataTypes::username.spec_name(), datum_or_null(answer@, DataTypes::username)),
            (DataTypes::display.spec_name(), datum_or_null(answer@, DataTypes::display)),
            (DataTypes::avatar.spec_name(), datum_or_null(answer@, DataTypes::avatar)),
        ]);
    }
    Json::Object(es)
}

/// The members of a call, as omega describes them.
fn members_json(answers: &Vec<CommunicationValue>) -> (r: Vec<Json>)
    ensures
        json_views(r@) == message_views(answers@).map_values(|a: MessageView| member_entry(a)),
{
    let mut out: Vec<Json> = Vec::new();
    let mut i: usize = 0;
    while i < answers.len()
        invariant
            i <= answers.len(),
            json_views(out@) == message_views(answers@.subrange(0, i as int)).map_values(
                |a: MessageView| member_entry(a),
            ),
        decreases answers.len() - i,
    {
        let x = member_json(&answers[i]);
        proof {
            lemma_json_views_push(out@, x);
            assert(message_views(answers@.subrange(0, i + 1)).map_values(|a: MessageView| member_entry(a))
                =~= message_views(answers@.subrange(0, i as int)).map_values(|a: MessageView| member_entry(a)).push(
                member_entry(answers@[i as int]@),
            ));
        }
        out.push(x);
        i = i + 1;
    }
    assert(answers@.subrange(0, answers.len() as int) =~= answers@);
    out
}

impl AnonymousClientConnection {
    /// The connection of a guest with an id: ping 0, no interests, open.
    pub fn from_general(user_id: u64) -> (r: AnonymousClientConnection)
        ensures
            r.user_id == user_id,
            r.ping == 0,
            r.interested_users@ == Seq::<i64>::empty(),
            r.is_open,
    {
        AnonymousClientConnection { user_id, ping: 0, interested_users: Vec::new(), is_open: true }
    }

    /// The guest's id.
    pub fn get_user_id(&self) -> (r: u64)
        ensures
            r == self.user_id,
    {
        self.user_id
    }

    /// Where a message goes (see `spec_anonymous_route`).
    pub fn route(&self, cv: &CommunicationValue) -> (r: AnonymousRoute)
        ensures
            r == spec_anonymous_route(cv@.comm_type),
    {
        let t = cv.get_type();
        if t == CommunicationType::ping {
            AnonymousRoute::Ping
        } else if t == CommunicationType::identification {
            AnonymousRoute::Identify
        } else if t == CommunicationType::client_changed {
            AnonymousRoute::ClientChanged
        } else if t == CommunicationType::call_invite {
            AnonymousRoute::CallInvite
        } else if t == CommunicationType::call_token {
            AnonymousRoute::CallToken
        } else if t == CommunicationType::call_disconnect_user {
            AnonymousRoute::CallDisconnectUser
        } else if t == CommunicationType::call_timeout_user {
            AnonymousRoute::CallTimeoutUser
        } else if t == CommunicationType::change_user_data {
            AnonymousRoute::ChangeUserData
        } else if t == CommunicationType::get_user_data {
            AnonymousRoute::UserData
        } else if t == CommunicationType::get_iota_data || t == CommunicationType::delete_user {
            AnonymousRoute::OmegaForward
        } else {
            AnonymousRoute::Dropped
        }
    }

    /// Whether messages may still be sent to the guest.
    pub fn can_send(&self) -> (r: bool)
        ensures
            r == self.is_open,
    {
        self.is_open
    }

    /// Closes the connection: it no longer sends. `true` where it was open,
    /// its socket then to be closed; closing it again does nothing.
    pub fn close(&mut self) -> (r: bool)
        ensures
            r == old(self).is_open,
            *final(self) == (AnonymousClientConnection { is_open: false, ..*old(self) }),
    {
        if !self.is_open {
            return false;
        }
        self.is_open = false;
        true
    }

    /// Takes the ping a guest reports and answers `pong` with the same id.
    pub fn handle_ping(&mut self, cv: &CommunicationValue) -> (r: CommunicationValue)
        ensures
            final(self).ping == guest_reported_ping(cv@, old(self).ping),
            final(self).user_id == old(self).user_id,
            final(self).is_open == old(self).is_open,
            final(self).interested_users == old(self).interested_users,
            r.wf(),
            r@ == bare_reply(cv@.id, CommunicationType::pong),
    {
        match cv.get_data(DataTypes::last_ping) {
            Some(v) => match v {
                Json::Number(n) => {
                    let text = number_text(*n);
                    match parse_i64(text.as_str()) {
                        Some(x) => {
                            self.ping = x;
                        },
                        None => {},
                    }
                },
                _ => {},
            },
            None => {},
        }
        error_reply(cv.get_id(), CommunicationType::pong)
    }

    /// A guest asks to join a call by its link. The call is the one named
    /// (a random one where the text is no UUID, which no call has); where it
    /// is unknown or does not let guests join, the answer is
    /// `error_not_authenticated`. Otherwise the call and, for each member in
    /// order, the request to omega for the member's data are returned.
    pub fn join_call(&self, cv: &CommunicationValue, calls: &CallRegistry) -> (r: Result<(u128, Vec<CommunicationValue>), CommunicationValue>)
        requires
            calls.wf(),
        ensures
            r matches Err(e) ==> e.wf() && e@ == bare_reply(cv@.id, CommunicationType::error_not_authenticated),
            joined_call(cv@) matches Some(c) ==> (r is Ok <==> (find_group(calls@, c) matches Some(i)
                && calls@[i as int].anonymous_joining)),
            r matches Ok(x) ==> ({
                &&& joined_call(cv@) matches Some(c) ==> x.0 == c
                &&& find_group(calls@, x.0) matches Some(i) && calls@[i as int].anonymous_joining
                &&& x.1@.len() == calls@[find_group(calls@, x.0)->0 as int].members.len()
                &&& forall|k: int| 0 <= k < x.1@.len() ==> (#[trigger] x.1@[k]).wf() && x.1@[k]@ == spec_member_request(
                    x.1@[k]@.id,
                    calls@[find_group(calls@, x.0)->0 as int].members[k].user_id,
                )
            }),
    {
        let text = crate::client_requests::str_datum_of(cv, DataTypes::call_id);
        let call = match uuid_parse(text) {
            Some(c) => c,
            None => new_uuid(),
        };
        let g = match calls.get_call(call) {
            Some(g) => g,
            None => {
                return Err(error_reply(cv.get_id(), CommunicationType::error_not_authenticated));
            },
        };
        if !g.is_anonymous() {
            return Err(error_reply(cv.get_id(), CommunicationType::error_not_authenticated));
        }
        let mut requests: Vec<CommunicationValue> = Vec::new();
        let mut i: usize = 0;
        while i < g.members.len()
            invariant
                i <= g.members.len(),
                requests@.len() == i,
                forall|k: int| 0 <= k < i ==> (#[trigger] requests@[k]).wf() && requests@[k]@ == spec_member_request(
                    requests@[k]@.id,
                    g.members@[k].user_id,
                ),
            decreases g.members.len() - i,
        {
            let q = CommunicationValue::new(CommunicationType::get_user_data).add_data(
                DataTypes::user_id,
                Json::Number(JsonNumber::from_i64(g.members[i].user_id as i64)),
            );
            requests.push(q);
            i = i + 1;
        }
        Ok((call, requests))
    }

    /// The welcome of a guest into a call, with omega's answers about its
    /// members and the guest's profile: the guest's id and names, and the
    /// call's state (see `spec_call_state`). `None` exactly where the call is
    /// unknown or closed to guests, or the token keys are unset or empty.
    pub fn welcome(
        &self,
        id: u128,
        call_id: u128,
        answers: &Vec<CommunicationValue>,
        profile: &AnonymousProfile,
        calls: &CallRegistry,
        keys: &TokenKeys,
    ) -> (r: Option<CommunicationValue>)
        requires
            calls.wf(),
        ensures
            r matches Some(m) ==> m.wf() && exists|token: Seq<char>| m@ == spec_guest_welcome(
                id,
                self.user_id,
                profile_view(*profile),
                spec_call_state(call_id, message_views(answers@), token),
            ),
            r is Some <==> (find_group(calls@, call_id) matches Some(i) && calls@[i as int].anonymous_joining
                && keys.usable()),
    {
        let token = match calls.get_call(call_id) {
            Some(g) => match g.create_anonymous_token(keys, self.user_id) {
                Some(t) => t,
                None => {
                    return None;
                },
            },
            None => {
                return None;
            },
        };
        let ghost tv = token@;
        proof {
            reveal_strlit("call_invited");
            reveal_strlit("call_members");
        }
        let members = members_json(answers);
        let ghost mv = json_views(members@);
        let mut state: Vec<(String, Json)> = Vec::new();
        let e0 = named_entry(DataTypes::call_id, Json::Str(uuid_to_string(call_id)));
        proof { lemma_entry_views_push(state@, e0); }
        state.push(e0);
        let e1 = (String::from_str("call_invited"), Json::Array(members_json(answers)));
        proof { lemma_entry_views_push(state@, e1); }
        state.push(e1);
        let e2 = (String::from_str("call_members"), Json::Array(members));
        proof { lemma_entry_views_push(state@, e2); }
        state.push(e2);
        let e3 = named_entry(DataTypes::call_token, Json::Str(token));
        proof { lemma_entry_views_push(state@, e3); }
        state.push(e3);
        proof {
            assert(entry_views(Seq::<(String, Json)>::empty()) =~= Seq::empty());
            assert(entry_views(state@) =~= seq![
                (DataTypes::call_id.spec_name(), JsonView::Str(spec_uuid_string(call_id))),
                ("call_invited"@, JsonView::Array(mv)),
                ("call_members"@, JsonView::Array(mv)),
                (DataTypes::call_token.spec_name(), JsonView::Str(tv)),
            ]);
        }
        let m = CommunicationValue::new(CommunicationType::identification_response).with_id(id).add_data(
            DataTypes::user_id,
            Json::Number(JsonNumber::from_i64(self.user_id as i64)),
        ).add_data_str(DataTypes::username, profile.get_user_name()).add_data_str(
            DataTypes::display,
            profile.get_display_name(),
        ).add_data_str(DataTypes::avatar, profile.get_avatar()).add_data(DataTypes::call_state, Json::Object(state));
        proof {
            assert(m@ == spec_guest_welcome(id, self.user_id, profile_view(*profile), spec_call_state(call_id, message_views(answers@), tv)));
        }
        Some(m)
    }

    /// A guest invites a user into a call (see `invite_into_call`), the call
    /// named by a string under `call_id`.
    pub fn call_invite(&self, cv: &CommunicationValue, calls: &mut CallRegistry, rhos: &RhoManager) -> (r: Vec<Outgoing>)
        requires
            old(calls).wf(),
            rhos.wf(),
        ensures
            final(calls).wf(),
            all_wf(r@),
            invite_result(
                old(calls)@,
                final(calls)@,
                rhos@,
                cv@.id,
                self.user_id as i64,
                int_datum(cv@, DataTypes::receiver_id),
                guest_named_call(cv@),
                outgoing_views(r@),
            ),
    {
        let receiver = crate::client_connection::int_of(cv, DataTypes::receiver_id);
        let call = guest_call_of(cv);
        invite_into_call(cv.get_id(), self.user_id as i64, receiver, call, calls, rhos)
    }

    /// A guest asks for the token of a call named by a string under
    /// `call_id` (see `token_for_call`).
    pub fn call_token(&self, cv: &CommunicationValue, calls: &mut CallRegistry, keys: &TokenKeys) -> (r: CommunicationValue)
        requires
            old(calls).wf(),
        ensures
            final(calls).wf(),
            r.wf(),
            token_result(old(calls)@, final(calls)@, cv@.id, self.user_id as i64, match guest_named_call(cv@) {
                Some(c) => c,
                None => None,
            }, keys.usable(), r@),
    {
        let call: Option<u128> = match guest_call_of(cv) {
            Some(c) => c,
            None => None,
        };
        token_for_call(cv.get_id(), self.user_id as i64, call, calls, keys)
    }

    /// A guest moderator removes a user from a call (see `disconnect_user`).
    pub fn call_disconnect_user(&self, cv: &CommunicationValue, calls: &mut CallRegistry) -> (r: Option<(u128, u64)>)
        requires
            old(calls).wf(),
            moderation_served(old(calls)@, cv@, self.user_id),
        ensures
            final(calls).wf(),
            disconnect_result(old(calls)@, final(calls)@, cv@, self.user_id, r),
    {
        disconnect_user(self.user_id, cv, calls)
    }

    /// `call_disconnect_user` where the request can be served.
    pub fn try_call_disconnect_user(&self, cv: &CommunicationValue, calls: &mut CallRegistry) -> (r: Option<Option<(u128, u64)>>)
        requires
            old(calls).wf(),
        ensures
            final(calls).wf(),
            r is None <==> !moderation_served(old(calls)@, cv@, self.user_id),
            r is None ==> final(calls)@ == old(calls)@,
            r matches Some(x) ==> disconnect_result(old(calls)@, final(calls)@, cv@, self.user_id, x),
    {
        try_disconnect_user(self.user_id, cv, calls)
    }

    /// A guest moderator times a user out of a call (see `timeout_user`);
    /// the user is not removed from the call's room. Whether the time-out was
    /// set is returned.
    pub fn call_timeout_user(&self, cv: &CommunicationValue, calls: &mut CallRegistry) -> (r: bool)
        requires
            old(calls).wf(),
            timeout_served(old(calls)@, cv@, self.user_id),
        ensures
            final(calls).wf(),
            timeout_result(old(calls)@, final(calls)@, cv@, self.user_id, if r {
                Some((moderated_call(cv@)->0, int_datum(cv@, DataTypes::user_id) as u64))
            } else {
                None
            }),
    {
        timeout_user(self.user_id, cv, calls).is_some()
    }

    /// `call_timeout_user` where the request can be served; `None`, nothing
    /// changed, where it cannot.
    pub fn try_call_timeout_user(&self, cv: &CommunicationValue, calls: &mut CallRegistry) -> (r: Option<bool>)
        requires
            old(calls).wf(),
        ensures
            final(calls).wf(),
            r is None <==> !timeout_served(old(calls)@, cv@, self.user_id),
            r is None ==> final(calls)@ == old(calls)@,
            r matches Some(b) ==> timeout_result(old(calls)@, final(calls)@, cv@, self.user_id, if b {
                Some((moderated_call(cv@)->0, int_datum(cv@, DataTypes::user_id) as u64))
            } else {
                None
            }),
    {
        match try_timeout_user(self.user_id, cv, calls) {
            Some(x) => Some(x.is_some()),
            None => None,
        }
    }

    /// A guest changes its display name: the string under `display`, where
    /// there is one, becomes the display name of its profile.
    pub fn change_user_data(&self, cv: &CommunicationValue, guests: &mut AnonymousManager)
        requires
            old(guests).wf(),
        ensures
            final(guests).wf(),
            match datum(cv@, DataTypes::display) {
                Some(JsonView::Str(d)) => match guest_index_from(old(guests)@, self.user_id, 0) {
                    Some(i) => final(guests)@ == old(guests)@.update(
                        i as int,
                        AnonymousView { display_name: d, ..old(guests)@[i as int] },
                    ),
                    None => final(guests)@ == old(guests)@,
                },
                _ => final(guests)@ == old(guests)@,
            },
    {
        match cv.get_data(DataTypes::display) {
            Some(v) => match v {
                Json::Str(d) => {
                    guests.set_display_name(self.user_id, d.clone());
                },
                _ => {},
            },
            None => {},
        }
    }

    /// A request for the data of a user who is a guest (see
    /// `guest_user_data`); `None` where the user named is no guest, the
    /// request then going to omega.
    pub fn guest_user_data(&self, cv: &CommunicationValue, guests: &AnonymousManager) -> (r: Option<CommunicationValue>)
        ensures
            r is Some == requested_guest(guests@, cv@) is Some,
            r matches Some(m) ==> m.wf() && m@ == spec_guest_data(cv@.id, requested_guest(guests@, cv@)->0),
    {
        guest_user_data(cv, guests)
    }

    /// A request that omega answers: sent with the guest as its sender.
    pub fn omega_request(&self, cv: CommunicationValue) -> (r: CommunicationValue)
        ensures
            r@ == (MessageView { sender: self.user_id as i64, ..cv@ }),
    {
        cv.with_sender(self.user_id as i64)
    }

    /// Replaces the users whose presence the guest follows.
    pub fn set_interested_users(&mut self, interested_ids: Vec<i64>)
        ensures
            final(self).interested_users@ == interested_ids@,
            final(self).user_id == old(self).user_id,
            final(self).ping == old(self).ping,
            final(self).is_open == old(self).is_open,
    {
        self.interested_users = interested_ids;
    }

    /// The users whose presence the guest follows.
    pub fn get_interested_users(&self) -> (r: Vec<i64>)
        ensures
            r@ == self.interested_users@,
    {
        let mut out: Vec<i64> = Vec::new();
        let mut i: usize = 0;
        while i < self.interested_users.len()
            invariant
                i <= self.interested_users.len(),
                out@ == self.interested_users@.subrange(0, i as int),
            decreases self.interested_users.len() - i,
        {
            out.push(self.interested_users[i]);
            i = i + 1;
        }
        assert(self.interested_users@.subrange(0, i as int) =~= self.interested_users@);
        out
    }

    /// Where the guest follows a user, the notice that the user is online.
    pub fn are_you_interested(&self, user_id: i64) -> (r: Option<CommunicationValue>)
        ensures
            r is Some == self.interested_users@.contains(user_id),
            r matches Some(m) ==> m.wf() && m@ == spec_interest_notice(m@.id, user_id),
    {
        interest_notice(&self.interested_users, user_id)
    }
}

/// The call a guest's request names by a string (see `guest_named_call`).
fn guest_call_of(cv: &CommunicationValue) -> (r: Option<Option<u128>>)
    ensures
        r == guest_named_call(cv@),
{
    match cv.get_data(DataTypes::call_id) {
        Some(v) => match v {
            Json::Str(s) => Some(uuid_parse(s.as_str())),
            _ => None,
        },
        None => None,
    }
}

} // verus!
