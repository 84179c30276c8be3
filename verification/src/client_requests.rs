//! What an identified client asks of the relay: presence changes, calls
//! (invites, tokens, moderation, anonymous joining), user data, and messages
//! passed on to omega or to its iota.

use vstd::prelude::*;

use crate::anonymous::{guest_index_from, name_index_from, AnonymousManager, AnonymousView};
use crate::calls::{
    anonymous_metadata, caller_grants, find_group, has_member, id_or_zero, lemma_member_index_from,
    member_index_from, spec_anonymous_link, spec_get_caller, spec_join, spec_token_grants,
    without_user, CallGroupView, CallRegistry, Caller, TokenKeys,
};
use crate::client_connection::{int_datum, str_datum, ClientConnection};
use crate::communication::{with_field, CommunicationValue, MessageView};
use crate::ids::{spec_uuid_parse, spec_uuid_string, uuid_parse, uuid_to_string};
use crate::json::{display, spec_json_display, spec_number_from_i64, Json, JsonNumber, JsonView};
use crate::omega::{is_notice, spec_presence_kind};
use crate::omega_connection::OmegaConnection;
use crate::outgoing::{
    all_wf, bare_reply, datum, error_reply, outgoing_views, reply_only, Outgoing, OutgoingView,
};
use crate::rho::{
    conns_of, lemma_rho_index_from, rho_index_from, user_rho_index_from, RhoManager, RhoView,
};
use crate::text::{decimal_int, i64_to_string};
use crate::user::UserStatus;
use crate::wire::{CommunicationType, DataTypes};

verus! {

/// The clients, on the iota serving `user`, that a message for `user` goes to.
pub open spec fn receiver_conns(rs: Seq<RhoView>, user: i64) -> Option<Seq<u64>> {
    match user_rho_index_from(rs, user, 0) {
        Some(i) => Some(conns_of(rs[i as int].clients, user)),
        None => None,
    }
}

/// The clients of `user` on the iota that serves them, where one does.
fn conns_for_user(rhos: &RhoManager, user: i64) -> (r: Option<Vec<u64>>)
    requires
        rhos.wf(),
    ensures
        r is Some == receiver_conns(rhos@, user) is Some,
        r matches Some(cs) ==> cs@ == receiver_conns(rhos@, user)->0,
{
    proof {
        crate::rho::lemma_user_rho_index_from(rhos@, user, 0);
    }
    match rhos.get_rho_con_for_user(user) {
        Some(iota) => {
            proof {
                let i = user_rho_index_from(rhos@, user, 0)->0 as int;
                lemma_rho_index_from(rhos@, iota, 0);
                let j = rho_index_from(rhos@, iota, 0);
                assert(j is Some) by {
                    if j is None {
                        assert(rhos@[i].iota_id == iota);
                    }
                }
                assert(j->0 as int == i);
            }
            match rhos.get_rho_by_iota(iota) {
                Some(rho) => Some(rho.get_client_connections_for_user(user)),
                None => None,
            }
        },
        None => None,
    }
}

/// The call invite passed on to the invitee: sender and receiver set, and
/// the call, the receiver and the sender written out as text.
pub open spec fn spec_invite_forward(id: u128, call_id: u128, receiver: i64, sender: i64) -> MessageView {
    with_field(
        with_field(
            with_field(
                MessageView {
                    id,
                    comm_type: CommunicationType::call_invite,
                    sender,
                    receiver,
                    data: Seq::empty(),
                },
                DataTypes::call_id,
                JsonView::Str(spec_uuid_string(call_id)),
            ),
            DataTypes::receiver_id,
            JsonView::Str(decimal_int(receiver as int)),
        ),
        DataTypes::sender_id,
        JsonView::Str(decimal_int(sender as int)),
    )
}

/// The call a message names under `call_id`, its value's text read as a
/// UUID: `None` where there is no such datum, `Some(None)` where its text is
/// no UUID.
pub open spec fn named_call(m: MessageView) -> Option<Option<u128>> {
    match datum(m, DataTypes::call_id) {
        Some(v) => Some(spec_uuid_parse(spec_json_display(v))),
        None => None,
    }
}

/// The call a moderation request names: the string under `call_id` (the
/// empty text where there is none) read as a UUID.
pub open spec fn moderated_call(m: MessageView) -> Option<u128> {
    spec_uuid_parse(str_datum(m, DataTypes::call_id))
}

/// A moderation request on a call can be served: the call is named, and
/// where the call exists, the requester is one of its members.
pub open spec fn moderation_served(calls: Seq<CallGroupView>, m: MessageView, requester: u64) -> bool {
    &&& moderated_call(m) is Some
    &&& find_group(calls, moderated_call(m)->0) matches Some(i) ==> has_member(calls[i as int].members, requester)
}

/// The requester administers the call a request names.
pub open spec fn requester_is_admin(calls: Seq<CallGroupView>, m: MessageView, requester: u64) -> bool {
    find_group(calls, moderated_call(m)->0) matches Some(i) && spec_get_caller(
        calls[i as int].members,
        requester,
    )->0.has_admin
}

/// The answer to a request for the data of a guest.
pub open spec fn spec_guest_data(id: u128, g: AnonymousView) -> MessageView {
    with_field(
        with_field(
            with_field(
                with_field(
                    with_field(
                        bare_reply(id, CommunicationType::get_user_data),
                        DataTypes::username,
                        JsonView::Str(g.user_name),
                    ),
                    DataTypes::user_id,
                    JsonView::Number(spec_number_from_i64(g.user_id as i64)),
                ),
                DataTypes::display,
                JsonView::Str(g.display_name),
            ),
            DataTypes::user_state,
            JsonView::Str("online"@),
        ),
        DataTypes::avatar,
        JsonView::Str(g.avatar),
    )
}

/// The guest a request for user data names: by the integer under `user_id`
/// where there is one, else by the text under `username`.
pub open spec fn requested_guest(guests: Seq<AnonymousView>, m: MessageView) -> Option<AnonymousView> {
    let by_id = match datum(m, DataTypes::user_id) {
        Some(v) => v.spec_as_i64(),
        None => None,
    };
    let by_name = match datum(m, DataTypes::username) {
        Some(v) => v.spec_as_str(),
        None => None,
    };
    match by_id {
        Some(uid) => match guest_index_from(guests, uid as u64, 0) {
            Some(i) => Some(guests[i as int]),
            None => None,
        },
        None => match by_name {
            Some(n) => match name_index_from(guests, n, 0) {
                Some(i) => Some(guests[i as int]),
                None => None,
            },
            None => None,
        },
    }
}

/// The result of a request to turn anonymous joining of a call on or off.
pub struct AnonymousJoining {
    /// The call.
    pub call_id: u128,
    /// Whether anonymous joining is asked for.
    pub enable: bool,
    /// Where the requester administers the call: the room metadata to record,
    /// and the long link to have shortened where the call has no short link.
    pub room_update: Option<(String, Option<String>)>,
}

/// What follows a request to start a conversation or another message for the
/// iota.
pub enum IotaRequest {
    /// Answered at once (or dropped, where the list is empty).
    Done(Vec<Outgoing>),
    /// Omega is first asked for the id of the chat partner named in the
    /// request; its answer goes to `finish_conversation`.
    AskOmega(CommunicationValue),
}

/// The text an optional text slice holds.
pub open spec fn text_view(t: Option<&str>) -> Option<Seq<char>> {
    match t {
        Some(x) => Some(x@),
        None => None,
    }
}

/// What a request to turn anonymous joining on or off does to the calls
/// (`before` to `after`) and gives: the call named and the flag asked for;
/// where the requester administers the call, the call's flag is set and the
/// room metadata returned, with the long link to shorten where the call has
/// no short link; otherwise nothing changes and there is no room update.
pub open spec fn joining_outcome(
    before: Seq<CallGroupView>,
    after: Seq<CallGroupView>,
    m: MessageView,
    requester: u64,
    omikron_id_text: Option<Seq<char>>,
    r: AnonymousJoining,
) -> bool {
    &&& r.call_id == moderated_call(m)->0
    &&& r.enable == enabled_flag(m)
    &&& requester_is_admin(before, m, requester) ==> ({
        let i = find_group(before, r.call_id)->0 as int;
        &&& after == before.update(i, CallGroupView { anonymous_joining: r.enable, ..before[i] })
        &&& r.room_update matches Some(u) && u.0@ == anonymous_metadata(r.enable) && (u.1 is Some
            == before[i].short_link is None)
        &&& r.room_update matches Some(u) ==> (u.1 matches Some(link) ==> link@ == spec_anonymous_link(
            r.call_id,
            id_or_zero(omikron_id_text),
        ))
    })
    &&& !requester_is_admin(before, m, requester) ==> after == before && r.room_update is None
}

impl ClientConnection {
    /// A presence change: where the message carries a `user_state` and the
    /// client has an iota, omega is told that the user is online.
    pub fn client_changed(&self, cv: &CommunicationValue) -> (r: Vec<Outgoing>)
        ensures
            all_wf(r@),
            (datum(cv@, DataTypes::user_state) is Some && self.iota_id is Some) ==> (r@.len() == 1
                && (outgoing_views(r@)[0] matches OutgoingView::ToOmega(m) && is_notice(
                m,
                spec_presence_kind(UserStatus::user_online),
                DataTypes::user_id,
                self.user_id,
            ))),
            !(datum(cv@, DataTypes::user_state) is Some && self.iota_id is Some) ==> r@.len() == 0,
    {
        let mut out: Vec<Outgoing> = Vec::new();
        if cv.get_data(DataTypes::user_state).is_some() {
            match self.iota_id {
                Some(iota) => {
                    let m = OmegaConnection::client_changed(iota, self.user_id, UserStatus::user_online);
                    let ghost mv = m@;
                    out.push(Outgoing::ToOmega(m));
                    assert(outgoing_views(out@) =~= seq![OutgoingView::ToOmega(mv)]);
                },
                None => {},
            }
        }
        out
    }

    /// An invitation of another user into a call (see `invite_into_call`),
    /// the call named by the text of the value under `call_id`.
    pub fn call_invite(&self, cv: &CommunicationValue, calls: &mut CallRegistry, rhos: &RhoManager) -> (r: Vec<Outgoing>)
        requires
            old(calls).wf(),
            rhos.wf(),
        ensures
            final(calls).wf(),
            all_wf(r@),
            invite_result(
                old(calls)@,
                final(calls)@,
                rhos@,
                cv@.id,
                self.user_id,
                int_datum(cv@, DataTypes::receiver_id),
                named_call(cv@),
                outgoing_views(r@),
            ),
    {
        let receiver = crate::client_connection::int_of(cv, DataTypes::receiver_id);
        let call: Option<Option<u128>> = match cv.get_data(DataTypes::call_id) {
            Some(v) => {
                let text = display(v);
                Some(uuid_parse(text.as_str()))
            },
            None => None,
        };
        invite_into_call(cv.get_id(), self.user_id, receiver, call, calls, rhos)
    }

    /// A request for the token of a call, named by the text of the value under
    /// `call_id` (see `token_for_call`).
    pub fn call_token(&self, cv: &CommunicationValue, calls: &mut CallRegistry, keys: &TokenKeys) -> (r: CommunicationValue)
        requires
            old(calls).wf(),
        ensures
            final(calls).wf(),
            r.wf(),
            token_result(old(calls)@, final(calls)@, cv@.id, self.user_id, match named_call(cv@) {
                Some(c) => c,
                None => None,
            }, keys.usable(), r@),
    {
        let call: Option<u128> = match cv.get_data(DataTypes::call_id) {
            Some(v) => {
                let text = display(v);
                uuid_parse(text.as_str())
            },
            None => None,
        };
        token_for_call(cv.get_id(), self.user_id, call, calls, keys)
    }

    /// A moderator removes a user from a call (see `disconnect_user`).
    pub fn call_disconnect_user(&self, cv: &CommunicationValue, calls: &mut CallRegistry) -> (r: Option<(u128, u64)>)
        requires
            old(calls).wf(),
            moderation_served(old(calls)@, cv@, self.user_id as u64),
        ensures
            final(calls).wf(),
            disconnect_result(old(calls)@, final(calls)@, cv@, self.user_id as u64, r),
    {
        disconnect_user(self.user_id as u64, cv, calls)
    }

    /// `call_disconnect_user` where the request can be served; `None`, nothing
    /// changed, where it cannot (see `moderation_served`).
    pub fn try_call_disconnect_user(&self, cv: &CommunicationValue, calls: &mut CallRegistry) -> (r: Option<Option<(u128, u64)>>)
        requires
            old(calls).wf(),
        ensures
            final(calls).wf(),
            r is None <==> !moderation_served(old(calls)@, cv@, self.user_id as u64),
            r is None ==> final(calls)@ == old(calls)@,
            r matches Some(x) ==> disconnect_result(old(calls)@, final(calls)@, cv@, self.user_id as u64, x),
    {
        try_disconnect_user(self.user_id as u64, cv, calls)
    }

    /// Whether a moderation request can be served (see `moderation_served`).
    pub fn can_moderate(&self, cv: &CommunicationValue, calls: &CallRegistry) -> (r: bool)
        requires
            calls.wf(),
        ensures
            r == moderation_served(calls@, cv@, self.user_id as u64),
    {
        can_moderate(self.user_id as u64, cv, calls)
    }

    /// A moderator times a user out of a call (see `timeout_user`).
    pub fn call_timeout_user(&self, cv: &CommunicationValue, calls: &mut CallRegistry) -> (r: Option<(u128, u64)>)
        requires
            old(calls).wf(),
            timeout_served(old(calls)@, cv@, self.user_id as u64),
        ensures
            final(calls).wf(),
            timeout_result(old(calls)@, final(calls)@, cv@, self.user_id as u64, r),
    {
        timeout_user(self.user_id as u64, cv, calls)
    }

    /// `call_timeout_user` where the request can be served; `None`, nothing
    /// changed, where it cannot (see `timeout_served`).
    pub fn try_call_timeout_user(&self, cv: &CommunicationValue, calls: &mut CallRegistry) -> (r: Option<Option<(u128, u64)>>)
        requires
            old(calls).wf(),
        ensures
            final(calls).wf(),
            r is None <==> !timeout_served(old(calls)@, cv@, self.user_id as u64),
            r is None ==> final(calls)@ == old(calls)@,
            r matches Some(x) ==> timeout_result(old(calls)@, final(calls)@, cv@, self.user_id as u64, x),
    {
        try_timeout_user(self.user_id as u64, cv, calls)
    }

    /// Turning anonymous joining of a call on or off (the flag under
    /// `enabled`, on where there is none). Where the requester administers
    /// the call, the call's flag is set and the room update returned (see
    /// `CallRegistry::set_anonymous_joining`); otherwise nothing changes.
    pub fn call_set_anonymous_joining(
        &self,
        cv: &CommunicationValue,
        calls: &mut CallRegistry,
        omikron_id_text: Option<&str>,
    ) -> (r: AnonymousJoining)
        requires
            old(calls).wf(),
            moderation_served(old(calls)@, cv@, self.user_id as u64),
        ensures
            final(calls).wf(),
            joining_outcome(old(calls)@, final(calls)@, cv@, self.user_id as u64, text_view(omikron_id_text), r),
    {
        let text = str_of_call(cv);
        let call = match uuid_parse(text) {
            Some(c) => c,
            None => {
                proof {
                    assert(false);
                }
                return AnonymousJoining { call_id: 0, enable: true, room_update: None };
            },
        };
        let enable = match cv.get_data(DataTypes::enabled) {
            Some(v) => match v.as_bool() {
                Some(b) => b,
                None => true,
            },
            None => true,
        };
        if is_admin_of(self.user_id as u64, calls, call) {
            let update = calls.set_anonymous_joining(call, enable, omikron_id_text);
            AnonymousJoining { call_id: call, enable, room_update: update }
        } else {
            AnonymousJoining { call_id: call, enable, room_update: None }
        }
    }

    /// `call_set_anonymous_joining` where the request can be served; `None`,
    /// nothing changed, where it cannot (see `moderation_served`).
    pub fn try_call_set_anonymous_joining(
        &self,
        cv: &CommunicationValue,
        calls: &mut CallRegistry,
        omikron_id_text: Option<&str>,
    ) -> (r: Option<AnonymousJoining>)
        requires
            old(calls).wf(),
        ensures
            final(calls).wf(),
            r is None <==> !moderation_served(old(calls)@, cv@, self.user_id as u64),
            r is None ==> final(calls)@ == old(calls)@,
            r matches Some(j) ==> joining_outcome(
                old(calls)@,
                final(calls)@,
                cv@,
                self.user_id as u64,
                text_view(omikron_id_text),
                j,
            ),
    {
        if !can_moderate(self.user_id as u64, cv, calls) {
            return None;
        }
        Some(self.call_set_anonymous_joining(cv, calls, omikron_id_text))
    }

    /// A request for the data of a user who is a guest: answered from the
    /// guest's profile (see `requested_guest`); `None` where the user named
    /// is no guest, the request then going to omega.
    pub fn guest_user_data(&self, cv: &CommunicationValue, guests: &AnonymousManager) -> (r: Option<CommunicationValue>)
        ensures
            r is Some == requested_guest(guests@, cv@) is Some,
            r matches Some(m) ==> m.wf() && m@ == spec_guest_data(cv@.id, requested_guest(guests@, cv@)->0),
    {
        guest_user_data(cv, guests)
    }

    /// A request that omega answers: sent with the user as its sender; omega's
    /// answer goes back to the client as it is.
    pub fn omega_request(&self, cv: CommunicationValue) -> (r: CommunicationValue)
        ensures
            r@ == (MessageView { sender: self.user_id, ..cv@ }),
    {
        cv.with_sender(self.user_id)
    }

    /// A message for the iota. A request to start a conversation that names
    /// its partner only by name: refused with `error_anonymous` where the
    /// name is a guest's, else omega is first asked for the partner's id.
    /// Any other message goes to the client's iota with the user as sender
    /// (nowhere where the client has no iota).
    pub fn forward_to_iota(&self, cv: CommunicationValue, guests: &AnonymousManager) -> (r: IotaRequest)
        requires
            cv.wf(),
        ensures
            (cv@.comm_type == CommunicationType::add_conversation && datum(cv@, DataTypes::chat_partner_id) is None)
                ==> (if name_index_from(guests@, str_datum(cv@, DataTypes::chat_partner_name), 0) is Some {
                    r matches IotaRequest::Done(os) && all_wf(os@) && outgoing_views(os@) == seq![
                        OutgoingView::Reply(bare_reply(cv@.id, CommunicationType::error_anonymous)),
                    ]
                } else {
                    r matches IotaRequest::AskOmega(q) && q.wf() && q@ == with_field(
                        bare_reply(cv@.id, CommunicationType::get_user_data),
                        DataTypes::username,
                        JsonView::Str(str_datum(cv@, DataTypes::chat_partner_name)),
                    )
                }),
            !(cv@.comm_type == CommunicationType::add_conversation && datum(cv@, DataTypes::chat_partner_id) is None)
                ==> (r matches IotaRequest::Done(os) && all_wf(os@) && outgoing_views(os@) == (match self.iota_id {
                    Some(iota) => seq![OutgoingView::ToIota(iota, MessageView { sender: self.user_id, ..cv@ })],
                    None => Seq::<OutgoingView>::empty(),
                })),
    {
        if cv.is_type(CommunicationType::add_conversation) && cv.get_data(DataTypes::chat_partner_id).is_none() {
            let name = str_datum_of(&cv, DataTypes::chat_partner_name);
            if guests.get_anonymous_user_by_name(name).is_some() {
                return IotaRequest::Done(
                    reply_only(error_reply(cv.get_id(), CommunicationType::error_anonymous)),
                );
            }
            let q = CommunicationValue::new(CommunicationType::get_user_data).with_id(cv.get_id()).add_data_str(
                DataTypes::username,
                String::from_str(name),
            );
            return IotaRequest::AskOmega(q);
        }
        let mut out: Vec<Outgoing> = Vec::new();
        match self.iota_id {
            Some(iota) => {
                let m = cv.with_sender(self.user_id);
                let ghost mv = m@;
                out.push(Outgoing::ToIota(iota, m));
                assert(outgoing_views(out@) =~= seq![OutgoingView::ToIota(iota, mv)]);
            },
            None => {
                assert(outgoing_views(out@) =~= Seq::<OutgoingView>::empty());
            },
        }
        IotaRequest::Done(out)
    }

    /// The rest of a request to start a conversation, with omega's answer
    /// (`None` where omega did not answer): the request goes to the client's
    /// iota with the user as sender and the partner's id, the value omega
    /// gave under `user_id` (`null` where it gave none), added.
    pub fn finish_conversation(&self, cv: CommunicationValue, reply: Option<&CommunicationValue>) -> (r: Vec<Outgoing>)
        requires
            cv.wf(),
        ensures
            all_wf(r@),
            outgoing_views(r@) == (match self.iota_id {
                Some(iota) => seq![OutgoingView::ToIota(iota, with_field(
                    MessageView { sender: self.user_id, ..cv@ },
                    DataTypes::chat_partner_id,
                    partner_id(reply),
                ))],
                None => Seq::<OutgoingView>::empty(),
            }),
    {
        let partner: Json = match reply {
            Some(m) => match m.get_data(DataTypes::user_id) {
                Some(v) => v.deep_clone(),
                None => Json::Null,
            },
            None => Json::Null,
        };
        let mut out: Vec<Outgoing> = Vec::new();
        match self.iota_id {
            Some(iota) => {
                let m = cv.with_sender(self.user_id).add_data(DataTypes::chat_partner_id, partner);
                let ghost mv = m@;
                out.push(Outgoing::ToIota(iota, m));
                assert(outgoing_views(out@) =~= seq![OutgoingView::ToIota(iota, mv)]);
            },
            None => {
                assert(outgoing_views(out@) =~= Seq::<OutgoingView>::empty());
            },
        }
        out
    }

    /// Replaces the users whose presence the client follows.
    pub fn set_interested_users(&mut self, interested_ids: Vec<i64>)
        ensures
            final(self).interested_users@ == interested_ids@,
            final(self).user_id == old(self).user_id,
            final(self).identified == old(self).identified,
            final(self).challenged == old(self).challenged,
            final(self).iota_id == old(self).iota_id,
            final(self).is_open == old(self).is_open,
            final(self).ping == old(self).ping,
    {
        self.interested_users = interested_ids;
    }

    /// The users whose presence the client follows.
    pub fn get_interested_users(&self) -> (r: Vec<i64>)
        ensures
            r@ == self.interested_users@,
    {
        let mut out: Vec<i64> = Vec::new();
        let mut i: usize = 0;
        while i < self.interested_users.len()
            invariant
                i <= self.interested_users.len(),
                out@ == self.interested_users@.subrange(0, i as int),
            decreases self.interested_users.len() - i,
        {
            out.push(self.interested_users[i]);
            i = i + 1;
        }
        assert(self.interested_users@.subrange(0, i as int) =~= self.interested_users@);
        out
    }

    /// Where the client follows a user, the notice that the user is online
    /// (`client_changed`, the user id and state as text).
    pub fn are_you_interested(&self, user_id: i64) -> (r: Option<CommunicationValue>)
        ensures
            r is Some == self.interested_users@.contains(user_id),
            r matches Some(m) ==> m.wf() && m@ == spec_interest_notice(m@.id, user_id),
    {
        interest_notice(&self.interested_users, user_id)
    }

    /// Closing the connection: where the client is identified and an iota
    /// serves the user, the user's clients leave that iota's connection and
    /// omega is told the user went offline (see
    /// `RhoManager::close_client_connection`).
    pub fn handle_close(&self, rhos: &mut RhoManager) -> (r: Vec<Outgoing>)
        requires
            old(rhos).wf(),
        ensures
            final(rhos).wf(),
            all_wf(r@),
            !self.identified ==> final(rhos)@ == old(rhos)@ && r@.len() == 0,
            self.identified ==> match user_rho_index_from(old(rhos)@, self.user_id, 0) {
                None => final(rhos)@ == old(rhos)@ && r@.len() == 0,
                Some(i) => {
                    let me = crate::rho::ClientRef { conn: self.conn, user_id: self.user_id };
                    &&& final(rhos)@ == old(rhos)@.update(
                        i as int,
                        RhoView {
                            clients: crate::rho::clients_without(old(rhos)@[i as int].clients, self.user_id),
                            ..old(rhos)@[i as int]
                        },
                    )
                    &&& r@.len() == 1
                    &&& outgoing_views(r@)[0] matches OutgoingView::ToOmega(m) && is_notice(
                        m,
                        spec_presence_kind(UserStatus::user_offline),
                        DataTypes::user_id,
                        self.user_id,
                    )
                },
            },
    {
        let mut out: Vec<Outgoing> = Vec::new();
        if !self.identified {
            return out;
        }
        proof {
            crate::rho::lemma_user_rho_index_from(rhos@, self.user_id, 0);
        }
        match rhos.get_rho_con_for_user(self.user_id) {
            Some(iota) => {
                proof {
                    let i = user_rho_index_from(rhos@, self.user_id, 0)->0 as int;
                    lemma_rho_index_from(rhos@, iota, 0);
                    let j = rho_index_from(rhos@, iota, 0);
                    assert(j is Some) by {
                        if j is None {
                            assert(rhos@[i].iota_id == iota);
                        }
                    }
                    assert(j->0 as int == i);
                }
                let me = crate::rho::ClientRef { conn: self.conn, user_id: self.user_id };
                match rhos.close_client_connection(iota, me) {
                    Some(m) => {
                        let ghost mv = m@;
                        out.push(Outgoing::ToOmega(m));
                        assert(outgoing_views(out@) =~= seq![OutgoingView::ToOmega(mv)]);
                    },
                    None => {},
                }
                out
            },
            None => out,
        }
    }
}

/// What an invitation into a call does, from the inviter, the receiver (0
/// where none is named) and the call (`None` where none is named,
/// `Some(None)` where it is no UUID). Without a receiver the answer is
/// `error_no_user_id`; without a call `error_no_call_id`; with a call that is
/// no UUID, or one the inviter is not in, `error_invalid_call_id`. Otherwise
/// the invitee joins the call; where no iota serves them the answer is
/// `error`, else the invitation goes to their clients and the answer is
/// `success`.
pub open spec fn invite_result(
    before: Seq<CallGroupView>,
    after: Seq<CallGroupView>,
    rhos: Seq<RhoView>,
    id: u128,
    inviter: i64,
    receiver: i64,
    call: Option<Option<u128>>,
    out: Seq<OutgoingView>,
) -> bool {
    if receiver == 0 {
        after == before && out == seq![
            OutgoingView::Reply(bare_reply(id, CommunicationType::error_no_user_id)),
        ]
    } else {
        match call {
            None => after == before && out == seq![
                OutgoingView::Reply(bare_reply(id, CommunicationType::error_no_call_id)),
            ],
            Some(None) => after == before && out == seq![
                OutgoingView::Reply(bare_reply(id, CommunicationType::error_invalid_call_id)),
            ],
            Some(Some(c)) => {
                if !(find_group(before, c) matches Some(i) && has_member(before[i as int].members, inviter as u64)) {
                    after == before && out == seq![
                        OutgoingView::Reply(bare_reply(id, CommunicationType::error_invalid_call_id)),
                    ]
                } else {
                    &&& after == (if has_member(before[find_group(before, c)->0 as int].members, receiver as u64) {
                        before
                    } else {
                        spec_join(before, receiver as u64, c).0
                    })
                    &&& match receiver_conns(rhos, receiver) {
                        None => out == seq![OutgoingView::Reply(bare_reply(id, CommunicationType::error))],
                        Some(cs) => {
                            &&& out.len() == 2
                            &&& out[0] matches OutgoingView::ToClients(to, m) && to == cs && m == spec_invite_forward(
                                m.id,
                                c,
                                receiver,
                                inviter,
                            )
                            &&& out[1] == OutgoingView::Reply(bare_reply(id, CommunicationType::success))
                        },
                    }
                }
            },
        }
    }
}

/// An invitation into a call (see `invite_result`).
pub fn invite_into_call(
    id: u128,
    inviter: i64,
    receiver: i64,
    call: Option<Option<u128>>,
    calls: &mut CallRegistry,
    rhos: &RhoManager,
) -> (r: Vec<Outgoing>)
    requires
        old(calls).wf(),
        rhos.wf(),
    ensures
        final(calls).wf(),
        all_wf(r@),
        invite_result(old(calls)@, final(calls)@, rhos@, id, inviter, receiver, call, outgoing_views(r@)),
{
    if receiver == 0 {
        return reply_only(error_reply(id, CommunicationType::error_no_user_id));
    }
    let c = match call {
        Some(Some(c)) => c,
        Some(None) => {
            return reply_only(error_reply(id, CommunicationType::error_invalid_call_id));
        },
        None => {
            return reply_only(error_reply(id, CommunicationType::error_no_call_id));
        },
    };
    let invited = calls.add_invite(c, inviter as u64, receiver as u64);
    if !invited {
        return reply_only(error_reply(id, CommunicationType::error_invalid_call_id));
    }
    let conns = match conns_for_user(rhos, receiver) {
        Some(cs) => cs,
        None => {
            return reply_only(error_reply(id, CommunicationType::error));
        },
    };
    let forward = CommunicationValue::new(CommunicationType::call_invite).with_receiver(receiver).with_sender(
        inviter,
    ).add_data_str(DataTypes::call_id, uuid_to_string(c)).add_data_str(
        DataTypes::receiver_id,
        i64_to_string(receiver),
    ).add_data_str(DataTypes::sender_id, i64_to_string(inviter));
    let ghost fv = forward@;
    let ghost cs = conns@;
    let answer = error_reply(id, CommunicationType::success);
    let ghost av = answer@;
    let mut out: Vec<Outgoing> = Vec::new();
    out.push(Outgoing::ToClients(conns, forward));
    out.push(Outgoing::Reply(answer));
    assert(outgoing_views(out@) =~= seq![OutgoingView::ToClients(cs, fv), OutgoingView::Reply(av)]);
    out
}

/// What a request for the token of a call (`None` where the call named is
/// no UUID, or none is named) does: the answer is `error`; or the user
/// joins the call (see `CallRegistry::join_call`) and is answered
/// `call_token` with the token, addressed to the user. The token is empty
/// exactly where the keys are unset or empty; otherwise it grants the call's
/// room to the user with the user's admin rights in the call.
pub open spec fn token_result(
    before: Seq<CallGroupView>,
    after: Seq<CallGroupView>,
    id: u128,
    user: i64,
    call: Option<u128>,
    keys_usable: bool,
    r: MessageView,
) -> bool {
    match call {
        Some(c) => {
            &&& after == spec_join(before, user as u64, c).0
            &&& r.id == id
            &&& r.comm_type == CommunicationType::call_token
            &&& r.sender == 0
            &&& r.receiver == user
            &&& r.data.len() == 1
            &&& r.data[0].0 == DataTypes::call_token
            &&& r.data[0].1 matches JsonView::Str(t) && (t.len() > 0 <==> keys_usable) && (t.len() > 0
                ==> spec_token_grants(t) == Some(
                caller_grants(user as u64, c, spec_join(before, user as u64, c).1.has_admin),
            ))
        },
        None => after == before && r == bare_reply(id, CommunicationType::error),
    }
}

/// A request for the token of a call (see `token_result`).
pub fn token_for_call(id: u128, user: i64, call: Option<u128>, calls: &mut CallRegistry, keys: &TokenKeys) -> (r: CommunicationValue)
    requires
        old(calls).wf(),
    ensures
        final(calls).wf(),
        r.wf(),
        token_result(old(calls)@, final(calls)@, id, user, call, keys.usable(), r@),
{
    let c = match call {
        Some(c) => c,
        None => {
            return error_reply(id, CommunicationType::error);
        },
    };
    match calls.get_call_token(keys, user as u64, c) {
        Some(token) => CommunicationValue::new(CommunicationType::call_token).with_id(id).with_receiver(user).add_data_str(
            DataTypes::call_token,
            token,
        ),
        None => error_reply(id, CommunicationType::error),
    }
}

/// What removing a user from a call does: where the requester administers
/// the call, the user (the integer under `user_id`) leaves it and is
/// returned, to be removed from the call's room as well; otherwise nothing
/// changes.
pub open spec fn disconnect_result(
    before: Seq<CallGroupView>,
    after: Seq<CallGroupView>,
    m: MessageView,
    requester: u64,
    r: Option<(u128, u64)>,
) -> bool {
    let call = moderated_call(m)->0;
    let target = int_datum(m, DataTypes::user_id) as u64;
    if requester_is_admin(before, m, requester) {
        let i = find_group(before, call)->0 as int;
        &&& r == Some((call, target))
        &&& after == before.update(i, CallGroupView { members: without_user(before[i].members, target), ..before[i] })
    } else {
        r is None && after == before
    }
}

/// A moderator removes a user from a call (see `disconnect_result`).
pub fn disconnect_user(requester: u64, cv: &CommunicationValue, calls: &mut CallRegistry) -> (r: Option<(u128, u64)>)
    requires
        old(calls).wf(),
        moderation_served(old(calls)@, cv@, requester),
    ensures
        final(calls).wf(),
        disconnect_result(old(calls)@, final(calls)@, cv@, requester, r),
{
    let text = str_of_call(cv);
    let call = match uuid_parse(text) {
        Some(c) => c,
        None => {
            proof {
                assert(false);
            }
            return None;
        },
    };
    let target = crate::client_connection::int_of(cv, DataTypes::user_id) as u64;
    if is_admin_of(requester, calls, call) {
        calls.remove_caller(call, target);
        Some((call, target))
    } else {
        None
    }
}

/// `disconnect_user` where the request can be served; `None`, nothing
/// changed, where it cannot.
pub fn try_disconnect_user(requester: u64, cv: &CommunicationValue, calls: &mut CallRegistry) -> (r: Option<Option<(u128, u64)>>)
    requires
        old(calls).wf(),
    ensures
        final(calls).wf(),
        r is None <==> !moderation_served(old(calls)@, cv@, requester),
        r is None ==> final(calls)@ == old(calls)@,
        r matches Some(x) ==> disconnect_result(old(calls)@, final(calls)@, cv@, requester, x),
{
    if !can_moderate(requester, cv, calls) {
        return None;
    }
    Some(disconnect_user(requester, cv, calls))
}

/// Whether a requester administers a call they are a member of.
fn is_admin_of(requester: u64, calls: &CallRegistry, call: u128) -> (r: bool)
    requires
        calls.wf(),
        find_group(calls@, call) matches Some(i) ==> has_member(calls@[i as int].members, requester),
    ensures
        r == (find_group(calls@, call) matches Some(i) && spec_get_caller(
            calls@[i as int].members,
            requester,
        )->0.has_admin),
{
    match calls.get_call(call) {
        Some(g) => {
            proof {
                lemma_member_index_from(g.members@, requester, 0);
            }
            match g.get_caller(requester) {
                Some(c) => c.has_admin(),
                None => {
                    proof {
                        assert(false);
                    }
                    false
                },
            }
        },
        None => false,
    }
}

/// Whether a moderation request can be served (see `moderation_served`).
pub fn can_moderate(requester: u64, cv: &CommunicationValue, calls: &CallRegistry) -> (r: bool)
    requires
        calls.wf(),
    ensures
        r == moderation_served(calls@, cv@, requester),
{
    let text = str_of_call(cv);
    match uuid_parse(text) {
        Some(call) => match calls.get_call(call) {
            Some(g) => {
                proof {
                    lemma_member_index_from(g.members@, requester, 0);
                }
                g.get_caller(requester).is_some()
            },
            None => true,
        },
        None => false,
    }
}

/// A time-out request can be served: it is a moderation request that can be
/// served, and where the requester administers the call, the user to time
/// out is in it.
pub open spec fn timeout_served(calls: Seq<CallGroupView>, m: MessageView, requester: u64) -> bool {
    &&& moderation_served(calls, m, requester)
    &&& requester_is_admin(calls, m, requester) ==> has_member(
        calls[find_group(calls, moderated_call(m)->0)->0 as int].members,
        int_datum(m, DataTypes::user_id) as u64,
    )
}

/// What timing a user out does: where the requester administers the call,
/// the user (the integer under `user_id`) is timed out until the time under
/// `untill` (0 where there is none) and returned, to be removed from the
/// call's room; otherwise nothing changes.
pub open spec fn timeout_result(
    before: Seq<CallGroupView>,
    after: Seq<CallGroupView>,
    m: MessageView,
    requester: u64,
    r: Option<(u128, u64)>,
) -> bool {
    let call = moderated_call(m)->0;
    let target = int_datum(m, DataTypes::user_id) as u64;
    let until = int_datum(m, DataTypes::untill);
    if requester_is_admin(before, m, requester) {
        let i = find_group(before, call)->0 as int;
        let g = before[i];
        let j = member_index_from(g.members, target, 0)->0 as int;
        &&& r == Some((call, target))
        &&& after == before.update(
            i,
            CallGroupView { members: g.members.update(j, Caller { timeout: until, ..g.members[j] }), ..g },
        )
    } else {
        r is None && after == before
    }
}

/// A moderator times a user out of a call (see `timeout_result`).
pub fn timeout_user(requester: u64, cv: &CommunicationValue, calls: &mut CallRegistry) -> (r: Option<(u128, u64)>)
    requires
        old(calls).wf(),
        timeout_served(old(calls)@, cv@, requester),
    ensures
        final(calls).wf(),
        timeout_result(old(calls)@, final(calls)@, cv@, requester, r),
{
    let text = str_of_call(cv);
    let call = match uuid_parse(text) {
        Some(c) => c,
        None => {
            proof {
                assert(false);
            }
            return None;
        },
    };
    let target = crate::client_connection::int_of(cv, DataTypes::user_id) as u64;
    let until = crate::client_connection::int_of(cv, DataTypes::untill);
    if is_admin_of(requester, calls, call) {
        let done = calls.set_timeout(call, target, until);
        if !done {
            proof {
                assert(false);
            }
        }
        Some((call, target))
    } else {
        None
    }
}

/// `timeout_user` where the request can be served; `None`, nothing changed,
/// where it cannot (see `timeout_served`).
pub fn try_timeout_user(requester: u64, cv: &CommunicationValue, calls: &mut CallRegistry) -> (r: Option<Option<(u128, u64)>>)
    requires
        old(calls).wf(),
    ensures
        final(calls).wf(),
        r is None <==> !timeout_served(old(calls)@, cv@, requester),
        r is None ==> final(calls)@ == old(calls)@,
        r matches Some(x) ==> timeout_result(old(calls)@, final(calls)@, cv@, requester, x),
{
    if !can_moderate(requester, cv, calls) {
        return None;
    }
    let text = str_of_call(cv);
    let call = match uuid_parse(text) {
        Some(c) => c,
        None => {
            return None;
        },
    };
    if is_admin_of(requester, calls, call) {
        let target = crate::client_connection::int_of(cv, DataTypes::user_id) as u64;
        match calls.get_call(call) {
            Some(g) => {
                proof {
                    lemma_member_index_from(g.members@, target, 0);
                }
                if g.get_caller(target).is_none() {
                    return None;
                }
            },
            None => {},
        }
    }
    Some(timeout_user(requester, cv, calls))
}

/// The notice that a followed user is online: `client_changed` with the user
/// id and the state as text.
pub open spec fn spec_interest_notice(id: u128, user_id: i64) -> MessageView {
    with_field(
        with_field(
            MessageView { id, comm_type: CommunicationType::client_changed, sender: 0, receiver: 0, data: Seq::empty() },
            DataTypes::user_id,
            JsonView::Str(decimal_int(user_id as int)),
        ),
        DataTypes::user_state,
        JsonView::Str("online"@),
    )
}

/// A request for the data of a guest, answered from the guest's profile
/// (see `requested_guest`); `None` where the user named is no guest.
pub fn guest_user_data(cv: &CommunicationValue, guests: &AnonymousManager) -> (r: Option<CommunicationValue>)
    ensures
        r is Some == requested_guest(guests@, cv@) is Some,
        r matches Some(m) ==> m.wf() && m@ == spec_guest_data(cv@.id, requested_guest(guests@, cv@)->0),
{
    let by_id: Option<i64> = match cv.get_data(DataTypes::user_id) {
        Some(v) => v.as_i64(),
        None => None,
    };
    let found = match by_id {
        Some(uid) => guests.get_anonymous_user(uid as u64),
        None => {
            let by_name: Option<&str> = match cv.get_data(DataTypes::username) {
                Some(v) => v.as_str(),
                None => None,
            };
            match by_name {
                Some(n) => guests.get_anonymous_user_by_name(n),
                None => None,
            }
        },
    };
    match found {
        Some(g) => {
            proof {
                reveal_strlit("online");
            }
            let m = CommunicationValue::new(CommunicationType::get_user_data).with_id(cv.get_id()).add_data_str(
                DataTypes::username,
                g.get_user_name(),
            ).add_data(
                DataTypes::user_id,
                Json::Number(JsonNumber::from_i64(g.get_user_id() as i64)),
            ).add_data_str(DataTypes::display, g.get_display_name()).add_data_str(
                DataTypes::user_state,
                String::from_str("online"),
            ).add_data_str(DataTypes::avatar, g.get_avatar());
            Some(m)
        },
        None => None,
    }
}

/// Where the follower follows a user, the notice that the user is online.
pub fn interest_notice(interested_users: &Vec<i64>, user_id: i64) -> (r: Option<CommunicationValue>)
    ensures
        r is Some == interested_users@.contains(user_id),
        r matches Some(m) ==> m.wf() && m@ == spec_interest_notice(m@.id, user_id),
{
    let mut i: usize = 0;
    while i < interested_users.len()
        invariant
            i <= interested_users.len(),
            forall|j: int| 0 <= j < i ==> interested_users@[j] != user_id,
        decreases interested_users.len() - i,
    {
        if interested_users[i] == user_id {
            proof {
                reveal_strlit("online");
            }
            let m = CommunicationValue::new(CommunicationType::client_changed).add_data_str(
                DataTypes::user_id,
                i64_to_string(user_id),
            ).add_data_str(DataTypes::user_state, String::from_str("online"));
            return Some(m);
        }
        i = i + 1;
    }
    None
}

/// The partner id omega gave: its value under `user_id`, or `null`.
pub open spec fn partner_id(reply: Option<&CommunicationValue>) -> JsonView {
    match reply {
        Some(m) => match datum(m@, DataTypes::user_id) {
            Some(v) => v,
            None => JsonView::Null,
        },
        None => JsonView::Null,
    }
}

/// The flag a request gives under `enabled`: its boolean, or on.
pub open spec fn enabled_flag(m: MessageView) -> bool {
    match datum(m, DataTypes::enabled) {
        Some(v) => match v.spec_as_bool() {
            Some(b) => b,
            None => true,
        },
        None => true,
    }
}

/// The answer to a request about anonymous joining: the call, the flag, and
/// the call's short link where it has one.
pub open spec fn spec_anonymous_joining_reply(id: u128, call_id: u128, enable: bool, link: Option<Seq<char>>) -> MessageView {
    let base = with_field(
        with_field(
            bare_reply(id, CommunicationType::call_set_anonymous_joining),
            DataTypes::call_id,
            JsonView::Str(spec_uuid_string(call_id)),
        ),
        DataTypes::enabled,
        JsonView::Bool(enable),
    );
    match link {
        Some(l) => with_field(base, DataTypes::link, JsonView::Str(l)),
        None => base,
    }
}

/// The answer to a request about anonymous joining, with the short link the
/// call has in the registry.
pub fn anonymous_joining_reply(id: u128, joining: &AnonymousJoining, calls: &CallRegistry) -> (r: CommunicationValue)
    ensures
        r.wf(),
        r@ == spec_anonymous_joining_reply(id, joining.call_id, joining.enable, match find_group(calls@, joining.call_id) {
            Some(i) => calls@[i as int].short_link,
            None => None,
        }),
{
    let base = CommunicationValue::new(CommunicationType::call_set_anonymous_joining).with_id(id).add_data(
        DataTypes::call_id,
        Json::Str(uuid_to_string(joining.call_id)),
    ).add_data(DataTypes::enabled, Json::Bool(joining.enable));
    let link = match calls.get_call(joining.call_id) {
        Some(g) => g.get_short_link(),
        None => None,
    };
    match link {
        Some(l) => base.add_data(DataTypes::link, Json::Str(l)),
        None => base,
    }
}

/// The link omega's answer to a request to shorten one carries under `link`,
/// where it is text.
pub fn shortened_link(reply: &CommunicationValue) -> (r: Option<String>)
    ensures
        r is Some == (datum(reply@, DataTypes::link) matches Some(v) && v is Str),
        r matches Some(l) ==> JsonView::Str(l@) == datum(reply@, DataTypes::link)->0,
{
    match reply.get_data(DataTypes::link) {
        Some(v) => match v.as_str() {
            Some(s) => Some(String::from_str(s)),
            None => None,
        },
        None => None,
    }
}

/// The text under `key`, or the empty text.
pub(crate) fn str_datum_of(cv: &CommunicationValue, key: DataTypes) -> (r: &str)
    ensures
        r@ == str_datum(cv@, key),
{
    proof {
        reveal_strlit("");
        assert(""@ =~= Seq::<char>::empty());
    }
    match cv.get_data(key) {
        Some(v) => match v.as_str() {
            Some(s) => s,
            None => "",
        },
        None => "",
    }
}

/// The text under `call_id`, or the empty text.
fn str_of_call(cv: &CommunicationValue) -> (r: &str)
    ensures
        r@ == str_datum(cv@, DataTypes::call_id),
{
    proof {
        reveal_strlit("");
        assert(""@ =~= Seq::<char>::empty());
    }
    match cv.get_data(DataTypes::call_id) {
        Some(v) => match v.as_str() {
            Some(s) => s,
            None => "",
        },
        None => "",
    }
}

} // verus!
