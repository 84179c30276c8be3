//! The decisions of a connection to a call's signalling channel: who joins
//! which call, and what is broadcast to the call's members or relayed to
//! one of them.

use vstd::prelude::*;

use crate::client_connection::str_datum;
use crate::communication::{with_field, CommunicationValue, MessageView};
use crate::ids::{spec_uuid_parse, spec_uuid_string, uuid_parse, uuid_to_string};
use crate::json::{entry_views, lemma_entry_views_push, Json, JsonView};
use crate::outgoing::{bare_reply, datum, error_reply};
use crate::wire::{CommunicationType, DataTypes};

verus! {

/// What a message on a call's channel is.
#[derive(Debug, Clone, Copy, PartialEq, Eq, Structural)]
pub enum CallRoute {
    Identification,
    Ping,
    ClientChanged,
    StreamToggle,
    DirectRelay,
    Ignored,
}

/// The route of a message on a call's channel.
pub open spec fn spec_call_route(t: CommunicationType) -> CallRoute {
    if t == CommunicationType::identification {
        CallRoute::Identification
    } else if t == CommunicationType::ping {
        CallRoute::Ping
    } else if t == CommunicationType::client_changed {
        CallRoute::ClientChanged
    } else if t == CommunicationType::start_stream || t == CommunicationType::end_stream {
        CallRoute::StreamToggle
    } else if t == CommunicationType::webrtc_sdp || t == CommunicationType::webrtc_ice || t
        == CommunicationType::watch_stream {
        CallRoute::DirectRelay
    } else {
        CallRoute::Ignored
    }
}

/// Who is on the channel, once known.
pub struct CallConnection {
    pub user_id: Option<u128>,
    pub call_id: Option<u128>,
}

/// A member's entry in the answer to a joining member: muted, not streaming.
pub open spec fn member_about() -> JsonView {
    JsonView::Object(seq![("state"@, JsonView::Str("muted"@)), ("streaming"@, JsonView::Bool(false))])
}

/// The members of a call by id, each with `member_about`.
pub open spec fn about_members(members: Seq<u128>) -> Seq<(Seq<char>, JsonView)> {
    members.map_values(|m: u128| (spec_uuid_string(m), member_about()))
}

/// The notice to a call that a member joined, muted.
pub open spec fn spec_joined_notice(id: u128, user: u128) -> MessageView {
    with_field(
        with_field(
            bare_reply(id, CommunicationType::client_connected),
            DataTypes::user_id,
            JsonView::Str(spec_uuid_string(user)),
        ),
        DataTypes::call_state,
        JsonView::Str("muted"@),
    )
}

/// The answer to a joining member: the call's members.
pub open spec fn spec_joined_answer(id: u128, members: Seq<u128>) -> MessageView {
    with_field(
        bare_reply(id, CommunicationType::identification_response),
        DataTypes::about,
        JsonView::Object(about_members(members)),
    )
}

/// A message passed on with its sender's id added as text.
pub open spec fn with_sender_id(m: MessageView, user: u128) -> MessageView {
    with_field(m, DataTypes::sender_id, JsonView::Str(spec_uuid_string(user)))
}

impl CallConnection {
    /// A channel on which no one has identified yet.
    pub fn new() -> (r: CallConnection)
        ensures
            r.user_id is None,
            r.call_id is None,
    {
        CallConnection { user_id: None, call_id: None }
    }

    /// Where a message goes (see `spec_call_route`).
    pub fn route(&self, cv: &CommunicationValue) -> (r: CallRoute)
        ensures
            r == spec_call_route(cv@.comm_type),
    {
        let t = cv.get_type();
        if t == CommunicationType::identification {
            CallRoute::Identification
        } else if t == CommunicationType::ping {
            CallRoute::Ping
        } else if t == CommunicationType::client_changed {
            CallRoute::ClientChanged
        } else if t == CommunicationType::start_stream || t == CommunicationType::end_stream {
            CallRoute::StreamToggle
        } else if t == CommunicationType::webrtc_sdp || t == CommunicationType::webrtc_ice || t
            == CommunicationType::watch_stream {
            CallRoute::DirectRelay
        } else {
            CallRoute::Ignored
        }
    }

    /// An identification: where the texts under `user_id` and `call_id` are
    /// both UUIDs, they are taken as the member and the call, and returned;
    /// otherwise nothing happens.
    pub fn identify(&mut self, cv: &CommunicationValue) -> (r: Option<(u128, u128)>)
        ensures
            ({
                let u = spec_uuid_parse(str_datum(cv@, DataTypes::user_id));
                let c = spec_uuid_parse(str_datum(cv@, DataTypes::call_id));
                if u is Some && c is Some {
                    &&& final(self).user_id == u
                    &&& final(self).call_id == c
                    &&& r == Some((u->0, c->0))
                } else {
                    r is None && *final(self) == *old(self)
                }
            }),
    {
        let u = uuid_parse(crate::client_requests::str_datum_of(cv, DataTypes::user_id));
        let c = uuid_parse(crate::client_requests::str_datum_of(cv, DataTypes::call_id));
        match (u, c) {
            (Some(uid), Some(cid)) => {
                self.user_id = Some(uid);
                self.call_id = Some(cid);
                Some((uid, cid))
            },
            _ => None,
        }
    }

    /// The refusal of a call whose secret does not match.
    pub fn rejected(&self) -> (r: CommunicationValue)
        ensures
            r.wf(),
            r@ == bare_reply(r@.id, CommunicationType::error_invalid_secret),
    {
        CommunicationValue::new(CommunicationType::error_invalid_secret)
    }

    /// A member joins a call: the notice broadcast to the call before the
    /// member is added, and the answer to the member listing the call's
    /// members (the member included).
    pub fn joined(&self, id: u128, user: u128, members: &Vec<u128>) -> (r: (CommunicationValue, CommunicationValue))
        ensures
            r.0.wf(),
            r.0@ == spec_joined_notice(id, user),
            r.1.wf(),
            r.1@ == spec_joined_answer(id, members@),
    {
        proof {
            reveal_strlit("muted");
            reveal_strlit("state");
            reveal_strlit("streaming");
        }
        let notice = CommunicationValue::new(CommunicationType::client_connected).with_id(id).add_data_str(
            DataTypes::user_id,
            uuid_to_string(user),
        ).add_data_str(DataTypes::call_state, String::from_str("muted"));
        let mut users: Vec<(String, Json)> = Vec::new();
        let mut i: usize = 0;
        while i < members.len()
            invariant
                i <= members.len(),
                entry_views(users@) == about_members(members@.subrange(0, i as int)),
            decreases members.len() - i,
        {
            let mut info: Vec<(String, Json)> = Vec::new();
            let a = (String::from_str("state"), Json::Str(String::from_str("muted")));
            proof { lemma_entry_views_push(info@, a); }
            info.push(a);
            let b = (String::from_str("streaming"), Json::Bool(false));
            proof { lemma_entry_views_push(info@, b); }
            info.push(b);
            proof {
                assert(entry_views(Seq::<(String, Json)>::empty()) =~= Seq::empty());
                assert(entry_views(info@) =~= seq![("state"@, JsonView::Str("muted"@)), ("streaming"@, JsonView::Bool(false))]);
            }
            let e = (uuid_to_string(members[i]), Json::Object(info));
            proof {
                lemma_entry_views_push(users@, e);
                assert(about_members(members@.subrange(0, i + 1)) =~= about_members(members@.subrange(0, i as int)).push(
                    (spec_uuid_string(members@[i as int]), member_about()),
                ));
            }
            users.push(e);
            i = i + 1;
        }
        assert(members@.subrange(0, members.len() as int) =~= members@);
        let answer = error_reply(id, CommunicationType::identification_response).add_data(
            DataTypes::about,
            Json::Object(users),
        );
        (notice, answer)
    }

    /// A member's state change: where the member has joined and the message
    /// carries a text `call_state`, the message, with the member's id added,
    /// is broadcast to the call.
    pub fn client_changed(&self, cv: CommunicationValue) -> (r: Option<(u128, CommunicationValue)>)
        requires
            cv.wf(),
        ensures
            (self.user_id is Some && self.call_id is Some && datum(cv@, DataTypes::call_state) matches Some(
                JsonView::Str(_),
            )) ==> (r matches Some(x) && x.0 == self.call_id->0 && x.1.wf() && x.1@ == with_sender_id(
                cv@,
                self.user_id->0,
            )),
            !(self.user_id is Some && self.call_id is Some && datum(cv@, DataTypes::call_state) matches Some(
                JsonView::Str(_),
            )) ==> r is None,
    {
        let (uid, cid) = match (self.user_id, self.call_id) {
            (Some(u), Some(c)) => (u, c),
            _ => {
                return None;
            },
        };
        let is_text = match cv.get_data(DataTypes::call_state) {
            Some(v) => match v {
                Json::Str(_) => true,
                _ => false,
            },
            None => false,
        };
        if !is_text {
            return None;
        }
        Some((cid, cv.add_data(DataTypes::sender_id, Json::Str(uuid_to_string(uid)))))
    }

    /// A stream started or ended: where the member has joined, the message,
    /// with the member's id added, is broadcast to the call.
    pub fn stream_toggle(&self, cv: CommunicationValue) -> (r: Option<(u128, CommunicationValue)>)
        requires
            cv.wf(),
        ensures
            (self.user_id is Some && self.call_id is Some) ==> (r matches Some(x) && x.0
                == self.call_id->0 && x.1.wf() && x.1@ == with_sender_id(cv@, self.user_id->0)),
            !(self.user_id is Some && self.call_id is Some) ==> r is None,
    {
        match (self.user_id, self.call_id) {
            (Some(uid), Some(cid)) => Some(
                (cid, cv.add_data(DataTypes::sender_id, Json::Str(uuid_to_string(uid)))),
            ),
            _ => None,
        }
    }

    /// A message for one member (WebRTC signalling, watching a stream):
    /// where the member has joined and the text under `receiver_id` is a
    /// UUID, the message, with the member's id added, goes to that member of
    /// the call.
    pub fn direct_relay(&self, cv: CommunicationValue) -> (r: Option<(u128, u128, CommunicationValue)>)
        requires
            cv.wf(),
        ensures
            ({
                let to = match datum(cv@, DataTypes::receiver_id) {
                    Some(JsonView::Str(s)) => spec_uuid_parse(s),
                    _ => None,
                };
                if self.user_id is Some && self.call_id is Some && to is Some {
                    r matches Some(x) && x.0 == self.call_id->0 && x.1 == to->0 && x.2.wf() && x.2@
                        == with_sender_id(cv@, self.user_id->0)
                } else {
                    r is None
                }
            }),
    {
        let (uid, cid) = match (self.user_id, self.call_id) {
            (Some(u), Some(c)) => (u, c),
            _ => {
                return None;
            },
        };
        let to = match cv.get_data(DataTypes::receiver_id) {
            Some(v) => match v {
                Json::Str(s) => uuid_parse(s.as_str()),
                _ => None,
            },
            None => None,
        };
        match to {
            Some(receiver) => Some(
                (cid, receiver, cv.add_data(DataTypes::sender_id, Json::Str(uuid_to_string(uid)))),
            ),
            None => None,
        }
    }

    /// Leaving: where the member has joined, the call and the notice
    /// broadcast to it that the member left.
    pub fn leave(&self) -> (r: Option<(u128, u128, CommunicationValue)>)
        ensures
            (self.user_id is Some && self.call_id is Some) ==> (r matches Some(x) && x.0
                == self.call_id->0 && x.1 == self.user_id->0 && x.2.wf() && x.2@ == with_field(
                bare_reply(x.2@.id, CommunicationType::client_disconnected),
                DataTypes::user_id,
                JsonView::Str(spec_uuid_string(self.user_id->0)),
            )),
            !(self.user_id is Some && self.call_id is Some) ==> r is None,
    {
        match (self.user_id, self.call_id) {
            (Some(uid), Some(cid)) => Some(
                (
                    cid,
                    uid,
                    CommunicationValue::new(CommunicationType::client_disconnected).add_data_str(
                        DataTypes::user_id,
                        uuid_to_string(uid),
                    ),
                ),
            ),
            _ => None,
        }
    }
}

} // verus!
