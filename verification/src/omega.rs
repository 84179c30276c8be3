//! The notices the relay sends to omega, the directory service: presence
//! changes of users, iotas going away, and requests for user states.

use vstd::prelude::*;

use crate::communication::{CommunicationValue, MessageView};
use crate::json::{json_views, spec_number_from_i64, Json, JsonNumber, JsonView, lemma_json_views_push};
use crate::omega_connection::OmegaConnection;
use crate::user::UserStatus;
use crate::wire::{CommunicationType, DataTypes};

verus! {

/// The kind of notice for a presence change: offline states disconnect, every
/// other state connects.
pub open spec fn spec_presence_kind(state: UserStatus) -> CommunicationType {
    match state {
        UserStatus::iota_offline => CommunicationType::user_disconnected,
        UserStatus::user_offline => CommunicationType::user_disconnected,
        _ => CommunicationType::user_connected,
    }
}

/// The kind of notice for a presence change.
pub fn presence_kind(state: UserStatus) -> (r: CommunicationType)
    ensures
        r == spec_presence_kind(state),
{
    match state {
        UserStatus::iota_offline => CommunicationType::user_disconnected,
        UserStatus::user_offline => CommunicationType::user_disconnected,
        _ => CommunicationType::user_connected,
    }
}

/// A message of a kind whose only datum is a number under a key.
pub open spec fn is_notice(m: MessageView, kind: CommunicationType, key: DataTypes, value: i64) -> bool {
    &&& m.comm_type == kind
    &&& m.sender == 0
    &&& m.receiver == 0
    &&& m.data == seq![(key, JsonView::Number(spec_number_from_i64(value)))]
}

/// The numbers of a list of ids, as JSON.
pub open spec fn id_numbers(ids: Seq<i64>) -> Seq<JsonView> {
    ids.map_values(|id: i64| JsonView::Number(spec_number_from_i64(id)))
}

impl OmegaConnection {
    /// The notice that a user's presence changed (`client_changed`).
    pub fn client_changed(iota_id: i64, user_id: i64, state: UserStatus) -> (r: CommunicationValue)
        ensures
            r.wf(),
            is_notice(r@, spec_presence_kind(state), DataTypes::user_id, user_id),
    {
        let t = presence_kind(state);
        let r = CommunicationValue::new(t).add_data(
            DataTypes::user_id,
            Json::Number(JsonNumber::from_i64(user_id)),
        );
        assert(r@.data =~= seq![(DataTypes::user_id, JsonView::Number(spec_number_from_i64(user_id)))]);
        r
    }

    /// The notice that an iota went away (`close_iota`).
    pub fn close_iota(iota_id: i64) -> (r: CommunicationValue)
        ensures
            r.wf(),
            is_notice(r@, CommunicationType::iota_disconnected, DataTypes::iota_id, iota_id),
    {
        let r = CommunicationValue::new(CommunicationType::iota_disconnected).add_data(
            DataTypes::iota_id,
            Json::Number(JsonNumber::from_i64(iota_id)),
        );
        assert(r@.data =~= seq![(DataTypes::iota_id, JsonView::Number(spec_number_from_i64(iota_id)))]);
        r
    }

    /// The request for the states of users (`user_states`); the answer goes to the
    /// clients of `user_id`.
    pub fn user_states(user_id: i64, user_ids: &Vec<i64>) -> (r: CommunicationValue)
        ensures
            r.wf(),
            r@.comm_type == CommunicationType::get_states,
            r@.sender == 0,
            r@.receiver == 0,
            r@.data == seq![(DataTypes::user_ids, JsonView::Array(id_numbers(user_ids@)))],
    {
        let mut arr: Vec<Json> = Vec::new();
        let mut i: usize = 0;
        while i < user_ids.len()
            invariant
                i <= user_ids.len(),
                json_views(arr@) == id_numbers(user_ids@.subrange(0, i as int)),
            decreases user_ids.len() - i,
        {
            let x = Json::Number(JsonNumber::from_i64(user_ids[i]));
            proof {
                lemma_json_views_push(arr@, x);
                assert(id_numbers(user_ids@.subrange(0, i + 1)) =~= id_numbers(
                    user_ids@.subrange(0, i as int),
                ).push(JsonView::Number(spec_number_from_i64(user_ids@[i as int]))));
            }
            arr.push(x);
            i = i + 1;
        }
        assert(user_ids@.subrange(0, user_ids.len() as int) =~= user_ids@);
        let r = CommunicationValue::new(CommunicationType::get_states).add_array(DataTypes::user_ids, arr);
        assert(r@.data =~= seq![(DataTypes::user_ids, JsonView::Array(id_numbers(user_ids@)))]);
        r
    }
}

} // verus!
