//! The state and decisions of an iota connection: the identification (omega
//! supplies the iota's key, the iota is sent an encrypted challenge), pings
//! with the pings of its clients, and the routing of its messages to other
//! iotas, to omega and to its clients.

use vstd::prelude::*;
use vstd::utf8::encode_utf8;

use crate::calls::{contact_calls, groups_of, CallGroupView, CallRegistry};
use crate::client_connection::{int_datum, reported_ping, spec_challenge_message, str_datum, CHALLENGE_LEN};
use crate::communication::{with_field, CommunicationValue, MessageView};
use crate::crypto_helper::{encrypt, load_public_key, spec_encrypt_with_nonce};
use crate::ids::{spec_uuid_string, uuid_to_string};
use crate::json::{
    display, entry_views, json_views, lemma_entry_views_push, lemma_json_views_index,
    lemma_json_views_len, lemma_json_views_push, spec_json_display, spec_number_from_i64, Json,
    JsonNumber, JsonView,
};
use crate::omega::{id_numbers, is_notice};
use crate::omega_connection::OmegaConnection;
use crate::outgoing::{
    all_wf, bare_reply, datum, error_reply, outgoing_views, reject, reply_only, Outgoing,
    OutgoingView,
};
use crate::primitives::{alphanumeric_text, b64_decode, random_challenge, spec_b64_decode, spec_public_key_accepts};
use crate::rho::{
    conns_of, first_conn_of, lemma_rho_index_from, rho_index_from, user_rho_index_from, ClientRef,
    RhoConnection, RhoManager, RhoView,
};
use crate::text::{
    chars_of, decimal_int, decimal_nat, i64_to_string, parse_i64, spec_parse_i64, split_chars,
    split_text, str_equal, string_from_chars, u64_to_string,
};
use crate::wire::{CommunicationType, DataTypes};

verus! {

/// Where an iota's message goes.
#[derive(Debug, Clone, Copy, PartialEq, Eq, Structural)]
pub enum IotaRoute {
    /// Unidentified, the iota identifies itself: omega's answer about the
    /// iota is awaited under the message's id.
    Identify,
    /// Unidentified, anything else: refused, and the connection closed.
    NotAuthenticated,
    Ping,
    /// To another iota: for a receiver the iota does not serve, or a message
    /// meant for another iota or a chat message.
    Forward,
    GetChats,
    OmegaForward,
    ToClient,
}

/// The route of an iota's message.
pub open spec fn spec_iota_route(identified: bool, user_ids: Seq<i64>, m: MessageView) -> IotaRoute {
    if !identified {
        if m.comm_type == CommunicationType::identification {
            IotaRoute::Identify
        } else {
            IotaRoute::NotAuthenticated
        }
    } else if m.comm_type == CommunicationType::ping {
        IotaRoute::Ping
    } else if !user_ids.contains(m.receiver) || m.comm_type == CommunicationType::message_other_iota
        || m.comm_type == CommunicationType::send_chat {
        IotaRoute::Forward
    } else if m.comm_type == CommunicationType::get_chats {
        IotaRoute::GetChats
    } else if m.comm_type == CommunicationType::change_iota_data || m.comm_type
        == CommunicationType::get_user_data || m.comm_type == CommunicationType::get_iota_data
        || m.comm_type == CommunicationType::get_register || m.comm_type
        == CommunicationType::complete_register_user || m.comm_type == CommunicationType::delete_iota {
        IotaRoute::OmegaForward
    } else {
        IotaRoute::ToClient
    }
}

/// The state of an iota connection.
pub struct IotaConnection {
    /// The handle by which the relay knows the connection.
    pub conn: u64,
    pub iota_id: i64,
    pub user_ids: Vec<i64>,
    pub identified: bool,
    pub challenged: bool,
    pub challenge: String,
    pub ping: i64,
    pub pub_key: Option<Vec<u8>>,
}

/// The text `encrypt` gives for a nonce, or the empty text where it fails.
pub open spec fn encrypted_or_empty(secret: Seq<u8>, peer: Seq<u8>, text: Seq<char>, nonce: Seq<u8>) -> Seq<char> {
    match spec_encrypt_with_nonce(secret, peer, text, nonce) {
        Ok(e) => e,
        Err(_) => Seq::empty(),
    }
}

/// The index of the entry of `user` in a ping table, searching from `i`.
pub open spec fn ping_slot(es: Seq<(i64, i64)>, user: i64, i: nat) -> Option<nat>
    decreases es.len() - i,
{
    if i >= es.len() {
        None
    } else if es[i as int].0 == user {
        Some(i)
    } else {
        ping_slot(es, user, i + 1)
    }
}

/// A ping table after recording one more client's ping: the user's entry is
/// overwritten, or a new one appended.
pub open spec fn merge_ping(es: Seq<(i64, i64)>, p: (i64, i64)) -> Seq<(i64, i64)> {
    match ping_slot(es, p.0, 0) {
        Some(i) => es.update(i as int, p),
        None => es.push(p),
    }
}

/// The pings of the clients by user: one entry per user, in the order users
/// first appear, each with the user's last ping.
pub open spec fn ping_table(ps: Seq<(i64, i64)>) -> Seq<(i64, i64)>
    decreases ps.len(),
{
    if ps.len() == 0 {
        Seq::empty()
    } else {
        merge_ping(ping_table(ps.drop_last()), ps.last())
    }
}

/// The JSON object of a ping table: user id to ping, both as text.
pub open spec fn ping_entries(es: Seq<(i64, i64)>) -> Seq<(Seq<char>, JsonView)> {
    es.map_values(|e: (i64, i64)| (decimal_int(e.0 as int), JsonView::Str(decimal_int(e.1 as int))))
}

/// The answer to an iota's ping: `pong` with the same id and the pings of the
/// iota's clients.
pub open spec fn spec_iota_pong(id: u128, client_pings: Seq<(i64, i64)>) -> MessageView {
    with_field(
        bare_reply(id, CommunicationType::pong),
        DataTypes::ping_clients,
        JsonView::Object(ping_entries(ping_table(client_pings))),
    )
}

/// The ping table of a list of client pings.
fn client_ping_table(client_pings: &Vec<(i64, i64)>) -> (r: Vec<(i64, i64)>)
    ensures
        r@ == ping_table(client_pings@),
{
    let mut table: Vec<(i64, i64)> = Vec::new();
    let mut k: usize = 0;
    while k < client_pings.len()
        invariant
            k <= client_pings.len(),
            table@ == ping_table(client_pings@.subrange(0, k as int)),
        decreases client_pings.len() - k,
    {
        let p = client_pings[k];
        proof {
            assert(client_pings@.subrange(0, k + 1).drop_last() =~= client_pings@.subrange(0, k as int));
        }
        let ghost before = table@;
        let mut j: usize = 0;
        let mut slot: Option<usize> = None;
        while j < table.len()
            invariant
                j <= table.len(),
                table@ == before,
                slot matches Some(s) ==> s < table.len() && ping_slot(before, p.0, 0) == Some(s as nat),
                slot is None ==> ping_slot(before, p.0, 0) == ping_slot(before, p.0, j as nat),
            decreases table.len() - j,
        {
            if slot.is_none() && table[j].0 == p.0 {
                slot = Some(j);
            }
            j = j + 1;
        }
        match slot {
            Some(j) => {
                table.set(j, p);
            },
            None => {
                table.push(p);
            },
        }
        proof {
            assert(client_pings@.subrange(0, k + 1).last() == p);
            assert(table@ == merge_ping(before, p));
        }
        k = k + 1;
    }
    assert(client_pings@.subrange(0, client_pings.len() as int) =~= client_pings@);
    table
}

/// The id a contact entry names under `user_id`, or 0.
pub open spec fn contact_id(c: JsonView) -> i64 {
    match c.spec_member("user_id"@).spec_as_i64() {
        Some(x) => x,
        None => 0,
    }
}

/// A contact enriched with the calls of `receiver` the contact is in: an
/// object with the contact's `user_id`, and `calls`, the call ids as text,
/// where there are any.
pub open spec fn enriched_contact(calls: Seq<CallGroupView>, receiver: u64, c: JsonView) -> JsonView {
    let uid = contact_id(c);
    let cs = contact_calls(calls, receiver, uid as u64);
    let base = seq![("user_id"@, JsonView::Number(spec_number_from_i64(uid)))];
    JsonView::Object(
        if cs.len() > 0 {
            base.push(("calls"@, JsonView::Array(call_texts(cs))))
        } else {
            base
        },
    )
}

/// Call ids as JSON text.
pub open spec fn call_texts(cs: Seq<u128>) -> Seq<JsonView> {
    cs.map_values(|id: u128| JsonView::Str(spec_uuid_string(id)))
}

/// The contacts a request for the chats carries (`[]` where it carries
/// none), enriched with their calls where the receiver is in any call and
/// the contacts are a list.
pub open spec fn enriched_contacts(calls: Seq<CallGroupView>, receiver: i64, m: MessageView) -> JsonView {
    match datum(m, DataTypes::user_ids) {
        None => JsonView::Array(Seq::empty()),
        Some(v) => if groups_of(calls, receiver as u64).len() == 0 {
            v
        } else {
            match v {
                JsonView::Array(xs) => JsonView::Array(
                    xs.map_values(|c: JsonView| enriched_contact(calls, receiver as u64, c)),
                ),
                _ => v,
            }
        },
    }
}

/// The users whose presence the receiver of a request for the chats follows:
/// the contacts' ids, where they were enriched, else none.
pub open spec fn chat_interests(calls: Seq<CallGroupView>, receiver: i64, m: MessageView) -> Seq<i64> {
    match datum(m, DataTypes::user_ids) {
        Some(JsonView::Array(xs)) => if groups_of(calls, receiver as u64).len() == 0 {
            Seq::empty()
        } else {
            xs.map_values(|c: JsonView| contact_id(c))
        },
        _ => Seq::empty(),
    }
}

/// The complaint to an iota that sends for a user it does not serve.
pub open spec fn spec_no_authority(id: u128) -> MessageView {
    with_field(
        bare_reply(id, CommunicationType::error_invalid_user_id),
        DataTypes::error_type,
        JsonView::Str("You are sending to another User without authority."@),
    )
}

/// The user ids an identification lists under `user_ids`: the value's text
/// split at commas, each piece read as an integer, those that are none left
/// out.
pub open spec fn listed_user_ids(m: MessageView) -> Seq<i64> {
    match datum(m, DataTypes::user_ids) {
        Some(v) => parsed_ids(split_chars(spec_json_display(v), ',')),
        None => Seq::empty(),
    }
}

/// The pieces that read as integers, read.
pub open spec fn parsed_ids(ps: Seq<Seq<char>>) -> Seq<i64>
    decreases ps.len(),
{
    if ps.len() == 0 {
        Seq::empty()
    } else {
        match spec_parse_i64(ps.last()) {
            Some(x) => parsed_ids(ps.drop_last()).push(x),
            None => parsed_ids(ps.drop_last()),
        }
    }
}

/// The candidates whose iota, as the authority gives it, is `iota_id`.
pub open spec fn validated_ids(cands: Seq<i64>, auth: Seq<Option<i64>>, iota_id: i64) -> Seq<i64>
    decreases cands.len(),
{
    if cands.len() == 0 {
        Seq::empty()
    } else if auth[cands.len() - 1] == Some(iota_id) {
        validated_ids(cands.drop_last(), auth, iota_id).push(cands.last())
    } else {
        validated_ids(cands.drop_last(), auth, iota_id)
    }
}

/// The accepted ids as text: each preceded by a comma.
pub open spec fn accepted_text(ids: Seq<i64>) -> Seq<char>
    decreases ids.len(),
{
    if ids.len() == 0 {
        Seq::empty()
    } else {
        accepted_text(ids.drop_last()) + seq![','] + decimal_int(ids.last() as int)
    }
}

/// The answer to an accepted identification.
pub open spec fn spec_identification_response(id: u128, ids: Seq<i64>) -> MessageView {
    with_field(
        with_field(
            bare_reply(id, CommunicationType::identification_response),
            DataTypes::accepted_ids,
            JsonView::Str(accepted_text(ids)),
        ),
        DataTypes::accepted,
        JsonView::Str(decimal_nat(ids.len())),
    )
}

/// What answering a request for the chats does.
pub struct ChatsAnswer {
    /// The request for the states of the contacts to omega, then the enriched
    /// request to the receiver's clients.
    pub out: Vec<Outgoing>,
    /// The client (the receiver's first on this iota) whose followed users
    /// become the contacts, with those users.
    pub interested: Option<(u64, Vec<i64>)>,
}

/// What omega's answer about an identifying iota does to the connection
/// (`before` to `after`) and sends, with `challenge` the challenge to send.
/// Where the key it carries does not load, the answer is
/// `error_invalid_omikron_id` and nothing changes. Otherwise the iota's id,
/// key and challenge are kept, it counts as identified, and it is sent the
/// relay's public key with the challenge encrypted for it (the empty text
/// where encryption fails).
pub open spec fn omega_key_outcome(
    before: IotaConnection,
    after: IotaConnection,
    iota_id: i64,
    reply: MessageView,
    server_secret: Seq<u8>,
    server_public_b64: Seq<char>,
    challenge: Seq<char>,
    out: Seq<OutgoingView>,
) -> bool {
    let key = spec_b64_decode(encode_utf8(str_datum(reply, DataTypes::public_key)))->0;
    &&& after.conn == before.conn
    &&& after.user_ids == before.user_ids
    &&& after.challenged == before.challenged
    &&& after.ping == before.ping
    &&& if !spec_public_key_accepts(key) {
        &&& after == before
        &&& out == seq![OutgoingView::Reply(bare_reply(reply.id, CommunicationType::error_invalid_omikron_id))]
    } else {
        &&& after.identified
        &&& after.iota_id == iota_id
        &&& after.challenge@ == challenge
        &&& after.pub_key matches Some(k) && k@ == key
        &&& exists|nonce: Seq<u8>|
            nonce.len() == 12 && out == seq![
                OutgoingView::Reply(
                    spec_challenge_message(
                        reply.id,
                        server_public_b64,
                        encrypted_or_empty(server_secret, key, challenge, nonce),
                    ),
                ),
            ]
    }
}

impl IotaConnection {
    /// A fresh connection: not identified, no challenge, ping 0, no key, no
    /// users.
    pub fn new(conn: u64) -> (r: IotaConnection)
        ensures
            r.conn == conn,
            r.iota_id == 0,
            r.user_ids@ == Seq::<i64>::empty(),
            !r.identified,
            !r.challenged,
            r.challenge@ == Seq::<char>::empty(),
            r.ping == 0,
            r.pub_key is None,
    {
        IotaConnection {
            conn,
            iota_id: 0,
            user_ids: Vec::new(),
            identified: false,
            challenged: false,
            challenge: String::new(),
            ping: 0,
            pub_key: None,
        }
    }

    /// The iota's id.
    pub fn get_iota_id(&self) -> (r: i64)
        ensures
            r == self.iota_id,
    {
        self.iota_id
    }

    /// The users the iota serves.
    pub fn get_user_ids(&self) -> (r: Vec<i64>)
        ensures
            r@ == self.user_ids@,
    {
        let mut out: Vec<i64> = Vec::new();
        let mut i: usize = 0;
        while i < self.user_ids.len()
            invariant
                i <= self.user_ids.len(),
                out@ == self.user_ids@.subrange(0, i as int),
            decreases self.user_ids.len() - i,
        {
            out.push(self.user_ids[i]);
            i = i + 1;
        }
        assert(self.user_ids@.subrange(0, i as int) =~= self.user_ids@);
        out
    }

    /// Whether the iota is identified.
    pub fn is_identified(&self) -> (r: bool)
        ensures
            r == self.identified,
    {
        self.identified
    }

    /// The iota's last reported ping.
    pub fn get_ping(&self) -> (r: i64)
        ensures
            r == self.ping,
    {
        self.ping
    }

    /// The iota's public key, where it has one that X448 accepts.
    pub fn get_public_key(&self) -> (r: Option<Vec<u8>>)
        ensures
            r is Some == (self.pub_key matches Some(k) && spec_public_key_accepts(k@)),
            r matches Some(k) ==> k@ == self.pub_key->0@,
    {
        match &self.pub_key {
            Some(k) => {
                if crate::primitives::public_key_accepts(k.as_slice()) {
                    Some(k.clone())
                } else {
                    None
                }
            },
            None => None,
        }
    }

    /// Whether the iota serves a user.
    fn serves(&self, user_id: i64) -> (r: bool)
        ensures
            r == self.user_ids@.contains(user_id),
    {
        let mut i: usize = 0;
        while i < self.user_ids.len()
            invariant
                i <= self.user_ids.len(),
                forall|j: int| 0 <= j < i ==> self.user_ids@[j] != user_id,
            decreases self.user_ids.len() - i,
        {
            if self.user_ids[i] == user_id {
                return true;
            }
            i = i + 1;
        }
        false
    }

    /// Where a message goes (see `spec_iota_route`).
    pub fn route(&self, cv: &CommunicationValue) -> (r: IotaRoute)
        ensures
            r == spec_iota_route(self.identified, self.user_ids@, cv@),
    {
        let t = cv.get_type();
        if !self.identified {
            if t == CommunicationType::identification {
                IotaRoute::Identify
            } else {
                IotaRoute::NotAuthenticated
            }
        } else if t == CommunicationType::ping {
            IotaRoute::Ping
        } else if !self.serves(cv.get_receiver()) || t == CommunicationType::message_other_iota || t
            == CommunicationType::send_chat {
            IotaRoute::Forward
        } else if t == CommunicationType::get_chats {
            IotaRoute::GetChats
        } else if t == CommunicationType::change_iota_data || t == CommunicationType::get_user_data
            || t == CommunicationType::get_iota_data || t == CommunicationType::get_register || t
            == CommunicationType::complete_register_user || t == CommunicationType::delete_iota {
            IotaRoute::OmegaForward
        } else {
            IotaRoute::ToClient
        }
    }

    /// The refusal of a message from an unidentified iota.
    pub fn not_authenticated(&self, cv: &CommunicationValue) -> (r: Vec<Outgoing>)
        ensures
            all_wf(r@),
            outgoing_views(r@) == seq![
                OutgoingView::Reply(bare_reply(cv@.id, CommunicationType::error_not_authenticated)),
                OutgoingView::Close,
            ],
    {
        reject(cv.get_id(), CommunicationType::error_not_authenticated)
    }

    /// The identification of an iota: the id it claims (under `iota_id`, 0
    /// where there is none) and the id under which omega's answer about it is
    /// awaited.
    pub fn begin_identification(&self, cv: &CommunicationValue) -> (r: (i64, u128))
        ensures
            r == (int_datum(cv@, DataTypes::iota_id), cv@.id),
    {
        (crate::client_connection::int_of(cv, DataTypes::iota_id), cv.get_id())
    }

    /// Omega's answer about an identifying iota, with the challenge to send.
    /// Where the key it carries does not load, the answer is
    /// `error_invalid_omikron_id` and nothing changes. Otherwise the iota's
    /// id, key and challenge are kept, it counts as identified, and it is sent
    /// the relay's public key with the challenge encrypted for it (the empty
    /// text where encryption fails).
    pub fn accept_omega_key(
        &mut self,
        iota_id: i64,
        reply: &CommunicationValue,
        server_secret: &[u8],
        server_public_b64: &str,
        challenge: String,
    ) -> (r: Vec<Outgoing>)
        requires
            server_secret.len() == 56,
            spec_b64_decode(encode_utf8(str_datum(reply@, DataTypes::public_key))) is Some,
        ensures
            all_wf(r@),
            omega_key_outcome(
                *old(self),
                *final(self),
                iota_id,
                reply@,
                server_secret@,
                server_public_b64@,
                challenge@,
                outgoing_views(r@),
            ),
    {
        let text = crate::client_requests::str_datum_of(reply, DataTypes::public_key);
        let key = match load_public_key(text) {
            Some(k) => k,
            None => {
                return reply_only(error_reply(reply.get_id(), CommunicationType::error_invalid_omikron_id));
            },
        };
        let result = encrypt(server_secret, key.as_slice(), challenge.as_str());
        let ghost nonce = choose|nonce: Seq<u8>|
            nonce.len() == 12 && crate::crypto_helper::text_result(result) == spec_encrypt_with_nonce(
                server_secret@,
                key@,
                challenge@,
                nonce,
            );
        let encrypted = match result {
            Ok(e) => e,
            Err(_) => String::new(),
        };
        assert(encrypted@ == encrypted_or_empty(server_secret@, key@, challenge@, nonce));
        self.iota_id = iota_id;
        self.pub_key = Some(key);
        self.challenge = challenge;
        self.identified = true;
        let msg = CommunicationValue::new(CommunicationType::challenge).with_id(reply.get_id()).add_data_str(
            DataTypes::public_key,
            String::from_str(server_public_b64),
        ).add_data_str(DataTypes::challenge, encrypted);
        reply_only(msg)
    }

    /// `accept_omega_key` with a fresh random challenge; `None`, nothing
    /// changed, where omega's key is not Base64 text.
    pub fn try_accept_omega_key(
        &mut self,
        iota_id: i64,
        reply: &CommunicationValue,
        server_secret: &[u8],
        server_public_b64: &str,
    ) -> (r: Option<Vec<Outgoing>>)
        requires
            server_secret.len() == 56,
        ensures
            r is None <==> spec_b64_decode(encode_utf8(str_datum(reply@, DataTypes::public_key))) is None,
            r is None ==> *final(self) == *old(self),
            r matches Some(os) ==> all_wf(os@) && omega_key_outcome(
                *old(self),
                *final(self),
                iota_id,
                reply@,
                server_secret@,
                server_public_b64@,
                final(self).challenge@,
                outgoing_views(os@),
            ),
            r is Some && spec_public_key_accepts(
                spec_b64_decode(encode_utf8(str_datum(reply@, DataTypes::public_key)))->0,
            ) ==> alphanumeric_text(final(self).challenge@, CHALLENGE_LEN as nat),
    {
        let text = crate::client_requests::str_datum_of(reply, DataTypes::public_key);
        if b64_decode(text.as_bytes()).is_none() {
            return None;
        }
        let challenge = random_challenge(CHALLENGE_LEN);
        Some(self.accept_omega_key(iota_id, reply, server_secret, server_public_b64, challenge))
    }

    /// The iota's answer to the challenge, compared as text: a right one
    /// marks the connection challenged and is answered
    /// `identification_response`; a wrong one is `error_invalid_challenge`,
    /// closing the connection.
    pub fn check_challenge_response(&mut self, cv: &CommunicationValue) -> (r: Vec<Outgoing>)
        ensures
            all_wf(r@),
            final(self).identified == old(self).identified,
            final(self).iota_id == old(self).iota_id,
            final(self).user_ids == old(self).user_ids,
            str_datum(cv@, DataTypes::challenge) == old(self).challenge@ ==> final(self).challenged
                && outgoing_views(r@) == seq![
                OutgoingView::Reply(bare_reply(cv@.id, CommunicationType::identification_response)),
            ],
            str_datum(cv@, DataTypes::challenge) != old(self).challenge@ ==> *final(self) == *old(self)
                && outgoing_views(r@) == seq![
                OutgoingView::Reply(bare_reply(cv@.id, CommunicationType::error_invalid_challenge)),
                OutgoingView::Close,
            ],
    {
        let answer = crate::client_requests::str_datum_of(cv, DataTypes::challenge);
        if str_equal(answer, self.challenge.as_str()) {
            self.challenged = true;
            reply_only(error_reply(cv.get_id(), CommunicationType::identification_response))
        } else {
            reject(cv.get_id(), CommunicationType::error_invalid_challenge)
        }
    }

    /// Takes the ping an iota reports and answers it with its clients' pings
    /// (given as user id and ping, in the order of the clients).
    pub fn handle_ping(&mut self, cv: &CommunicationValue, client_pings: &Vec<(i64, i64)>) -> (r: CommunicationValue)
        ensures
            final(self).ping == reported_ping(cv@, old(self).ping),
            final(self).iota_id == old(self).iota_id,
            final(self).user_ids == old(self).user_ids,
            final(self).identified == old(self).identified,
            final(self).challenged == old(self).challenged,
            r.wf(),
            r@ == spec_iota_pong(cv@.id, client_pings@),
    {
        match cv.get_data(DataTypes::last_ping) {
            Some(v) => {
                let text = display(v);
                match parse_i64(text.as_str()) {
                    Some(x) => {
                        self.ping = x;
                    },
                    None => {},
                }
            },
            None => {},
        }
        let table = client_ping_table(client_pings);
        let mut entries: Vec<(String, Json)> = Vec::new();
        let mut i: usize = 0;
        while i < table.len()
            invariant
                i <= table.len(),
                entry_views(entries@) == ping_entries(table@.subrange(0, i as int)),
            decreases table.len() - i,
        {
            let e = (i64_to_string(table[i].0), Json::Str(i64_to_string(table[i].1)));
            proof {
                lemma_entry_views_push(entries@, e);
                assert(ping_entries(table@.subrange(0, i + 1)) =~= ping_entries(table@.subrange(0, i as int)).push(
                    (decimal_int(table@[i as int].0 as int), JsonView::Str(decimal_int(table@[i as int].1 as int))),
                ));
            }
            entries.push(e);
            i = i + 1;
        }
        assert(table@.subrange(0, table.len() as int) =~= table@);
        CommunicationValue::new(CommunicationType::pong).with_id(cv.get_id()).add_data(
            DataTypes::ping_clients,
            Json::Object(entries),
        )
    }

    /// A message for another iota. Where the iota serves the sender, it goes
    /// to the iota serving the receiver, or, where none does, the sender is
    /// answered `error_no_iota`; otherwise the iota is told it has no
    /// authority.
    pub fn forward_message(&self, cv: CommunicationValue, rhos: &RhoManager) -> (r: Vec<Outgoing>)
        requires
            cv.wf(),
        ensures
            all_wf(r@),
            self.user_ids@.contains(cv@.sender) ==> outgoing_views(r@) == (match user_rho_index_from(rhos@, cv@.receiver, 0) {
                Some(i) => seq![OutgoingView::ToIota(rhos@[i as int].iota_id, cv@)],
                None => seq![OutgoingView::Reply(MessageView { sender: cv@.sender, ..bare_reply(cv@.id, CommunicationType::error_no_iota) })],
            }),
            !self.user_ids@.contains(cv@.sender) ==> r@.len() == 1 && (outgoing_views(r@)[0] matches OutgoingView::Reply(m)
                && m == spec_no_authority(m.id)),
    {
        if self.serves(cv.get_sender()) {
            match rhos.get_rho_con_for_user(cv.get_receiver()) {
                Some(iota) => {
                    let ghost mv = cv@;
                    let mut out: Vec<Outgoing> = Vec::new();
                    out.push(Outgoing::ToIota(iota, cv));
                    assert(outgoing_views(out@) =~= seq![OutgoingView::ToIota(iota, mv)]);
                    out
                },
                None => {
                    let e = error_reply(cv.get_id(), CommunicationType::error_no_iota).with_sender(cv.get_sender());
                    reply_only(e)
                },
            }
        } else {
            proof {
                reveal_strlit("You are sending to another User without authority.");
            }
            let e = CommunicationValue::new(CommunicationType::error_invalid_user_id).add_data_str(
                DataTypes::error_type,
                String::from_str("You are sending to another User without authority."),
            );
            let r = reply_only(e);
            assert(outgoing_views(r@).len() == r@.len());
            r
        }
    }

    /// A message for a client of this iota: sent, with the iota as sender, to
    /// the clients of its receiver on the iota's rho connection (nowhere where
    /// the iota has none).
    pub fn forward_to_client(&self, cv: CommunicationValue, rhos: &RhoManager) -> (r: Vec<Outgoing>)
        ensures
            cv.wf() ==> all_wf(r@),
            outgoing_views(r@) == (match rho_index_from(rhos@, self.iota_id, 0) {
                Some(i) => seq![OutgoingView::ToClients(
                    conns_of(rhos@[i as int].clients, cv@.receiver),
                    MessageView { sender: self.iota_id, ..cv@ },
                )],
                None => Seq::<OutgoingView>::empty(),
            }),
    {
        let mut out: Vec<Outgoing> = Vec::new();
        match rhos.get_rho_by_iota(self.iota_id) {
            Some(rho) => {
                let m = cv.with_sender(self.iota_id);
                let conns = rho.message_to_client(&m);
                let ghost mv = m@;
                let ghost cs = conns@;
                out.push(Outgoing::ToClients(conns, m));
                assert(outgoing_views(out@) =~= seq![OutgoingView::ToClients(cs, mv)]);
            },
            None => {
                assert(outgoing_views(out@) =~= Seq::<OutgoingView>::empty());
            },
        }
        out
    }

    /// A request that omega answers: sent with the iota as its sender; omega's
    /// answer, awaited under the request's id, goes back to the iota.
    pub fn omega_request(&self, cv: CommunicationValue) -> (r: CommunicationValue)
        ensures
            r@ == (MessageView { sender: self.iota_id, ..cv@ }),
    {
        cv.with_sender(self.iota_id)
    }

    /// A request for the chats of a user (its receiver): the contacts it
    /// carries are enriched with the calls the user shares with them (see
    /// `enriched_contacts`), omega is asked for the contacts' states, the
    /// user's first client follows the contacts, and the enriched request
    /// goes to the user's clients.
    pub fn get_chats(&self, cv: CommunicationValue, calls: &CallRegistry, rhos: &RhoManager) -> (r: ChatsAnswer)
        requires
            cv.wf(),
        ensures
            all_wf(r.out@),
            ({
                let receiver = cv@.receiver;
                let interests = chat_interests(calls@, receiver, cv@);
                let forward = MessageView {
                    sender: self.iota_id,
                    ..with_field(cv@, DataTypes::user_ids, enriched_contacts(calls@, receiver, cv@))
                };
                &&& r.out@.len() >= 1
                &&& outgoing_views(r.out@)[0] matches OutgoingView::ToOmega(q) && q.comm_type == CommunicationType::get_states
                    && q.sender == 0 && q.receiver == 0 && q.data == seq![(DataTypes::user_ids, JsonView::Array(id_numbers(interests)))]
                &&& match rho_index_from(rhos@, self.iota_id, 0) {
                    Some(i) => {
                        &&& outgoing_views(r.out@).subrange(1, r.out@.len() as int) == seq![
                            OutgoingView::ToClients(conns_of(rhos@[i as int].clients, receiver), forward),
                        ]
                        &&& match first_conn_of(rhos@[i as int].clients, receiver) {
                            Some(c) => r.interested matches Some(x) && x.0 == c && x.1@ == interests,
                            None => r.interested is None,
                        }
                    },
                    None => r.out@.len() == 1 && r.interested is None,
                }
            }),
    {
        let receiver = cv.get_receiver();
        let groups = calls.get_call_groups(receiver as u64);
        let mut interested: Vec<i64> = Vec::new();
        let enriched: Json = match cv.get_data(DataTypes::user_ids) {
            None => Json::Array(Vec::new()),
            Some(v) => {
                if groups.len() == 0 {
                    v.deep_clone()
                } else {
                    match v {
                        Json::Array(xs) => {
                            let mut out: Vec<Json> = Vec::new();
                            let mut i: usize = 0;
                            while i < xs.len()
                                invariant
                                    i <= xs.len(),
                                    json_views(out@) == json_views(xs@).subrange(0, i as int).map_values(
                                        |c: JsonView| enriched_contact(calls@, receiver as u64, c),
                                    ),
                                    interested@ == json_views(xs@).subrange(0, i as int).map_values(
                                        |c: JsonView| contact_id(c),
                                    ),
                                decreases xs.len() - i,
                            {
                                proof {
                                    lemma_json_views_index(xs@, i as int);
                                }
                                let c = &xs[i];
                                let uid: i64 = match c.get("user_id") {
                                    Some(u) => match u.as_i64() {
                                        Some(x) => x,
                                        None => 0,
                                    },
                                    None => 0,
                                };
                                proof {
                                    reveal_strlit("user_id");
                                    assert(c@.spec_member("user_id"@) == (match c@.spec_get("user_id"@) {
                                        Some(v) => v,
                                        None => JsonView::Null,
                                    }));
                                    assert(uid == contact_id(c@));
                                }
                                let item = contact_object(calls, receiver as u64, uid);
                                proof {
                                    lemma_json_views_push(out@, item);
                                    let ys = json_views(xs@);
                                    assert(ys.subrange(0, i + 1) =~= ys.subrange(0, i as int).push(c@));
                                    assert(ys.subrange(0, i + 1).map_values(|c: JsonView| enriched_contact(calls@, receiver as u64, c))
                                        =~= ys.subrange(0, i as int).map_values(|c: JsonView| enriched_contact(calls@, receiver as u64, c)).push(
                                            enriched_contact(calls@, receiver as u64, c@),
                                        ));
                                    assert(ys.subrange(0, i + 1).map_values(|c: JsonView| contact_id(c))
                                        =~= ys.subrange(0, i as int).map_values(|c: JsonView| contact_id(c)).push(contact_id(c@)));
                                }
                                out.push(item);
                                interested.push(uid);
                                i = i + 1;
                            }
                            proof {
                                lemma_json_views_len(xs@);
                                assert(json_views(xs@).subrange(0, xs@.len() as int) =~= json_views(xs@));
                            }
                            Json::Array(out)
                        },
                        _ => v.deep_clone(),
                    }
                }
            },
        };
        assert(interested@ == chat_interests(calls@, receiver, cv@));
        assert(enriched@ == enriched_contacts(calls@, receiver, cv@));
        let states = OmegaConnection::user_states(receiver, &interested);
        let ghost sv = states@;
        let mut out: Vec<Outgoing> = Vec::new();
        out.push(Outgoing::ToOmega(states));
        assert(outgoing_views(out@) =~= seq![OutgoingView::ToOmega(sv)]);
        let mut follow: Option<(u64, Vec<i64>)> = None;
        match rhos.get_rho_by_iota(self.iota_id) {
            Some(rho) => {
                match rho.set_interested(receiver) {
                    Some(c) => {
                        follow = Some((c, interested));
                    },
                    None => {},
                }
                let m = cv.add_data(DataTypes::user_ids, enriched).with_sender(self.iota_id);
                let conns = rho.message_to_client(&m);
                let ghost mv = m@;
                let ghost cs = conns@;
                out.push(Outgoing::ToClients(conns, m));
                assert(outgoing_views(out@).subrange(1, out@.len() as int) =~= seq![OutgoingView::ToClients(cs, mv)]);
            },
            None => {},
        }
        ChatsAnswer { out, interested: follow }
    }

    /// Closing the connection of an identified iota that has a rho
    /// connection: its clients are closed, the rho connection leaves the
    /// registry, and omega is told the iota went away (see
    /// `RhoManager::close_iota_connection`).
    pub fn handle_close(&self, rhos: &mut RhoManager) -> (r: Vec<Outgoing>)
        requires
            old(rhos).wf(),
        ensures
            final(rhos).wf(),
            all_wf(r@),
            (self.identified && rho_index_from(old(rhos)@, self.iota_id, 0) is Some) ==> ({
                let i = rho_index_from(old(rhos)@, self.iota_id, 0)->0 as int;
                &&& final(rhos)@ == old(rhos)@.remove(i)
                &&& r@.len() == 2
                &&& outgoing_views(r@)[0] == OutgoingView::CloseClients(
                    old(rhos)@[i].clients.map_values(|c: ClientRef| c.conn),
                )
                &&& outgoing_views(r@)[1] matches OutgoingView::ToOmega(m) && is_notice(
                    m,
                    CommunicationType::iota_disconnected,
                    DataTypes::iota_id,
                    self.iota_id,
                )
            }),
            !(self.identified && rho_index_from(old(rhos)@, self.iota_id, 0) is Some) ==> final(rhos)@
                == old(rhos)@ && r@.len() == 0,
    {
        let mut out: Vec<Outgoing> = Vec::new();
        if !self.identified {
            return out;
        }
        match rhos.close_iota_connection(self.iota_id) {
            Some(x) => {
                let (conns, notice) = x;
                let ghost cs = conns@;
                let ghost nv = notice@;
                out.push(Outgoing::CloseClients(conns));
                out.push(Outgoing::ToOmega(notice));
                assert(outgoing_views(out@) =~= seq![OutgoingView::CloseClients(cs), OutgoingView::ToOmega(nv)]);
                out
            },
            None => out,
        }
    }

    /// An iota's identification with the users it serves: `Err`, the answer
    /// `error`, where it names no iota (0); else the iota and the user ids it
    /// lists (see `listed_user_ids`), each to be checked with the authority.
    pub fn identification_request(&self, cv: &CommunicationValue) -> (r: Result<(i64, Vec<i64>), CommunicationValue>)
        ensures
            int_datum(cv@, DataTypes::iota_id) == 0 ==> (r matches Err(e) && e.wf() && e@ == bare_reply(cv@.id, CommunicationType::error)),
            int_datum(cv@, DataTypes::iota_id) != 0 ==> (r matches Ok(x) && x.0 == int_datum(cv@, DataTypes::iota_id)
                && x.1@ == listed_user_ids(cv@)),
    {
        let iota_id = crate::client_connection::int_of(cv, DataTypes::iota_id);
        if iota_id == 0 {
            return Err(error_reply(cv.get_id(), CommunicationType::error));
        }
        let mut ids: Vec<i64> = Vec::new();
        match cv.get_data(DataTypes::user_ids) {
            Some(v) => {
                let text = display(v);
                let pieces = split_text(text.as_str(), ',');
                let ghost ps = pieces@.map_values(|p: String| p@);
                let mut i: usize = 0;
                while i < pieces.len()
                    invariant
                        i <= pieces.len(),
                        ps == pieces@.map_values(|p: String| p@),
                        ids@ == parsed_ids(ps.subrange(0, i as int)),
                    decreases pieces.len() - i,
                {
                    proof {
                        assert(ps.subrange(0, i + 1).drop_last() =~= ps.subrange(0, i as int));
                        assert(ps.subrange(0, i + 1).last() == pieces@[i as int]@);
                    }
                    match parse_i64(pieces[i].as_str()) {
                        Some(x) => {
                            ids.push(x);
                        },
                        None => {},
                    }
                    i = i + 1;
                }
                assert(ps.subrange(0, pieces.len() as int) =~= ps);
            },
            None => {},
        }
        Ok((iota_id, ids))
    }

    /// Accepting an identification, with the iota the authority gives for
    /// each candidate user (`None` where it gives none): the candidates it
    /// places on this iota are kept as the iota's users, the iota counts as
    /// identified, an earlier connection of the same iota is closed (its
    /// clients closed, omega told), the new rho connection is registered, and
    /// the iota is answered with the accepted ids and their number.
    pub fn accept_identification(
        &mut self,
        id: u128,
        iota_id: i64,
        candidates: &Vec<i64>,
        auth_iotas: &Vec<Option<i64>>,
        rhos: &mut RhoManager,
    ) -> (r: Vec<Outgoing>)
        requires
            old(rhos).wf(),
            candidates.len() == auth_iotas.len(),
        ensures
            final(rhos).wf(),
            all_wf(r@),
            ({
                let ids = validated_ids(candidates@, auth_iotas@, iota_id);
                let fresh = RhoView { iota_id, user_ids: ids, clients: Seq::empty() };
                &&& final(self).iota_id == iota_id
                &&& final(self).user_ids@ == ids
                &&& final(self).identified
                &&& final(self).conn == old(self).conn
                &&& match rho_index_from(old(rhos)@, iota_id, 0) {
                    Some(i) => {
                        &&& final(rhos)@ == old(rhos)@.remove(i as int).push(fresh)
                        &&& r@.len() == 3
                        &&& outgoing_views(r@)[0] == OutgoingView::CloseClients(
                            old(rhos)@[i as int].clients.map_values(|c: ClientRef| c.conn),
                        )
                        &&& outgoing_views(r@)[1] matches OutgoingView::ToOmega(m) && is_notice(
                            m,
                            CommunicationType::iota_disconnected,
                            DataTypes::iota_id,
                            iota_id,
                        )
                        &&& outgoing_views(r@)[2] == OutgoingView::Reply(spec_identification_response(id, ids))
                    },
                    None => {
                        &&& final(rhos)@ == old(rhos)@.push(fresh)
                        &&& outgoing_views(r@) == seq![OutgoingView::Reply(spec_identification_response(id, ids))]
                    },
                }
            }),
    {
        let mut ids: Vec<i64> = Vec::new();
        let mut i: usize = 0;
        while i < candidates.len()
            invariant
                i <= candidates.len(),
                candidates.len() == auth_iotas.len(),
                ids@ == validated_ids(candidates@.subrange(0, i as int), auth_iotas@, iota_id),
            decreases candidates.len() - i,
        {
            proof {
                assert(candidates@.subrange(0, i + 1).drop_last() =~= candidates@.subrange(0, i as int));
            }
            let ok = match auth_iotas[i] {
                Some(a) => a == iota_id,
                None => false,
            };
            if ok {
                ids.push(candidates[i]);
            }
            i = i + 1;
        }
        assert(candidates@.subrange(0, candidates.len() as int) =~= candidates@);
        let mut text: Vec<char> = Vec::new();
        let mut j: usize = 0;
        while j < ids.len()
            invariant
                j <= ids.len(),
                text@ == accepted_text(ids@.subrange(0, j as int)),
            decreases ids.len() - j,
        {
            proof {
                assert(ids@.subrange(0, j + 1).drop_last() =~= ids@.subrange(0, j as int));
            }
            let ghost before = text@;
            text.push(',');
            let digits = chars_of(i64_to_string(ids[j]).as_str());
            let mut k: usize = 0;
            while k < digits.len()
                invariant
                    k <= digits.len(),
                    text@ == before + seq![','] + digits@.subrange(0, k as int),
                decreases digits.len() - k,
            {
                text.push(digits[k]);
                proof {
                    assert(before + seq![','] + digits@.subrange(0, k + 1) =~= (before + seq![','] + digits@.subrange(0, k as int)).push(digits@[k as int]));
                }
                k = k + 1;
            }
            assert(digits@.subrange(0, digits.len() as int) =~= digits@);
            j = j + 1;
        }
        assert(ids@.subrange(0, ids.len() as int) =~= ids@);
        let count = ids.len();
        let ghost idv = ids@;
        self.iota_id = iota_id;
        self.user_ids = copy_i64s(&ids);
        self.identified = true;
        let mut out: Vec<Outgoing> = Vec::new();
        proof {
            lemma_rho_index_from(rhos@, iota_id, 0);
        }
        match rhos.close_iota_connection(iota_id) {
            Some(x) => {
                let (conns, notice) = x;
                out.push(Outgoing::CloseClients(conns));
                out.push(Outgoing::ToOmega(notice));
            },
            None => {},
        }
        let ghost mid = rhos@;
        proof {
            lemma_rho_index_from(mid, iota_id, 0);
        }
        rhos.add_rho(RhoConnection::new(iota_id, ids));
        let response = error_reply(id, CommunicationType::identification_response).add_data_str(
            DataTypes::accepted_ids,
            string_from_chars(&text),
        ).add_data_str(DataTypes::accepted, u64_to_string(count as u64));
        let ghost rv = response@;
        let ghost before_out = out@;
        out.push(Outgoing::Reply(response));
        assert(outgoing_views(out@) =~= outgoing_views(before_out).push(OutgoingView::Reply(rv)));
        out
    }
}

/// A copy of a list of ids.
fn copy_i64s(v: &Vec<i64>) -> (r: Vec<i64>)
    ensures
        r@ == v@,
{
    let mut out: Vec<i64> = Vec::new();
    let mut i: usize = 0;
    while i < v.len()
        invariant
            i <= v.len(),
            out@ == v@.subrange(0, i as int),
        decreases v.len() - i,
    {
        out.push(v[i]);
        i = i + 1;
    }
    assert(v@.subrange(0, v.len() as int) =~= v@);
    out
}

/// The enriched object of one contact.
fn contact_object(calls: &CallRegistry, receiver: u64, uid: i64) -> (r: Json)
    ensures
        ({
            let cs = contact_calls(calls@, receiver, uid as u64);
            let base = seq![("user_id"@, JsonView::Number(spec_number_from_i64(uid)))];
            r@ == JsonView::Object(
                if cs.len() > 0 {
                    base.push(("calls"@, JsonView::Array(call_texts(cs))))
                } else {
                    base
                },
            )
        }),
{
    let cs = calls.contact_calls(receiver, uid as u64);
    let mut entries: Vec<(String, Json)> = Vec::new();
    let e0 = (String::from_str("user_id"), Json::Number(JsonNumber::from_i64(uid)));
    proof {
        reveal_strlit("user_id");
        reveal_strlit("calls");
        lemma_entry_views_push(entries@, e0);
    }
    entries.push(e0);
    assert(entry_views(entries@) =~= seq![("user_id"@, JsonView::Number(spec_number_from_i64(uid)))]);
    if cs.len() > 0 {
        let mut texts: Vec<Json> = Vec::new();
        let mut i: usize = 0;
        while i < cs.len()
            invariant
                i <= cs.len(),
                json_views(texts@) == call_texts(cs@.subrange(0, i as int)),
            decreases cs.len() - i,
        {
            let t = Json::Str(uuid_to_string(cs[i]));
            proof {
                lemma_json_views_push(texts@, t);
                assert(call_texts(cs@.subrange(0, i + 1)) =~= call_texts(cs@.subrange(0, i as int)).push(
                    JsonView::Str(spec_uuid_string(cs@[i as int])),
                ));
            }
            texts.push(t);
            i = i + 1;
        }
        assert(cs@.subrange(0, cs.len() as int) =~= cs@);
        let e1 = (String::from_str("calls"), Json::Array(texts));
        proof {
            lemma_entry_views_push(entries@, e1);
        }
        entries.push(e1);
    }
    Json::Object(entries)
}

} // verus!
