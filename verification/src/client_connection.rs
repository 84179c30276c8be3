//! The state and decisions of a client connection: the identification
//! handshake (omega supplies the user's key, the client answers an encrypted
//! challenge), then the routing of its messages to calls, omega and its iota.

use vstd::prelude::*;
use vstd::utf8::{decode_utf8, encode_utf8, valid_utf8};

use crate::communication::{with_field, CommunicationValue, MessageView};
use crate::crypto_helper::{spec_clamp, try_load_public_key};
use crate::crypto_util::{spec_seal, DataFormat, SecurePayload};
use crate::json::{display, spec_json_display, spec_number_from_i64, Json, JsonNumber, JsonView};
use crate::omega::{is_notice, spec_presence_kind};
use crate::outgoing::{
    all_wf, bare_reply, datum, error_reply, outgoing_views, reject, reply_only, Outgoing,
    OutgoingView,
};
use crate::primitives::{
    alphanumeric_text, b64_decode, random_challenge, spec_b64_decode, spec_b64_encode, spec_public_key_accepts,
    string_from_utf8,
};
use crate::rho::{rho_index_from, user_rho_index_from, ClientRef, RhoManager, RhoView};
use crate::text::{parse_i64, spec_parse_i64, str_equal};
use crate::user::UserStatus;
use crate::wire::{CommunicationType, DataTypes};

verus! {

/// The number of characters in a challenge.
pub const CHALLENGE_LEN: usize = 32;

/// Where a client's message goes.
#[derive(Debug, Clone, Copy, PartialEq, Eq, Structural)]
pub enum ClientRoute {
    Ping,
    Identify,
    ChallengeResponse,
    NotAuthenticated,
    ClientChanged,
    CallInvite,
    CallToken,
    CallDisconnectUser,
    CallTimeoutUser,
    CallSetAnonymousJoining,
    /// Answered from the guests where the user is one, else asked of omega.
    UserData,
    OmegaForward,
    IotaForward,
}

/// The route of a message of kind `t` in a connection's state: pings first,
/// then the handshake, then (identified) the message's own handler.
pub open spec fn spec_client_route(identified: bool, challenged: bool, t: CommunicationType) -> ClientRoute {
    if t == CommunicationType::ping {
        ClientRoute::Ping
    } else if !identified && t == CommunicationType::identification {
        ClientRoute::Identify
    } else if identified && !challenged && t == CommunicationType::challenge_response {
        ClientRoute::ChallengeResponse
    } else if !identified {
        ClientRoute::NotAuthenticated
    } else if t == CommunicationType::client_changed {
        ClientRoute::ClientChanged
    } else if t == CommunicationType::call_invite {
        ClientRoute::CallInvite
    } else if t == CommunicationType::call_token {
        ClientRoute::CallToken
    } else if t == CommunicationType::call_disconnect_user {
        ClientRoute::CallDisconnectUser
    } else if t == CommunicationType::call_timeout_user {
        ClientRoute::CallTimeoutUser
    } else if t == CommunicationType::call_set_anonymous_joining {
        ClientRoute::CallSetAnonymousJoining
    } else if t == CommunicationType::get_user_data {
        ClientRoute::UserData
    } else if t == CommunicationType::change_user_data || t == CommunicationType::read_notification
        || t == CommunicationType::get_notifications || t == CommunicationType::get_iota_data
        || t == CommunicationType::delete_user {
        ClientRoute::OmegaForward
    } else {
        ClientRoute::IotaForward
    }
}

/// The state of a client connection.
pub struct ClientConnection {
    /// The handle by which the relay knows the connection.
    pub conn: u64,
    pub user_id: i64,
    pub identified: bool,
    pub challenged: bool,
    pub challenge: String,
    pub ping: i64,
    pub pub_key: Option<Vec<u8>>,
    /// The iota whose rho connection the client joined.
    pub iota_id: Option<i64>,
    pub interested_users: Vec<i64>,
    pub is_open: bool,
}

/// The ping a message reports under `last_ping` (its text read as an
/// integer), or `old` where it reports none.
pub open spec fn reported_ping(m: MessageView, old: i64) -> i64 {
    match datum(m, DataTypes::last_ping) {
        Some(v) => match spec_parse_i64(spec_json_display(v)) {
            Some(x) => x,
            None => old,
        },
        None => old,
    }
}

/// The answer to a ping: `pong` with the same id, carrying the iota's ping
/// (-1 where the client has no iota).
pub open spec fn spec_client_pong(id: u128, iota_ping: Option<i64>) -> MessageView {
    let p = match iota_ping {
        Some(x) => x,
        None => -1i64,
    };
    with_field(
        bare_reply(id, CommunicationType::pong),
        DataTypes::ping_iota,
        JsonView::Number(spec_number_from_i64(p)),
    )
}

/// The integer a message carries under `key`, or 0.
pub open spec fn int_datum(m: MessageView, key: DataTypes) -> i64 {
    match datum(m, key) {
        Some(v) => match v.spec_as_i64() {
            Some(x) => x,
            None => 0,
        },
        None => 0,
    }
}

/// The text a message carries under `key` where it is a string, or the empty text.
pub open spec fn str_datum(m: MessageView, key: DataTypes) -> Seq<char> {
    match datum(m, key) {
        Some(v) => match v.spec_as_str() {
            Some(s) => s,
            None => Seq::empty(),
        },
        None => Seq::empty(),
    }
}

/// The request to omega for the data (the public key) of a user.
pub open spec fn spec_user_key_request(id: u128, user_id: i64) -> MessageView {
    with_field(
        bare_reply(id, CommunicationType::get_user_data),
        DataTypes::user_id,
        JsonView::Number(spec_number_from_i64(user_id)),
    )
}

/// The challenge sent to a client: the relay's public key and the encrypted
/// challenge, both as text.
pub open spec fn spec_challenge_message(id: u128, server_public_b64: Seq<char>, encrypted: Seq<char>) -> MessageView {
    with_field(
        with_field(
            bare_reply(id, CommunicationType::challenge),
            DataTypes::public_key,
            JsonView::Str(server_public_b64),
        ),
        DataTypes::challenge,
        JsonView::Str(encrypted),
    )
}

/// The integer under `key`, where present, read from its number; 0 otherwise.
pub(crate) fn int_of(cv: &CommunicationValue, key: DataTypes) -> (r: i64)
    ensures
        r == int_datum(cv@, key),
{
    match cv.get_data(key) {
        Some(v) => match v.as_i64() {
            Some(x) => x,
            None => 0,
        },
        None => 0,
    }
}

/// The text under `key` where it is a string, or the empty text.
fn str_of(cv: &CommunicationValue, key: DataTypes) -> (r: &str)
    ensures
        r@ == str_datum(cv@, key),
{
    proof {
        reveal_strlit("");
        assert(""@ =~= Seq::<char>::empty());
    }
    match cv.get_data(key) {
        Some(v) => match v.as_str() {
            Some(s) => s,
            None => "",
        },
        None => "",
    }
}

/// The message a reply stands for, where there is one.
pub open spec fn reply_view(reply: Option<&CommunicationValue>) -> Option<MessageView> {
    match reply {
        Some(m) => Some(m@),
        None => None,
    }
}

/// What the second step of identification comes to: the user's key where
/// the connection becomes identified, and what is sent. No answer from omega,
/// or one of another kind, is `error_internal`; a key that does not load is
/// `error_invalid_public_key`, each closing the connection. Otherwise the
/// client is sent the relay's public key and the challenge sealed for the
/// user's key.
pub open spec fn spec_identification_outcome(
    id: u128,
    reply: Option<MessageView>,
    server_secret: Seq<u8>,
    server_public_b64: Seq<char>,
    challenge: Seq<char>,
) -> (Option<Seq<u8>>, Seq<OutgoingView>) {
    let internal = seq![
        OutgoingView::Reply(bare_reply(id, CommunicationType::error_internal)),
        OutgoingView::Close,
    ];
    match reply {
        None => (None, internal),
        Some(m) => if m.comm_type != CommunicationType::get_user_data {
            (None, internal)
        } else {
            let key = spec_b64_decode(encode_utf8(str_datum(m, DataTypes::public_key)))->0;
            if !spec_public_key_accepts(key) {
                (
                    None,
                    seq![
                        OutgoingView::Reply(bare_reply(id, CommunicationType::error_invalid_public_key)),
                        OutgoingView::Close,
                    ],
                )
            } else {
                (
                    Some(key),
                    seq![
                        OutgoingView::Reply(
                            spec_challenge_message(
                                id,
                                server_public_b64,
                                spec_b64_encode(
                                    spec_seal(spec_clamp(server_secret), key, encode_utf8(challenge))->0,
                                ),
                            ),
                        ),
                    ],
                )
            }
        },
    }
}

/// What checking a client's answer to the challenge does to the connection
/// (`before` to `after`) and to the rho connections (`rs_before` to
/// `rs_after`), and what it sends. A wrong answer changes nothing and is
/// `error_not_authenticated`, closing the connection. A right one marks the
/// connection challenged; where no iota serves the user the answer is
/// `error_no_iota`, else the client joins the iota's rho connection (the iota
/// and omega are told) and is answered `identification_response`.
pub open spec fn challenge_outcome(
    before: ClientConnection,
    after: ClientConnection,
    rs_before: Seq<RhoView>,
    rs_after: Seq<RhoView>,
    m: MessageView,
    out: Seq<OutgoingView>,
) -> bool {
    &&& after.user_id == before.user_id
    &&& after.identified == before.identified
    &&& after.is_open == before.is_open
    &&& ClientConnection::answered_challenge(m) != before.challenge@ ==> {
        &&& after == before
        &&& rs_after == rs_before
        &&& out == seq![
            OutgoingView::Reply(bare_reply(m.id, CommunicationType::error_not_authenticated)),
            OutgoingView::Close,
        ]
    }
    &&& ClientConnection::answered_challenge(m) == before.challenge@ ==> {
        &&& after.challenged
        &&& match user_rho_index_from(rs_before, before.user_id, 0) {
            None => {
                &&& rs_after == rs_before
                &&& after.iota_id == before.iota_id
                &&& out == seq![OutgoingView::Reply(bare_reply(m.id, CommunicationType::error_no_iota))]
            },
            Some(i) => {
                let iota = rs_before[i as int].iota_id;
                let me = ClientRef { conn: before.conn, user_id: before.user_id };
                let j = rho_index_from(rs_before, iota, 0)->0 as int;
                &&& after.iota_id == Some(iota)
                &&& rs_after == rs_before.update(
                    j,
                    RhoView { clients: rs_before[j].clients.push(me), ..rs_before[j] },
                )
                &&& out.len() == 3
                &&& out[0] matches OutgoingView::ToIota(to, n) && to == iota && is_notice(
                    n,
                    CommunicationType::client_connected,
                    DataTypes::user_id,
                    me.user_id,
                )
                &&& out[1] matches OutgoingView::ToOmega(n) && is_notice(
                    n,
                    spec_presence_kind(UserStatus::user_online),
                    DataTypes::user_id,
                    me.user_id,
                )
                &&& out[2] == OutgoingView::Reply(
                    bare_reply(m.id, CommunicationType::identification_response),
                )
            },
        }
    }
}

impl ClientConnection {
    /// A fresh connection: not identified, no challenge, ping -1, no key, no
    /// iota, no interests, open.
    pub fn new(conn: u64) -> (r: ClientConnection)
        ensures
            r.conn == conn,
            r.user_id == 0,
            !r.identified,
            !r.challenged,
            r.challenge@ == Seq::<char>::empty(),
            r.ping == -1,
            r.pub_key is None,
            r.iota_id is None,
            r.interested_users@ == Seq::<i64>::empty(),
            r.is_open,
    {
        ClientConnection {
            conn,
            user_id: 0,
            identified: false,
            challenged: false,
            challenge: String::new(),
            ping: -1,
            pub_key: None,
            iota_id: None,
            interested_users: Vec::new(),
            is_open: true,
        }
    }

    /// The user's id.
    pub fn get_user_id(&self) -> (r: i64)
        ensures
            r == self.user_id,
    {
        self.user_id
    }

    /// Whether the connection is identified.
    pub fn is_identified(&self) -> (r: bool)
        ensures
            r == self.identified,
    {
        self.identified
    }

    /// The client's last reported ping.
    pub fn get_ping(&self) -> (r: i64)
        ensures
            r == self.ping,
    {
        self.ping
    }

    /// The iota whose rho connection the client joined.
    pub fn get_rho_connection(&self) -> (r: Option<i64>)
        ensures
            r == self.iota_id,
    {
        self.iota_id
    }

    /// Where a message goes (see `spec_client_route`).
    pub fn route(&self, cv: &CommunicationValue) -> (r: ClientRoute)
        ensures
            r == spec_client_route(self.identified, self.challenged, cv@.comm_type),
    {
        let t = cv.get_type();
        if t == CommunicationType::ping {
            ClientRoute::Ping
        } else if !self.identified && t == CommunicationType::identification {
            ClientRoute::Identify
        } else if self.identified && !self.challenged && t == CommunicationType::challenge_response {
            ClientRoute::ChallengeResponse
        } else if !self.identified {
            ClientRoute::NotAuthenticated
        } else if t == CommunicationType::client_changed {
            ClientRoute::ClientChanged
        } else if t == CommunicationType::call_invite {
            ClientRoute::CallInvite
        } else if t == CommunicationType::call_token {
            ClientRoute::CallToken
        } else if t == CommunicationType::call_disconnect_user {
            ClientRoute::CallDisconnectUser
        } else if t == CommunicationType::call_timeout_user {
            ClientRoute::CallTimeoutUser
        } else if t == CommunicationType::call_set_anonymous_joining {
            ClientRoute::CallSetAnonymousJoining
        } else if t == CommunicationType::get_user_data {
            ClientRoute::UserData
        } else if t == CommunicationType::change_user_data || t
            == CommunicationType::read_notification || t == CommunicationType::get_notifications
            || t == CommunicationType::get_iota_data || t == CommunicationType::delete_user {
            ClientRoute::OmegaForward
        } else {
            ClientRoute::IotaForward
        }
    }

    /// The refusal of a message from a client that has not identified
    /// itself: `error_not_authenticated`, closing the connection.
    pub fn not_authenticated(&self, cv: &CommunicationValue) -> (r: Vec<Outgoing>)
        ensures
            all_wf(r@),
            outgoing_views(r@) == seq![
                OutgoingView::Reply(bare_reply(cv@.id, CommunicationType::error_not_authenticated)),
                OutgoingView::Close,
            ],
    {
        reject(cv.get_id(), CommunicationType::error_not_authenticated)
    }

    /// Whether messages may still be sent to the client.
    pub fn can_send(&self) -> (r: bool)
        ensures
            r == self.is_open,
    {
        self.is_open
    }

    /// Closes the connection: it no longer sends. `true` where it was open,
    /// its socket then to be closed; closing it again does nothing.
    pub fn close(&mut self) -> (r: bool)
        ensures
            r == old(self).is_open,
            *final(self) == (ClientConnection { is_open: false, ..*old(self) }),
    {
        if !self.is_open {
            return false;
        }
        self.is_open = false;
        true
    }

    /// Takes the ping a message reports and answers it.
    pub fn handle_ping(&mut self, cv: &CommunicationValue, iota_ping: Option<i64>) -> (r:
        CommunicationValue)
        ensures
            final(self).ping == reported_ping(cv@, old(self).ping),
            final(self).user_id == old(self).user_id,
            final(self).identified == old(self).identified,
            final(self).challenged == old(self).challenged,
            final(self).iota_id == old(self).iota_id,
            final(self).is_open == old(self).is_open,
            r.wf(),
            r@ == spec_client_pong(cv@.id, iota_ping),
    {
        match cv.get_data(DataTypes::last_ping) {
            Some(v) => {
                let text = display(v);
                match parse_i64(text.as_str()) {
                    Some(x) => {
                        self.ping = x;
                    },
                    None => {},
                }
            },
            None => {},
        }
        let p: i64 = match iota_ping {
            Some(x) => x,
            None => -1,
        };
        CommunicationValue::new(CommunicationType::pong).with_id(cv.get_id()).add_data(
            DataTypes::ping_iota,
            Json::Number(JsonNumber::from_i64(p)),
        )
    }

    /// The first step of identification: a message without a user id (or with
    /// 0) is answered `error_invalid_data` and the connection closed; else the
    /// user id is taken and the request for the user's key returned, to be
    /// sent to omega.
    pub fn begin_identification(&mut self, cv: &CommunicationValue) -> (r: Result<
        CommunicationValue,
        Vec<Outgoing>,
    >)
        ensures
            int_datum(cv@, DataTypes::user_id) == 0 ==> (final(self).user_id == old(self).user_id
                && (r matches Err(os) && all_wf(os@) && outgoing_views(os@) == seq![
                OutgoingView::Reply(bare_reply(cv@.id, CommunicationType::error_invalid_data)),
                OutgoingView::Close,
            ])),
            int_datum(cv@, DataTypes::user_id) != 0 ==> (final(self).user_id == int_datum(
                cv@,
                DataTypes::user_id,
            ) && (r matches Ok(req) && req.wf() && req@ == spec_user_key_request(
                cv@.id,
                int_datum(cv@, DataTypes::user_id),
            ))),
            final(self).identified == old(self).identified,
            final(self).challenged == old(self).challenged,
            final(self).iota_id == old(self).iota_id,
            final(self).is_open == old(self).is_open,
    {
        let user_id = int_of(cv, DataTypes::user_id);
        if user_id == 0 {
            return Err(reject(cv.get_id(), CommunicationType::error_invalid_data));
        }
        self.user_id = user_id;
        Ok(
            CommunicationValue::new(CommunicationType::get_user_data).with_id(cv.get_id()).add_data(
                DataTypes::user_id,
                Json::Number(JsonNumber::from_i64(user_id)),
            ),
        )
    }

    /// The second step of identification, with omega's answer (`None` where
    /// omega did not answer in time). A missing answer or one of another kind
    /// is `error_internal`, a key that does not load `error_invalid_public_key`,
    /// each closing the connection. Otherwise the key and `challenge` are kept,
    /// the connection counts as identified, and the client is sent the relay's
    /// public key with the challenge encrypted for it.
    pub fn finish_identification(
        &mut self,
        id: u128,
        reply: Option<&CommunicationValue>,
        server_secret: &[u8],
        server_public_b64: &str,
        challenge: String,
    ) -> (r: Vec<Outgoing>)
        requires
            server_secret.len() == 56,
            encode_utf8(challenge@).len() <= 68719476736,
            match reply {
                Some(m) => m@.comm_type == CommunicationType::get_user_data ==> spec_b64_decode(
                    encode_utf8(str_datum(m@, DataTypes::public_key)),
                ) is Some,
                None => true,
            },
        ensures
            all_wf(r@),
            final(self).user_id == old(self).user_id,
            final(self).challenged == old(self).challenged,
            final(self).iota_id == old(self).iota_id,
            final(self).is_open == old(self).is_open,
            final(self).ping == old(self).ping,
            ({
                let (key, out) = spec_identification_outcome(
                    id,
                    reply_view(reply),
                    server_secret@,
                    server_public_b64@,
                    challenge@,
                );
                &&& outgoing_views(r@) == out
                &&& key is None ==> *final(self) == *old(self)
                &&& key matches Some(k) ==> {
                    &&& final(self).identified
                    &&& final(self).challenge@ == challenge@
                    &&& final(self).pub_key matches Some(p) && p@ == k
                }
            }),
    {
        let m = match reply {
            Some(m) => m,
            None => {
                return reject(id, CommunicationType::error_internal);
            },
        };
        if !m.is_type(CommunicationType::get_user_data) {
            return reject(id, CommunicationType::error_internal);
        }
        let base64_pub = str_of(m, DataTypes::public_key);
        let pub_key = match try_load_public_key(base64_pub) {
            Some(k) => k,
            None => {
                return reject(id, CommunicationType::error_invalid_public_key);
            },
        };
        let payload = match SecurePayload::new(challenge.as_str().as_bytes(), DataFormat::Raw, server_secret) {
            Ok(p) => p,
            Err(_) => {
                proof {
                    assert(false);
                }
                return Vec::new();
            },
        };
        let sealed = match payload.encrypt_x448(pub_key.as_slice()) {
            Ok(p) => p,
            Err(_) => {
                proof {
                    assert(false);
                }
                return Vec::new();
            },
        };
        let encrypted = sealed.export(DataFormat::Base64);
        self.pub_key = Some(pub_key);
        self.challenge = challenge;
        self.identified = true;
        let msg = CommunicationValue::new(CommunicationType::challenge).with_id(id).add_data_str(
            DataTypes::public_key,
            String::from_str(server_public_b64),
        ).add_data_str(DataTypes::challenge, encrypted);
        reply_only(msg)
    }

    /// The second step of identification with a fresh random challenge (see
    /// `finish_identification`). `None`, the state unchanged, where omega's
    /// key is not Base64 text.
    pub fn accept_user_key(
        &mut self,
        id: u128,
        reply: Option<&CommunicationValue>,
        server_secret: &[u8],
        server_public_b64: &str,
    ) -> (r: Option<Vec<Outgoing>>)
        requires
            server_secret.len() == 56,
        ensures
            r is None <==> (reply matches Some(m) && m@.comm_type == CommunicationType::get_user_data
                && spec_b64_decode(encode_utf8(str_datum(m@, DataTypes::public_key))) is None),
            r is None ==> *final(self) == *old(self),
            r matches Some(os) ==> {
                let (key, out) = spec_identification_outcome(
                    id,
                    reply_view(reply),
                    server_secret@,
                    server_public_b64@,
                    final(self).challenge@,
                );
                &&& all_wf(os@)
                &&& outgoing_views(os@) == out
                &&& final(self).user_id == old(self).user_id
                &&& final(self).challenged == old(self).challenged
                &&& final(self).iota_id == old(self).iota_id
                &&& final(self).is_open == old(self).is_open
                &&& key is None ==> *final(self) == *old(self)
                &&& key matches Some(k) ==> {
                    &&& final(self).identified
                    &&& final(self).pub_key matches Some(p) && p@ == k
                    &&& alphanumeric_text(final(self).challenge@, CHALLENGE_LEN as nat)
                }
            },
    {
        match reply {
            Some(m) => {
                if m.is_type(CommunicationType::get_user_data) {
                    let text = str_of(m, DataTypes::public_key);
                    if b64_decode(text.as_bytes()).is_none() {
                        return None;
                    }
                }
            },
            None => {},
        }
        let challenge = random_challenge(CHALLENGE_LEN);
        proof {
            assert(vstd::utf8::is_ascii_chars(challenge@));
            vstd::utf8::is_ascii_chars_encode_utf8(challenge@);
        }
        Some(self.finish_identification(id, reply, server_secret, server_public_b64, challenge))
    }

    /// The client's answer to the challenge, decoded: the Base64 text under
    /// `challenge` read as UTF-8.
    pub open spec fn answered_challenge(m: MessageView) -> Seq<char> {
        decode_utf8(spec_b64_decode(encode_utf8(str_datum(m, DataTypes::challenge)))->0)
    }

    /// Checks the client's answer to the challenge. A wrong answer is
    /// `error_not_authenticated`, closing the connection. A right one marks
    /// the connection challenged; where no iota serves the user the answer is
    /// `error_no_iota`, else the client joins the iota's rho connection (the
    /// iota and omega are told) and is answered `identification_response`.
    pub fn check_challenge_response(&mut self, cv: &CommunicationValue, rhos: &mut RhoManager) -> (r:
        Vec<Outgoing>)
        requires
            old(rhos).wf(),
            spec_b64_decode(encode_utf8(str_datum(cv@, DataTypes::challenge))) matches Some(b)
                && valid_utf8(b),
        ensures
            final(rhos).wf(),
            all_wf(r@),
            challenge_outcome(
                *old(self),
                *final(self),
                old(rhos)@,
                final(rhos)@,
                cv@,
                outgoing_views(r@),
            ),
    {
        let text = str_of(cv, DataTypes::challenge);
        let bytes = match b64_decode(text.as_bytes()) {
            Some(b) => b,
            None => {
                proof {
                    assert(false);
                }
                return Vec::new();
            },
        };
        let answer = match string_from_utf8(bytes) {
            Some(s) => s,
            None => {
                proof {
                    assert(false);
                }
                return Vec::new();
            },
        };
        if !str_equal(answer.as_str(), self.challenge.as_str()) {
            return reject(cv.get_id(), CommunicationType::error_not_authenticated);
        }
        self.challenged = true;
        let user_id = self.user_id;
        proof {
            crate::rho::lemma_user_rho_index_from(rhos@, user_id, 0);
        }
        let iota = match rhos.get_rho_con_for_user(user_id) {
            Some(iota) => iota,
            None => {
                return reply_only(error_reply(cv.get_id(), CommunicationType::error_no_iota));
            },
        };
        proof {
            crate::rho::lemma_rho_index_from(rhos@, iota, 0);
        }
        let me = ClientRef { conn: self.conn, user_id };
        let msgs = match rhos.add_client_connection(iota, me) {
            Some(m) => m,
            None => {
                proof {
                    assert(false);
                }
                return Vec::new();
            },
        };
        self.iota_id = Some(iota);
        let (to_iota, to_omega) = msgs;
        let ghost v0 = to_iota@;
        let ghost v1 = to_omega@;
        let response = error_reply(cv.get_id(), CommunicationType::identification_response);
        let ghost v2 = response@;
        let mut out: Vec<Outgoing> = Vec::new();
        out.push(Outgoing::ToIota(iota, to_iota));
        out.push(Outgoing::ToOmega(to_omega));
        out.push(Outgoing::Reply(response));
        assert(outgoing_views(out@) =~= seq![
            OutgoingView::ToIota(iota, v0),
            OutgoingView::ToOmega(v1),
            OutgoingView::Reply(v2),
        ]);
        out
    }

    /// `check_challenge_response` where the answer is Base64 of UTF-8 text;
    /// `None`, nothing changed, where it is not.
    pub fn answer_challenge(&mut self, cv: &CommunicationValue, rhos: &mut RhoManager) -> (r: Option<
        Vec<Outgoing>,
    >)
        requires
            old(rhos).wf(),
        ensures
            final(rhos).wf(),
            r is None <==> !(spec_b64_decode(encode_utf8(str_datum(cv@, DataTypes::challenge)))
                matches Some(b) && valid_utf8(b)),
            r is None ==> *final(self) == *old(self) && final(rhos)@ == old(rhos)@,
            r matches Some(os) ==> all_wf(os@) && challenge_outcome(
                *old(self),
                *final(self),
                old(rhos)@,
                final(rhos)@,
                cv@,
                outgoing_views(os@),
            ),
    {
        let text = str_of(cv, DataTypes::challenge);
        match b64_decode(text.as_bytes()) {
            Some(b) => {
                if string_from_utf8(b).is_none() {
                    return None;
                }
            },
            None => {
                return None;
            },
        }
        Some(self.check_challenge_response(cv, rhos))
    }
}

} // verus!
