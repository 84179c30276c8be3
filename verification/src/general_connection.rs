//! A connection before it knows what it is: the identification of an iota
//! (omega supplies its key, it is sent an encrypted challenge), the check of
//! its answer, and the hand-over to the connection of its kind.

use vstd::prelude::*;
use vstd::utf8::encode_utf8;

use crate::client_connection::{reply_view, spec_challenge_message, str_datum, CHALLENGE_LEN};
use crate::communication::{with_field, CommunicationValue, MessageView};
use crate::crypto_helper::{load_public_key, spec_clamp};
use crate::crypto_util::{spec_seal, DataFormat, SecurePayload};
use crate::json::{spec_number_from_i64, Json, JsonNumber, JsonView};
use crate::outgoing::{bare_reply, datum};
use crate::primitives::{alphanumeric_text, b64_decode, random_challenge, spec_b64_decode, spec_b64_encode, spec_public_key_accepts};
use crate::rho::{spec_add_rho, RhoConnection, RhoManager, RhoView};
use crate::wire::{CommunicationType, DataTypes};

verus! {

/// What a connection turns out to be.
#[derive(Debug, Clone, Copy, PartialEq, Eq, Structural)]
pub enum ConnectionKind {
    Client,
    Iota,
    AnonymousClient,
    Phi,
}

/// The state of a connection not yet handed over.
pub struct GeneralConnection {
    pub identified: bool,
    pub challenged: bool,
    pub challenge: String,
    pub connection_kind: Option<ConnectionKind>,
    pub id: u64,
    pub pub_key: Option<Vec<u8>>,
}

/// What a message to a connection not yet handed over is for.
#[derive(Debug, Clone, Copy, PartialEq, Eq, Structural)]
pub enum GeneralStep {
    Identification,
    ChallengeResponse,
    Migrate,
}

/// The step a message takes, by the connection's state.
pub open spec fn spec_general_step(identified: bool, challenged: bool) -> GeneralStep {
    if !identified {
        GeneralStep::Identification
    } else if !challenged {
        GeneralStep::ChallengeResponse
    } else {
        GeneralStep::Migrate
    }
}

/// The iota an identification names: the integer under `iota_id`.
pub open spec fn identified_iota(m: MessageView) -> Option<i64> {
    match datum(m, DataTypes::iota_id) {
        Some(v) => v.spec_as_i64(),
        None => None,
    }
}

/// The request to omega for the data (the key) of an iota.
pub open spec fn spec_iota_key_request(id: u128, iota_id: i64) -> MessageView {
    with_field(
        bare_reply(id, CommunicationType::get_iota_data),
        DataTypes::iota_id,
        JsonView::Number(spec_number_from_i64(iota_id)),
    )
}

/// The acceptance of a right answer to the challenge.
pub open spec fn spec_accepted(id: u128) -> MessageView {
    with_field(
        bare_reply(id, CommunicationType::identification_response),
        DataTypes::accepted,
        JsonView::Bool(true),
    )
}

/// The message a result stands for, where there is one.
pub open spec fn message_view(r: Option<CommunicationValue>) -> Option<MessageView> {
    match r {
        Some(c) => Some(c@),
        None => None,
    }
}

/// What omega's answer about the iota (`None` where it did not answer) does
/// to the connection (`before` to `after`) and gives, with `challenge` the
/// challenge to send. Nothing happens where there is no answer or its key
/// does not load. Otherwise the key and challenge are kept, the connection
/// counts as identified, and the challenge message (the relay's public key
/// and the challenge sealed for the iota) is given.
pub open spec fn general_key_outcome(
    before: GeneralConnection,
    after: GeneralConnection,
    reply: Option<MessageView>,
    server_secret: Seq<u8>,
    server_public_b64: Seq<char>,
    challenge: Seq<char>,
    r: Option<MessageView>,
) -> bool {
    &&& after.id == before.id
    &&& after.connection_kind == before.connection_kind
    &&& after.challenged == before.challenged
    &&& match reply {
        None => r is None && after == before,
        Some(m) => {
            let key = spec_b64_decode(encode_utf8(str_datum(m, DataTypes::public_key)))->0;
            if !spec_public_key_accepts(key) {
                r is None && after == before
            } else {
                &&& after.identified
                &&& after.challenge@ == challenge
                &&& after.pub_key matches Some(k) && k@ == key
                &&& r matches Some(c) && c == spec_challenge_message(
                    c.id,
                    server_public_b64,
                    spec_b64_encode(spec_seal(spec_clamp(server_secret), key, encode_utf8(challenge))->0),
                )
            }
        },
    }
}

/// One step of a connection not yet handed over, as its flags see it: in
/// the identification step the connection may become identified and is not
/// challenged by it; in the challenge step it stays as identified as it was
/// and may become challenged.
pub open spec fn general_step_taken(before: GeneralConnection, after: GeneralConnection) -> bool {
    match spec_general_step(before.identified, before.challenged) {
        GeneralStep::Identification => {
            &&& after.challenged == before.challenged
            &&& (after.identified == before.identified || after.identified)
        },
        GeneralStep::ChallengeResponse => {
            &&& after.identified == before.identified
            &&& (after.challenged == before.challenged || after.challenged)
        },
        GeneralStep::Migrate => after.identified == before.identified && after.challenged == before.challenged,
    }
}

impl GeneralConnection {
    /// A connection that knows nothing yet.
    pub fn new() -> (r: GeneralConnection)
        ensures
            !r.identified,
            !r.challenged,
            r.challenge@ == Seq::<char>::empty(),
            r.connection_kind is None,
            r.id == 0,
            r.pub_key is None,
    {
        GeneralConnection {
            identified: false,
            challenged: false,
            challenge: String::new(),
            connection_kind: None,
            id: 0,
            pub_key: None,
        }
    }

    /// The step a message takes (see `spec_general_step`).
    pub fn step(&self) -> (r: GeneralStep)
        ensures
            r == spec_general_step(self.identified, self.challenged),
    {
        if !self.identified {
            GeneralStep::Identification
        } else if !self.challenged {
            GeneralStep::ChallengeResponse
        } else {
            GeneralStep::Migrate
        }
    }

    /// An identification of an iota: its id is taken and the connection
    /// counts as an iota's, and the request for its key returned, to be sent
    /// to omega. Anything else, or one that names no iota, is ignored.
    pub fn handle_identification(&mut self, cv: &CommunicationValue) -> (r: Option<CommunicationValue>)
        ensures
            spec_general_step(old(self).identified, old(self).challenged) == GeneralStep::Identification
                ==> general_step_taken(*old(self), *final(self)),
            final(self).identified == old(self).identified,
            final(self).challenged == old(self).challenged,
            final(self).challenge == old(self).challenge,
            final(self).pub_key == old(self).pub_key,
            (cv@.comm_type == CommunicationType::identification && identified_iota(cv@) is Some) ==> ({
                let iota = identified_iota(cv@)->0;
                &&& final(self).id == iota as u64
                &&& final(self).connection_kind == Some(ConnectionKind::Iota)
                &&& r matches Some(q) && q.wf() && q@ == spec_iota_key_request(q@.id, iota)
            }),
            !(cv@.comm_type == CommunicationType::identification && identified_iota(cv@) is Some) ==> r is None
                && final(self).id == old(self).id && final(self).connection_kind == old(self).connection_kind,
    {
        if !cv.is_type(CommunicationType::identification) {
            return None;
        }
        let iota: i64 = match cv.get_data(DataTypes::iota_id) {
            Some(v) => match v.as_i64() {
                Some(x) => x,
                None => {
                    return None;
                },
            },
            None => {
                return None;
            },
        };
        self.id = iota as u64;
        self.connection_kind = Some(ConnectionKind::Iota);
        Some(
            CommunicationValue::new(CommunicationType::get_iota_data).add_data(
                DataTypes::iota_id,
                Json::Number(JsonNumber::from_i64(iota)),
            ),
        )
    }

    /// Omega's answer about the iota (`None` where it did not answer), with
    /// the challenge to send. Nothing happens where there is no answer or its
    /// key does not load. Otherwise the key and challenge are kept, the
    /// connection counts as identified, and the challenge message (the
    /// relay's public key and the challenge sealed for the iota) is returned.
    pub fn accept_key(
        &mut self,
        reply: Option<&CommunicationValue>,
        server_secret: &[u8],
        server_public_b64: &str,
        challenge: String,
    ) -> (r: Option<CommunicationValue>)
        requires
            server_secret.len() == 56,
            encode_utf8(challenge@).len() <= 68719476736,
            match reply {
                Some(m) => spec_b64_decode(encode_utf8(str_datum(m@, DataTypes::public_key))) is Some,
                None => true,
            },
        ensures
            spec_general_step(old(self).identified, old(self).challenged) == GeneralStep::Identification
                ==> general_step_taken(*old(self), *final(self)),
            r matches Some(c) ==> c.wf(),
            general_key_outcome(
                *old(self),
                *final(self),
                reply_view(reply),
                server_secret@,
                server_public_b64@,
                challenge@,
                message_view(r),
            ),
    {
        let m = match reply {
            Some(m) => m,
            None => {
                return None;
            },
        };
        let text = crate::client_requests::str_datum_of(m, DataTypes::public_key);
        let key = match load_public_key(text) {
            Some(k) => k,
            None => {
                return None;
            },
        };
        let payload = match SecurePayload::new(challenge.as_str().as_bytes(), DataFormat::Raw, server_secret) {
            Ok(p) => p,
            Err(_) => {
                proof {
                    assert(false);
                }
                return None;
            },
        };
        let sealed = match payload.encrypt_x448(key.as_slice()) {
            Ok(p) => p,
            Err(_) => {
                proof {
                    assert(false);
                }
                return None;
            },
        };
        let encrypted = sealed.export(DataFormat::Base64);
        self.pub_key = Some(key);
        self.challenge = challenge;
        self.identified = true;
        let msg = CommunicationValue::new(CommunicationType::challenge).add_data_str(
            DataTypes::public_key,
            String::from_str(server_public_b64),
        ).add_data_str(DataTypes::challenge, encrypted);
        Some(msg)
    }

    /// `accept_key` with a fresh random challenge; `None`, nothing changed,
    /// where omega's key is not Base64 text.
    pub fn try_accept_key(
        &mut self,
        reply: Option<&CommunicationValue>,
        server_secret: &[u8],
        server_public_b64: &str,
    ) -> (r: Option<Option<CommunicationValue>>)
        requires
            server_secret.len() == 56,
        ensures
            r is None <==> (reply matches Some(m) && spec_b64_decode(
                encode_utf8(str_datum(m@, DataTypes::public_key)),
            ) is None),
            r is None ==> *final(self) == *old(self),
            spec_general_step(old(self).identified, old(self).challenged) == GeneralStep::Identification
                ==> general_step_taken(*old(self), *final(self)),
            r matches Some(x) ==> (x matches Some(c) ==> c.wf()) && general_key_outcome(
                *old(self),
                *final(self),
                reply_view(reply),
                server_secret@,
                server_public_b64@,
                final(self).challenge@,
                message_view(x),
            ),
            r matches Some(x) && x is Some ==> alphanumeric_text(final(self).challenge@, CHALLENGE_LEN as nat),
    {
        match reply {
            Some(m) => {
                let text = crate::client_requests::str_datum_of(m, DataTypes::public_key);
                if b64_decode(text.as_bytes()).is_none() {
                    return None;
                }
            },
            None => {},
        }
        let challenge = random_challenge(CHALLENGE_LEN);
        proof {
            assert(vstd::utf8::is_ascii_chars(challenge@));
            vstd::utf8::is_ascii_chars_encode_utf8(challenge@);
        }
        Some(self.accept_key(reply, server_secret, server_public_b64, challenge))
    }

    /// The answer to the challenge: where it is a `challenge_response` whose
    /// `challenge` is the challenge's text, the connection counts as
    /// challenged and the acceptance is returned (the connection is then
    /// handed over); anything else is ignored.
    pub fn handle_challenge_response(&mut self, cv: &CommunicationValue) -> (r: Option<CommunicationValue>)
        ensures
            spec_general_step(old(self).identified, old(self).challenged) == GeneralStep::ChallengeResponse
                ==> general_step_taken(*old(self), *final(self)),
            final(self).identified == old(self).identified,
            final(self).id == old(self).id,
            final(self).connection_kind == old(self).connection_kind,
            ({
                let ok = cv@.comm_type == CommunicationType::challenge_response && datum(cv@, DataTypes::challenge)
                    == Some(JsonView::Str(old(self).challenge@));
                &&& ok ==> final(self).challenged && (r matches Some(a) && a.wf() && a@ == spec_accepted(cv@.id))
                &&& !ok ==> r is None && *final(self) == *old(self)
            }),
    {
        if !cv.is_type(CommunicationType::challenge_response) {
            return None;
        }
        let answer: &str = match cv.get_data(DataTypes::challenge) {
            Some(v) => match v {
                Json::Str(s) => s.as_str(),
                _ => {
                    return None;
                },
            },
            None => {
                return None;
            },
        };
        if !crate::text::str_equal(answer, self.challenge.as_str()) {
            return None;
        }
        self.challenged = true;
        Some(
            CommunicationValue::new(CommunicationType::identification_response).with_id(cv.get_id()).add_data(
                DataTypes::accepted,
                Json::Bool(true),
            ),
        )
    }

    /// The hand-over: `None` where the kind is not known yet; else the kind
    /// and id, an iota's rho connection (without users) being registered.
    pub fn migrate(&self, rhos: &mut RhoManager) -> (r: Option<(ConnectionKind, u64)>)
        requires
            old(rhos).wf(),
        ensures
            final(rhos).wf(),
            r == (match self.connection_kind {
                Some(k) => Some((k, self.id)),
                None => None,
            }),
            self.connection_kind == Some(ConnectionKind::Iota) ==> final(rhos)@ == spec_add_rho(
                old(rhos)@,
                RhoView { iota_id: self.id as i64, user_ids: Seq::empty(), clients: Seq::empty() },
            ),
            self.connection_kind != Some(ConnectionKind::Iota) ==> final(rhos)@ == old(rhos)@,
    {
        match self.connection_kind {
            Some(k) => {
                match k {
                    ConnectionKind::Iota => {
                        rhos.add_rho(RhoConnection::new(self.id as i64, Vec::new()));
                        proof {
                            assert(Seq::<i64>::empty() =~= Seq::<i64>::empty());
                        }
                    },
                    _ => {},
                }
                Some((k, self.id))
            },
            None => None,
        }
    }
}

} // verus!
