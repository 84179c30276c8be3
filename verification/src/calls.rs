//! Call groups: who is in which call, who may administer it, invitations,
//! anonymous joining, and the LiveKit access tokens of the callers.

use vstd::prelude::*;

use crate::ids::{spec_uuid_parse, spec_uuid_string, uuid_parse, uuid_to_string};
use crate::text::{decimal_int, decimal_nat, i64_to_string, u64_to_string};

verus! {

/// A participant of a call.
#[derive(Debug, Clone, Copy, PartialEq, Eq, Structural)]
pub struct Caller {
    pub user_id: u64,
    pub call_id: u128,
    pub has_admin: bool,
    /// Milliseconds since the epoch until which the caller is timed out.
    pub timeout: i64,
}

/// What a call token grants: the identity, the room, admin rights, joining
/// the room, updating one's own metadata, and the metadata text.
pub struct TokenRequest {
    pub identity: String,
    pub room: String,
    pub room_admin: bool,
    pub room_join: bool,
    pub can_update_own_metadata: bool,
    pub metadata: String,
}

/// The grants a LiveKit token carries in its claims, as livekit's
/// `TokenVerifier::verify` reads them back (expiry aside): the identity, the
/// room, room admin, room join, updating one's own metadata, and the
/// metadata.
pub uninterp spec fn spec_token_grants(token: Seq<char>) -> Option<(Seq<char>, Seq<char>, bool, bool, bool, Seq<char>)>;

/// The grants a token request asks for, in the order of `spec_token_grants`.
pub open spec fn request_grants(r: TokenRequest) -> (Seq<char>, Seq<char>, bool, bool, bool, Seq<char>) {
    (r.identity@, r.room@, r.room_admin, r.room_join, r.can_update_own_metadata, r.metadata@)
}

/// The grants of a caller's token: the user's id as its identity, the call
/// as its room, admin rights as asked, joining the room and updating one's
/// own metadata, and the metadata that records the admin rights.
pub open spec fn caller_grants(user_id: u64, call_id: u128, has_admin: bool) -> (
    Seq<char>,
    Seq<char>,
    bool,
    bool,
    bool,
    Seq<char>,
) {
    (decimal_nat(user_id as nat), spec_uuid_string(call_id), has_admin, true, true, admin_metadata(has_admin))
}

/// The metadata text of a token: `{"isAdmin":true}` or `{"isAdmin":false}`.
pub open spec fn admin_metadata(has_admin: bool) -> Seq<char> {
    if has_admin {
        "{\"isAdmin\":true}"@
    } else {
        "{\"isAdmin\":false}"@
    }
}

/// The grants asked for a caller's token.
pub fn token_request(user_id: u64, call_id: u128, has_admin: bool) -> (r: TokenRequest)
    ensures
        r.identity@ == decimal_nat(user_id as nat),
        r.room@ == spec_uuid_string(call_id),
        r.room@.len() == 36,
        r.room_admin == has_admin,
        r.room_join,
        r.can_update_own_metadata,
        r.metadata@ == admin_metadata(has_admin),
        request_grants(r) == caller_grants(user_id, call_id, has_admin),
{
    TokenRequest {
        identity: u64_to_string(user_id),
        room: uuid_to_string(call_id),
        room_admin: has_admin,
        room_join: true,
        can_update_own_metadata: true,
        metadata: if has_admin {
            String::from_str("{\"isAdmin\":true}")
        } else {
            String::from_str("{\"isAdmin\":false}")
        },
    }
}

/// `AccessToken::with_api_key(..).with_identity(..).with_grants(..)
/// .with_metadata(..).to_jwt()` of `livekit-api`, with the grants the request
/// asks for, which the token's claims then carry. The
/// token holds the time it was made, so its text is not a function of the
/// arguments. `to_jwt` refuses empty keys, and a room grant without an
/// identity or a room; otherwise it signs with HMAC-SHA256, which takes a
/// key of any length, and returns the three dot-separated parts of the JWT.
#[verifier::external_body]
fn livekit_jwt(api_key: &str, api_secret: &str, request: &TokenRequest) -> (r: Option<String>)
    ensures
        api_key@.len() == 0 || api_secret@.len() == 0 ==> r is None,
        api_key@.len() > 0 && api_secret@.len() > 0 && (request.room_join ==> request.identity@.len() > 0
            && request.room@.len() > 0) ==> r is Some,
        r matches Some(t) ==> t@.len() > 0 && spec_token_grants(t@) == Some(request_grants(*request)),
{
    livekit_api::access_token::AccessToken::with_api_key(api_key, api_secret)
        .with_identity(request.identity.as_str())
        .with_grants(livekit_api::access_token::VideoGrants {
            can_update_own_metadata: Some(request.can_update_own_metadata),
            room_join: request.room_join,
            room_admin: request.room_admin,
            room: request.room.clone(),
            ..Default::default()
        })
        .with_metadata(request.metadata.as_str())
        .to_jwt()
        .ok()
}

/// A key that is set and not empty.
pub open spec fn usable_key(k: Option<&str>) -> bool {
    k matches Some(s) && s@.len() > 0
}

/// A LiveKit token for a caller: `Err` exactly where an API key or secret is
/// missing (unset or empty); the token is never empty.
pub fn create_token(
    api_key: Option<&str>,
    api_secret: Option<&str>,
    user_id: u64,
    call_id: u128,
    has_admin: bool,
) -> (r: Result<String, ()>)
    ensures
        r is Ok <==> usable_key(api_key) && usable_key(api_secret),
        r matches Ok(t) ==> t@.len() > 0 && spec_token_grants(t@) == Some(
            caller_grants(user_id, call_id, has_admin),
        ),
{
    let key = match api_key {
        Some(k) => k,
        None => {
            return Err(());
        },
    };
    let secret = match api_secret {
        Some(s) => s,
        None => {
            return Err(());
        },
    };
    let request = token_request(user_id, call_id, has_admin);
    match livekit_jwt(key, secret, &request) {
        Some(t) => Ok(t),
        None => Err(()),
    }
}

/// The keys that sign call tokens, as read from the environment.
pub struct TokenKeys {
    pub api_key: Option<String>,
    pub api_secret: Option<String>,
}

impl TokenKeys {
    /// Both the API key and the secret are set and not empty.
    pub open spec fn usable(&self) -> bool {
        &&& self.api_key matches Some(k) && k@.len() > 0
        &&& self.api_secret matches Some(s) && s@.len() > 0
    }

    fn key(&self) -> (r: Option<&str>)
        ensures
            r is Some == self.api_key is Some,
            r matches Some(k) ==> k@ == self.api_key->0@,
    {
        match &self.api_key {
            Some(k) => Some(k.as_str()),
            None => None,
        }
    }

    fn secret(&self) -> (r: Option<&str>)
        ensures
            r is Some == self.api_secret is Some,
            r matches Some(k) ==> k@ == self.api_secret->0@,
    {
        match &self.api_secret {
            Some(k) => Some(k.as_str()),
            None => None,
        }
    }
}

/// A caller is timed out at `now_ms` where its timeout lies after it.
pub open spec fn timed_out_at(c: Caller, now_ms: i64) -> bool {
    c.timeout > now_ms
}

impl Caller {
    /// A caller with no timeout.
    pub fn new(user_id: u64, call_id: u128, has_admin: bool) -> (r: Caller)
        ensures
            r == (Caller { user_id, call_id, has_admin, timeout: 0 }),
    {
        Caller { user_id, call_id, has_admin, timeout: 0 }
    }

    /// Grants or withdraws admin rights.
    pub fn set_admin(&mut self, has_admin: bool)
        ensures
            *final(self) == (Caller { has_admin, ..*old(self) }),
    {
        self.has_admin = has_admin;
    }

    /// Whether the caller administers the call.
    pub fn has_admin(&self) -> (r: bool)
        ensures
            r == self.has_admin,
    {
        self.has_admin
    }

    /// Whether the caller is still timed out at `now_ms`.
    pub fn is_timeouted_at(&self, now_ms: i64) -> (r: bool)
        ensures
            r == (self.timeout > now_ms),
    {
        self.timeout > now_ms
    }

    /// Whether the caller is still timed out now (`is_timeouted_at` the
    /// current time, which the clock decides).
    pub fn is_timeouted(&self) -> (r: bool)
        ensures
            exists|now_ms: i64| r == #[trigger] timed_out_at(*self, now_ms),
    {
        let now = crate::clock::current_millis();
        let r = self.is_timeouted_at(now);
        assert(r == timed_out_at(*self, now));
        r
    }

    /// Times the caller out until `timeout`.
    pub fn set_timeout(&mut self, timeout: i64)
        ensures
            *final(self) == (Caller { timeout, ..*old(self) }),
    {
        self.timeout = timeout;
    }

    /// The caller's token, or the empty text where the keys are unset or
    /// empty.
    pub fn create_token(&self, keys: &TokenKeys) -> (r: String)
        ensures
            r@.len() > 0 <==> keys.usable(),
            r@.len() > 0 ==> spec_token_grants(r@) == Some(
                caller_grants(self.user_id, self.call_id, self.has_admin),
            ),
    {
        match create_token(keys.key(), keys.secret(), self.user_id, self.call_id, self.has_admin()) {
            Ok(token) => token,
            Err(_) => String::new(),
        }
    }
}

/// A call and its participants.
pub struct CallGroup {
    pub call_id: u128,
    pub members: Vec<Caller>,
    /// Whether the call is shown: its room has participants.
    pub show: bool,
    pub anonymous_joining: bool,
    pub short_link: Option<String>,
}

/// The index of the first member with `user_id`, searching from `i`.
pub open spec fn member_index_from(ms: Seq<Caller>, user_id: u64, i: nat) -> Option<nat>
    decreases ms.len() - i,
{
    if i >= ms.len() {
        None
    } else if ms[i as int].user_id == user_id {
        Some(i)
    } else {
        member_index_from(ms, user_id, i + 1)
    }
}

/// Whether some member has `user_id`.
pub open spec fn has_member(ms: Seq<Caller>, user_id: u64) -> bool {
    exists|i: int| 0 <= i < ms.len() && ms[i].user_id == user_id
}

/// The first member with `user_id`.
pub open spec fn spec_get_caller(ms: Seq<Caller>, user_id: u64) -> Option<Caller> {
    match member_index_from(ms, user_id, 0) {
        Some(i) => Some(ms[i as int]),
        None => None,
    }
}

/// The members that remain when those with `user_id` leave.
pub open spec fn without_user(ms: Seq<Caller>, user_id: u64) -> Seq<Caller> {
    ms.filter(|c: Caller| c.user_id != user_id)
}

/// The first index found has that user and no earlier member has.
pub proof fn lemma_member_index_from(ms: Seq<Caller>, user_id: u64, i: nat)
    ensures
        member_index_from(ms, user_id, i) matches Some(j) ==> i <= j < ms.len()
            && ms[j as int].user_id == user_id,
        member_index_from(ms, user_id, i) is None ==> forall|m: int|
            i <= m < ms.len() ==> ms[m].user_id != user_id,
    decreases ms.len() - i,
{
    if i < ms.len() {
        lemma_member_index_from(ms, user_id, i + 1);
    }
}

/// The text of the metadata that records whether anonymous joining is on.
pub open spec fn anonymous_metadata(enable: bool) -> Seq<char> {
    if enable {
        "{\"anonymous_joining\": \"true\"}"@
    } else {
        "{\"anonymous_joining\": \"false\"}"@
    }
}

/// The number an optional text holds, or 0 (`parse::<i64>().unwrap_or(0)`).
pub open spec fn id_or_zero(text: Option<Seq<char>>) -> i64 {
    match text {
        Some(t) => match crate::text::spec_parse_i64(t) {
            Some(x) => x,
            None => 0,
        },
        None => 0,
    }
}

/// The link by which anonymous users join a call through this relay.
pub open spec fn spec_anonymous_link(call_id: u128, omikron_id: i64) -> Seq<char> {
    "https://app.tensamin.net/call/anonymous?call_id="@ + spec_uuid_string(call_id)
        + "&omikron_id="@ + decimal_int(omikron_id as int)
}

impl CallGroup {
    /// A shown call with one member, no anonymous joining and no short link.
    pub fn new(call_id: u128, user: Caller) -> (r: CallGroup)
        ensures
            r.call_id == call_id,
            r.members@ == seq![user],
            r.show,
            !r.anonymous_joining,
            r.short_link is None,
    {
        let mut members: Vec<Caller> = Vec::new();
        members.push(user);
        CallGroup { call_id, members, show: true, anonymous_joining: false, short_link: None }
    }

    /// The first member with `user_id`.
    pub fn get_caller(&self, user_id: u64) -> (r: Option<Caller>)
        ensures
            r == spec_get_caller(self.members@, user_id),
    {
        let mut i: usize = 0;
        while i < self.members.len()
            invariant
                i <= self.members.len(),
                member_index_from(self.members@, user_id, 0) == member_index_from(
                    self.members@,
                    user_id,
                    i as nat,
                ),
            decreases self.members.len() - i,
        {
            if self.members[i].user_id == user_id {
                return Some(self.members[i]);
            }
            i = i + 1;
        }
        None
    }

    /// Whether anonymous users may join.
    pub fn is_anonymous(&self) -> (r: bool)
        ensures
            r == self.anonymous_joining,
    {
        self.anonymous_joining
    }

    /// Turns anonymous joining on or off. Returns the room metadata to record,
    /// and, where the call has no short link yet, the long link to shorten.
    pub fn set_anonymous_joining(&mut self, enable: bool, omikron_id_text: Option<&str>) -> (r: (
        String,
        Option<String>,
    ))
        ensures
            final(self).anonymous_joining == enable,
            final(self).call_id == old(self).call_id,
            final(self).members@ == old(self).members@,
            final(self).show == old(self).show,
            final(self).short_link == old(self).short_link,
            r.0@ == anonymous_metadata(enable),
            r.1 is Some == old(self).short_link is None,
            r.1 matches Some(link) ==> link@ == spec_anonymous_link(
                old(self).call_id,
                id_or_zero(
                    match omikron_id_text {
                        Some(t) => Some(t@),
                        None => None,
                    },
                ),
            ),
    {
        self.anonymous_joining = enable;
        let metadata = if enable {
            String::from_str("{\"anonymous_joining\": \"true\"}")
        } else {
            String::from_str("{\"anonymous_joining\": \"false\"}")
        };
        if self.short_link.is_none() {
            let omikron_id: i64 = match omikron_id_text {
                Some(t) => match crate::text::parse_i64(t) {
                    Some(x) => x,
                    None => 0,
                },
                None => 0,
            };
            let mut link = String::from_str("https://app.tensamin.net/call/anonymous?call_id=");
            link.append(uuid_to_string(self.call_id).as_str());
            link.append("&omikron_id=");
            link.append(i64_to_string(omikron_id).as_str());
            (metadata, Some(link))
        } else {
            (metadata, None)
        }
    }

    /// Records the short link of the call.
    pub fn set_short_link(&mut self, link: String)
        ensures
            final(self).short_link matches Some(l) && l@ == link@,
            final(self).call_id == old(self).call_id,
            final(self).members@ == old(self).members@,
            final(self).show == old(self).show,
            final(self).anonymous_joining == old(self).anonymous_joining,
    {
        self.short_link = Some(link);
    }

    /// A token for an anonymous user, where the call admits them.
    pub fn create_anonymous_token(&self, keys: &TokenKeys, user_id: u64) -> (r: Option<String>)
        ensures
            r is Some <==> self.anonymous_joining && keys.usable(),
            r matches Some(t) ==> t@.len() > 0 && spec_token_grants(t@) == Some(
                caller_grants(user_id, self.call_id, false),
            ),
    {
        if self.is_anonymous() {
            if let Ok(token) = create_token(keys.key(), keys.secret(), user_id, self.call_id, false) {
                return Some(token);
            }
        }
        None
    }

    /// Removes every member with `user_id`.
    pub fn remove_caller(&mut self, user_id: u64)
        ensures
            final(self).members@ == without_user(old(self).members@, user_id),
            final(self).call_id == old(self).call_id,
            final(self).show == old(self).show,
            final(self).anonymous_joining == old(self).anonymous_joining,
            final(self).short_link == old(self).short_link,
    {
        let mut kept: Vec<Caller> = Vec::new();
        let mut i: usize = 0;
        while i < self.members.len()
            invariant
                i <= self.members.len(),
                kept@ == without_user(self.members@.subrange(0, i as int), user_id),
            decreases self.members.len() - i,
        {
            proof {
                let s = self.members@.subrange(0, i + 1);
                assert(s.drop_last() =~= self.members@.subrange(0, i as int));
                assert(s.last() == self.members@[i as int]);
                reveal_with_fuel(Seq::filter, 1);
            }
            if self.members[i].user_id != user_id {
                kept.push(self.members[i]);
            }
            i = i + 1;
        }
        assert(self.members@.subrange(0, self.members.len() as int) =~= self.members@);
        self.members = kept;
    }

    /// The call's short link.
    pub fn get_short_link(&self) -> (r: Option<String>)
        ensures
            r is Some == self.short_link is Some,
            r matches Some(l) ==> l@ == self.short_link->0@,
    {
        match &self.short_link {
            Some(l) => Some(l.clone()),
            None => None,
        }
    }
}

/// The content of a call group.
pub struct CallGroupView {
    pub call_id: u128,
    pub members: Seq<Caller>,
    pub show: bool,
    pub anonymous_joining: bool,
    pub short_link: Option<Seq<char>>,
}

/// The view of a call group.
pub open spec fn group_view(g: CallGroup) -> CallGroupView {
    CallGroupView {
        call_id: g.call_id,
        members: g.members@,
        show: g.show,
        anonymous_joining: g.anonymous_joining,
        short_link: match g.short_link {
            Some(l) => Some(l@),
            None => None,
        },
    }
}

/// The calls known to the relay, one group per call id.
pub struct CallRegistry {
    groups: Vec<CallGroup>,
}

/// The index of the group of `call_id`, searching from `i`.
pub open spec fn group_index_from(gs: Seq<CallGroupView>, call_id: u128, i: nat) -> Option<nat>
    decreases gs.len() - i,
{
    if i >= gs.len() {
        None
    } else if gs[i as int].call_id == call_id {
        Some(i)
    } else {
        group_index_from(gs, call_id, i + 1)
    }
}

/// The index of the group of `call_id`.
pub open spec fn find_group(gs: Seq<CallGroupView>, call_id: u128) -> Option<nat> {
    group_index_from(gs, call_id, 0)
}

/// The first index found is that of a group with the id, and no earlier group has it.
pub proof fn lemma_group_index_from(gs: Seq<CallGroupView>, call_id: u128, i: nat)
    ensures
        group_index_from(gs, call_id, i) matches Some(j) ==> i <= j < gs.len()
            && gs[j as int].call_id == call_id && forall|m: int|
            i <= m < j ==> gs[m].call_id != call_id,
        group_index_from(gs, call_id, i) is None ==> forall|m: int|
            i <= m < gs.len() ==> gs[m].call_id != call_id,
    decreases gs.len() - i,
{
    if i < gs.len() {
        lemma_group_index_from(gs, call_id, i + 1);
    }
}

/// No two groups have the same call id.
pub open spec fn distinct_calls(gs: Seq<CallGroupView>) -> bool {
    forall|i: int, j: int| 0 <= i < j < gs.len() ==> gs[i].call_id != gs[j].call_id
}

/// Every member of a group is a caller of that group's call.
pub open spec fn members_in_call(gs: Seq<CallGroupView>) -> bool {
    forall|i: int, k: int|
        0 <= i < gs.len() && 0 <= k < gs[i].members.len() ==> #[trigger] gs[i].members[k].call_id == gs[i].call_id
}

/// The callers, over all groups in order, that have `user_id`.
pub open spec fn invites_of(gs: Seq<CallGroupView>, user_id: u64) -> Seq<Caller>
    decreases gs.len(),
{
    if gs.len() == 0 {
        Seq::empty()
    } else {
        invites_of(gs.drop_last(), user_id) + gs.last().members.filter(
            |c: Caller| c.user_id == user_id,
        )
    }
}

/// The ids of the groups, in order, of which `user_id` is a member.
pub open spec fn groups_of(gs: Seq<CallGroupView>, user_id: u64) -> Seq<u128>
    decreases gs.len(),
{
    if gs.len() == 0 {
        Seq::empty()
    } else if has_member(gs.last().members, user_id) {
        groups_of(gs.drop_last(), user_id).push(gs.last().call_id)
    } else {
        groups_of(gs.drop_last(), user_id)
    }
}

/// The calls of `receiver`, over the groups in order, in which `user` is a
/// member: one entry per membership.
pub open spec fn contact_calls(gs: Seq<CallGroupView>, receiver: u64, user: u64) -> Seq<u128>
    decreases gs.len(),
{
    if gs.len() == 0 {
        Seq::empty()
    } else if has_member(gs.last().members, receiver) {
        contact_calls(gs.drop_last(), receiver, user) + memberships(gs.last().members, user, gs.last().call_id)
    } else {
        contact_calls(gs.drop_last(), receiver, user)
    }
}

/// The call id, once for each member of a group that has `user`.
pub open spec fn memberships(ms: Seq<Caller>, user: u64, call_id: u128) -> Seq<u128>
    decreases ms.len(),
{
    if ms.len() == 0 {
        Seq::empty()
    } else if ms.last().user_id == user {
        memberships(ms.drop_last(), user, call_id).push(call_id)
    } else {
        memberships(ms.drop_last(), user, call_id)
    }
}

/// The registry after `user_id` asks to join `call_id`, and the caller whose
/// token is handed out: the existing member; else a new member without admin
/// rights; else, where the call is unknown, a new group whose first member
/// administers it.
pub open spec fn spec_join(gs: Seq<CallGroupView>, user_id: u64, call_id: u128) -> (
    Seq<CallGroupView>,
    Caller,
) {
    match find_group(gs, call_id) {
        Some(i) => {
            let g = gs[i as int];
            match spec_get_caller(g.members, user_id) {
                Some(c) => (gs, c),
                None => {
                    let c = Caller { user_id, call_id, has_admin: false, timeout: 0 };
                    (gs.update(i as int, CallGroupView { members: g.members.push(c), ..g }), c)
                },
            }
        },
        None => {
            let c = Caller { user_id, call_id, has_admin: true, timeout: 0 };
            (
                gs.push(
                    CallGroupView {
                        call_id,
                        members: seq![c],
                        show: true,
                        anonymous_joining: false,
                        short_link: None,
                    },
                ),
                c,
            )
        },
    }
}

/// The ids of the rooms whose names are UUIDs.
pub open spec fn room_ids(rooms: Seq<(Seq<char>, u32)>) -> Seq<u128>
    decreases rooms.len(),
{
    if rooms.len() == 0 {
        Seq::empty()
    } else {
        match spec_uuid_parse(rooms.last().0) {
            Some(id) => room_ids(rooms.drop_last()).push(id),
            None => room_ids(rooms.drop_last()),
        }
    }
}

/// The ids of the empty rooms whose names are UUIDs.
pub open spec fn empty_room_ids(rooms: Seq<(Seq<char>, u32)>) -> Seq<u128>
    decreases rooms.len(),
{
    if rooms.len() == 0 {
        Seq::empty()
    } else {
        match spec_uuid_parse(rooms.last().0) {
            Some(id) => if rooms.last().1 == 0 {
                empty_room_ids(rooms.drop_last()).push(id)
            } else {
                empty_room_ids(rooms.drop_last())
            },
            None => empty_room_ids(rooms.drop_last()),
        }
    }
}

/// The groups that remain after cleaning against the rooms that exist: those
/// with a room, shown where their room has participants.
pub open spec fn spec_clean(gs: Seq<CallGroupView>, ids: Seq<u128>, empty: Seq<u128>) -> Seq<
    CallGroupView,
>
    decreases gs.len(),
{
    if gs.len() == 0 {
        Seq::empty()
    } else if ids.contains(gs.last().call_id) {
        spec_clean(gs.drop_last(), ids, empty).push(
            CallGroupView { show: !empty.contains(gs.last().call_id), ..gs.last() },
        )
    } else {
        spec_clean(gs.drop_last(), ids, empty)
    }
}

/// The views of rooms given by name and participant count.
pub open spec fn rooms_view(rooms: Seq<(String, u32)>) -> Seq<(Seq<char>, u32)> {
    rooms.map_values(|r: (String, u32)| (r.0@, r.1))
}

/// Whether a sequence of ids contains an id.
fn contains_id(ids: &Vec<u128>, id: u128) -> (r: bool)
    ensures
        r == ids@.contains(id),
{
    let mut i: usize = 0;
    while i < ids.len()
        invariant
            i <= ids.len(),
            forall|j: int| 0 <= j < i ==> ids@[j] != id,
        decreases ids.len() - i,
    {
        if ids[i] == id {
            return true;
        }
        i = i + 1;
    }
    false
}

impl View for CallRegistry {
    type V = Seq<CallGroupView>;

    closed spec fn view(&self) -> Seq<CallGroupView> {
        self.groups@.map_values(|g: CallGroup| group_view(g))
    }
}

impl CallRegistry {
    /// No two groups share a call id, and every member is a caller of its
    /// group's call.
    pub open spec fn wf(&self) -> bool {
        distinct_calls(self@) && members_in_call(self@)
    }

    /// A registry without calls.
    pub fn new() -> (r: CallRegistry)
        ensures
            r.wf(),
            r@ == Seq::<CallGroupView>::empty(),
    {
        let r = CallRegistry { groups: Vec::new() };
        assert(r@ =~= Seq::empty());
        r
    }

    /// The number of calls.
    pub fn len(&self) -> (r: usize)
        ensures
            r == self@.len(),
    {
        self.groups.len()
    }

    /// The index of the group of a call.
    fn index_of(&self, call_id: u128) -> (r: Option<usize>)
        ensures
            self@.len() == self.groups.len(),
            r matches Some(i) ==> find_group(self@, call_id) == Some(i as nat) && i < self.groups.len(),
            r is None ==> find_group(self@, call_id) is None,
    {
        let mut i: usize = 0;
        while i < self.groups.len()
            invariant
                i <= self.groups.len(),
                self@.len() == self.groups.len(),
                find_group(self@, call_id) == group_index_from(self@, call_id, i as nat),
            decreases self.groups.len() - i,
        {
            if self.groups[i].call_id == call_id {
                return Some(i);
            }
            i = i + 1;
        }
        proof {
            lemma_group_index_from(self@, call_id, 0);
        }
        None
    }

    /// The group of a call.
    pub fn get_call(&self, call_id: u128) -> (r: Option<&CallGroup>)
        ensures
            r is Some == find_group(self@, call_id) is Some,
            r matches Some(g) ==> group_view(*g) == self@[find_group(self@, call_id)->0 as int],
    {
        match self.index_of(call_id) {
            Some(i) => Some(&self.groups[i]),
            None => None,
        }
    }

    /// The memberships of a user, over all calls.
    pub fn get_call_invites(&self, user_id: u64) -> (r: Vec<Caller>)
        ensures
            r@ == invites_of(self@, user_id),
    {
        let mut out: Vec<Caller> = Vec::new();
        let mut i: usize = 0;
        while i < self.groups.len()
            invariant
                i <= self.groups.len(),
                self@.len() == self.groups.len(),
                out@ == invites_of(self@.subrange(0, i as int), user_id),
            decreases self.groups.len() - i,
        {
            let ghost before = out@;
            let g = &self.groups[i];
            let mut j: usize = 0;
            while j < g.members.len()
                invariant
                    j <= g.members.len(),
                    out@ == before + g.members@.subrange(0, j as int).filter(
                        |c: Caller| c.user_id == user_id,
                    ),
                decreases g.members.len() - j,
            {
                proof {
                    let s = g.members@.subrange(0, j + 1);
                    assert(s.drop_last() =~= g.members@.subrange(0, j as int));
                    reveal_with_fuel(Seq::filter, 1);
                }
                if g.members[j].user_id == user_id {
                    out.push(g.members[j]);
                    proof {
                        assert(before + g.members@.subrange(0, j + 1).filter(
                            |c: Caller| c.user_id == user_id,
                        ) =~= (before + g.members@.subrange(0, j as int).filter(
                            |c: Caller| c.user_id == user_id,
                        )).push(g.members@[j as int]));
                    }
                }
                j = j + 1;
            }
            proof {
                assert(g.members@.subrange(0, g.members.len() as int) =~= g.members@);
                assert(self@.subrange(0, i + 1).drop_last() =~= self@.subrange(0, i as int));
                assert(self@[i as int] == group_view(self.groups@[i as int]));
            }
            i = i + 1;
        }
        assert(self@.subrange(0, self.groups.len() as int) =~= self@);
        out
    }

    /// The calls of which a user is a member.
    pub fn get_call_groups(&self, user_id: u64) -> (r: Vec<u128>)
        ensures
            r@ == groups_of(self@, user_id),
    {
        let mut out: Vec<u128> = Vec::new();
        let mut i: usize = 0;
        while i < self.groups.len()
            invariant
                i <= self.groups.len(),
                self@.len() == self.groups.len(),
                out@ == groups_of(self@.subrange(0, i as int), user_id),
            decreases self.groups.len() - i,
        {
            proof {
                assert(self@.subrange(0, i + 1).drop_last() =~= self@.subrange(0, i as int));
                assert(self@[i as int] == group_view(self.groups@[i as int]));
            }
            let is_member = self.groups[i].get_caller(user_id).is_some();
            proof {
                lemma_member_index_from(self.groups@[i as int].members@, user_id, 0);
            }
            if is_member {
                out.push(self.groups[i].call_id);
            }
            i = i + 1;
        }
        assert(self@.subrange(0, self.groups.len() as int) =~= self@);
        out
    }

    /// The calls of `receiver` in which `user` is a member (see
    /// `contact_calls`): what a contact list is enriched with.
    pub fn contact_calls(&self, receiver: u64, user: u64) -> (r: Vec<u128>)
        ensures
            r@ == contact_calls(self@, receiver, user),
    {
        let mut out: Vec<u128> = Vec::new();
        let mut i: usize = 0;
        while i < self.groups.len()
            invariant
                i <= self.groups.len(),
                self@.len() == self.groups.len(),
                out@ == contact_calls(self@.subrange(0, i as int), receiver, user),
            decreases self.groups.len() - i,
        {
            proof {
                assert(self@.subrange(0, i + 1).drop_last() =~= self@.subrange(0, i as int));
                assert(self@[i as int] == group_view(self.groups@[i as int]));
            }
            let is_member = self.groups[i].get_caller(receiver).is_some();
            proof {
                lemma_member_index_from(self.groups@[i as int].members@, receiver, 0);
            }
            if is_member {
                let ghost base = out@;
                let cid = self.groups[i].call_id;
                let mut j: usize = 0;
                while j < self.groups[i].members.len()
                    invariant
                        i < self.groups.len(),
                        j <= self.groups@[i as int].members@.len(),
                        cid == self.groups@[i as int].call_id,
                        out@ == base + memberships(self.groups@[i as int].members@.subrange(0, j as int), user, cid),
                    decreases self.groups@[i as int].members@.len() - j,
                {
                    proof {
                        let ms = self.groups@[i as int].members@;
                        assert(ms.subrange(0, j + 1).drop_last() =~= ms.subrange(0, j as int));
                    }
                    if self.groups[i].members[j].user_id == user {
                        out.push(cid);
                        proof {
                            let ms = self.groups@[i as int].members@;
                            assert(base + memberships(ms.subrange(0, j + 1), user, cid) =~= (base
                                + memberships(ms.subrange(0, j as int), user, cid)).push(cid));
                        }
                    }
                    j = j + 1;
                }
                proof {
                    let ms = self.groups@[i as int].members@;
                    assert(ms.subrange(0, ms.len() as int) =~= ms);
                }
            }
            i = i + 1;
        }
        assert(self@.subrange(0, self.groups.len() as int) =~= self@);
        out
    }

    /// Lets a user join a call (see `spec_join`) and returns the caller whose
    /// token is handed out.
    pub fn join_call(&mut self, user_id: u64, call_id: u128) -> (r: Caller)
        requires
            old(self).wf(),
        ensures
            final(self).wf(),
            (final(self)@, r) == spec_join(old(self)@, user_id, call_id),
    {
        proof {
            lemma_group_index_from(self@, call_id, 0);
        }
        match self.index_of(call_id) {
            Some(i) => {
                match self.groups[i].get_caller(user_id) {
                    Some(c) => c,
                    None => {
                        let c = Caller::new(user_id, call_id, false);
                        let ghost before = self@;
                        let mut g = self.groups.remove(i);
                        g.members.push(c);
                        self.groups.insert(i, g);
                        proof {
                            assert(self@ =~= before.update(
                                i as int,
                                CallGroupView { members: before[i as int].members.push(c), ..before[i as int] },
                            ));
                        }
                        c
                    },
                }
            },
            None => {
                let c = Caller::new(user_id, call_id, true);
                let g = CallGroup::new(call_id, c);
                let ghost before = self@;
                self.groups.push(g);
                proof {
                    assert(self@ =~= before.push(group_view(g)));
                    assert(group_view(g).members =~= seq![c]);
                }
                c
            },
        }
    }

    /// A token for a user in a call, joining them to it first (see
    /// `join_call`); the text is empty where no token can be made.
    pub fn get_call_token(&mut self, keys: &TokenKeys, user_id: u64, call_id: u128) -> (r: Option<
        String,
    >)
        requires
            old(self).wf(),
        ensures
            final(self).wf(),
            final(self)@ == spec_join(old(self)@, user_id, call_id).0,
            r matches Some(t) && (t@.len() > 0 <==> keys.usable()),
            r->0@.len() > 0 ==> ({
                let c = spec_join(old(self)@, user_id, call_id).1;
                spec_token_grants(r->0@) == Some(caller_grants(user_id, call_id, c.has_admin))
            }),
    {
        proof {
            lemma_group_index_from(self@, call_id, 0);
            if find_group(self@, call_id) is Some {
                let i = find_group(self@, call_id)->0 as int;
                lemma_member_index_from(self@[i].members, user_id, 0);
                if member_index_from(self@[i].members, user_id, 0) is Some {
                    let k = member_index_from(self@[i].members, user_id, 0)->0 as int;
                    assert(self@[i].members[k].call_id == self@[i].call_id);
                }
            }
        }
        let caller = self.join_call(user_id, call_id);
        Some(caller.create_token(keys))
    }

    /// Invites a user into a call on behalf of a member: `true` where the
    /// inviter is a member, the invitee then being one too (added without
    /// admin rights where they were not).
    pub fn add_invite(&mut self, call_id: u128, inviter_id: u64, invitee_id: u64) -> (r: bool)
        requires
            old(self).wf(),
        ensures
            final(self).wf(),
            r == (find_group(old(self)@, call_id) matches Some(i) && has_member(
                old(self)@[i as int].members,
                inviter_id,
            )),
            !r ==> final(self)@ == old(self)@,
            r ==> final(self)@ == (if has_member(
                old(self)@[find_group(old(self)@, call_id)->0 as int].members,
                invitee_id,
            ) {
                old(self)@
            } else {
                spec_join(old(self)@, invitee_id, call_id).0
            }),
    {
        proof {
            lemma_group_index_from(self@, call_id, 0);
        }
        match self.index_of(call_id) {
            Some(i) => {
                let inviter = self.groups[i].get_caller(inviter_id);
                proof {
                    lemma_member_index_from(self@[i as int].members, inviter_id, 0);
                    lemma_member_index_from(self@[i as int].members, invitee_id, 0);
                }
                if inviter.is_some() {
                    if self.groups[i].get_caller(invitee_id).is_none() {
                        self.join_call(invitee_id, call_id);
                    }
                    true
                } else {
                    false
                }
            },
            None => false,
        }
    }

    /// Removes a user from a call; `false` where the call is unknown.
    pub fn remove_caller(&mut self, call_id: u128, user_id: u64) -> (r: bool)
        requires
            old(self).wf(),
        ensures
            final(self).wf(),
            r == find_group(old(self)@, call_id) is Some,
            r ==> final(self)@ == old(self)@.update(
                find_group(old(self)@, call_id)->0 as int,
                CallGroupView {
                    members: without_user(
                        old(self)@[find_group(old(self)@, call_id)->0 as int].members,
                        user_id,
                    ),
                    ..old(self)@[find_group(old(self)@, call_id)->0 as int]
                },
            ),
            !r ==> final(self)@ == old(self)@,
    {
        match self.index_of(call_id) {
            Some(i) => {
                let ghost before = self@;
                let mut g = self.groups.remove(i);
                g.remove_caller(user_id);
                self.groups.insert(i, g);
                proof {
                    assert(self@ =~= before.update(
                        i as int,
                        CallGroupView {
                            members: without_user(before[i as int].members, user_id),
                            ..before[i as int]
                        },
                    ));
                    broadcast use vstd::seq_lib::group_filter_ensures;
                    assert forall|a: int, k: int|
                        0 <= a < self@.len() && 0 <= k < self@[a].members.len() implies #[trigger] self@[a].members[k].call_id
                            == self@[a].call_id by {
                        if a == i {
                            let c = self@[a].members[k];
                            assert(without_user(before[a].members, user_id).contains(c));
                            before[a].members.lemma_filter_contains_rev(|c: Caller| c.user_id != user_id, c);
                            assert(before[a].members.contains(c));
                            let m = choose|m: int| 0 <= m < before[a].members.len() && before[a].members[m] == c;
                            assert(before[a].members[m].call_id == before[a].call_id);
                        } else {
                            assert(self@[a] == before[a]);
                        }
                    }
                }
                true
            },
            None => false,
        }
    }

    /// Times out a member of a call until `until`; `false` where the call is
    /// unknown or the user is not a member.
    pub fn set_timeout(&mut self, call_id: u128, user_id: u64, until: i64) -> (r: bool)
        requires
            old(self).wf(),
        ensures
            final(self).wf(),
            r == (find_group(old(self)@, call_id) matches Some(i) && has_member(
                old(self)@[i as int].members,
                user_id,
            )),
            !r ==> final(self)@ == old(self)@,
            r ==> ({
                let i = find_group(old(self)@, call_id)->0 as int;
                let g = old(self)@[i];
                let j = member_index_from(g.members, user_id, 0)->0 as int;
                final(self)@ == old(self)@.update(
                    i,
                    CallGroupView {
                        members: g.members.update(j, Caller { timeout: until, ..g.members[j] }),
                        ..g
                    },
                )
            }),
    {
        proof {
            lemma_group_index_from(self@, call_id, 0);
        }
        match self.index_of(call_id) {
            Some(i) => {
                proof {
                    lemma_member_index_from(self@[i as int].members, user_id, 0);
                }
                let mut j: usize = 0;
                let ghost ms = self@[i as int].members;
                let ghost s0 = self@;
                while j < self.groups[i].members.len()
                    invariant
                        i < self.groups.len(),
                        self@ == s0,
                        s0 == old(self)@,
                        distinct_calls(s0),
                        members_in_call(s0),
                        find_group(s0, call_id) == Some(i as nat),
                        ms == s0[i as int].members,
                        ms == self.groups@[i as int].members@,
                        j <= ms.len(),
                        member_index_from(ms, user_id, 0) == member_index_from(ms, user_id, j as nat),
                    decreases ms.len() - j,
                {
                    if self.groups[i].members[j].user_id == user_id {
                        let ghost before = self@;
                        let mut g = self.groups.remove(i);
                        let mut c = g.members[j];
                        c.set_timeout(until);
                        g.members.set(j, c);
                        self.groups.insert(i, g);
                        proof {
                            assert(member_index_from(ms, user_id, j as nat) == Some(j as nat));
                            assert(self@ =~= before.update(
                                i as int,
                                CallGroupView {
                                    members: ms.update(j as int, Caller { timeout: until, ..ms[j as int] }),
                                    ..before[i as int]
                                },
                            ));
                            assert(has_member(ms, user_id));
                            assert forall|a: int, b: int| 0 <= a < b < self@.len() implies self@[a].call_id != self@[b].call_id by {
                                assert(self@[a].call_id == s0[a].call_id);
                                assert(self@[b].call_id == s0[b].call_id);
                            }
                            assert forall|a: int, k: int|
                                0 <= a < self@.len() && 0 <= k < self@[a].members.len() implies #[trigger] self@[a].members[k].call_id
                                    == self@[a].call_id by {
                                if a == i {
                                    assert(s0[a].members[k].call_id == s0[a].call_id);
                                } else {
                                    assert(self@[a] == s0[a]);
                                }
                            }
                        }
                        return true;
                    }
                    j = j + 1;
                }
                proof {
                    lemma_member_index_from(ms, user_id, 0);
                }
                false
            },
            None => false,
        }
    }

    /// Turns anonymous joining of a call on or off (see
    /// `CallGroup::set_anonymous_joining`); `None` where the call is unknown.
    pub fn set_anonymous_joining(&mut self, call_id: u128, enable: bool, omikron_id_text: Option<&str>) -> (r: Option<(String, Option<String>)>)
        requires
            old(self).wf(),
        ensures
            final(self).wf(),
            r is Some == find_group(old(self)@, call_id) is Some,
            r is None ==> final(self)@ == old(self)@,
            r is Some ==> ({
                let i = find_group(old(self)@, call_id)->0 as int;
                final(self)@ == old(self)@.update(i, CallGroupView { anonymous_joining: enable, ..old(self)@[i] })
            }),
            r matches Some(out) ==> out.0@ == anonymous_metadata(enable) && (out.1 is Some
                == old(self)@[find_group(old(self)@, call_id)->0 as int].short_link is None),
            r matches Some(out) ==> (out.1 matches Some(link) ==> link@ == spec_anonymous_link(
                call_id,
                id_or_zero(
                    match omikron_id_text {
                        Some(t) => Some(t@),
                        None => None,
                    },
                ),
            )),
    {
        match self.index_of(call_id) {
            Some(i) => {
                let ghost before = self@;
                proof {
                    lemma_group_index_from(before, call_id, 0);
                }
                let mut g = self.groups.remove(i);
                assert(group_view(g) == before[i as int]);
                let out = g.set_anonymous_joining(enable, omikron_id_text);
                self.groups.insert(i, g);
                proof {
                    assert(self@ =~= before.update(
                        i as int,
                        CallGroupView { anonymous_joining: enable, ..before[i as int] },
                    ));
                }
                Some(out)
            },
            None => None,
        }
    }

    /// Records the short link of a call; `false` where the call is unknown.
    pub fn set_short_link(&mut self, call_id: u128, link: String) -> (r: bool)
        requires
            old(self).wf(),
        ensures
            final(self).wf(),
            r == find_group(old(self)@, call_id) is Some,
            !r ==> final(self)@ == old(self)@,
            r ==> ({
                let i = find_group(old(self)@, call_id)->0 as int;
                final(self)@ == old(self)@.update(i, CallGroupView { short_link: Some(link@), ..old(self)@[i] })
            }),
    {
        match self.index_of(call_id) {
            Some(i) => {
                let ghost before = self@;
                let ghost l = link@;
                let mut g = self.groups.remove(i);
                g.set_short_link(link);
                self.groups.insert(i, g);
                proof {
                    assert(self@ =~= before.update(
                        i as int,
                        CallGroupView { short_link: Some(l), ..before[i as int] },
                    ));
                }
                true
            },
            None => false,
        }
    }

    /// Drops the calls that have no room any more and shows those whose room
    /// has participants. Returns the number of calls before and after.
    pub fn clean_calls(&mut self, rooms: &Vec<(String, u32)>) -> (r: (usize, usize))
        requires
            old(self).wf(),
        ensures
            final(self).wf(),
            final(self)@ == spec_clean(
                old(self)@,
                room_ids(rooms_view(rooms@)),
                empty_room_ids(rooms_view(rooms@)),
            ),
            r.0 == old(self)@.len(),
            r.1 == final(self)@.len(),
    {
        let mut call_ids: Vec<u128> = Vec::new();
        let mut no_users: Vec<u128> = Vec::new();
        let ghost rv = rooms_view(rooms@);
        let mut k: usize = 0;
        while k < rooms.len()
            invariant
                k <= rooms.len(),
                rv == rooms_view(rooms@),
                call_ids@ == room_ids(rv.subrange(0, k as int)),
                no_users@ == empty_room_ids(rv.subrange(0, k as int)),
            decreases rooms.len() - k,
        {
            proof {
                assert(rv.subrange(0, k + 1).drop_last() =~= rv.subrange(0, k as int));
                assert(rv[k as int] == (rooms@[k as int].0@, rooms@[k as int].1));
            }
            match uuid_parse(rooms[k].0.as_str()) {
                Some(id) => {
                    if rooms[k].1 == 0 {
                        no_users.push(id);
                    }
                    call_ids.push(id);
                },
                None => {},
            }
            k = k + 1;
        }
        assert(rv.subrange(0, rooms.len() as int) =~= rv);
        let size_pre = self.groups.len();
        let ghost old_view = self@;
        let mut kept: Vec<CallGroup> = Vec::new();
        let mut old_groups: Vec<CallGroup> = Vec::new();
        std::mem::swap(&mut old_groups, &mut self.groups);
        let ghost og = old_groups@;
        assert(old_view =~= og.map_values(|g: CallGroup| group_view(g)));
        let mut idx: usize = 0;
        while old_groups.len() > 0
            invariant
                idx + old_groups.len() == og.len(),
                og.len() <= usize::MAX,
                old_groups@ == og.subrange(idx as int, og.len() as int),
                kept@.map_values(|g: CallGroup| group_view(g)) == spec_clean(
                    old_view.subrange(0, idx as int),
                    call_ids@,
                    no_users@,
                ),
                old_view == og.map_values(|g: CallGroup| group_view(g)),
            decreases old_groups.len(),
        {
            let mut g = old_groups.remove(0);
            proof {
                assert(old_view.subrange(0, idx + 1).drop_last() =~= old_view.subrange(0, idx as int));
                assert(old_view[idx as int] == group_view(g));
            }
            if contains_id(&call_ids, g.call_id) {
                g.show = !contains_id(&no_users, g.call_id);
                let ghost before = kept@;
                kept.push(g);
                proof {
                    assert(kept@.map_values(|g: CallGroup| group_view(g)) =~= before.map_values(
                        |g: CallGroup| group_view(g),
                    ).push(group_view(g)));
                }
            }
            idx = idx + 1;
            proof {
                assert(old_groups@ =~= og.subrange(idx as int, og.len() as int));
            }
        }
        assert(old_view.subrange(0, og.len() as int) =~= old_view);
        self.groups = kept;
        proof {
            lemma_clean_distinct(old_view, call_ids@, no_users@);
            lemma_clean_members(old_view, call_ids@, no_users@);
        }
        (size_pre, self.groups.len())
    }
}

/// Cleaning keeps groups with their members, so every member stays a caller
/// of its group's call.
proof fn lemma_clean_members(gs: Seq<CallGroupView>, ids: Seq<u128>, empty: Seq<u128>)
    requires
        members_in_call(gs),
    ensures
        members_in_call(spec_clean(gs, ids, empty)),
    decreases gs.len(),
{
    if gs.len() > 0 {
        let init = gs.drop_last();
        assert forall|i: int, k: int| 0 <= i < init.len() && 0 <= k < init[i].members.len() implies #[trigger] init[i].members[k].call_id == init[i].call_id by {
            assert(init[i] == gs[i]);
        }
        lemma_clean_members(init, ids, empty);
        let c = spec_clean(gs, ids, empty);
        let ci = spec_clean(init, ids, empty);
        assert forall|i: int, k: int| 0 <= i < c.len() && 0 <= k < c[i].members.len() implies #[trigger] c[i].members[k].call_id == c[i].call_id by {
            if ids.contains(gs.last().call_id) {
                assert(c == ci.push(CallGroupView { show: !empty.contains(gs.last().call_id), ..gs.last() }));
                if i < ci.len() {
                    assert(c[i] == ci[i]);
                    assert(ci[i].members[k].call_id == ci[i].call_id);
                } else {
                    assert(c[i].members == gs[gs.len() - 1].members);
                    assert(gs[gs.len() - 1].members[k].call_id == gs[gs.len() - 1].call_id);
                }
            } else {
                assert(c == ci);
                assert(ci[i].members[k].call_id == ci[i].call_id);
            }
        }
    }
}

/// Cleaning keeps a subset of the groups, in order, so their ids stay distinct.
proof fn lemma_clean_distinct(gs: Seq<CallGroupView>, ids: Seq<u128>, empty: Seq<u128>)
    requires
        distinct_calls(gs),
    ensures
        distinct_calls(spec_clean(gs, ids, empty)),
        forall|i: int| 0 <= i < spec_clean(gs, ids, empty).len() ==> exists|j: int| 0 <= j < gs.len() && gs[j].call_id == #[trigger] spec_clean(gs, ids, empty)[i].call_id,
    decreases gs.len(),
{
    if gs.len() > 0 {
        let init = gs.drop_last();
        assert(distinct_calls(init));
        lemma_clean_distinct(init, ids, empty);
        let c = spec_clean(init, ids, empty);
        assert forall|i: int| 0 <= i < c.len() implies c[i].call_id != gs.last().call_id by {
            let j = choose|j: int| 0 <= j < init.len() && init[j].call_id == c[i].call_id;
            assert(gs[j] == init[j]);
        }
        assert forall|i: int| 0 <= i < spec_clean(gs, ids, empty).len() implies exists|j: int| 0 <= j < gs.len() && gs[j].call_id == #[trigger] spec_clean(gs, ids, empty)[i].call_id by {
            if i < c.len() {
                let j = choose|j: int| 0 <= j < init.len() && init[j].call_id == c[i].call_id;
                assert(gs[j] == init[j]);
            } else {
                assert(gs[gs.len() - 1].call_id == gs.last().call_id);
            }
        }
    }
}

} // verus!
