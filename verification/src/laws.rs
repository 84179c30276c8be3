//! Properties of the relay that relate several operations or hold of every
//! state, stated over the models its operations' contracts use.

use vstd::prelude::*;

use crate::anonymous::{distinct_guests, guest_index_from, lemma_guest_index_from, spec_add_guest, AnonymousView};
use crate::calls::{
    admin_metadata, anonymous_metadata, contact_calls, memberships,
    distinct_calls, find_group, group_index_from, has_member, lemma_group_index_from,
    lemma_member_index_from, member_index_from, spec_clean, spec_get_caller, spec_join,
    without_user, CallGroupView, Caller,
};
use crate::hex::{hex_lower, hex_value, nibble_char, spec_hex_decode};
use crate::general_connection::{general_step_taken, spec_general_step, GeneralConnection, GeneralStep};
use crate::client_connection::{challenge_outcome, spec_client_route, ClientConnection, ClientRoute};
use crate::iota_connection::{spec_iota_route, IotaRoute};
use crate::anonymous_client_connection::{spec_anonymous_route, AnonymousRoute};
use crate::crypto_util::{kdf_info, spec_open, spec_seal};
use crate::primitives::{spec_aes_decrypt, spec_aes_encrypt, spec_hkdf_sha256, spec_x448};
use crate::wire::CommunicationType;
use crate::outgoing::OutgoingView;
use crate::communication::{distinct_keys, lemma_field_insert, with_field, MessageView};
use crate::iota_connection::{merge_ping, ping_slot, ping_table};
use crate::json::JsonView;
use crate::logger::spec_fixed_box;
use crate::outgoing::datum;
use crate::rho::{distinct_iotas, lemma_rho_index_from, rho_index_from, spec_add_rho, RhoView};
use crate::text::{join, split_chars};
use crate::user::UserStatus;
use crate::wire::DataTypes;

verus! {

/// A datum set on a message is read back from it, and every other datum is
/// read as before.
pub proof fn law_add_data_get_data(m: MessageView, k: DataTypes, v: JsonView)
    requires
        distinct_keys(m.data),
    ensures
        datum(with_field(m, k, v), k) == Some(v),
        forall|k2: DataTypes| k2 != k ==> datum(with_field(m, k, v), k2) == datum(m, k2),
        distinct_keys(with_field(m, k, v).data),
{
    lemma_field_insert(m.data, k, v);
}

proof fn lemma_find_after_push_member(gs: Seq<CallGroupView>, i: nat, c: Caller, call_id: u128)
    requires
        distinct_calls(gs),
        find_group(gs, call_id) == Some(i),
    ensures
        find_group(gs.update(i as int, CallGroupView { members: gs[i as int].members.push(c), ..gs[i as int] }), call_id) == Some(i),
        distinct_calls(gs.update(i as int, CallGroupView { members: gs[i as int].members.push(c), ..gs[i as int] })),
{
    let g = gs[i as int];
    let gs2 = gs.update(i as int, CallGroupView { members: g.members.push(c), ..g });
    lemma_group_index_from(gs, call_id, 0);
    lemma_group_index_from(gs2, call_id, 0);
    assert forall|m: int| 0 <= m < gs2.len() implies #[trigger] gs2[m].call_id == gs[m].call_id by {}
    match group_index_from(gs2, call_id, 0) {
        Some(j) => {
            assert(gs[j as int].call_id == call_id);
        },
        None => {
            assert(gs2[i as int].call_id == call_id);
        },
    }
}

/// Joining a call a second time changes nothing and hands out the same
/// caller: a user who joined is a member, whose caller is found again.
pub proof fn law_join_call_idempotent(gs: Seq<CallGroupView>, user_id: u64, call_id: u128)
    requires
        distinct_calls(gs),
    ensures
        spec_join(spec_join(gs, user_id, call_id).0, user_id, call_id) == spec_join(gs, user_id, call_id),
{
    let (gs1, c1) = spec_join(gs, user_id, call_id);
    lemma_group_index_from(gs, call_id, 0);
    match find_group(gs, call_id) {
        Some(i) => {
            let g = gs[i as int];
            lemma_member_index_from(g.members, user_id, 0);
            match spec_get_caller(g.members, user_id) {
                Some(c) => {},
                None => {
                    let ms2 = g.members.push(c1);
                    lemma_find_after_push_member(gs, i, c1, call_id);
                    lemma_member_index_from(ms2, user_id, 0);
                    match member_index_from(ms2, user_id, 0) {
                        Some(j) => {
                            if j < g.members.len() {
                                assert(ms2[j as int] == g.members[j as int]);
                            }
                        },
                        None => {
                            assert(ms2[g.members.len() as int].user_id == user_id);
                        },
                    }
                },
            }
        },
        None => {
            let g = CallGroupView { call_id, members: seq![c1], show: true, anonymous_joining: false, short_link: None };
            lemma_group_index_from(gs1, call_id, 0);
            match group_index_from(gs1, call_id, 0) {
                Some(j) => {
                    if j < gs.len() {
                        assert(gs1[j as int] == gs[j as int]);
                    }
                },
                None => {
                    assert(gs1[gs.len() as int].call_id == call_id);
                },
            }
            assert(distinct_calls(gs1)) by {
                assert forall|a: int, b: int| 0 <= a < b < gs1.len() implies gs1[a].call_id != gs1[b].call_id by {
                    if b == gs.len() {
                        assert(gs1[a] == gs[a]);
                    } else {
                        assert(gs1[a] == gs[a]);
                        assert(gs1[b] == gs[b]);
                    }
                }
            }
            assert(member_index_from(seq![c1], user_id, 0) == Some(0nat));
        },
    }
}

/// After joining a call, the call exists and the user is one of its
/// members.
pub proof fn law_join_call_makes_member(gs: Seq<CallGroupView>, user_id: u64, call_id: u128)
    requires
        distinct_calls(gs),
    ensures
        find_group(spec_join(gs, user_id, call_id).0, call_id) matches Some(i) && has_member(
            spec_join(gs, user_id, call_id).0[i as int].members,
            user_id,
        ),
        spec_join(gs, user_id, call_id).1.user_id == user_id,
        spec_join(gs, user_id, call_id).1.call_id == call_id || (find_group(gs, call_id) is Some && has_member(
            gs[find_group(gs, call_id)->0 as int].members,
            user_id,
        )),
{
    let (gs1, c1) = spec_join(gs, user_id, call_id);
    lemma_group_index_from(gs, call_id, 0);
    match find_group(gs, call_id) {
        Some(i) => {
            let g = gs[i as int];
            lemma_member_index_from(g.members, user_id, 0);
            match spec_get_caller(g.members, user_id) {
                Some(c) => {
                    let j = member_index_from(g.members, user_id, 0)->0;
                    assert(g.members[j as int].user_id == user_id);
                },
                None => {
                    lemma_find_after_push_member(gs, i, c1, call_id);
                    assert(gs1[i as int].members[g.members.len() as int].user_id == user_id);
                },
            }
        },
        None => {
            lemma_group_index_from(gs1, call_id, 0);
            match group_index_from(gs1, call_id, 0) {
                Some(j) => {
                    if j < gs.len() {
                        assert(gs1[j as int] == gs[j as int]);
                    }
                    assert(gs1[j as int].members[0].user_id == user_id);
                },
                None => {
                    assert(gs1[gs.len() as int].call_id == call_id);
                },
            }
        },
    }
}

/// Removing a user from a call's members leaves no member with the user's
/// id and keeps every other member.
pub proof fn law_remove_caller_removes_only_user(ms: Seq<Caller>, user_id: u64, other: u64)
    requires
        other != user_id,
    ensures
        !has_member(without_user(ms, user_id), user_id),
        has_member(without_user(ms, user_id), other) == has_member(ms, other),
{
    broadcast use vstd::seq_lib::group_filter_ensures;
    let f = |c: Caller| c.user_id != user_id;
    let w = ms.filter(f);
    assert forall|i: int| 0 <= i < w.len() implies w[i].user_id != user_id by {
        assert(w.contains(w[i]));
    }
    if has_member(ms, other) {
        let i = choose|i: int| 0 <= i < ms.len() && ms[i].user_id == other;
        assert(w.contains(ms[i]));
    }
    if has_member(w, other) {
        let i = choose|i: int| 0 <= i < w.len() && w[i].user_id == other;
        assert(w.contains(w[i]));
        ms.lemma_filter_contains_rev(f, w[i]);
        assert(ms.contains(w[i]));
    }
}

/// Cleaning the calls against the rooms keeps exactly the calls that have a
/// room, in order, each shown where its room has participants.
pub proof fn law_clean_calls_keeps_rooms(gs: Seq<CallGroupView>, ids: Seq<u128>, empty: Seq<u128>)
    ensures
        forall|i: int| 0 <= i < spec_clean(gs, ids, empty).len() ==> ids.contains(
            #[trigger] spec_clean(gs, ids, empty)[i].call_id,
        ),
        forall|i: int| 0 <= i < spec_clean(gs, ids, empty).len() ==> #[trigger] spec_clean(gs, ids, empty)[i].show
            == !empty.contains(spec_clean(gs, ids, empty)[i].call_id),
        forall|i: int| 0 <= i < gs.len() && ids.contains(#[trigger] gs[i].call_id) ==> exists|j: int|
            0 <= j < spec_clean(gs, ids, empty).len() && spec_clean(gs, ids, empty)[j] == (CallGroupView {
                show: !empty.contains(gs[i].call_id),
                ..gs[i]
            }),
    decreases gs.len(),
{
    if gs.len() > 0 {
        let rest = gs.drop_last();
        law_clean_calls_keeps_rooms(rest, ids, empty);
        let cr = spec_clean(rest, ids, empty);
        let c = spec_clean(gs, ids, empty);
        assert forall|i: int| 0 <= i < gs.len() && ids.contains(#[trigger] gs[i].call_id) implies exists|j: int|
            0 <= j < c.len() && c[j] == (CallGroupView { show: !empty.contains(gs[i].call_id), ..gs[i] }) by {
            if i < gs.len() - 1 {
                assert(rest[i] == gs[i]);
                let j = choose|j: int| 0 <= j < cr.len() && cr[j] == (CallGroupView { show: !empty.contains(rest[i].call_id), ..rest[i] });
                assert(c[j] == cr[j]);
            } else {
                assert(c[cr.len() as int] == (CallGroupView { show: !empty.contains(gs[i].call_id), ..gs[i] }));
            }
        }
        assert forall|i: int| 0 <= i < c.len() implies ids.contains(#[trigger] c[i].call_id) by {
            if i < cr.len() {
                assert(c[i] == cr[i]);
            }
        }
        assert forall|i: int| 0 <= i < c.len() implies #[trigger] c[i].show == !empty.contains(c[i].call_id) by {
            if i < cr.len() {
                assert(c[i] == cr[i]);
            }
        }
    }
}

/// Registering an iota's rho connection makes it the one found for the
/// iota, keeps one entry per iota, and leaves every other iota's entry as it
/// was.
pub proof fn law_add_rho_registers(rs: Seq<RhoView>, r: RhoView)
    requires
        distinct_iotas(rs),
    ensures
        distinct_iotas(spec_add_rho(rs, r)),
        rho_index_from(spec_add_rho(rs, r), r.iota_id, 0) matches Some(i) && spec_add_rho(rs, r)[i as int] == r,
        forall|iota: i64| iota != r.iota_id ==> (#[trigger] rho_index_from(spec_add_rho(rs, r), iota, 0) matches Some(j)
            ==> rho_index_from(rs, iota, 0) == Some(j) && spec_add_rho(rs, r)[j as int] == rs[j as int]),
{
    let rs2 = spec_add_rho(rs, r);
    lemma_rho_index_from(rs, r.iota_id, 0);
    assert forall|m: int| 0 <= m < rs.len() && m != (match rho_index_from(rs, r.iota_id, 0) {
        Some(i) => i as int,
        None => rs.len() as int,
    }) implies #[trigger] rs2[m] == rs[m] by {}
    assert(distinct_iotas(rs2)) by {
        assert forall|a: int, b: int| 0 <= a < b < rs2.len() implies rs2[a].iota_id != rs2[b].iota_id by {
            if a < rs.len() {
                assert(rs2[a].iota_id == rs[a].iota_id);
            }
            if b < rs.len() {
                assert(rs2[b].iota_id == rs[b].iota_id);
            }
        }
    }
    lemma_rho_index_from(rs2, r.iota_id, 0);
    match rho_index_from(rs2, r.iota_id, 0) {
        Some(j) => {
            match rho_index_from(rs, r.iota_id, 0) {
                Some(i) => {
                    assert(rs2[i as int].iota_id == r.iota_id);
                },
                None => {
                    assert(rs2[rs.len() as int].iota_id == r.iota_id);
                    if j < rs.len() {
                        assert(rs2[j as int] == rs[j as int]);
                    }
                },
            }
        },
        None => {
            match rho_index_from(rs, r.iota_id, 0) {
                Some(i) => {
                    assert(rs2[i as int].iota_id == r.iota_id);
                },
                None => {
                    assert(rs2[rs.len() as int].iota_id == r.iota_id);
                },
            }
        },
    }
    assert forall|iota: i64| iota != r.iota_id implies (#[trigger] rho_index_from(rs2, iota, 0) matches Some(j)
        ==> rho_index_from(rs, iota, 0) == Some(j) && rs2[j as int] == rs[j as int]) by {
        lemma_rho_index_from(rs2, iota, 0);
        lemma_rho_index_from(rs, iota, 0);
        match rho_index_from(rs2, iota, 0) {
            Some(j) => {
                if j < rs.len() {
                    assert(rs2[j as int].iota_id == rs[j as int].iota_id);
                    match rho_index_from(rs, iota, 0) {
                        Some(k) => {
                            assert(rs2[k as int].iota_id == iota);
                        },
                        None => {},
                    }
                } else {
                    assert(rs2[j as int] == r);
                }
            },
            None => {},
        }
    }
}

/// Registering a guest makes its profile the one found for its id, and
/// keeps one profile per id.
pub proof fn law_add_guest_registers(us: Seq<AnonymousView>, p: AnonymousView)
    requires
        distinct_guests(us),
    ensures
        distinct_guests(spec_add_guest(us, p)),
        guest_index_from(spec_add_guest(us, p), p.user_id, 0) matches Some(i) && spec_add_guest(us, p)[i as int] == p,
{
    let us2 = spec_add_guest(us, p);
    lemma_guest_index_from(us, p.user_id, 0);
    assert(distinct_guests(us2)) by {
        assert forall|a: int, b: int| 0 <= a < b < us2.len() implies us2[a].user_id != us2[b].user_id by {
            if a < us.len() && b < us.len() {
                assert(us2[a].user_id == us[a].user_id);
                assert(us2[b].user_id == us[b].user_id);
            } else if a < us.len() {
                assert(us2[a].user_id == us[a].user_id);
            }
        }
    }
    lemma_guest_index_from(us2, p.user_id, 0);
    match guest_index_from(us, p.user_id, 0) {
        Some(i) => {
            assert(us2[i as int].user_id == p.user_id);
        },
        None => {
            assert(us2[us.len() as int].user_id == p.user_id);
        },
    }
}

/// A request's answer is handed over once: once the answer has been taken,
/// the request no longer waits, so a second message with its id is no
/// answer.
pub proof fn law_answer_delivered_once(waiting: Map<u128, u64>, id: u128)
    ensures
        !waiting.remove(id).dom().contains(id),
        forall|other: u128| other != id ==> (#[trigger] waiting.remove(id).dom().contains(other) == waiting.dom().contains(other)),
{
}

/// Every user status is read back from its name.
pub proof fn law_status_name_round_trip(s: UserStatus)
    ensures
        UserStatus::spec_from_str(s.spec_name()) == Some(s),
{
    reveal_strlit("user_offline");
    reveal_strlit("user_online");
    reveal_strlit("user_dnd");
    reveal_strlit("user_idle");
    reveal_strlit("user_wc");
    reveal_strlit("user_borked");
    reveal_strlit("iota_offline");
    reveal_strlit("iota_online");
    reveal_strlit("iota_borked");
    reveal_with_fuel(UserStatus::first_named, 10);
    let all = UserStatus::spec_all();
    let k: int = match s {
        UserStatus::user_offline => 0,
        UserStatus::user_online => 1,
        UserStatus::user_dnd => 2,
        UserStatus::user_idle => 3,
        UserStatus::user_wc => 4,
        UserStatus::user_borked => 5,
        UserStatus::iota_offline => 6,
        UserStatus::iota_online => 7,
        UserStatus::iota_borked => 8,
    };
    assert(all[k] == s);
    assert(all[k].spec_name() == s.spec_name());
    assert forall|j: int| 0 <= j < 9 && j != k implies #[trigger] all[j].spec_name() != s.spec_name() by {
        assert(all[j] != s);
        assert(all[j].spec_name().len() != s.spec_name().len() || all[j].spec_name()[0] != s.spec_name()[0]
            || all[j].spec_name()[5] != s.spec_name()[5]);
    }
}

/// Splitting a text at a separator and joining the pieces with it gives the
/// text back.
pub proof fn law_split_join_round_trip(s: Seq<char>, sep: char)
    ensures
        join(split_chars(s, sep), seq![sep]) == s,
    decreases s.len(),
{
    if s.len() > 0 {
        let rest = s.drop_last();
        law_split_join_round_trip(rest, sep);
        crate::text::lemma_split_chars_len(rest, sep);
        let pieces = split_chars(rest, sep);
        if s.last() == sep {
            let p2 = pieces.push(Seq::empty());
            assert(p2.drop_last() =~= pieces);
            assert(join(p2, seq![sep]) =~= join(pieces, seq![sep]) + seq![sep] + Seq::<char>::empty());
            assert(rest.push(sep) =~= s);
        } else {
            let n = pieces.len();
            let p2 = pieces.update(n - 1, pieces.last().push(s.last()));
            lemma_join_last(pieces, seq![sep], s.last());
            assert(rest.push(s.last()) =~= s);
        }
    }
}

/// Adding a character to the last piece adds it to the end of the joined
/// text.
proof fn lemma_join_last(pieces: Seq<Seq<char>>, sep: Seq<char>, c: char)
    requires
        pieces.len() >= 1,
    ensures
        join(pieces.update(pieces.len() - 1, pieces.last().push(c)), sep) == join(pieces, sep).push(c),
{
    let p2 = pieces.update(pieces.len() - 1, pieces.last().push(c));
    if pieces.len() == 1 {
        assert(p2[0] == pieces[0].push(c));
    } else {
        assert(p2.drop_last() =~= pieces.drop_last());
        assert(p2.last() == pieces.last().push(c));
        assert(join(pieces, sep) + Seq::<char>::empty() =~= join(pieces, sep));
        assert(join(pieces.drop_last(), sep) + sep + pieces.last().push(c) =~= (join(pieces.drop_last(), sep) + sep
            + pieces.last()).push(c));
    }
}

/// A boxed text is as wide as the box, and two wider where it was padded
/// and bracketed.
pub proof fn law_fixed_box_width(content: Seq<char>, width: nat)
    ensures
        spec_fixed_box(content, width).len() == (if content.len() < width {
            width + 2
        } else {
            width
        }),
{
}

/// The ping table of an iota's clients holds each user once, every user of
/// a client, and the ping of the user's last client.
pub proof fn law_ping_table_one_entry_per_user(ps: Seq<(i64, i64)>)
    ensures
        forall|a: int, b: int| 0 <= a < b < ping_table(ps).len() ==> ping_table(ps)[a].0 != ping_table(ps)[b].0,
        forall|k: int| #![trigger ps[k]] 0 <= k < ps.len() ==> exists|a: int| #![trigger ping_table(ps)[a]] 0 <= a < ping_table(ps).len() && ping_table(ps)[a].0 == ps[k].0,
        ps.len() > 0 ==> exists|a: int| 0 <= a < ping_table(ps).len() && ping_table(ps)[a] == ps.last(),
    decreases ps.len(),
{
    if ps.len() > 0 {
        let rest = ps.drop_last();
        law_ping_table_one_entry_per_user(rest);
        let t = ping_table(rest);
        let p = ps.last();
        lemma_slot(t, p.0, 0);
        let t2 = merge_ping(t, p);
        assert(ping_table(ps) == t2);
        assert forall|k: int| #![trigger ps[k]] 0 <= k < ps.len() implies exists|a: int| #![trigger t2[a]] 0 <= a < t2.len() && t2[a].0 == ps[k].0 by {
            if k < ps.len() - 1 {
                assert(rest[k] == ps[k]);
                let a = choose|a: int| 0 <= a < t.len() && t[a].0 == rest[k].0;
                assert(t2[a].0 == t[a].0);
            } else {
                match ping_slot(t, p.0, 0) {
                    Some(i) => {
                        assert(t2[i as int].0 == p.0);
                    },
                    None => {
                        assert(t2[t.len() as int].0 == p.0);
                    },
                }
            }
        }
        match ping_slot(t, p.0, 0) {
            Some(i) => {
                assert(t2[i as int] == p);
            },
            None => {
                assert(t2[t.len() as int] == p);
            },
        }
    }
}

proof fn lemma_slot(es: Seq<(i64, i64)>, user: i64, i: nat)
    ensures
        ping_slot(es, user, i) matches Some(j) ==> i <= j < es.len() && es[j as int].0 == user,
        ping_slot(es, user, i) is None ==> forall|m: int| i <= m < es.len() ==> es[m].0 != user,
    decreases es.len() - i,
{
    if i < es.len() {
        lemma_slot(es, user, i + 1);
    }
}

/// The bytes of a text of ASCII characters.
pub open spec fn ascii_bytes(cs: Seq<char>) -> Seq<u8> {
    cs.map_values(|c: char| c as u8)
}

proof fn lemma_hex_lower_len(b: Seq<u8>)
    ensures
        hex_lower(b).len() == 2 * b.len(),
    decreases b.len(),
{
    if b.len() > 0 {
        lemma_hex_lower_len(b.drop_last());
    }
}

proof fn lemma_hex_lower_front(b: Seq<u8>)
    requires
        b.len() > 0,
    ensures
        hex_lower(b) == seq![nibble_char(b[0] / 16), nibble_char(b[0] % 16)] + hex_lower(b.subrange(1, b.len() as int)),
    decreases b.len(),
{
    let rest = b.subrange(1, b.len() as int);
    if b.len() == 1 {
        assert(b.drop_last() =~= Seq::<u8>::empty());
        assert(rest =~= Seq::<u8>::empty());
        assert(hex_lower(b) =~= seq![nibble_char(b[0] / 16), nibble_char(b[0] % 16)] + hex_lower(rest));
    } else {
        let d = b.drop_last();
        lemma_hex_lower_front(d);
        assert(d.subrange(1, d.len() as int) =~= rest.drop_last());
        assert(rest.last() == b.last());
        assert(d[0] == b[0]);
        assert(hex_lower(b) =~= seq![nibble_char(b[0] / 16), nibble_char(b[0] % 16)] + hex_lower(rest));
    }
}

proof fn lemma_nibble_value(n: u8)
    requires
        n < 16,
    ensures
        hex_value(nibble_char(n) as u8) == Some(n),
{
    if n < 10 {
        assert(((48 + n) as char) as u8 == 48 + n);
    } else {
        assert(((87 + n) as char) as u8 == 87 + n);
    }
}

/// The hex text of bytes reads back as those bytes.
pub proof fn law_hex_round_trip(b: Seq<u8>)
    ensures
        spec_hex_decode(ascii_bytes(hex_lower(b))) == Some(b),
    decreases b.len(),
{
    let t = ascii_bytes(hex_lower(b));
    lemma_hex_lower_len(b);
    if b.len() == 0 {
        assert(t =~= Seq::<u8>::empty());
    } else {
        let rest = b.subrange(1, b.len() as int);
        lemma_hex_lower_front(b);
        law_hex_round_trip(rest);
        lemma_hex_lower_len(rest);
        let h = b[0] / 16;
        let l = b[0] % 16;
        lemma_nibble_value(h);
        lemma_nibble_value(l);
        assert(t[0] == nibble_char(h) as u8);
        assert(t[1] == nibble_char(l) as u8);
        assert(t.subrange(2, t.len() as int) =~= ascii_bytes(hex_lower(rest)));
        assert((h * 16 + l) as u8 == b[0]);
        assert(seq![b[0]] + rest =~= b);
    }
}

/// The ASCII lowercase of a byte.
pub open spec fn ascii_lower_byte(c: u8) -> u8 {
    if 65 <= c && c <= 90 {
        (c + 32) as u8
    } else {
        c
    }
}

proof fn lemma_hex_digit_lower(c: u8)
    requires
        hex_value(c) is Some,
    ensures
        hex_value(c)->0 < 16,
        nibble_char(hex_value(c)->0) as u8 == ascii_lower_byte(c),
{
}

/// Hex text that reads as bytes is written back as its lowercase: exporting
/// what was read from hex gives the text in lowercase.
pub proof fn law_hex_export_round_trip(t: Seq<u8>)
    requires
        spec_hex_decode(t) is Some,
    ensures
        ascii_bytes(hex_lower(spec_hex_decode(t)->0)) == t.map_values(|c: u8| ascii_lower_byte(c)),
    decreases t.len(),
{
    let b = spec_hex_decode(t)->0;
    if t.len() == 0 {
        assert(b =~= Seq::<u8>::empty());
        assert(ascii_bytes(hex_lower(b)) =~= t.map_values(|c: u8| ascii_lower_byte(c)));
    } else {
        let rest_t = t.subrange(2, t.len() as int);
        let h = hex_value(t[0])->0;
        let l = hex_value(t[1])->0;
        let rest = spec_hex_decode(rest_t)->0;
        law_hex_export_round_trip(rest_t);
        lemma_hex_digit_lower(t[0]);
        lemma_hex_digit_lower(t[1]);
        let x = (h * 16 + l) as u8;
        assert(b == seq![x] + rest);
        assert(x / 16 == h && x % 16 == l) by (nonlinear_arith)
            requires
                h < 16,
                l < 16,
                x == h * 16 + l,
        ;
        assert(b.subrange(1, b.len() as int) =~= rest);
        lemma_hex_lower_front(b);
        lemma_hex_lower_len(rest);
        lemma_hex_lower_len(b);
        assert(ascii_bytes(hex_lower(rest)).len() == rest_t.map_values(|c: u8| ascii_lower_byte(c)).len());
        assert(ascii_bytes(hex_lower(b)) =~= t.map_values(|c: u8| ascii_lower_byte(c))) by {
            let lhs = ascii_bytes(hex_lower(b));
            let rhs = t.map_values(|c: u8| ascii_lower_byte(c));
            assert(lhs.len() == rhs.len());
            assert forall|k: int| 0 <= k < lhs.len() implies lhs[k] == rhs[k] by {
                if k >= 2 {
                    assert(lhs[k] == ascii_bytes(hex_lower(rest))[k - 2]);
                    assert(rhs[k] == rest_t.map_values(|c: u8| ascii_lower_byte(c))[k - 2]);
                }
            }
        }
    }
}

/// The client handshake keeps its order: checking the answer to the
/// challenge, which the routing takes only on an identified connection that
/// is not yet challenged, withdraws neither flag, and a connection is
/// challenged only once it is identified.
pub proof fn law_client_handshake_order(
    before: ClientConnection,
    after: ClientConnection,
    rs_before: Seq<RhoView>,
    rs_after: Seq<RhoView>,
    m: MessageView,
    out: Seq<OutgoingView>,
)
    requires
        spec_client_route(before.identified, before.challenged, m.comm_type) == ClientRoute::ChallengeResponse,
        challenge_outcome(before, after, rs_before, rs_after, m, out),
    ensures
        after.identified,
        after.challenged ==> after.identified,
        before.challenged ==> after.challenged,
{
}

/// Over any run of steps of a connection not yet handed over, starting from
/// a fresh connection: it is challenged only once identified, neither flag
/// is ever withdrawn, and it is handed over only once both are set.
pub proof fn law_general_run(states: Seq<GeneralConnection>)
    requires
        states.len() > 0,
        !states[0].identified,
        !states[0].challenged,
        forall|i: int| 0 <= i < states.len() - 1 ==> general_step_taken(#[trigger] states[i], states[i + 1]),
    ensures
        forall|i: int| 0 <= i < states.len() ==> (#[trigger] states[i]).challenged ==> states[i].identified,
        forall|i: int, j: int|
            0 <= i <= j < states.len() ==> (#[trigger] states[i].identified ==> #[trigger] states[j].identified)
                && (states[i].challenged ==> states[j].challenged),
        forall|i: int|
            0 <= i < states.len() && spec_general_step(states[i].identified, states[i].challenged)
                == GeneralStep::Migrate ==> #[trigger] states[i].identified && states[i].challenged,
    decreases states.len(),
{
    if states.len() > 1 {
        let init = states.drop_last();
        assert forall|i: int| 0 <= i < init.len() - 1 implies general_step_taken(#[trigger] init[i], init[i + 1]) by {
            assert(init[i] == states[i]);
            assert(init[i + 1] == states[i + 1]);
            assert(general_step_taken(states[i], states[i + 1]));
        }
        law_general_run(init);
        let n = states.len() - 1;
        assert(general_step_taken(states[n - 1], states[n]));
        assert(init[n - 1] == states[n - 1]);
        assert forall|i: int| 0 <= i < states.len() implies (#[trigger] states[i]).challenged ==> states[i].identified by {
            if i < n {
                assert(init[i] == states[i]);
            }
        }
        assert forall|i: int, j: int|
            0 <= i <= j < states.len() implies (#[trigger] states[i].identified ==> #[trigger] states[j].identified)
                && (states[i].challenged ==> states[j].challenged) by {
            if j < n {
                assert(init[i] == states[i]);
                assert(init[j] == states[j]);
            } else if i < n {
                assert(init[i] == states[i]);
                assert(init[n - 1] == states[n - 1]);
                assert(init[i].identified ==> init[n - 1].identified);
                assert(init[i].challenged ==> init[n - 1].challenged);
            }
        }
    }
}

/// An identified client's requests for its own data, notifications, its
/// iota's data and account deletion go to omega, whether or not the
/// challenge has been answered yet.
pub proof fn law_client_omega_requests(identified: bool, challenged: bool, t: CommunicationType)
    requires
        identified,
        t == CommunicationType::change_user_data || t == CommunicationType::read_notification
            || t == CommunicationType::get_notifications || t == CommunicationType::get_iota_data
            || t == CommunicationType::delete_user,
    ensures
        spec_client_route(identified, challenged, t) == ClientRoute::OmegaForward,
{
}

/// An identified iota's requests about user data, its own data, registration
/// and its deletion, addressed to a user it serves, go to omega.
pub proof fn law_iota_omega_requests(user_ids: Seq<i64>, m: MessageView)
    requires
        user_ids.contains(m.receiver),
        m.comm_type == CommunicationType::change_iota_data || m.comm_type == CommunicationType::get_user_data
            || m.comm_type == CommunicationType::get_iota_data || m.comm_type == CommunicationType::get_register
            || m.comm_type == CommunicationType::complete_register_user || m.comm_type
            == CommunicationType::delete_iota,
    ensures
        spec_iota_route(true, user_ids, m) == IotaRoute::OmegaForward,
{
}

proof fn lemma_memberships(ms: Seq<Caller>, user: u64, call_id: u128)
    ensures
        forall|k: int| 0 <= k < memberships(ms, user, call_id).len() ==> #[trigger] memberships(ms, user, call_id)[k]
            == call_id && has_member(ms, user),
    decreases ms.len(),
{
    if ms.len() > 0 {
        let init = ms.drop_last();
        lemma_memberships(init, user, call_id);
        assert forall|k: int| 0 <= k < memberships(ms, user, call_id).len() implies #[trigger] memberships(ms, user, call_id)[k]
            == call_id && has_member(ms, user) by {
            let mi = memberships(init, user, call_id);
            if ms.last().user_id == user {
                assert(memberships(ms, user, call_id) == mi.push(call_id));
                assert(ms[ms.len() - 1].user_id == user);
                if k < mi.len() {
                    assert(memberships(ms, user, call_id)[k] == mi[k]);
                }
            } else {
                assert(memberships(ms, user, call_id) == mi);
                assert(mi[k] == call_id && has_member(init, user));
                let j = choose|j: int| 0 <= j < init.len() && init[j].user_id == user;
                assert(ms[j] == init[j]);
            }
        }
    }
}

/// The group of the `k`-th call a contact is enriched with.
proof fn contact_call_group(gs: Seq<CallGroupView>, receiver: u64, user: u64, k: int) -> (i: int)
    requires
        0 <= k < contact_calls(gs, receiver, user).len(),
    ensures
        0 <= i < gs.len(),
        gs[i].call_id == contact_calls(gs, receiver, user)[k],
        has_member(gs[i].members, receiver),
        has_member(gs[i].members, user),
    decreases gs.len(),
{
    let init = gs.drop_last();
    let last = gs.last();
    let ci = contact_calls(init, receiver, user);
    if has_member(last.members, receiver) {
        let ms = memberships(last.members, user, last.call_id);
        lemma_memberships(last.members, user, last.call_id);
        assert(contact_calls(gs, receiver, user) == ci + ms);
        if k < ci.len() {
            let i = contact_call_group(init, receiver, user, k);
            assert(gs[i] == init[i]);
            i
        } else {
            assert(contact_calls(gs, receiver, user)[k] == ms[k - ci.len()]);
            assert(gs[gs.len() - 1] == last);
            gs.len() - 1
        }
    } else {
        assert(contact_calls(gs, receiver, user) == ci);
        let i = contact_call_group(init, receiver, user, k);
        assert(gs[i] == init[i]);
        i
    }
}

/// Every call a contact is enriched with is a call that both the receiver
/// and the contact are members of: the `k`-th call listed is the id of a
/// group that has both among its members.
pub proof fn law_contact_calls_are_shared(gs: Seq<CallGroupView>, receiver: u64, user: u64, k: int)
    requires
        0 <= k < contact_calls(gs, receiver, user).len(),
    ensures
        exists|i: int|
            0 <= i < gs.len() && #[trigger] gs[i].call_id == contact_calls(gs, receiver, user)[k]
                && has_member(gs[i].members, receiver) && has_member(gs[i].members, user),
{
    let i = contact_call_group(gs, receiver, user, k);
    assert(gs[i].call_id == contact_calls(gs, receiver, user)[k]);
}

/// The room metadata names the flag that was set: turning anonymous joining
/// on and off record different metadata, each the JSON object whose
/// `anonymous_joining` member is the flag's text.
pub proof fn law_anonymous_metadata_names_flag(a: bool, b: bool)
    ensures
        anonymous_metadata(a) == anonymous_metadata(b) ==> a == b,
        anonymous_metadata(a) == "{\"anonymous_joining\": \""@ + (if a { "true"@ } else { "false"@ }) + "\"}"@,
{
    reveal_strlit("{\"anonymous_joining\": \"true\"}");
    reveal_strlit("{\"anonymous_joining\": \"false\"}");
    reveal_strlit("{\"anonymous_joining\": \"");
    reveal_strlit("true");
    reveal_strlit("false");
    reveal_strlit("\"}");
    assert(anonymous_metadata(a) =~= "{\"anonymous_joining\": \""@ + (if a { "true"@ } else { "false"@ }) + "\"}"@);
    if anonymous_metadata(a) == anonymous_metadata(b) && a != b {
        assert(anonymous_metadata(true)[23] != anonymous_metadata(false)[23]);
    }
}

/// A payload is sealed for a peer under key material derived with HKDF-SHA256
/// from the X448 shared secret, with the info bytes of the text
/// `x448-aes-gcm-no-overhead` and 44 bytes of output: AES-256-GCM under its
/// first 32 bytes as key and its last 12 as nonce; opening uses the same.
pub proof fn law_payload_key_material(secret: Seq<u8>, peer: Seq<u8>, data: Seq<u8>)
    ensures
        kdf_info() == seq![
            120u8, 52, 52, 56, 45, 97, 101, 115, 45, 103, 99, 109, 45, 110, 111, 45, 111, 118, 101, 114, 104,
            101, 97, 100,
        ],
        ({
            let okm = spec_hkdf_sha256(spec_x448(secret, peer)->0, kdf_info(), 44)->0;
            &&& spec_seal(secret, peer, data) == spec_aes_encrypt(okm.subrange(0, 32), okm.subrange(32, 44), data)
            &&& spec_open(secret, peer, data) == spec_aes_decrypt(okm.subrange(0, 32), okm.subrange(32, 44), data)
        }),
{
    reveal_strlit("x448-aes-gcm-no-overhead");
    let cs = "x448-aes-gcm-no-overhead"@;
    assert(vstd::utf8::is_ascii_chars(cs));
    vstd::utf8::is_ascii_chars_encode_utf8(cs);
    assert(kdf_info() =~= seq![
        120u8, 52, 52, 56, 45, 97, 101, 115, 45, 103, 99, 109, 45, 110, 111, 45, 111, 118, 101, 114, 104,
        101, 97, 100,
    ]);
}

/// A client that has not identified itself may only ping, identify, or be
/// refused; it identifies only with an identification.
pub proof fn law_client_unidentified(challenged: bool, t: CommunicationType)
    ensures
        spec_client_route(false, challenged, t) == ClientRoute::Ping <==> t == CommunicationType::ping,
        spec_client_route(false, challenged, t) == ClientRoute::Identify <==> t
            == CommunicationType::identification,
        t != CommunicationType::ping && t != CommunicationType::identification ==> spec_client_route(
            false,
            challenged,
            t,
        ) == ClientRoute::NotAuthenticated,
{
}

/// An identified client's call requests go to their handlers, and its
/// request for user data is answered by the relay or omega.
pub proof fn law_client_call_requests(challenged: bool)
    ensures
        spec_client_route(true, challenged, CommunicationType::call_invite) == ClientRoute::CallInvite,
        spec_client_route(true, challenged, CommunicationType::call_token) == ClientRoute::CallToken,
        spec_client_route(true, challenged, CommunicationType::call_disconnect_user)
            == ClientRoute::CallDisconnectUser,
        spec_client_route(true, challenged, CommunicationType::call_timeout_user)
            == ClientRoute::CallTimeoutUser,
        spec_client_route(true, challenged, CommunicationType::call_set_anonymous_joining)
            == ClientRoute::CallSetAnonymousJoining,
        spec_client_route(true, challenged, CommunicationType::get_user_data) == ClientRoute::UserData,
        spec_client_route(true, challenged, CommunicationType::client_changed) == ClientRoute::ClientChanged,
        spec_client_route(true, false, CommunicationType::challenge_response)
            == ClientRoute::ChallengeResponse,
{
}

/// A guest's requests for its iota's data and for deletion go to omega; its
/// call requests go to their handlers.
pub proof fn law_guest_routes(t: CommunicationType)
    ensures
        t == CommunicationType::get_iota_data || t == CommunicationType::delete_user ==> spec_anonymous_route(t)
            == AnonymousRoute::OmegaForward,
        spec_anonymous_route(CommunicationType::identification) == AnonymousRoute::Identify,
        spec_anonymous_route(CommunicationType::call_invite) == AnonymousRoute::CallInvite,
        spec_anonymous_route(CommunicationType::call_token) == AnonymousRoute::CallToken,
        spec_anonymous_route(CommunicationType::call_disconnect_user) == AnonymousRoute::CallDisconnectUser,
        spec_anonymous_route(CommunicationType::call_timeout_user) == AnonymousRoute::CallTimeoutUser,
        spec_anonymous_route(CommunicationType::change_user_data) == AnonymousRoute::ChangeUserData,
        spec_anonymous_route(CommunicationType::get_user_data) == AnonymousRoute::UserData,
{
}

/// An iota that has not identified itself may only identify or be refused;
/// an identified iota's messages for a user it does not serve, and its
/// messages for other iotas and chat messages, go to another iota.
pub proof fn law_iota_routes(identified: bool, user_ids: Seq<i64>, m: MessageView)
    ensures
        !identified ==> (spec_iota_route(identified, user_ids, m) == IotaRoute::Identify <==> m.comm_type
            == CommunicationType::identification),
        !identified && m.comm_type != CommunicationType::identification ==> spec_iota_route(
            identified,
            user_ids,
            m,
        ) == IotaRoute::NotAuthenticated,
        identified && m.comm_type != CommunicationType::ping && (!user_ids.contains(m.receiver) || m.comm_type
            == CommunicationType::message_other_iota || m.comm_type == CommunicationType::send_chat)
            ==> spec_iota_route(identified, user_ids, m) == IotaRoute::Forward,
        identified && user_ids.contains(m.receiver) && m.comm_type == CommunicationType::get_chats
            ==> spec_iota_route(identified, user_ids, m) == IotaRoute::GetChats,
{
}

/// A token's metadata names the caller's admin rights: callers with and
/// without them get different metadata, the JSON object whose `isAdmin`
/// member is the flag.
pub proof fn law_admin_metadata_names_flag(a: bool, b: bool)
    ensures
        admin_metadata(a) == admin_metadata(b) ==> a == b,
        admin_metadata(a) == "{\"isAdmin\":"@ + (if a { "true"@ } else { "false"@ }) + "}"@,
{
    reveal_strlit("{\"isAdmin\":true}");
    reveal_strlit("{\"isAdmin\":false}");
    reveal_strlit("{\"isAdmin\":");
    reveal_strlit("true");
    reveal_strlit("false");
    reveal_strlit("}");
    assert(admin_metadata(a) =~= "{\"isAdmin\":"@ + (if a { "true"@ } else { "false"@ }) + "}"@);
    if admin_metadata(a) == admin_metadata(b) && a != b {
        assert(admin_metadata(true)[11] != admin_metadata(false)[11]);
    }
}

} // verus!
