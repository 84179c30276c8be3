//! What a connection handler asks the relay to do: send messages to its peer,
//! to clients, to an iota or to omega, and close the connection.

use vstd::prelude::*;

use crate::communication::{CommunicationValue, MessageView};
use crate::json::JsonView;
use crate::wire::{CommunicationType, DataTypes};

verus! {

/// One effect of handling a message.
pub enum Outgoing {
    /// Send to the peer of this connection.
    Reply(CommunicationValue),
    /// Send to these client connections.
    ToClients(Vec<u64>, CommunicationValue),
    /// Send to the connection of this iota.
    ToIota(i64, CommunicationValue),
    /// Send to omega.
    ToOmega(CommunicationValue),
    /// Close this connection.
    Close,
    /// Close these client connections.
    CloseClients(Vec<u64>),
}

/// The content of an effect.
pub enum OutgoingView {
    Reply(MessageView),
    ToClients(Seq<u64>, MessageView),
    ToIota(i64, MessageView),
    ToOmega(MessageView),
    Close,
    CloseClients(Seq<u64>),
}

/// The view of an effect.
pub open spec fn outgoing_view(o: Outgoing) -> OutgoingView {
    match o {
        Outgoing::Reply(m) => OutgoingView::Reply(m@),
        Outgoing::ToClients(cs, m) => OutgoingView::ToClients(cs@, m@),
        Outgoing::ToIota(i, m) => OutgoingView::ToIota(i, m@),
        Outgoing::ToOmega(m) => OutgoingView::ToOmega(m@),
        Outgoing::Close => OutgoingView::Close,
        Outgoing::CloseClients(cs) => OutgoingView::CloseClients(cs@),
    }
}

/// The views of a list of effects.
pub open spec fn outgoing_views(os: Seq<Outgoing>) -> Seq<OutgoingView> {
    os.map_values(|o: Outgoing| outgoing_view(o))
}

/// A message of a kind answering message `id`, with no sender, receiver or data.
pub open spec fn bare_reply(id: u128, kind: CommunicationType) -> MessageView {
    MessageView { id, comm_type: kind, sender: 0, receiver: 0, data: Seq::empty() }
}

/// The error `kind` answering message `id`.
pub fn error_reply(id: u128, kind: CommunicationType) -> (r: CommunicationValue)
    ensures
        r.wf(),
        r@ == bare_reply(id, kind),
{
    CommunicationValue::new(kind).with_id(id)
}

/// Every message of the effects is well formed.
pub open spec fn all_wf(os: Seq<Outgoing>) -> bool {
    forall|i: int|
        0 <= i < os.len() ==> match #[trigger] os[i] {
            Outgoing::Reply(m) => m.wf(),
            Outgoing::ToClients(_, m) => m.wf(),
            Outgoing::ToIota(_, m) => m.wf(),
            Outgoing::ToOmega(m) => m.wf(),
            Outgoing::Close => true,
            Outgoing::CloseClients(_) => true,
        }
}

/// A reply that ends the connection: the error, then closing.
pub fn reject(id: u128, kind: CommunicationType) -> (r: Vec<Outgoing>)
    ensures
        all_wf(r@),
        outgoing_views(r@) == seq![OutgoingView::Reply(bare_reply(id, kind)), OutgoingView::Close],
{
    let mut v: Vec<Outgoing> = Vec::new();
    v.push(Outgoing::Reply(error_reply(id, kind)));
    v.push(Outgoing::Close);
    assert(outgoing_views(v@) =~= seq![OutgoingView::Reply(bare_reply(id, kind)), OutgoingView::Close]);
    v
}

/// A single reply.
pub fn reply_only(m: CommunicationValue) -> (r: Vec<Outgoing>)
    requires
        m.wf(),
    ensures
        all_wf(r@),
        outgoing_views(r@) == seq![OutgoingView::Reply(m@)],
{
    let ghost mv = m@;
    let mut v: Vec<Outgoing> = Vec::new();
    v.push(Outgoing::Reply(m));
    assert(outgoing_views(v@) =~= seq![OutgoingView::Reply(mv)]);
    v
}

/// The datum under `key`, as a message carries it.
pub open spec fn datum(m: MessageView, key: DataTypes) -> Option<JsonView> {
    crate::communication::field_get(m.data, key)
}

} // verus!
