//! The message envelope: an id, a kind, sender and receiver ids and keyed
//! data fields, with its JSON form.

use vstd::prelude::*;

use crate::clock::current_millis;
use crate::ids::{new_uuid, spec_uuid_parse, spec_uuid_string, uuid_parse, uuid_to_string};
use crate::json::{
    display, dump, entry_views, json_views, lemma_entry_views_index, lemma_entry_views_len,
    lemma_entry_views_push, parse_json, spec_json_display, spec_json_dump, spec_json_parse,
    spec_number_from_i64, Json, JsonNumber, JsonView,
};
use crate::text::{decimal_int, i64_to_string};
use crate::wire::{CommunicationType, DataTypes};

verus! {

/// The content of a message.
pub struct MessageView {
    pub id: u128,
    pub comm_type: CommunicationType,
    pub sender: i64,
    pub receiver: i64,
    /// The data fields in the order they were first set; no key occurs twice.
    pub data: Seq<(DataTypes, JsonView)>,
}

/// A message as it is routed between clients, iotas and omega.
pub struct CommunicationValue {
    id: u128,
    comm_type: CommunicationType,
    sender: i64,
    receiver: i64,
    data: Vec<(DataTypes, Json)>,
}

/// The views of data fields.
pub open spec fn fields_view(s: Seq<(DataTypes, Json)>) -> Seq<(DataTypes, JsonView)> {
    s.map_values(|e: (DataTypes, Json)| (e.0, e.1@))
}

/// The index of the first field with key `k`, searching from `i`.
pub open spec fn field_index_from(s: Seq<(DataTypes, JsonView)>, k: DataTypes, i: nat) -> Option<nat>
    decreases s.len() - i,
{
    if i >= s.len() {
        None
    } else if s[i as int].0 == k {
        Some(i)
    } else {
        field_index_from(s, k, i + 1)
    }
}

/// The value of the field with key `k`.
pub open spec fn field_get(s: Seq<(DataTypes, JsonView)>, k: DataTypes) -> Option<JsonView> {
    match field_index_from(s, k, 0) {
        Some(i) => Some(s[i as int].1),
        None => None,
    }
}

/// The fields after setting `k` to `v`: the value is replaced where the key is
/// present, and the field appended where it is not.
pub open spec fn field_insert(s: Seq<(DataTypes, JsonView)>, k: DataTypes, v: JsonView) -> Seq<
    (DataTypes, JsonView),
> {
    match field_index_from(s, k, 0) {
        Some(i) => s.update(i as int, (k, v)),
        None => s.push((k, v)),
    }
}

/// No key occurs twice among the fields.
pub open spec fn distinct_keys(s: Seq<(DataTypes, JsonView)>) -> bool {
    forall|i: int, j: int| 0 <= i < j < s.len() ==> s[i].0 != s[j].0
}

/// The first index found is the index of a field with that key, and no
/// earlier field has it.
pub proof fn lemma_field_index_from(s: Seq<(DataTypes, JsonView)>, k: DataTypes, i: nat)
    ensures
        field_index_from(s, k, i) matches Some(j) ==> i <= j < s.len() && s[j as int].0 == k
            && forall|m: int| i <= m < j ==> s[m].0 != k,
        field_index_from(s, k, i) is None ==> forall|m: int| i <= m < s.len() ==> s[m].0 != k,
    decreases s.len() - i,
{
    if i < s.len() {
        lemma_field_index_from(s, k, i + 1);
    }
}

/// Setting a field keeps the keys distinct, and the field then holds `v`.
pub proof fn lemma_field_insert(s: Seq<(DataTypes, JsonView)>, k: DataTypes, v: JsonView)
    requires
        distinct_keys(s),
    ensures
        distinct_keys(field_insert(s, k, v)),
        field_get(field_insert(s, k, v), k) == Some(v),
        forall|k2: DataTypes| k2 != k ==> field_get(field_insert(s, k, v), k2) == field_get(s, k2),
{
    lemma_field_index_from(s, k, 0);
    let t = field_insert(s, k, v);
    lemma_field_index_from(t, k, 0);
    assert forall|k2: DataTypes| k2 != k implies field_get(t, k2) == field_get(s, k2) by {
        lemma_field_index_from(s, k2, 0);
        lemma_field_index_from(t, k2, 0);
        match field_index_from(s, k2, 0) {
            Some(j) => {
                match field_index_from(t, k2, 0) {
                    Some(j2) => {
                        assert(j2 == j);
                    },
                    None => {
                        assert(t[j as int].0 == k2);
                    },
                }
            },
            None => {
                match field_index_from(t, k2, 0) {
                    Some(j2) => {
                        assert(s[j2 as int].0 == k2);
                    },
                    None => {},
                }
            },
        }
    }
    match field_index_from(t, k, 0) {
        Some(j2) => {
            match field_index_from(s, k, 0) {
                Some(j) => {
                    assert(j2 == j);
                },
                None => {
                    assert(j2 == s.len());
                },
            }
        },
        None => {
            match field_index_from(s, k, 0) {
                Some(j) => {
                    assert(t[j as int].0 == k);
                },
                None => {
                    assert(t[s.len() as int].0 == k);
                },
            }
        },
    }
}

/// The message that results from setting field `k` to `v`.
pub open spec fn with_field(m: MessageView, k: DataTypes, v: JsonView) -> MessageView {
    MessageView { data: field_insert(m.data, k, v), ..m }
}

/// The key under which a data field is written in JSON: the key's name.
pub open spec fn data_object(s: Seq<(DataTypes, JsonView)>) -> Seq<(Seq<char>, JsonView)> {
    s.map_values(|e: (DataTypes, JsonView)| (e.0.spec_name(), e.1))
}

/// The JSON form of a message: `id`, `type`, then `sender` and `receiver` where
/// they are positive, then the `data` object.
pub open spec fn spec_to_json(m: MessageView) -> JsonView {
    let base = seq![
        ("id"@, JsonView::Str(spec_uuid_string(m.id))),
        ("type"@, JsonView::Str(m.comm_type.spec_name())),
    ];
    let with_sender = if m.sender > 0 {
        base.push(("sender"@, JsonView::Number(spec_number_from_i64(m.sender))))
    } else {
        base
    };
    let with_receiver = if m.receiver > 0 {
        with_sender.push(("receiver"@, JsonView::Number(spec_number_from_i64(m.receiver))))
    } else {
        with_sender
    };
    JsonView::Object(with_receiver.push(("data"@, JsonView::Object(data_object(m.data)))))
}

/// The data fields read from the entries of a JSON object, in order: each key
/// is read as a `DataTypes`, and a later entry replaces an earlier one with the
/// same key.
pub open spec fn fields_from_entries(es: Seq<(Seq<char>, JsonView)>) -> Seq<(DataTypes, JsonView)>
    decreases es.len(),
{
    if es.len() == 0 {
        Seq::empty()
    } else {
        field_insert(
            fields_from_entries(es.drop_last()),
            DataTypes::spec_parse(es.last().0),
            es.last().1,
        )
    }
}

/// The integer under `key` of a parsed message where the key is present, or 0.
pub open spec fn int_member(p: JsonView, key: Seq<char>) -> i64 {
    if p.spec_get(key) is Some {
        match p.spec_member(key).spec_as_i64() {
            Some(x) => x,
            None => 0,
        }
    } else {
        0
    }
}

/// What `Uuid::parse_str` reads from the `id` member (an empty text where it is
/// not a string), or `fallback` where that fails.
pub open spec fn id_member(p: JsonView, fallback: u128) -> u128 {
    let text = match p.spec_member("id"@).spec_as_str() {
        Some(t) => t,
        None => Seq::empty(),
    };
    match spec_uuid_parse(text) {
        Some(u) => u,
        None => fallback,
    }
}

/// The message read from a JSON text, with `fallback` as its id where the text
/// gives none: an unparsable text gives an empty `error` message.
pub open spec fn spec_from_json(s: Seq<char>, fallback: u128) -> MessageView {
    spec_from_parsed(spec_json_parse(s), fallback)
}

/// The message a parsed JSON value describes (`None` where the text did not
/// parse), with `fallback` as its id where the value gives none: an
/// unparsable text gives an empty `error` message.
pub open spec fn spec_from_parsed(parsed: Option<JsonView>, fallback: u128) -> MessageView {
    match parsed {
        Some(p) => MessageView {
            id: id_member(p, fallback),
            comm_type: CommunicationType::spec_parse(spec_json_display(p.spec_member("type"@))),
            sender: int_member(p, "sender"@),
            receiver: int_member(p, "receiver"@),
            data: match p.spec_member("data"@) {
                JsonView::Object(es) => fields_from_entries(es),
                _ => Seq::empty(),
            },
        },
        None => MessageView {
            id: fallback,
            comm_type: CommunicationType::error,
            sender: 0,
            receiver: 0,
            data: Seq::empty(),
        },
    }
}

/// The message that relays a chat message to the iota of its receiver, at
/// `now_ms` milliseconds since the epoch.
pub open spec fn spec_forward_to_other_iota(m: MessageView, now_ms: i64) -> MessageView {
    let receiver = match field_get(m.data, DataTypes::receiver_id) {
        Some(v) => match v.spec_as_i64() {
            Some(x) => x,
            None => 0,
        },
        None => 0,
    };
    let content = field_get(m.data, DataTypes::content)->0;
    let base = MessageView {
        id: m.id,
        comm_type: CommunicationType::message_other_iota,
        sender: m.sender,
        receiver,
        data: Seq::empty(),
    };
    let m1 = with_field(base, DataTypes::receiver_id, JsonView::Number(spec_number_from_i64(receiver)));
    let m2 = with_field(m1, DataTypes::send_time, JsonView::Str(decimal_int(now_ms as int)));
    let m3 = with_field(m2, DataTypes::sender_id, JsonView::Number(spec_number_from_i64(m.sender)));
    with_field(m3, DataTypes::content, JsonView::Str(spec_json_display(content)))
}

impl View for CommunicationValue {
    type V = MessageView;

    closed spec fn view(&self) -> MessageView {
        MessageView {
            id: self.id,
            comm_type: self.comm_type,
            sender: self.sender,
            receiver: self.receiver,
            data: fields_view(self.data@),
        }
    }
}

impl CommunicationValue {
    /// The fields are well formed: no key occurs twice.
    pub open spec fn wf(&self) -> bool {
        distinct_keys(self@.data)
    }

    /// A fresh message of a kind, with a random id, no sender, no receiver and
    /// no data.
    pub fn new(comm_type: CommunicationType) -> (r: Self)
        ensures
            r.wf(),
            r@.comm_type == comm_type,
            r@.sender == 0,
            r@.receiver == 0,
            r@.data == Seq::<(DataTypes, JsonView)>::empty(),
    {
        let r = CommunicationValue {
            id: new_uuid(),
            comm_type,
            sender: 0,
            receiver: 0,
            data: Vec::new(),
        };
        assert(r@.data =~= Seq::empty());
        r
    }

    /// The message with another id.
    pub fn with_id(self, p0: u128) -> (r: Self)
        ensures
            r@ == (MessageView { id: p0, ..self@ }),
    {
        CommunicationValue { id: p0, ..self }
    }

    /// The message's id.
    pub fn get_id(&self) -> (r: u128)
        ensures
            r == self@.id,
    {
        self.id
    }

    /// The message with another sender.
    pub fn with_sender(self, sender: i64) -> (r: Self)
        ensures
            r@ == (MessageView { sender, ..self@ }),
    {
        CommunicationValue { sender, ..self }
    }

    /// The message's sender.
    pub fn get_sender(&self) -> (r: i64)
        ensures
            r == self@.sender,
    {
        self.sender
    }

    /// The message with another receiver.
    pub fn with_receiver(self, receiver: i64) -> (r: Self)
        ensures
            r@ == (MessageView { receiver, ..self@ }),
    {
        CommunicationValue { receiver, ..self }
    }

    /// The message's receiver.
    pub fn get_receiver(&self) -> (r: i64)
        ensures
            r == self@.receiver,
    {
        self.receiver
    }

    /// The message with field `key` set to `value`.
    pub fn add_data(self, key: DataTypes, value: Json) -> (r: Self)
        requires
            self.wf(),
        ensures
            r.wf(),
            r@ == with_field(self@, key, value@),
    {
        let mut s = self;
        let ghost old_view = s@;
        let ghost old_data = s@.data;
        let mut i: usize = 0;
        while i < s.data.len()
            invariant
                i <= s.data.len(),
                s@ == old_view,
                old_view == self@,
                old_data == old_view.data,
                distinct_keys(old_data),
                field_index_from(old_data, key, 0) == field_index_from(old_data, key, i as nat),
            decreases s.data.len() - i,
        {
            if s.data[i].0 == key {
                proof {
                    lemma_field_insert(old_data, key, value@);
                    assert(old_data[i as int].0 == key);
                    assert(field_index_from(old_data, key, i as nat) == Some(i as nat));
                }
                s.data.set(i, (key, value));
                proof {
                    assert(fields_view(s.data@) =~= old_data.update(i as int, (key, value@)));
                }
                return s;
            }
            i = i + 1;
        }
        proof {
            lemma_field_insert(old_data, key, value@);
            assert(field_index_from(old_data, key, i as nat) is None);
        }
        s.data.push((key, value));
        assert(fields_view(s.data@) =~= old_data.push((key, value@)));
        s
    }

    /// The message with field `key` set to a number.
    pub fn add_data_num(self, key: DataTypes, value: JsonNumber) -> (r: Self)
        requires
            self.wf(),
        ensures
            r.wf(),
            r@ == with_field(self@, key, JsonView::Number(value)),
    {
        self.add_data(key, Json::Number(value))
    }

    /// The message with field `key` set to a string.
    pub fn add_data_str(self, key: DataTypes, value: String) -> (r: Self)
        requires
            self.wf(),
        ensures
            r.wf(),
            r@ == with_field(self@, key, JsonView::Str(value@)),
    {
        self.add_data(key, Json::Str(value))
    }

    /// The message with field `key` set to an array.
    pub fn add_array(self, key: DataTypes, value: Vec<Json>) -> (r: Self)
        requires
            self.wf(),
        ensures
            r.wf(),
            r@ == with_field(self@, key, JsonView::Array(json_views(value@))),
    {
        self.add_data(key, Json::Array(value))
    }

    /// The value of field `key`.
    pub fn get_data(&self, key: DataTypes) -> (r: Option<&Json>)
        ensures
            r is Some == field_get(self@.data, key) is Some,
            r matches Some(v) ==> v@ == field_get(self@.data, key)->0,
    {
        let mut i: usize = 0;
        while i < self.data.len()
            invariant
                i <= self.data.len(),
                field_index_from(self@.data, key, 0) == field_index_from(self@.data, key, i as nat),
            decreases self.data.len() - i,
        {
            if self.data[i].0 == key {
                return Some(&self.data[i].1);
            }
            i = i + 1;
        }
        None
    }

    /// A copy of the message.
    pub fn deep_clone(&self) -> (r: Self)
        ensures
            r@ == self@,
    {
        let mut data: Vec<(DataTypes, Json)> = Vec::new();
        let mut i: usize = 0;
        while i < self.data.len()
            invariant
                i <= self.data.len(),
                fields_view(data@) == fields_view(self.data@.subrange(0, i as int)),
            decreases self.data.len() - i,
        {
            let e = (self.data[i].0, self.data[i].1.deep_clone());
            proof {
                assert(fields_view(data@.push(e)) =~= fields_view(data@).push((e.0, e.1@)));
                assert(fields_view(self.data@.subrange(0, i + 1)) =~= fields_view(self.data@.subrange(0, i as int)).push(
                    (self.data@[i as int].0, self.data@[i as int].1@),
                ));
            }
            data.push(e);
            i = i + 1;
        }
        assert(self.data@.subrange(0, self.data.len() as int) =~= self.data@);
        CommunicationValue {
            id: self.id,
            comm_type: self.comm_type,
            sender: self.sender,
            receiver: self.receiver,
            data,
        }
    }

    /// The number of data fields.
    pub fn data_len(&self) -> (r: usize)
        ensures
            r == self@.data.len(),
    {
        self.data.len()
    }

    /// The data field at a position, in the order the fields were added.
    pub fn data_at(&self, i: usize) -> (r: (DataTypes, &Json))
        requires
            i < self@.data.len(),
        ensures
            r.0 == self@.data[i as int].0,
            r.1@ == self@.data[i as int].1,
    {
        (self.data[i].0, &self.data[i].1)
    }

    /// The message's kind.
    pub fn get_type(&self) -> (r: CommunicationType)
        ensures
            r == self@.comm_type,
    {
        self.comm_type
    }

    /// Whether the message is of kind `p0`.
    pub fn is_type(&self, p0: CommunicationType) -> (r: bool)
        ensures
            r == (self@.comm_type == p0),
    {
        self.comm_type == p0
    }

    /// The JSON form of the message.
    pub fn to_json(&self) -> (r: Json)
        ensures
            r@ == spec_to_json(self@),
    {
        let mut data: Vec<(String, Json)> = Vec::new();
        let mut i: usize = 0;
        while i < self.data.len()
            invariant
                i <= self.data.len(),
                entry_views(data@) == data_object(self@.data).subrange(0, i as int),
            decreases self.data.len() - i,
        {
            let k = String::from_str(self.data[i].0.name());
            let v = self.data[i].1.deep_clone();
            proof {
                lemma_entry_views_push(data@, (k, v));
                assert(data_object(self@.data).subrange(0, i + 1) =~= data_object(
                    self@.data,
                ).subrange(0, i as int).push((k@, v@)));
            }
            data.push((k, v));
            i = i + 1;
        }
        assert(data_object(self@.data).subrange(0, self.data.len() as int) =~= data_object(
            self@.data,
        ));
        let ghost m = self@;
        let mut fields: Vec<(String, Json)> = Vec::new();
        assert(entry_views(fields@) =~= Seq::empty());
        let id = (String::from_str("id"), Json::Str(uuid_to_string(self.id)));
        proof {
            lemma_entry_views_push(fields@, id);
        }
        fields.push(id);
        let ty = (String::from_str("type"), Json::Str(self.comm_type.to_string()));
        proof {
            lemma_entry_views_push(fields@, ty);
        }
        fields.push(ty);
        if self.sender > 0 {
            let e = (String::from_str("sender"), Json::Number(JsonNumber::from_i64(self.sender)));
            proof {
                lemma_entry_views_push(fields@, e);
            }
            fields.push(e);
        }
        if self.receiver > 0 {
            let e = (
                String::from_str("receiver"),
                Json::Number(JsonNumber::from_i64(self.receiver)),
            );
            proof {
                lemma_entry_views_push(fields@, e);
            }
            fields.push(e);
        }
        let e = (String::from_str("data"), Json::Object(data));
        proof {
            lemma_entry_views_push(fields@, e);
            assert(entry_views(Seq::<(String, Json)>::empty()) =~= Seq::empty());
        }
        fields.push(e);
        proof {
            let base = seq![
                ("id"@, JsonView::Str(spec_uuid_string(m.id))),
                ("type"@, JsonView::Str(m.comm_type.spec_name())),
            ];
            let with_sender = if m.sender > 0 {
                base.push(("sender"@, JsonView::Number(spec_number_from_i64(m.sender))))
            } else {
                base
            };
            let with_receiver = if m.receiver > 0 {
                with_sender.push(("receiver"@, JsonView::Number(spec_number_from_i64(m.receiver))))
            } else {
                with_sender
            };
            assert(entry_views(fields@) =~= with_receiver.push(
                ("data"@, JsonView::Object(data_object(m.data))),
            ));
        }
        Json::Object(fields)
    }

    /// The text a message is sent as: the compact JSON text of its JSON form.
    pub fn to_text(&self) -> (r: String)
        ensures
            r@ == spec_json_dump(spec_to_json(self@)),
    {
        dump(&self.to_json())
    }

    /// The message read from a JSON text, with `fallback` as its id where the
    /// text names none that parses.
    pub fn from_json_or(json_str: &str, fallback: u128) -> (r: Self)
        ensures
            r.wf(),
            r@ == spec_from_json(json_str@, fallback),
    {
        let parsed = parse_json(json_str);
        let r = match &parsed {
            Some(v) => CommunicationValue::from_parsed(Some(v), fallback),
            None => CommunicationValue::from_parsed(None, fallback),
        };
        r
    }

    /// The message a parsed JSON value describes (`None` where the text did
    /// not parse), with `fallback` as its id where the value gives none.
    pub fn from_parsed(parsed: Option<&Json>, fallback: u128) -> (r: Self)
        ensures
            r.wf(),
            r@ == spec_from_parsed(
                match parsed {
                    Some(v) => Some(v@),
                    None => None,
                },
                fallback,
            ),
    {
        match parsed {
            Some(parsed) => {
                let ghost p = parsed@;
                let type_text = match parsed.get("type") {
                    Some(v) => display(v),
                    None => String::from_str("null"),
                };
                let comm_type = CommunicationType::parse(type_text);
                let mut sender: i64 = 0;
                if parsed.get("sender").is_some() {
                    sender = match parsed.get("sender") {
                        Some(v) => match v.as_i64() {
                            Some(x) => x,
                            None => 0,
                        },
                        None => 0,
                    };
                }
                let mut receiver: i64 = 0;
                if parsed.get("receiver").is_some() {
                    receiver = match parsed.get("receiver") {
                        Some(v) => match v.as_i64() {
                            Some(x) => x,
                            None => 0,
                        },
                        None => 0,
                    };
                }
                let id_text: &str = match parsed.get("id") {
                    Some(v) => match v.as_str() {
                        Some(t) => t,
                        None => "",
                    },
                    None => "",
                };
                proof {
                    reveal_strlit("");
                    assert(""@ =~= Seq::<char>::empty());
                }
                let id = match uuid_parse(id_text) {
                    Some(u) => u,
                    None => fallback,
                };
                assert(comm_type == CommunicationType::spec_parse(spec_json_display(p.spec_member("type"@))));
                assert(sender == int_member(p, "sender"@));
                assert(receiver == int_member(p, "receiver"@));
                assert(id == id_member(p, fallback));
                let mut msg = CommunicationValue {
                    id,
                    comm_type,
                    sender,
                    receiver,
                    data: Vec::new(),
                };
                assert(msg@.data =~= Seq::empty());
                match parsed.get("data") {
                    Some(Json::Object(es)) => {
                        let ghost ev = entry_views(es@);
                        proof {
                            lemma_entry_views_len(es@);
                            assert(ev.subrange(0, 0) =~= Seq::empty());
                        }
                        let mut i: usize = 0;
                        while i < es.len()
                            invariant
                                i <= es.len(),
                                ev == entry_views(es@),
                                ev.len() == es.len(),
                                msg.wf(),
                                msg@.id == id,
                                msg@.comm_type == comm_type,
                                msg@.sender == sender,
                                msg@.receiver == receiver,
                                msg@.data == fields_from_entries(ev.subrange(0, i as int)),
                            decreases es.len() - i,
                        {
                            proof {
                                lemma_entry_views_index(es@, i as int);
                                assert(ev.subrange(0, i + 1).drop_last() =~= ev.subrange(0, i as int));
                            }
                            let key = DataTypes::parse(es[i].0.clone());
                            let value = es[i].1.deep_clone();
                            msg = msg.add_data(key, value);
                            i = i + 1;
                        }
                        assert(ev.subrange(0, es.len() as int) =~= ev);
                    },
                    _ => {},
                }
                assert(msg@.data == match p.spec_member("data"@) {
                    JsonView::Object(es) => fields_from_entries(es),
                    _ => Seq::empty(),
                });
                msg
            },
            None => {
                let msg = CommunicationValue {
                    id: fallback,
                    comm_type: CommunicationType::error,
                    sender: 0,
                    receiver: 0,
                    data: Vec::new(),
                };
                assert(msg@.data =~= Seq::empty());
                msg
            },
        }
    }

    /// The message read from a JSON text; where the text gives no id, the id is
    /// a fresh random one.
    pub fn from_json(json_str: &str) -> (r: Self)
        ensures
            r.wf(),
            exists|fallback: u128| r@ == spec_from_json(json_str@, fallback),
    {
        let fallback = new_uuid();
        CommunicationValue::from_json_or(json_str, fallback)
    }

    /// The message that relays a chat message to the receiver's iota, stamped
    /// with `now_ms`.
    pub fn forward_to_other_iota_at(original: &mut CommunicationValue, now_ms: i64) -> (r:
        CommunicationValue)
        requires
            old(original).wf(),
            field_get(old(original)@.data, DataTypes::content) is Some,
        ensures
            final(original)@ == old(original)@,
            r.wf(),
            r@ == spec_forward_to_other_iota(old(original)@, now_ms),
    {
        let receiver: i64 = match original.get_data(DataTypes::receiver_id) {
            Some(v) => match v.as_i64() {
                Some(x) => x,
                None => 0,
            },
            None => 0,
        };
        let sender = original.get_sender();
        let content = match original.get_data(DataTypes::content) {
            Some(v) => display(v),
            None => String::new(),
        };
        let r = CommunicationValue::new(CommunicationType::message_other_iota).with_id(
            original.get_id(),
        ).with_receiver(receiver).add_data(
            DataTypes::receiver_id,
            Json::Number(JsonNumber::from_i64(receiver)),
        ).with_sender(sender).add_data(DataTypes::send_time, Json::Str(i64_to_string(now_ms))).add_data(
            DataTypes::sender_id,
            Json::Number(JsonNumber::from_i64(sender)),
        ).add_data(DataTypes::content, Json::Str(content));
        r
    }

    /// The relay message for a chat message, stamped with the current time.
    pub fn forward_to_other_iota(original: &mut CommunicationValue) -> (r: CommunicationValue)
        requires
            old(original).wf(),
            field_get(old(original)@.data, DataTypes::content) is Some,
        ensures
            final(original)@ == old(original)@,
            r.wf(),
            exists|now_ms: i64| r@ == spec_forward_to_other_iota(old(original)@, now_ms),
    {
        let now_ms = current_millis();
        CommunicationValue::forward_to_other_iota_at(original, now_ms)
    }
}

} // verus!
