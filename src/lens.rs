use crate::common::{
    Broker, Msg, PublicInput, QoS, SubscribeHis, SubscribeInput, SubscribeTopic, TabStatus,
};
use crate::formatter::{parse_to_port, spec_parse_to_port, ForError};
use crate::hierarchy::{his_distinct, his_one_selected, lemma_open_has_broker, stored_only, AppData};
use vstd::prelude::*;

verus! {

broadcast use vstd::std_specs::hash::group_hash_axioms;

/// The profile with the given id.
pub struct BrokerIndex(pub usize);

impl BrokerIndex {
    pub fn with<'a>(&self, data: &'a AppData) -> (r: &'a Broker)
        requires
            data.has_broker(self.0),
        ensures
            r.id == self.0,
            data.brokers@.contains(*r),
    {
        match data.find_broker(self.0) {
            Some(b) => b,
            None => vstd::pervasive::unreached(),
        }
    }

    /// Writes the editable fields of `value` into the profile; its id, stored flag and
    /// selection stay.
    pub fn with_mut(&self, data: &mut AppData, value: &Broker)
        requires
            old(data).wf(),
            old(data).has_broker(self.0),
        ensures
            final(data).wf(),
            final(data).same_but_brokers(*old(data)),
            exists|k: int|
                0 <= k < old(data).brokers@.len() && old(data).brokers@[k].id == self.0
                    && final(data).brokers@ == old(data).brokers@.update(
                    k,
                    old(data).brokers@[k].with_edit(*value),
                ),
    {
        match data.find_broker_index(self.0) {
            Some(k) => {
                let b = data.brokers[k].apply_edit(value);
                data.replace_broker_at(k, b);
            },
            None => vstd::pervasive::unreached(),
        }
    }
}

/// The subscription history of the broker with the given id.
pub struct BrokerIndexLensVecSubscribeHis(pub usize);

impl BrokerIndexLensVecSubscribeHis {
    pub fn with<'a>(&self, data: &'a AppData) -> (r: &'a Vec<SubscribeHis>)
        requires
            data.wf(),
            data.is_open(self.0),
        ensures
            *r == data.subscribe_hises@[self.0],
    {
        match data.subscribe_hises.get(&self.0) {
            Some(v) => v,
            None => vstd::pervasive::unreached(),
        }
    }

    pub fn with_mut(&self, data: &mut AppData, value: Vec<SubscribeHis>)
        requires
            old(data).wf(),
            old(data).is_open(self.0),
            his_one_selected(value@),
            his_distinct(value@),
        ensures
            final(data).wf(),
            final(data).subscribe_hises@ == old(data).subscribe_hises@.insert(self.0, value),
            *final(data) == (AppData { subscribe_hises: final(data).subscribe_hises, ..*old(data) }),
    {
        data.subscribe_hises.insert(self.0, value);
        proof {
            lemma_open_has_broker(*old(data), *data);
        }
    }
}

/// The history of the highlighted broker; without one, an empty history that nothing
/// keeps.
pub struct LensSelectedSubscribeHis;

/// The history that the highlighted broker's list shows.
pub open spec fn selected_his(data: AppData) -> Seq<SubscribeHis> {
    match data.selected_id() {
        Some(id) => if data.subscribe_hises@.contains_key(id) {
            data.subscribe_hises@[id]@
        } else {
            Seq::empty()
        },
        None => Seq::empty(),
    }
}

/// A copy of a history list.
pub fn copy_his(v: &Vec<SubscribeHis>) -> (r: Vec<SubscribeHis>)
    ensures
        r@ == v@,
{
    let mut r: Vec<SubscribeHis> = Vec::new();
    let mut i: usize = 0;
    while i < v.len()
        invariant
            i <= v@.len(),
            r@ == v@.subrange(0, i as int),
        decreases v@.len() - i,
    {
        r.push(v[i].copy());
        proof {
            assert(v@.subrange(0, i + 1) =~= v@.subrange(0, i as int).push(v@[i as int]));
        }
        i += 1;
    }
    proof {
        assert(v@.subrange(0, v@.len() as int) =~= v@);
    }
    r
}

/// The state after writing `value` to the highlighted broker's history.
pub open spec fn selected_his_put(old: AppData, value: Vec<SubscribeHis>, new: AppData) -> bool {
    match old.selected_id() {
        Some(id) => if old.is_open(id) {
            &&& new.subscribe_hises@ == old.subscribe_hises@.insert(id, value)
            &&& new == (AppData { subscribe_hises: new.subscribe_hises, ..old })
        } else {
            new == old
        },
        None => new == old,
    }
}

/// With no broker highlighted, the highlighted history reads as empty, and a write to
/// it is dropped: no broker's history changes.
pub proof fn lemma_fallback_isolated(before: AppData, value: Vec<SubscribeHis>, after: AppData)
    requires
        before.wf(),
        before.selected_id() is None,
        selected_his_put(before, value, after),
    ensures
        selected_his(before) == Seq::<SubscribeHis>::empty(),
        after.subscribe_hises == before.subscribe_hises,
        after == before,
{
}

impl LensSelectedSubscribeHis {
    pub fn with(&self, data: &AppData) -> (r: Vec<SubscribeHis>)
        requires
            data.wf(),
        ensures
            r@ == selected_his(*data),
            data.selected_id() is None ==> r@.len() == 0,
    {
        match data.get_selected_broker() {
            Some(b) => match data.subscribe_hises.get(&b.id) {
                Some(v) => copy_his(v),
                None => Vec::new(),
            },
            None => Vec::new(),
        }
    }

    /// Replaces the highlighted broker's history when its tab is open; otherwise the
    /// value is dropped and nothing changes.
    pub fn with_mut(&self, data: &mut AppData, value: Vec<SubscribeHis>)
        requires
            old(data).wf(),
            his_one_selected(value@),
            his_distinct(value@),
        ensures
            final(data).wf(),
            selected_his_put(*old(data), value, *final(data)),
    {
        let id = match data.get_selected_broker() {
            Some(b) => b.id,
            None => {
                return ;
            },
        };
        if data.subscribe_hises.contains_key(&id) {
            data.subscribe_hises.insert(id, value);
            proof {
                lemma_open_has_broker(*old(data), *data);
            }
        }
    }
}

/// The live subscriptions of the broker with the given id.
pub struct BrokerIndexLensVecSubscribeTopic(pub usize);

impl BrokerIndexLensVecSubscribeTopic {
    pub fn with<'a>(&self, data: &'a AppData) -> (r: &'a Vec<SubscribeTopic>)
        requires
            data.wf(),
            data.is_open(self.0),
        ensures
            *r == data.subscribe_topics@[self.0],
    {
        match data.subscribe_topics.get(&self.0) {
            Some(v) => v,
            None => vstd::pervasive::unreached(),
        }
    }

    pub fn with_mut(&self, data: &mut AppData, value: Vec<SubscribeTopic>)
        requires
            old(data).wf(),
            old(data).is_open(self.0),
        ensures
            final(data).wf(),
            final(data).subscribe_topics@ == old(data).subscribe_topics@.insert(self.0, value),
            *final(data) == (AppData { subscribe_topics: final(data).subscribe_topics, ..*old(data) }),
    {
        data.subscribe_topics.insert(self.0, value);
        proof {
            lemma_open_has_broker(*old(data), *data);
        }
    }
}

/// The message log of the broker with the given id.
pub struct BrokerIndexLensVecMsg(pub usize);

impl BrokerIndexLensVecMsg {
    pub fn with<'a>(&self, data: &'a AppData) -> (r: &'a Vec<Msg>)
        requires
            data.wf(),
            data.is_open(self.0),
        ensures
            *r == data.msgs@[self.0],
    {
        match data.msgs.get(&self.0) {
            Some(v) => v,
            None => vstd::pervasive::unreached(),
        }
    }

    pub fn with_mut(&self, data: &mut AppData, value: Vec<Msg>)
        requires
            old(data).wf(),
            old(data).is_open(self.0),
        ensures
            final(data).wf(),
            final(data).msgs@ == old(data).msgs@.insert(self.0, value),
            *final(data) == (AppData { msgs: final(data).msgs, ..*old(data) }),
    {
        data.msgs.insert(self.0, value);
        proof {
            lemma_open_has_broker(*old(data), *data);
        }
    }
}

/// The subscribe form of the broker with the given id.
pub struct BrokerIndexLensSubscribeInput(pub usize);

impl BrokerIndexLensSubscribeInput {
    pub fn with<'a>(&self, data: &'a AppData) -> (r: &'a SubscribeInput)
        requires
            data.wf(),
            data.is_open(self.0),
        ensures
            *r == data.subscribe_input@[self.0],
    {
        match data.subscribe_input.get(&self.0) {
            Some(v) => v,
            None => vstd::pervasive::unreached(),
        }
    }

    pub fn with_mut(&self, data: &mut AppData, value: SubscribeInput)
        requires
            old(data).wf(),
            old(data).is_open(self.0),
        ensures
            final(data).wf(),
            final(data).subscribe_input@ == old(data).subscribe_input@.insert(self.0, value),
            *final(data) == (AppData { subscribe_input: final(data).subscribe_input, ..*old(data) }),
    {
        data.subscribe_input.insert(self.0, value);
        proof {
            lemma_open_has_broker(*old(data), *data);
        }
    }
}

/// The publish form of the broker with the given id.
pub struct BrokerIndexLensPublicInput(pub usize);

impl BrokerIndexLensPublicInput {
    pub fn with<'a>(&self, data: &'a AppData) -> (r: &'a PublicInput)
        requires
            data.wf(),
            data.is_open(self.0),
        ensures
            *r == data.public_input@[self.0],
    {
        match data.public_input.get(&self.0) {
            Some(v) => v,
            None => vstd::pervasive::unreached(),
        }
    }

    pub fn with_mut(&self, data: &mut AppData, value: PublicInput)
        requires
            old(data).wf(),
            old(data).is_open(self.0),
        ensures
            final(data).wf(),
            final(data).public_input@ == old(data).public_input@.insert(self.0, value),
            *final(data) == (AppData { public_input: final(data).public_input, ..*old(data) }),
    {
        data.public_input.insert(self.0, value);
        proof {
            lemma_open_has_broker(*old(data), *data);
        }
    }
}

/// The connection flags of the broker with the given id.
pub struct BrokerIndexLensTabStatus(pub usize);

impl BrokerIndexLensTabStatus {
    pub fn with<'a>(&self, data: &'a AppData) -> (r: &'a TabStatus)
        requires
            data.wf(),
            data.is_open(self.0),
        ensures
            *r == data.tab_statuses@[self.0],
            r.id == self.0,
    {
        match data.tab_statuses.get(&self.0) {
            Some(v) => v,
            None => vstd::pervasive::unreached(),
        }
    }

    /// Writes the flags of `value`; the status keeps the tab's id.
    pub fn with_mut(&self, data: &mut AppData, value: TabStatus)
        requires
            old(data).wf(),
            old(data).is_open(self.0),
        ensures
            final(data).wf(),
            final(data).tab_statuses@ == old(data).tab_statuses@.insert(
                self.0,
                TabStatus { id: self.0, ..value },
            ),
            *final(data) == (AppData { tab_statuses: final(data).tab_statuses, ..*old(data) }),
    {
        data.tab_statuses.insert(self.0, TabStatus { id: self.0, ..value });
        proof {
            lemma_open_has_broker(*old(data), *data);
        }
    }
}

/// An application state seen from one broker tab.
pub struct DbIndex {
    pub data: AppData,
    pub id: usize,
}

impl DbIndex {
    /// Two views agree when both hold equal connection flags for the tab.
    pub fn same(&self, other: &DbIndex) -> (r: bool)
        ensures
            r == (self.data.tab_statuses@.contains_key(self.id)
                && other.data.tab_statuses@.contains_key(self.id)
                && self.data.tab_statuses@[self.id] == other.data.tab_statuses@[self.id]),
    {
        let self_status = match self.data.tab_statuses.get(&self.id) {
            Some(status) => status,
            None => return false,
        };
        let other_status = match other.data.tab_statuses.get(&self.id) {
            Some(status) => status,
            None => return false,
        };
        *self_status == *other_status
    }
}

/// Seeing the application state from the tab with the given id.
pub struct Index(pub usize);

impl Index {
    pub fn with(&self, data: AppData) -> (r: DbIndex)
        ensures
            r.data == data,
            r.id == self.0,
    {
        DbIndex { data, id: self.0 }
    }
}

/// Whether `new` is `old` with each stored profile that `edited` names edited after the
/// first entry of `edited` with its id; every other profile stays.
pub open spec fn stored_written_back(old: Seq<Broker>, edited: Seq<Broker>, new: Seq<Broker>) -> bool {
    &&& new.len() == old.len()
    &&& forall|i: int|
        0 <= i < old.len() ==> {
            if old[i].stored && exists|j: int| 0 <= j < edited.len() && (#[trigger] edited[j]).id == old[i].id {
                exists|j: int|
                    0 <= j < edited.len() && (#[trigger] edited[j]).id == old[i].id && (forall|m: int|
                        0 <= m < j ==> (#[trigger] edited[m]).id != old[i].id) && new[i]
                        == old[i].with_edit(edited[j])
            } else {
                new[i] == old[i]
            }
        }
}

/// The profiles marked stored, in list order.
pub struct BrokerStoredList;

impl BrokerStoredList {
    pub fn with(&self, data: &AppData) -> (r: Vec<Broker>)
        ensures
            r@ == stored_only(data.brokers@),
            forall|k: int| 0 <= k < r@.len() ==> (#[trigger] r@[k]).stored,
    {
        let mut r: Vec<Broker> = Vec::new();
        let mut i: usize = 0;
        while i < data.brokers.len()
            invariant
                i <= data.brokers@.len(),
                r@ == stored_only(data.brokers@.subrange(0, i as int)),
            decreases data.brokers@.len() - i,
        {
            proof {
                assert(data.brokers@.subrange(0, i + 1).drop_last() =~= data.brokers@.subrange(
                    0,
                    i as int,
                ));
            }
            if data.brokers[i].stored {
                r.push(data.brokers[i].copy());
            }
            i += 1;
        }
        proof {
            assert(data.brokers@.subrange(0, data.brokers@.len() as int) =~= data.brokers@);
            lemma_stored_only(data.brokers@);
        }
        r
    }

    /// Writes an edited copy of the stored view back into the full list, matching
    /// entries by id.
    pub fn with_mut(&self, data: &mut AppData, edited: &Vec<Broker>)
        requires
            old(data).wf(),
        ensures
            final(data).wf(),
            final(data).same_but_brokers(*old(data)),
            stored_written_back(old(data).brokers@, edited@, final(data).brokers@),
    {
        let ghost orig = data.brokers@;
        let mut i: usize = 0;
        while i < data.brokers.len()
            invariant
                data.wf(),
                data.same_but_brokers(*old(data)),
                orig == old(data).brokers@,
                i <= data.brokers@.len(),
                data.brokers@.len() == orig.len(),
                forall|k: int| i <= k < orig.len() ==> data.brokers@[k] == orig[k],
                forall|k: int|
                    0 <= k < i ==> {
                        if orig[k].stored && exists|j: int|
                            0 <= j < edited@.len() && (#[trigger] edited@[j]).id == orig[k].id {
                            exists|j: int|
                                0 <= j < edited@.len() && (#[trigger] edited@[j]).id == orig[k].id
                                    && (forall|m: int|
                                    0 <= m < j ==> (#[trigger] edited@[m]).id != orig[k].id)
                                    && data.brokers@[k] == orig[k].with_edit(edited@[j])
                        } else {
                            data.brokers@[k] == orig[k]
                        }
                    },
            decreases orig.len() - i,
        {
            if data.brokers[i].stored {
                let id = data.brokers[i].id;
                let mut j: usize = 0;
                while j < edited.len()
                    invariant
                        j <= edited@.len(),
                        forall|m: int| 0 <= m < j ==> (#[trigger] edited@[m]).id != id,
                    ensures
                        j <= edited@.len(),
                        forall|m: int| 0 <= m < j ==> (#[trigger] edited@[m]).id != id,
                        j < edited@.len() ==> edited@[j as int].id == id,
                    decreases edited@.len() - j,
                {
                    if edited[j].id == id {
                        break;
                    }
                    j += 1;
                }
                if j < edited.len() {
                    let b = data.brokers[i].apply_edit(&edited[j]);
                    data.replace_broker_at(i, b);
                } else {
                    proof {
                        assert forall|m: int| 0 <= m < edited@.len() implies (#[trigger] edited@[m]).id
                            != id by {}
                    }
                }
            }
            i += 1;
        }
    }
}

/// The stored view keeps only stored profiles of the list, and distinct ids stay
/// distinct.
pub proof fn lemma_stored_only(s: Seq<Broker>)
    ensures
        forall|k: int| 0 <= k < stored_only(s).len() ==> (#[trigger] stored_only(s)[k]).stored,
        forall|k: int|
            0 <= k < stored_only(s).len() ==> s.contains(#[trigger] stored_only(s)[k]),
        (forall|i: int, j: int|
            0 <= i < s.len() && 0 <= j < s.len() && i != j ==> (#[trigger] s[i]).id != (#[trigger] s[j]).id)
            ==> forall|i: int, j: int|
            0 <= i < stored_only(s).len() && 0 <= j < stored_only(s).len() && i != j
                ==> (#[trigger] stored_only(s)[i]).id != (#[trigger] stored_only(s)[j]).id,
    decreases s.len(),
{
    if s.len() > 0 {
        let d = s.drop_last();
        lemma_stored_only(d);
        assert forall|k: int| 0 <= k < stored_only(d).len() implies s.contains(
            #[trigger] stored_only(d)[k],
        ) by {
            let m = choose|m: int| 0 <= m < d.len() && d[m] == stored_only(d)[k];
            assert(s[m] == d[m]);
        }
        assert(s[s.len() - 1] == s.last());
        if forall|i: int, j: int|
            0 <= i < s.len() && 0 <= j < s.len() && i != j ==> (#[trigger] s[i]).id != (#[trigger] s[j]).id {
            assert forall|i: int, j: int|
                0 <= i < d.len() && 0 <= j < d.len() && i != j implies (#[trigger] d[i]).id != (
                #[trigger] d[j]).id by {
                assert(d[i] == s[i] && d[j] == s[j]);
            }
            assert forall|k: int| 0 <= k < stored_only(d).len() implies (#[trigger] stored_only(
                d,
            )[k]).id != s.last().id by {
                let m = choose|m: int| 0 <= m < d.len() && d[m] == stored_only(d)[k];
                assert(s[m] == d[m]);
            }
        }
    }
}

/// Editing one stored profile through the stored view and writing the view back shows
/// the edit on that profile in the full list.
pub proof fn lemma_stored_view_round_trip(before: AppData, k: int, e: Broker, after: AppData)
    requires
        before.wf(),
        0 <= k < stored_only(before.brokers@).len(),
        e.id == stored_only(before.brokers@)[k].id,
        stored_written_back(
            before.brokers@,
            stored_only(before.brokers@).update(k, e),
            after.brokers@,
        ),
    ensures
        exists|i: int|
            0 <= i < before.brokers@.len() && before.brokers@[i].id == e.id
                && before.brokers@[i].stored && after.brokers@[i] == before.brokers@[i].with_edit(e),
{
    let s = before.brokers@;
    let v = stored_only(s);
    let edited = v.update(k, e);
    lemma_stored_only(s);
    assert(s.contains(v[k]));
    let i = choose|i: int| 0 <= i < s.len() && s[i] == v[k];
    assert(v[k].stored);
    assert(edited[k].id == s[i].id);
    let j = choose|j: int|
        0 <= j < edited.len() && (#[trigger] edited[j]).id == s[i].id && (forall|m: int|
            0 <= m < j ==> (#[trigger] edited[m]).id != s[i].id) && after.brokers@[i]
            == s[i].with_edit(edited[j]);
    if j < k {
        assert(edited[j] == v[j]);
    } else if j > k {
        assert(edited[k].id != s[i].id);
    }
    assert(j == k);
}

/// The payload of a message record.
pub struct MsgMsgLens;

impl MsgMsgLens {
    pub fn with<'a>(&self, data: &'a Msg) -> (r: &'a String)
        ensures
            *r == match *data {
                Msg::Public(m) => m.msg,
                Msg::Subscribe(m) => m.msg,
            },
    {
        match data {
            Msg::Public(msg) => &msg.msg,
            Msg::Subscribe(msg) => &msg.msg,
        }
    }

    pub fn with_mut(&self, data: &mut Msg, value: String)
        ensures
            *final(data) == match *old(data) {
                Msg::Public(m) => Msg::Public(crate::common::PublicMsg { msg: value, ..m }),
                Msg::Subscribe(m) => Msg::Subscribe(crate::common::SubscribeMsg { msg: value, ..m }),
            },
    {
        match data {
            Msg::Public(msg) => msg.msg = value,
            Msg::Subscribe(msg) => msg.msg = value,
        }
    }
}

/// The topic, and the QoS, of a message record.
pub struct MsgTopicLens;

impl MsgTopicLens {
    pub fn with<'a>(&self, data: &'a Msg) -> (r: &'a String)
        ensures
            *r == match *data {
                Msg::Public(m) => m.topic,
                Msg::Subscribe(m) => m.topic,
            },
    {
        match data {
            Msg::Public(msg) => &msg.topic,
            Msg::Subscribe(msg) => &msg.topic,
        }
    }

    pub fn with_mut(&self, data: &mut Msg, value: String)
        ensures
            *final(data) == match *old(data) {
                Msg::Public(m) => Msg::Public(crate::common::PublicMsg { topic: value, ..m }),
                Msg::Subscribe(m) => Msg::Subscribe(
                    crate::common::SubscribeMsg { topic: value, ..m },
                ),
            },
    {
        match data {
            Msg::Public(msg) => msg.topic = value,
            Msg::Subscribe(msg) => msg.topic = value,
        }
    }

    pub fn qos(&self, data: &Msg) -> (r: QoS)
        ensures
            r == match *data {
                Msg::Public(m) => m.qos,
                Msg::Subscribe(m) => m.qos,
            },
    {
        match data {
            Msg::Public(msg) => msg.qos,
            Msg::Subscribe(msg) => msg.qos,
        }
    }

    pub fn set_qos(&self, data: &mut Msg, value: QoS)
        ensures
            *final(data) == match *old(data) {
                Msg::Public(m) => Msg::Public(crate::common::PublicMsg { qos: value, ..m }),
                Msg::Subscribe(m) => Msg::Subscribe(crate::common::SubscribeMsg { qos: value, ..m }),
            },
    {
        match data {
            Msg::Public(msg) => msg.qos = value,
            Msg::Subscribe(msg) => msg.qos = value,
        }
    }
}

/// The text of a QoS level: one decimal digit.
pub open spec fn qos_text(q: QoS) -> Seq<char> {
    match q {
        QoS::AtMostOnce => seq!['0'],
        QoS::AtLeastOnce => seq!['1'],
        QoS::ExactlyOnce => seq!['2'],
    }
}

/// The QoS level of a message record, as text.
pub struct MsgQosLens;

impl MsgQosLens {
    pub fn with(&self, data: &Msg) -> (r: String)
        ensures
            r@ == qos_text(
                match *data {
                    Msg::Public(m) => m.qos,
                    Msg::Subscribe(m) => m.qos,
                },
            ),
    {
        let q = match data {
            Msg::Public(msg) => msg.qos,
            Msg::Subscribe(msg) => msg.qos,
        };
        let r = match q {
            QoS::AtMostOnce => "0".to_string(),
            QoS::AtLeastOnce => "1".to_string(),
            QoS::ExactlyOnce => "2".to_string(),
        };
        proof {
            reveal_strlit("0");
            reveal_strlit("1");
            reveal_strlit("2");
            assert(r@ =~= qos_text(q));
        }
        r
    }
}

/// The port of a profile as a number.
pub struct PortLens;

impl PortLens {
    pub fn with(&self, data: &Broker) -> (r: Result<u16, ForError>)
        ensures
            r == spec_parse_to_port(data.port@),
    {
        parse_to_port(data.port.as_str())
    }

    /// Sets the port text when it holds a port number; otherwise leaves the profile
    /// unchanged and says why.
    pub fn with_mut(&self, data: &mut Broker, text: &str) -> (r: Result<u16, ForError>)
        ensures
            r == spec_parse_to_port(text@),
            r is Ok ==> *final(data) == (Broker { port: final(data).port, ..*old(data) })
                && final(data).port@ == text@,
            r is Err ==> *final(data) == *old(data),
    {
        let r = parse_to_port(text);
        if r.is_ok() {
            data.port = text.to_string();
        }
        r
    }
}

} // verus!
