use crate::common::{
    Broker, BrokerDB, PublicInput, PublicMsg, PublicStatus, SubscribeHis, SubscribeInput,
    SubscribeStatus, SubscribeTopic,
};
use crate::formatter::{
    parse_to_no_empty, parse_to_port, parse_to_qos, spec_parse_to_port, spec_parse_to_qos,
    ForError,
};
use crate::hierarchy::{lemma_open_has_broker, AppData};
use crate::session::pkid_after;
use vstd::prelude::*;

verus! {

broadcast use vstd::std_specs::hash::group_hash_axioms;

/// An intent sent from the interface to the session worker.
#[derive(Clone, Debug)]
pub enum AppEvent {
    AddBroker,
    EditBroker,
    DeleteBroker,
    ConnectBroker,
    Connect(Broker),
    ReConnect(usize),
    Disconnect(usize),
    SaveBroker(usize),
    ClickBroker(usize),
    ClickSubscribeHis(SubscribeHis),
    SubscribeFromHis(SubscribeHis),
    RemoveSubscribeHis,
    Subscribe(usize, SubscribeTopic),
    Publish(usize, PublicMsg, bool),
}

/// Why a form was not submitted.
#[derive(Clone, Copy, Debug, PartialEq, Eq, Structural)]
pub enum SubmitError {
    /// No profile, or no open tab, has the id.
    UnknownBroker,
    /// A field failed validation.
    Invalid(ForError),
}

/// The check of a profile before connecting: a non-empty address and a port number.
pub open spec fn connect_check(b: Broker) -> Result<u16, ForError> {
    if b.addr@.len() == 0 {
        Err(ForError::NotEmpty)
    } else {
        spec_parse_to_port(b.port@)
    }
}

/// The check of a subscribe form: a non-empty topic and a QoS level.
pub open spec fn subscribe_check(i: SubscribeInput) -> Result<crate::common::QoS, ForError> {
    if i.topic@.len() == 0 {
        Err(ForError::NotEmpty)
    } else {
        spec_parse_to_qos(i.qos@)
    }
}

/// The check of a publish form: a non-empty topic and a QoS level.
pub open spec fn publish_check(i: PublicInput) -> Result<crate::common::QoS, ForError> {
    if i.topic@.len() == 0 {
        Err(ForError::NotEmpty)
    } else {
        spec_parse_to_qos(i.qos@)
    }
}

impl AppData {
    /// Marks the profile `id` as stored and returns the record to persist.
    pub fn save_broker(&mut self, id: usize) -> (r: Option<BrokerDB>)
        requires
            old(self).wf(),
        ensures
            final(self).wf(),
            r is Some <==> old(self).has_broker(id),
            r is None ==> *final(self) == *old(self),
            r matches Some(db) ==> exists|k: int|
                0 <= k < old(self).brokers@.len() && old(self).brokers@[k].id == id
                    && final(self).brokers@ == old(self).brokers@.update(
                    k,
                    (Broker { stored: true, ..old(self).brokers@[k] }),
                ) && final(self).same_but_brokers(*old(self)) && db.id == id
                    && db.name == old(self).brokers@[k].name && db.client_id
                    == old(self).brokers@[k].client_id && db.addr == old(self).brokers@[k].addr
                    && db.port == old(self).brokers@[k].port && db.params
                    == old(self).brokers@[k].params && db.use_credentials
                    == old(self).brokers@[k].use_credentials && db.user_name
                    == old(self).brokers@[k].user_name && db.password
                    == old(self).brokers@[k].password,
    {
        match self.find_broker_index(id) {
            None => None,
            Some(k) => {
                let mut b = self.brokers[k].copy();
                b.stored = true;
                let db = b.clone_to_db();
                self.replace_broker_at(k, b);
                Some(db)
            },
        }
    }

    /// Highlights the profile `id` in the list, and no other; an unknown id changes
    /// nothing.
    pub fn click_broker(&mut self, id: usize) -> (r: bool)
        requires
            old(self).wf(),
        ensures
            final(self).wf(),
            r == old(self).has_broker(id),
            !r ==> *final(self) == *old(self),
            r ==> {
                &&& final(self).same_but_brokers(*old(self))
                &&& final(self).brokers@.len() == old(self).brokers@.len()
                &&& forall|i: int|
                    0 <= i < old(self).brokers@.len() ==> #[trigger] final(self).brokers@[i]
                        == (Broker {
                        selected: old(self).brokers@[i].id == id,
                        ..old(self).brokers@[i]
                    })
            },
    {
        if self.find_broker_index(id).is_none() {
            return false;
        }
        let ghost orig = self.brokers@;
        let mut i: usize = 0;
        while i < self.brokers.len()
            invariant
                orig == old(self).brokers@,
                self.brokers@.len() == orig.len(),
                i <= orig.len(),
                self.same_but_brokers(*old(self)),
                forall|k: int| 0 <= k < i ==> #[trigger] self.brokers@[k] == (Broker {
                    selected: orig[k].id == id,
                    ..orig[k]
                }),
                forall|k: int| i <= k < orig.len() ==> #[trigger] self.brokers@[k] == orig[k],
            decreases orig.len() - i,
        {
            let mut b = self.brokers[i].copy();
            b.selected = b.id == id;
            self.brokers.set(i, b);
            i += 1;
        }
        proof {
            assert forall|x: usize| #[trigger] self.is_open(x) implies self.has_broker(x) by {
                assert(old(self).is_open(x));
                assert(old(self).has_broker(x));
                let k = choose|k: int| 0 <= k < orig.len() && (#[trigger] orig[k]).id == x;
                assert(self.brokers@[k].id == x);
            }
            assert forall|a: int, c: int|
                0 <= a < self.brokers@.len() && 0 <= c < self.brokers@.len()
                    && (#[trigger] self.brokers@[a]).selected && (#[trigger] self.brokers@[c]).selected
                    implies a == c by {
                assert(orig[a].id == id && orig[c].id == id);
            }
        }
        true
    }

    /// Validates the profile `id` for connecting, fills in `generated_client_id` when
    /// its client id is empty, and returns the intent carrying the profile.
    pub fn connect(&mut self, id: usize, generated_client_id: String) -> (r: Result<
        AppEvent,
        SubmitError,
    >)
        requires
            old(self).wf(),
        ensures
            final(self).wf(),
            !old(self).has_broker(id) ==> r == Err::<AppEvent, SubmitError>(
                SubmitError::UnknownBroker,
            ),
            r is Err ==> *final(self) == *old(self),
            old(self).has_broker(id) ==> exists|k: int|
                0 <= k < old(self).brokers@.len() && old(self).brokers@[k].id == id && {
                    let b = old(self).brokers@[k];
                    match connect_check(b) {
                        Err(e) => r == Err::<AppEvent, SubmitError>(SubmitError::Invalid(e)),
                        Ok(_) => {
                            let nb = if b.client_id@.len() == 0 {
                                (Broker { client_id: generated_client_id, ..b })
                            } else {
                                b
                            };
                            &&& final(self).brokers@ == old(self).brokers@.update(k, nb)
                            &&& final(self).same_but_brokers(*old(self))
                            &&& r == Ok::<AppEvent, SubmitError>(AppEvent::Connect(nb))
                        },
                    }
                },
    {
        let k = match self.find_broker_index(id) {
            Some(k) => k,
            None => return Err(SubmitError::UnknownBroker),
        };
        if parse_to_no_empty(self.brokers[k].addr.as_str()).is_err() {
            return Err(SubmitError::Invalid(ForError::NotEmpty));
        }
        match parse_to_port(self.brokers[k].port.as_str()) {
            Err(e) => {
                return Err(SubmitError::Invalid(e));
            },
            Ok(_) => {},
        }
        let mut b = self.brokers[k].copy();
        if b.client_id.as_str().is_empty() {
            b.client_id = generated_client_id;
        }
        let snapshot = b.copy();
        self.replace_broker_at(k, b);
        Ok(AppEvent::Connect(snapshot))
    }

    /// Submits the subscribe form of tab `id`: when it holds a topic and a QoS level, a
    /// subscribe request is recorded under a fresh packet id, the form is cleared, and
    /// the intent is returned. Otherwise nothing changes.
    pub fn submit_subscribe(&mut self, id: usize) -> (r: Result<AppEvent, SubmitError>)
        requires
            old(self).wf(),
        ensures
            final(self).wf(),
            !old(self).is_open(id) ==> r == Err::<AppEvent, SubmitError>(
                SubmitError::UnknownBroker,
            ),
            r is Err ==> *final(self) == *old(self),
            old(self).is_open(id) ==> {
                let input = old(self).subscribe_input@[id];
                match subscribe_check(input) {
                    Err(e) => r == Err::<AppEvent, SubmitError>(SubmitError::Invalid(e)),
                    Ok(q) => {
                        let t = (SubscribeTopic {
                            pkid: old(self).next_pkid,
                            topic: input.topic,
                            qos: q,
                            status: SubscribeStatus::Ing,
                        });
                        &&& r == Ok::<AppEvent, SubmitError>(AppEvent::Subscribe(id, t))
                        &&& final(self).subscribe_topics@ == old(self).subscribe_topics@.insert(
                            id,
                            final(self).subscribe_topics@[id],
                        )
                        &&& final(self).subscribe_topics@[id]@
                            == old(self).subscribe_topics@[id]@.push(t)
                        &&& final(self).subscribe_input@ == old(self).subscribe_input@.insert(
                            id,
                            final(self).subscribe_input@[id],
                        )
                        &&& final(self).subscribe_input@[id].is_empty()
                        &&& *final(self) == (AppData {
                            subscribe_topics: final(self).subscribe_topics,
                            subscribe_input: final(self).subscribe_input,
                            next_pkid: pkid_after(old(self).next_pkid),
                            ..*old(self)
                        })
                    },
                }
            },
    {
        let (topic, qos) = match self.subscribe_input.get(&id) {
            None => return Err(SubmitError::UnknownBroker),
            Some(input) => {
                if parse_to_no_empty(input.topic.as_str()).is_err() {
                    return Err(SubmitError::Invalid(ForError::NotEmpty));
                }
                match parse_to_qos(input.qos.as_str()) {
                    Err(e) => return Err(SubmitError::Invalid(e)),
                    Ok(q) => (input.topic.clone(), q),
                }
            },
        };
        let pkid = match self.subscribe(id, topic.clone(), qos) {
            Some(p) => p,
            None => return Err(SubmitError::UnknownBroker),
        };
        let ghost mid = *self;
        self.subscribe_input.insert(id, SubscribeInput::default());
        proof {
            lemma_open_has_broker(mid, *self);
        }
        Ok(AppEvent::Subscribe(
            id,
            SubscribeTopic { pkid, topic, qos, status: SubscribeStatus::Ing },
        ))
    }

    /// Submits the publish form of tab `id`: when it holds a topic and a QoS level, the
    /// publish is recorded under a fresh packet id, the form is cleared, and the intent
    /// is returned with the retain flag. Otherwise nothing changes.
    pub fn submit_publish(&mut self, id: usize) -> (r: Result<AppEvent, SubmitError>)
        requires
            old(self).wf(),
        ensures
            final(self).wf(),
            !old(self).is_open(id) ==> r == Err::<AppEvent, SubmitError>(
                SubmitError::UnknownBroker,
            ),
            r is Err ==> *final(self) == *old(self),
            old(self).is_open(id) ==> {
                let input = old(self).public_input@[id];
                match publish_check(input) {
                    Err(e) => r == Err::<AppEvent, SubmitError>(SubmitError::Invalid(e)),
                    Ok(q) => {
                        let m = (PublicMsg {
                            pkid: old(self).next_pkid,
                            topic: input.topic,
                            msg: input.msg,
                            qos: q,
                            status: PublicStatus::Ing,
                        });
                        &&& r == Ok::<AppEvent, SubmitError>(
                            AppEvent::Publish(id, m, input.retain),
                        )
                        &&& final(self).msgs@ == old(self).msgs@.insert(id, final(self).msgs@[id])
                        &&& final(self).msgs@[id]@ == old(self).msgs@[id]@.push(
                            crate::common::Msg::Public(m),
                        )
                        &&& final(self).public_input@ == old(self).public_input@.insert(
                            id,
                            final(self).public_input@[id],
                        )
                        &&& final(self).public_input@[id].is_empty()
                        &&& *final(self) == (AppData {
                            msgs: final(self).msgs,
                            public_input: final(self).public_input,
                            next_pkid: pkid_after(old(self).next_pkid),
                            ..*old(self)
                        })
                    },
                }
            },
    {
        let (topic, msg, qos, retain) = match self.public_input.get(&id) {
            None => return Err(SubmitError::UnknownBroker),
            Some(input) => {
                if parse_to_no_empty(input.topic.as_str()).is_err() {
                    return Err(SubmitError::Invalid(ForError::NotEmpty));
                }
                match parse_to_qos(input.qos.as_str()) {
                    Err(e) => return Err(SubmitError::Invalid(e)),
                    Ok(q) => (input.topic.clone(), input.msg.clone(), q, input.retain),
                }
            },
        };
        let pkid = match self.publish(id, topic.clone(), msg.clone(), qos) {
            Some(p) => p,
            None => return Err(SubmitError::UnknownBroker),
        };
        let ghost mid = *self;
        self.public_input.insert(id, PublicInput::default());
        proof {
            lemma_open_has_broker(mid, *self);
        }
        Ok(AppEvent::Publish(
            id,
            PublicMsg { pkid, topic, msg, qos, status: PublicStatus::Ing },
            retain,
        ))
    }
}

} // verus!
