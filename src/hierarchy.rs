use crate::common::{
    Broker, BrokerDB, Msg, PublicInput, SubscribeHis, SubscribeInput, SubscribeTopic, TabStatus,
};
use std::collections::HashMap;
use vstd::prelude::*;

verus! {

broadcast use vstd::std_specs::hash::group_hash_axioms;

/// Whether the keys of a per-broker table are exactly the open tabs.
pub open spec fn keyed_by_tabs<V>(m: Map<usize, V>, tabs: Seq<usize>) -> bool {
    forall|id: usize|
        #![trigger m.contains_key(id)]
        #![trigger tabs.contains(id)]
        m.contains_key(id) <==> tabs.contains(id)
}

/// No two elements of the sequence are equal.
pub open spec fn no_dup_ids(s: Seq<usize>) -> bool {
    forall|i: int, j: int| 0 <= i < s.len() && 0 <= j < s.len() && i != j ==> s[i] != s[j]
}

/// At most one history entry is marked selected.
pub open spec fn his_one_selected(s: Seq<SubscribeHis>) -> bool {
    forall|i: int, j: int|
        0 <= i < s.len() && 0 <= j < s.len() && #[trigger] s[i].selected && #[trigger] s[j].selected
            ==> i == j
}

/// No two history entries hold the same topic and QoS.
pub open spec fn his_distinct(s: Seq<SubscribeHis>) -> bool {
    forall|i: int, j: int|
        0 <= i < s.len() && 0 <= j < s.len() && i != j ==> !(#[trigger] s[i]).same_pair(
            (#[trigger] s[j]).topic@,
            s[j].qos,
        )
}

/// The profiles of a broker list that are marked stored, in their order.
pub open spec fn stored_only(s: Seq<Broker>) -> Seq<Broker>
    decreases s.len(),
{
    if s.len() == 0 {
        Seq::empty()
    } else if s.last().stored {
        stored_only(s.drop_last()).push(s.last())
    } else {
        stored_only(s.drop_last())
    }
}

/// The state of the whole application: the broker profiles and, for each open broker
/// tab, its connection flags, message log, form buffers and subscriptions.
#[derive(Clone, Debug)]
pub struct AppData {
    pub brokers: Vec<Broker>,
    pub tab_statuses: HashMap<usize, TabStatus>,
    pub msgs: HashMap<usize, Vec<Msg>>,
    pub subscribe_topics: HashMap<usize, Vec<SubscribeTopic>>,
    pub subscribe_hises: HashMap<usize, Vec<SubscribeHis>>,
    pub subscribe_input: HashMap<usize, SubscribeInput>,
    pub public_input: HashMap<usize, PublicInput>,
    pub broker_tabs: Vec<usize>,
    pub tab_selected: Option<usize>,
    pub next_id: usize,
    pub next_pkid: u16,
}

impl AppData {
    pub open spec fn has_broker(self, id: usize) -> bool {
        exists|i: int| 0 <= i < self.brokers@.len() && (#[trigger] self.brokers@[i]).id == id
    }

    pub open spec fn is_open(self, id: usize) -> bool {
        self.broker_tabs@.contains(id)
    }

    /// Every per-broker table holds an entry for `id`.
    pub open spec fn has_side_entries(self, id: usize) -> bool {
        &&& self.tab_statuses@.contains_key(id)
        &&& self.msgs@.contains_key(id)
        &&& self.subscribe_topics@.contains_key(id)
        &&& self.subscribe_hises@.contains_key(id)
        &&& self.subscribe_input@.contains_key(id)
        &&& self.public_input@.contains_key(id)
    }

    /// No per-broker table holds an entry for `id`.
    pub open spec fn has_no_side_entry(self, id: usize) -> bool {
        &&& !self.tab_statuses@.contains_key(id)
        &&& !self.msgs@.contains_key(id)
        &&& !self.subscribe_topics@.contains_key(id)
        &&& !self.subscribe_hises@.contains_key(id)
        &&& !self.subscribe_input@.contains_key(id)
        &&& !self.public_input@.contains_key(id)
    }

    pub open spec fn selected_index(self) -> Option<int> {
        if exists|i: int| 0 <= i < self.brokers@.len() && (#[trigger] self.brokers@[i]).selected {
            Some(
                choose|i: int| 0 <= i < self.brokers@.len() && (#[trigger] self.brokers@[i]).selected,
            )
        } else {
            None
        }
    }

    /// The id of the broker highlighted in the list, if any.
    pub open spec fn selected_id(self) -> Option<usize> {
        match self.selected_index() {
            Some(i) => Some(self.brokers@[i].id),
            None => None,
        }
    }

    /// Everything but the broker list agrees.
    pub open spec fn same_but_brokers(self, o: AppData) -> bool {
        &&& self.tab_statuses == o.tab_statuses
        &&& self.msgs == o.msgs
        &&& self.subscribe_topics == o.subscribe_topics
        &&& self.subscribe_hises == o.subscribe_hises
        &&& self.subscribe_input == o.subscribe_input
        &&& self.public_input == o.public_input
        &&& self.broker_tabs == o.broker_tabs
        &&& self.tab_selected == o.tab_selected
        &&& self.next_id == o.next_id
        &&& self.next_pkid == o.next_pkid
    }

    pub open spec fn wf(self) -> bool {
        &&& forall|i: int, j: int|
            0 <= i < self.brokers@.len() && 0 <= j < self.brokers@.len() && i != j
                ==> (#[trigger] self.brokers@[i]).id != (#[trigger] self.brokers@[j]).id
        &&& forall|i: int| 0 <= i < self.brokers@.len() ==> (#[trigger] self.brokers@[i]).id < self.next_id
        &&& forall|i: int, j: int|
            0 <= i < self.brokers@.len() && 0 <= j < self.brokers@.len()
                && (#[trigger] self.brokers@[i]).selected && (#[trigger] self.brokers@[j]).selected
                ==> i == j
        &&& no_dup_ids(self.broker_tabs@)
        &&& forall|id: usize| #[trigger] self.is_open(id) ==> self.has_broker(id)
        &&& keyed_by_tabs(self.tab_statuses@, self.broker_tabs@)
        &&& keyed_by_tabs(self.msgs@, self.broker_tabs@)
        &&& keyed_by_tabs(self.subscribe_topics@, self.broker_tabs@)
        &&& keyed_by_tabs(self.subscribe_hises@, self.broker_tabs@)
        &&& keyed_by_tabs(self.subscribe_input@, self.broker_tabs@)
        &&& keyed_by_tabs(self.public_input@, self.broker_tabs@)
        &&& forall|id: usize| #[trigger]
            self.tab_statuses@.contains_key(id) ==> self.tab_statuses@[id].id == id
        &&& forall|id: usize| #[trigger]
            self.subscribe_hises@.contains_key(id) ==> his_one_selected(
                self.subscribe_hises@[id]@,
            ) && his_distinct(self.subscribe_hises@[id]@)
        &&& self.tab_selected matches Some(id) ==> self.is_open(id)
    }

    pub fn new() -> (r: AppData)
        ensures
            r.wf(),
            r.brokers@.len() == 0,
            r.broker_tabs@.len() == 0,
            r.tab_selected is None,
            r.next_id == 1,
            r.next_pkid == 1,
    {
        AppData {
            brokers: Vec::new(),
            tab_statuses: HashMap::new(),
            msgs: HashMap::new(),
            subscribe_topics: HashMap::new(),
            subscribe_hises: HashMap::new(),
            subscribe_input: HashMap::new(),
            public_input: HashMap::new(),
            broker_tabs: Vec::new(),
            tab_selected: None,
            next_id: 1,
            next_pkid: 1,
        }
    }

    /// The position of the profile with the given id.
    pub fn find_broker_index(&self, id: usize) -> (r: Option<usize>)
        ensures
            r matches Some(k) ==> k < self.brokers@.len() && self.brokers@[k as int].id == id,
            r is None <==> !self.has_broker(id),
    {
        let mut i: usize = 0;
        while i < self.brokers.len()
            invariant
                i <= self.brokers@.len(),
                forall|j: int| 0 <= j < i ==> (#[trigger] self.brokers@[j]).id != id,
            decreases self.brokers@.len() - i,
        {
            if self.brokers[i].id == id {
                return Some(i);
            }
            i += 1;
        }
        None
    }

    pub fn find_broker(&self, id: usize) -> (r: Option<&Broker>)
        ensures
            r is None <==> !self.has_broker(id),
            r matches Some(b) ==> b.id == id && self.brokers@.contains(*b),
    {
        match self.find_broker_index(id) {
            Some(k) => Some(&self.brokers[k]),
            None => None,
        }
    }

    /// The position of the highlighted profile.
    pub fn selected_broker_index(&self) -> (r: Option<usize>)
        requires
            self.wf(),
        ensures
            r matches Some(k) ==> self.selected_index() == Some(k as int),
            r is None <==> self.selected_index() is None,
    {
        let mut i: usize = 0;
        while i < self.brokers.len()
            invariant
                self.wf(),
                i <= self.brokers@.len(),
                forall|j: int| 0 <= j < i ==> !(#[trigger] self.brokers@[j]).selected,
            decreases self.brokers@.len() - i,
        {
            if self.brokers[i].selected {
                proof {
                    let ii = i as int;
                    assert(0 <= ii < self.brokers@.len() && self.brokers@[ii].selected);
                    let c = choose|j: int| 0 <= j < self.brokers@.len() && (#[trigger] self.brokers@[j]).selected;
                    assert(c == ii);
                }
                return Some(i);
            }
            i += 1;
        }
        None
    }

    pub fn get_selected_broker(&self) -> (r: Option<&Broker>)
        requires
            self.wf(),
        ensures
            r is None <==> self.selected_index() is None,
            r matches Some(b) ==> *b == self.brokers@[self.selected_index()->0] && b.selected,
    {
        match self.selected_broker_index() {
            Some(k) => Some(&self.brokers[k]),
            None => None,
        }
    }

    /// Adds a fresh unsaved profile and opens its tab, creating every per-broker entry
    /// at once; the new tab becomes the current one.
    pub fn create_broker(&mut self) -> (id: usize)
        requires
            old(self).wf(),
            old(self).next_id < usize::MAX,
        ensures
            final(self).wf(),
            id == old(self).next_id,
            final(self).next_id == id + 1,
            !old(self).has_broker(id),
            !old(self).is_open(id),
            final(self).brokers@.len() == old(self).brokers@.len() + 1,
            final(self).brokers@.drop_last() == old(self).brokers@,
            final(self).brokers@.last().is_blank(id),
            final(self).broker_tabs@ == old(self).broker_tabs@.push(id),
            final(self).tab_selected == Some(id),
            final(self).has_side_entries(id),
            final(self).tab_statuses@ == old(self).tab_statuses@.insert(
                id,
                TabStatus { id, try_connect: false, connected: false },
            ),
            final(self).msgs@ == old(self).msgs@.insert(id, final(self).msgs@[id]),
            final(self).msgs@[id]@.len() == 0,
            final(self).subscribe_topics@ == old(self).subscribe_topics@.insert(
                id,
                final(self).subscribe_topics@[id],
            ),
            final(self).subscribe_topics@[id]@.len() == 0,
            final(self).subscribe_hises@ == old(self).subscribe_hises@.insert(
                id,
                final(self).subscribe_hises@[id],
            ),
            final(self).subscribe_hises@[id]@.len() == 0,
            final(self).subscribe_input@ == old(self).subscribe_input@.insert(
                id,
                final(self).subscribe_input@[id],
            ),
            final(self).subscribe_input@[id].is_empty(),
            final(self).public_input@ == old(self).public_input@.insert(
                id,
                final(self).public_input@[id],
            ),
            final(self).public_input@[id].is_empty(),
            final(self).next_pkid == old(self).next_pkid,
    {
        let id = self.next_id;
        proof {
            assert(!self.has_broker(id));
            assert(!self.is_open(id));
        }
        self.brokers.push(Broker::blank(id));
        self.next_id = id + 1;
        self.tab_statuses.insert(id, TabStatus { id, try_connect: false, connected: false });
        self.msgs.insert(id, Vec::new());
        self.subscribe_topics.insert(id, Vec::new());
        self.subscribe_hises.insert(id, Vec::new());
        self.subscribe_input.insert(id, SubscribeInput::default());
        self.public_input.insert(id, PublicInput::default());
        self.broker_tabs.push(id);
        self.tab_selected = Some(id);
        proof {
            let n = self.brokers@.len() - 1;
            assert(self.brokers@[n].id == id);
            assert forall|x: usize| #[trigger]
                self.broker_tabs@.contains(x) <==> (old(self).broker_tabs@.contains(x) || x == id) by {
                if old(self).broker_tabs@.contains(x) {
                    let t = choose|t: int|
                        0 <= t < old(self).broker_tabs@.len() && old(self).broker_tabs@[t] == x;
                    assert(self.broker_tabs@[t] == x);
                }
                if x == id {
                    assert(self.broker_tabs@[self.broker_tabs@.len() - 1] == x);
                }
                if self.broker_tabs@.contains(x) && x != id {
                    let t = choose|t: int|
                        0 <= t < self.broker_tabs@.len() && self.broker_tabs@[t] == x;
                    assert(old(self).broker_tabs@[t] == x);
                }
            }
            assert forall|i: int, j: int|
                0 <= i < self.broker_tabs@.len() && 0 <= j < self.broker_tabs@.len() && i != j
                    implies self.broker_tabs@[i] != self.broker_tabs@[j] by {
                let m = self.broker_tabs@.len() - 1;
                if i == m {
                    assert(old(self).broker_tabs@.contains(self.broker_tabs@[j]));
                } else if j == m {
                    assert(old(self).broker_tabs@.contains(self.broker_tabs@[i]));
                }
            }
            assert forall|x: usize| #[trigger] self.is_open(x) implies self.has_broker(x) by {
                if x == id {
                    assert(self.brokers@[n].id == x);
                } else {
                    assert(old(self).is_open(x));
                    let i = choose|i: int|
                        0 <= i < old(self).brokers@.len() && (#[trigger] old(self).brokers@[i]).id
                            == x;
                    assert(self.brokers@[i].id == x);
                }
            }
            assert(self.subscribe_hises@[id]@ =~= Seq::<SubscribeHis>::empty());
        }
        id
    }

    /// Opens the tab of the existing profile `id`, creating every per-broker entry at
    /// once, and makes it the current tab. An open tab only becomes current; an unknown
    /// id changes nothing.
    pub fn open_tab(&mut self, id: usize) -> (r: bool)
        requires
            old(self).wf(),
        ensures
            final(self).wf(),
            r == old(self).has_broker(id),
            !r ==> *final(self) == *old(self),
            r && old(self).is_open(id) ==> *final(self) == (AppData {
                tab_selected: Some(id),
                ..*old(self)
            }),
            r && !old(self).is_open(id) ==> {
                &&& final(self).has_side_entries(id)
                &&& final(self).broker_tabs@ == old(self).broker_tabs@.push(id)
                &&& final(self).tab_selected == Some(id)
                &&& final(self).brokers == old(self).brokers
                &&& final(self).tab_statuses@ == old(self).tab_statuses@.insert(
                    id,
                    TabStatus { id, try_connect: false, connected: false },
                )
                &&& final(self).msgs@ == old(self).msgs@.insert(id, final(self).msgs@[id])
                &&& final(self).msgs@[id]@.len() == 0
                &&& final(self).subscribe_topics@ == old(self).subscribe_topics@.insert(
                    id,
                    final(self).subscribe_topics@[id],
                )
                &&& final(self).subscribe_topics@[id]@.len() == 0
                &&& final(self).subscribe_hises@ == old(self).subscribe_hises@.insert(
                    id,
                    final(self).subscribe_hises@[id],
                )
                &&& final(self).subscribe_hises@[id]@.len() == 0
                &&& final(self).subscribe_input@ == old(self).subscribe_input@.insert(
                    id,
                    final(self).subscribe_input@[id],
                )
                &&& final(self).subscribe_input@[id].is_empty()
                &&& final(self).public_input@ == old(self).public_input@.insert(
                    id,
                    final(self).public_input@[id],
                )
                &&& final(self).public_input@[id].is_empty()
                &&& final(self).next_id == old(self).next_id
                &&& final(self).next_pkid == old(self).next_pkid
            },
    {
        if self.find_broker_index(id).is_none() {
            return false;
        }
        if self.tab_statuses.contains_key(&id) {
            self.tab_selected = Some(id);
            proof {
                lemma_open_has_broker(*old(self), *self);
            }
            return true;
        }
        proof {
            assert(!self.is_open(id));
        }
        self.tab_statuses.insert(id, TabStatus { id, try_connect: false, connected: false });
        self.msgs.insert(id, Vec::new());
        self.subscribe_topics.insert(id, Vec::new());
        self.subscribe_hises.insert(id, Vec::new());
        self.subscribe_input.insert(id, SubscribeInput::default());
        self.public_input.insert(id, PublicInput::default());
        self.broker_tabs.push(id);
        self.tab_selected = Some(id);
        proof {
            assert forall|x: usize| #[trigger]
                self.broker_tabs@.contains(x) <==> (old(self).broker_tabs@.contains(x) || x == id) by {
                if old(self).broker_tabs@.contains(x) {
                    let t = choose|t: int|
                        0 <= t < old(self).broker_tabs@.len() && old(self).broker_tabs@[t] == x;
                    assert(self.broker_tabs@[t] == x);
                }
                if x == id {
                    assert(self.broker_tabs@[self.broker_tabs@.len() - 1] == x);
                }
                if self.broker_tabs@.contains(x) && x != id {
                    let t = choose|t: int|
                        0 <= t < self.broker_tabs@.len() && self.broker_tabs@[t] == x;
                    assert(old(self).broker_tabs@[t] == x);
                }
            }
            assert forall|i: int, j: int|
                0 <= i < self.broker_tabs@.len() && 0 <= j < self.broker_tabs@.len() && i != j
                    implies self.broker_tabs@[i] != self.broker_tabs@[j] by {
                let m = self.broker_tabs@.len() - 1;
                if i == m {
                    assert(old(self).broker_tabs@.contains(self.broker_tabs@[j]));
                } else if j == m {
                    assert(old(self).broker_tabs@.contains(self.broker_tabs@[i]));
                }
            }
            assert forall|x: usize| #[trigger] self.is_open(x) implies self.has_broker(x) by {
                if x != id {
                    assert(old(self).is_open(x));
                }
                assert(old(self).has_broker(x));
                let i = choose|i: int|
                    0 <= i < old(self).brokers@.len() && (#[trigger] old(self).brokers@[i]).id == x;
                assert(self.brokers@[i].id == x);
            }
            assert(self.subscribe_hises@[id]@ =~= Seq::<SubscribeHis>::empty());
        }
        true
    }

    /// Adds a profile read back from persistence, marked stored, with its tab closed.
    /// An id already present, or the largest id, is refused.
    pub fn load_broker(&mut self, db: BrokerDB) -> (r: bool)
        requires
            old(self).wf(),
        ensures
            final(self).wf(),
            r == (!old(self).has_broker(db.id) && db.id < usize::MAX),
            !r ==> *final(self) == *old(self),
            r ==> {
                &&& final(self).brokers@ == old(self).brokers@.push(
                    Broker {
                        id: db.id,
                        client_id: db.client_id,
                        name: db.name,
                        addr: db.addr,
                        port: db.port,
                        params: db.params,
                        use_credentials: db.use_credentials,
                        user_name: db.user_name,
                        password: db.password,
                        stored: true,
                        selected: false,
                    },
                )
                &&& final(self).next_id == if db.id < old(self).next_id {
                    old(self).next_id
                } else {
                    (db.id + 1) as usize
                }
                &&& *final(self) == (AppData {
                    brokers: final(self).brokers,
                    next_id: final(self).next_id,
                    ..*old(self)
                })
            },
    {
        if db.id == usize::MAX || self.find_broker_index(db.id).is_some() {
            return false;
        }
        let id = db.id;
        self.brokers.push(
            Broker {
                id: db.id,
                client_id: db.client_id,
                name: db.name,
                addr: db.addr,
                port: db.port,
                params: db.params,
                use_credentials: db.use_credentials,
                user_name: db.user_name,
                password: db.password,
                stored: true,
                selected: false,
            },
        );
        if id >= self.next_id {
            self.next_id = id + 1;
        }
        proof {
            assert forall|x: usize| #[trigger] self.is_open(x) implies self.has_broker(x) by {
                assert(old(self).is_open(x));
                assert(old(self).has_broker(x));
                let i = choose|i: int|
                    0 <= i < old(self).brokers@.len() && (#[trigger] old(self).brokers@[i]).id == x;
                assert(self.brokers@[i].id == x);
            }
        }
        true
    }

    /// Closes the tab of `id`: every per-broker entry of it goes at once. The profile
    /// stays.
    pub fn close_tab(&mut self, id: usize) -> (r: bool)
        requires
            old(self).wf(),
        ensures
            final(self).wf(),
            r == old(self).is_open(id),
            !final(self).is_open(id),
            final(self).has_no_side_entry(id),
            forall|x: usize| #[trigger]
                final(self).is_open(x) <==> (old(self).is_open(x) && x != id),
            final(self).brokers == old(self).brokers,
            final(self).tab_statuses@ == old(self).tab_statuses@.remove(id),
            final(self).msgs@ == old(self).msgs@.remove(id),
            final(self).subscribe_topics@ == old(self).subscribe_topics@.remove(id),
            final(self).subscribe_hises@ == old(self).subscribe_hises@.remove(id),
            final(self).subscribe_input@ == old(self).subscribe_input@.remove(id),
            final(self).public_input@ == old(self).public_input@.remove(id),
            final(self).tab_selected == (if old(self).tab_selected == Some(id) {
                None
            } else {
                old(self).tab_selected
            }),
            final(self).next_id == old(self).next_id,
            final(self).next_pkid == old(self).next_pkid,
    {
        let mut t: usize = 0;
        while t < self.broker_tabs.len()
            invariant
                t <= self.broker_tabs@.len(),
                forall|j: int| 0 <= j < t ==> self.broker_tabs@[j] != id,
            ensures
                t <= self.broker_tabs@.len(),
                forall|j: int| 0 <= j < t ==> self.broker_tabs@[j] != id,
                t < self.broker_tabs@.len() ==> self.broker_tabs@[t as int] == id,
            decreases self.broker_tabs@.len() - t,
        {
            if self.broker_tabs[t] == id {
                break;
            }
            t += 1;
        }
        let found = t < self.broker_tabs.len();
        if found {
            let ghost tabs = self.broker_tabs@;
            self.broker_tabs.remove(t);
            proof {
                assert forall|x: usize| #[trigger]
                    self.broker_tabs@.contains(x) <==> (tabs.contains(x) && x != id) by {
                    if self.broker_tabs@.contains(x) {
                        let j = choose|j: int|
                            0 <= j < self.broker_tabs@.len() && self.broker_tabs@[j] == x;
                        if j < t {
                            assert(tabs[j] == x);
                        } else {
                            assert(tabs[j + 1] == x);
                        }
                    }
                    if tabs.contains(x) && x != id {
                        let j = choose|j: int| 0 <= j < tabs.len() && tabs[j] == x;
                        assert(j != t);
                        if j < t {
                            assert(self.broker_tabs@[j] == x);
                        } else {
                            assert(self.broker_tabs@[j - 1] == x);
                        }
                    }
                }
            }
        } else {
            proof {
                assert(!self.broker_tabs@.contains(id));
            }
        }
        self.tab_statuses.remove(&id);
        self.msgs.remove(&id);
        self.subscribe_topics.remove(&id);
        self.subscribe_hises.remove(&id);
        self.subscribe_input.remove(&id);
        self.public_input.remove(&id);
        if self.tab_selected == Some(id) {
            self.tab_selected = None;
        }
        proof {
            assert forall|x: usize| #[trigger] self.is_open(x) implies self.has_broker(x) by {
                assert(old(self).is_open(x));
                assert(old(self).has_broker(x));
                let i = choose|i: int|
                    0 <= i < old(self).brokers@.len() && (#[trigger] old(self).brokers@[i]).id == x;
                assert(self.brokers@[i].id == x);
            }
        }
        found
    }

    /// Removes the profile `id` together with its tab and every per-broker entry.
    pub fn delete_broker(&mut self, id: usize) -> (r: bool)
        requires
            old(self).wf(),
        ensures
            final(self).wf(),
            r == old(self).has_broker(id),
            !final(self).has_broker(id),
            !final(self).is_open(id),
            final(self).has_no_side_entry(id),
            forall|x: usize| #[trigger]
                final(self).is_open(x) <==> (old(self).is_open(x) && x != id),
            forall|x: usize|
                x != id ==> (#[trigger] final(self).has_broker(x) <==> old(self).has_broker(x)),
            r ==> exists|k: int|
                0 <= k < old(self).brokers@.len() && old(self).brokers@[k].id == id
                    && final(self).brokers@ == old(self).brokers@.remove(k),
            !r ==> final(self).brokers == old(self).brokers,
            final(self).msgs@ == old(self).msgs@.remove(id),
            final(self).subscribe_hises@ == old(self).subscribe_hises@.remove(id),
            final(self).tab_selected == (if old(self).tab_selected == Some(id) {
                None
            } else {
                old(self).tab_selected
            }),
    {
        self.close_tab(id);
        match self.find_broker_index(id) {
            None => false,
            Some(k) => {
                let ghost pre = *self;
                let ghost bs = self.brokers@;
                self.brokers.remove(k);
                proof {
                    assert forall|x: usize| #[trigger] self.has_broker(x) <==> (exists|i: int|
                        0 <= i < bs.len() && (#[trigger] bs[i]).id == x && i != k) by {
                        if self.has_broker(x) {
                            let j = choose|j: int|
                                0 <= j < self.brokers@.len() && (#[trigger] self.brokers@[j]).id == x;
                            if j < k {
                                assert(bs[j].id == x);
                            } else {
                                assert(bs[j + 1].id == x);
                            }
                        }
                        if exists|i: int| 0 <= i < bs.len() && (#[trigger] bs[i]).id == x && i != k {
                            let i = choose|i: int| 0 <= i < bs.len() && (#[trigger] bs[i]).id == x && i != k;
                            if i < k {
                                assert(self.brokers@[i].id == x);
                            } else {
                                assert(self.brokers@[i - 1].id == x);
                            }
                        }
                    }
                    assert forall|x: usize| #[trigger] self.is_open(x) implies self.has_broker(x) by {
                        assert(pre.is_open(x));
                        assert(pre.has_broker(x));
                        let i = choose|i: int| 0 <= i < bs.len() && (#[trigger] bs[i]).id == x;
                        assert(x != id);
                        assert(i != k);
                    }
                }
                true
            },
        }
    }

    /// Puts `b` in place of the profile at position `k`, which has the same id and
    /// selection.
    pub fn replace_broker_at(&mut self, k: usize, b: Broker)
        requires
            old(self).wf(),
            k < old(self).brokers@.len(),
            b.id == old(self).brokers@[k as int].id,
            b.selected == old(self).brokers@[k as int].selected,
        ensures
            final(self).wf(),
            final(self).brokers@ == old(self).brokers@.update(k as int, b),
            final(self).same_but_brokers(*old(self)),
    {
        self.brokers.set(k, b);
        proof {
            assert forall|x: usize| #[trigger] self.is_open(x) implies self.has_broker(x) by {
                assert(old(self).is_open(x));
                assert(old(self).has_broker(x));
                let i = choose|i: int|
                    0 <= i < old(self).brokers@.len() && (#[trigger] old(self).brokers@[i]).id == x;
                assert(self.brokers@[i].id == x);
            }
        }
    }
}

/// Open tabs keep their profiles when neither the profiles nor the tabs change.
pub proof fn lemma_open_has_broker(a: AppData, b: AppData)
    requires
        a.wf(),
        b.brokers == a.brokers,
        b.broker_tabs == a.broker_tabs,
    ensures
        forall|x: usize| #[trigger] b.is_open(x) ==> b.has_broker(x),
{
    assert forall|x: usize| #[trigger] b.is_open(x) implies b.has_broker(x) by {
        assert(a.is_open(x));
    }
}

} // verus!
