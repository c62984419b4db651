use crate::common::{
    Msg, PublicMsg, PublicStatus, QoS, SubscribeHis, SubscribeMsg, SubscribeStatus,
    SubscribeTopic, TabStatus,
};
use crate::hierarchy::{his_distinct, his_one_selected, lemma_open_has_broker, AppData};
use vstd::prelude::*;

verus! {

broadcast use vstd::std_specs::hash::group_hash_axioms;

/// The packet id handed out after `p`: ids run from 1 to 65535 and then start over.
pub open spec fn pkid_after(p: u16) -> u16 {
    if p == u16::MAX {
        1
    } else {
        (p + 1) as u16
    }
}

/// A subscribe request with packet id `pkid` that is still waiting for its ack.
pub open spec fn is_pending_sub(t: SubscribeTopic, pkid: u16) -> bool {
    t.pkid == pkid && t.status == SubscribeStatus::Ing
}

/// `k` is the first subscribe request of `s` waiting for an ack with `pkid`.
pub open spec fn first_pending_sub(s: Seq<SubscribeTopic>, pkid: u16, k: int) -> bool {
    &&& 0 <= k < s.len()
    &&& is_pending_sub(s[k], pkid)
    &&& forall|j: int| 0 <= j < k ==> !is_pending_sub(#[trigger] s[j], pkid)
}

/// `k` is the first publish of `s` waiting for an ack with `pkid`.
pub open spec fn first_pending_publish(s: Seq<Msg>, pkid: u16, k: int) -> bool {
    &&& 0 <= k < s.len()
    &&& s[k].is_pending_publish(pkid)
    &&& forall|j: int| 0 <= j < k ==> !(#[trigger] s[j]).is_pending_publish(pkid)
}

/// Whether `new` is the history `old` after a successful subscription to
/// `topic` at `qos`: an entry equal in topic and QoS is never added twice, and a new
/// one goes last, unselected.
pub open spec fn his_added(
    old: Seq<SubscribeHis>,
    new: Seq<SubscribeHis>,
    topic: Seq<char>,
    qos: QoS,
) -> bool {
    if exists|i: int| 0 <= i < old.len() && (#[trigger] old[i]).same_pair(topic, qos) {
        new == old
    } else {
        &&& new.len() == old.len() + 1
        &&& new.drop_last() == old
        &&& new.last().same_pair(topic, qos)
        &&& !new.last().selected
    }
}

/// The state after a publish ack for `pkid` on broker `id`, which updated record `r`.
pub open spec fn publish_acked(old: AppData, new: AppData, id: usize, pkid: u16, r: Option<usize>) -> bool {
    match r {
        Some(k) => {
            &&& old.is_open(id)
            &&& first_pending_publish(old.msgs@[id]@, pkid, k as int)
            &&& new.msgs@ == old.msgs@.insert(id, new.msgs@[id])
            &&& new.msgs@[id]@ == old.msgs@[id]@.update(k as int, old.msgs@[id]@[k as int].acked())
            &&& new == (AppData { msgs: new.msgs, ..old })
        },
        None => {
            &&& new == old
            &&& old.is_open(id) ==> forall|k: int|
                0 <= k < old.msgs@[id]@.len() ==> !(#[trigger] old.msgs@[id]@[k]).is_pending_publish(
                    pkid,
                )
        },
    }
}

/// Adds a subscribed pair to a history unless an equal one is there.
pub fn add_subscribe_his(his: &mut Vec<SubscribeHis>, topic: &String, qos: QoS)
    ensures
        his_added(old(his)@, final(his)@, topic@, qos),
{
    let mut i: usize = 0;
    while i < his.len()
        invariant
            i <= his@.len(),
            his@ == old(his)@,
            forall|j: int| 0 <= j < i ==> !(#[trigger] his@[j]).same_pair(topic@, qos),
        decreases his@.len() - i,
    {
        if his[i].qos == qos && his[i].topic == *topic {
            return ;
        }
        i += 1;
    }
    his.push(SubscribeHis { topic: topic.clone(), qos, selected: false });
    proof {
        assert(his@.drop_last() =~= old(his)@);
    }
}

/// Adding a pair to a history keeps it free of repeated pairs and keeps at most one
/// entry selected.
pub proof fn lemma_his_added_keeps(s0: Seq<SubscribeHis>, s1: Seq<SubscribeHis>, topic: Seq<char>, qos: QoS)
    requires
        his_one_selected(s0),
        his_distinct(s0),
        his_added(s0, s1, topic, qos),
    ensures
        his_one_selected(s1),
        his_distinct(s1),
        exists|i: int| 0 <= i < s1.len() && (#[trigger] s1[i]).same_pair(topic, qos),
{
    if exists|i: int| 0 <= i < s0.len() && (#[trigger] s0[i]).same_pair(topic, qos) {
    } else {
        let n = s0.len() as int;
        assert forall|i: int| 0 <= i < n implies (#[trigger] s1[i]) == s0[i] by {
            assert(s1.drop_last()[i] == s1[i]);
        }
        assert forall|i: int, j: int|
            0 <= i < s1.len() && 0 <= j < s1.len() && #[trigger] s1[i].selected
                && #[trigger] s1[j].selected implies i == j by {
            assert(s1[n] == s1.last());
            if i < n && j < n {
                assert(s0[i].selected && s0[j].selected);
            }
        }
        assert forall|i: int, j: int|
            0 <= i < s1.len() && 0 <= j < s1.len() && i != j implies !(#[trigger] s1[i]).same_pair(
            (#[trigger] s1[j]).topic@,
            s1[j].qos,
        ) by {
            assert(s1[n] == s1.last());
            if i < n && j < n {
                assert(!s0[i].same_pair(s0[j].topic@, s0[j].qos));
            } else if i == n {
                assert(!s0[j].same_pair(topic, qos));
            } else {
                assert(!s0[i].same_pair(topic, qos));
            }
        }
        assert(s1[n].same_pair(topic, qos));
    }
}

/// Subscribing to the same topic and QoS twice leaves exactly one history entry for the
/// pair, the second subscription changes nothing, and at most one entry stays selected.
pub proof fn lemma_his_dedup_idempotent(
    s0: Seq<SubscribeHis>,
    s1: Seq<SubscribeHis>,
    s2: Seq<SubscribeHis>,
    topic: Seq<char>,
    qos: QoS,
)
    requires
        his_one_selected(s0),
        his_distinct(s0),
        his_added(s0, s1, topic, qos),
        his_added(s1, s2, topic, qos),
    ensures
        s2 == s1,
        exists|i: int|
            0 <= i < s2.len() && (#[trigger] s2[i]).same_pair(topic, qos) && forall|j: int|
                0 <= j < s2.len() && (#[trigger] s2[j]).same_pair(topic, qos) ==> j == i,
        his_one_selected(s1),
        his_one_selected(s2),
{
    lemma_his_added_keeps(s0, s1, topic, qos);
    let i = choose|i: int| 0 <= i < s1.len() && (#[trigger] s1[i]).same_pair(topic, qos);
    assert forall|j: int| 0 <= j < s2.len() && (#[trigger] s2[j]).same_pair(topic, qos) implies j
        == i by {
        if j != i {
            assert(!s1[j].same_pair(s1[i].topic@, s1[i].qos));
        }
    }
}

/// An ack for a pending publish turns exactly that record to `Success`; an ack that
/// matches no pending publish changes nothing.
pub proof fn lemma_publish_ack_exact(before: AppData, after: AppData, id: usize, pkid: u16, r: Option<usize>)
    requires
        publish_acked(before, after, id, pkid, r),
    ensures
        r matches Some(k) ==> {
            &&& before.msgs@[id]@[k as int].is_pending_publish(pkid)
            &&& after.msgs@[id]@[k as int].spec_is_sucess()
            &&& after.msgs@[id]@.len() == before.msgs@[id]@.len()
            &&& forall|j: int|
                0 <= j < before.msgs@[id]@.len() && j != k ==> after.msgs@[id]@[j]
                    == before.msgs@[id]@[j]
            &&& forall|other: usize| other != id ==> after.msgs@.contains_key(other)
                == before.msgs@.contains_key(other) && (before.msgs@.contains_key(other)
                ==> #[trigger] after.msgs@[other] == before.msgs@[other])
        },
        r is None ==> after == before,
{
}

/// Marks as selected the entries equal to `topic` and `qos`, and unmarks the rest.
pub fn select_his(his: &mut Vec<SubscribeHis>, topic: &String, qos: QoS)
    ensures
        final(his)@.len() == old(his)@.len(),
        forall|i: int|
            0 <= i < old(his)@.len() ==> #[trigger] final(his)@[i] == (SubscribeHis {
                selected: old(his)@[i].same_pair(topic@, qos),
                ..old(his)@[i]
            }),
{
    let mut i: usize = 0;
    while i < his.len()
        invariant
            his@.len() == old(his)@.len(),
            i <= his@.len(),
            forall|k: int| 0 <= k < i ==> #[trigger] his@[k] == (SubscribeHis {
                selected: old(his)@[k].same_pair(topic@, qos),
                ..old(his)@[k]
            }),
            forall|k: int| i <= k < his@.len() ==> #[trigger] his@[k] == old(his)@[k],
        decreases his@.len() - i,
    {
        let mut e = his[i].copy();
        e.selected = e.qos == qos && e.topic == *topic;
        his.set(i, e);
        i += 1;
    }
}

/// The position of the first selected entry of a history.
pub fn selected_his_index(his: &Vec<SubscribeHis>) -> (r: Option<usize>)
    ensures
        r matches Some(k) ==> k < his@.len() && his@[k as int].selected && forall|j: int|
            0 <= j < k ==> !(#[trigger] his@[j]).selected,
        r is None ==> forall|j: int| 0 <= j < his@.len() ==> !(#[trigger] his@[j]).selected,
{
    let mut i: usize = 0;
    while i < his.len()
        invariant
            i <= his@.len(),
            forall|j: int| 0 <= j < i ==> !(#[trigger] his@[j]).selected,
        decreases his@.len() - i,
    {
        if his[i].selected {
            return Some(i);
        }
        i += 1;
    }
    None
}

/// Selecting by topic and QoS in a history free of repeated pairs leaves at most one
/// entry selected.
pub proof fn lemma_select_his_keeps(s0: Seq<SubscribeHis>, s1: Seq<SubscribeHis>, topic: Seq<char>, qos: QoS)
    requires
        his_distinct(s0),
        s1.len() == s0.len(),
        forall|i: int|
            0 <= i < s0.len() ==> #[trigger] s1[i] == (SubscribeHis {
                selected: s0[i].same_pair(topic, qos),
                ..s0[i]
            }),
    ensures
        his_one_selected(s1),
        his_distinct(s1),
{
    assert forall|i: int, j: int|
        0 <= i < s1.len() && 0 <= j < s1.len() && #[trigger] s1[i].selected
            && #[trigger] s1[j].selected implies i == j by {
        if i != j {
            assert(!s0[i].same_pair(s0[j].topic@, s0[j].qos));
        }
    }
    assert forall|i: int, j: int|
        0 <= i < s1.len() && 0 <= j < s1.len() && i != j implies !(#[trigger] s1[i]).same_pair(
        (#[trigger] s1[j]).topic@,
        s1[j].qos,
    ) by {
        assert(!s0[i].same_pair(s0[j].topic@, s0[j].qos));
    }
}

/// Removing an entry keeps a history free of repeated pairs and keeps at most one entry
/// selected.
pub proof fn lemma_his_remove_keeps(s: Seq<SubscribeHis>, k: int)
    requires
        0 <= k < s.len(),
        his_one_selected(s),
        his_distinct(s),
    ensures
        his_one_selected(s.remove(k)),
        his_distinct(s.remove(k)),
{
    let t = s.remove(k);
    assert forall|i: int| 0 <= i < t.len() implies #[trigger] t[i] == s[if i < k {
        i
    } else {
        i + 1
    }] by {}
    assert forall|i: int, j: int|
        0 <= i < t.len() && 0 <= j < t.len() && #[trigger] t[i].selected && #[trigger] t[j].selected
            implies i == j by {
        let a = if i < k { i } else { i + 1 };
        let c = if j < k { j } else { j + 1 };
        assert(s[a].selected && s[c].selected);
    }
    assert forall|i: int, j: int|
        0 <= i < t.len() && 0 <= j < t.len() && i != j implies !(#[trigger] t[i]).same_pair(
        (#[trigger] t[j]).topic@,
        t[j].qos,
    ) by {
        let a = if i < k { i } else { i + 1 };
        let c = if j < k { j } else { j + 1 };
        assert(!s[a].same_pair(s[c].topic@, s[c].qos));
    }
}

impl AppData {
    fn alloc_pkid(&mut self) -> (r: u16)
        ensures
            r == old(self).next_pkid,
            *final(self) == (AppData { next_pkid: pkid_after(old(self).next_pkid), ..*old(self) }),
    {
        let p = self.next_pkid;
        self.next_pkid = if p == u16::MAX {
            1
        } else {
            p + 1
        };
        p
    }

    /// Records a subscribe request to `topic` at `qos` on the open tab `id`, waiting for
    /// its ack under a fresh packet id, which it returns.
    pub fn subscribe(&mut self, id: usize, topic: String, qos: QoS) -> (r: Option<u16>)
        requires
            old(self).wf(),
        ensures
            final(self).wf(),
            r is Some <==> old(self).is_open(id),
            r is None ==> *final(self) == *old(self),
            r matches Some(p) ==> {
                &&& p == old(self).next_pkid
                &&& final(self).next_pkid == pkid_after(p)
                &&& final(self).subscribe_topics@ == old(self).subscribe_topics@.insert(
                    id,
                    final(self).subscribe_topics@[id],
                )
                &&& final(self).subscribe_topics@[id]@ == old(self).subscribe_topics@[id]@.push(
                    SubscribeTopic { pkid: p, topic, qos, status: SubscribeStatus::Ing },
                )
                &&& *final(self) == (AppData {
                    subscribe_topics: final(self).subscribe_topics,
                    next_pkid: final(self).next_pkid,
                    ..*old(self)
                })
            },
    {
        if !self.subscribe_topics.contains_key(&id) {
            return None;
        }
        let mut live = match self.subscribe_topics.remove(&id) {
            Some(v) => v,
            None => return None,
        };
        let pkid = self.alloc_pkid();
        live.push(SubscribeTopic { pkid, topic, qos, status: SubscribeStatus::Ing });
        self.subscribe_topics.insert(id, live);
        proof {
            assert(self.subscribe_topics@ =~= old(self).subscribe_topics@.insert(id, live));
            lemma_open_has_broker(*old(self), *self);
        }
        Some(pkid)
    }

    /// Applies the ack of a subscribe request: the first request of tab `id` waiting
    /// under `pkid` turns to `Success` or `Fail`, and on success its topic and QoS join
    /// the tab's history unless an equal entry is there. Returns the position of the
    /// request; an unknown tab or packet id changes nothing.
    pub fn subscribe_ack(&mut self, id: usize, pkid: u16, success: bool) -> (r: Option<usize>)
        requires
            old(self).wf(),
        ensures
            final(self).wf(),
            r is None ==> *final(self) == *old(self),
            r is None && old(self).is_open(id) ==> forall|k: int|
                0 <= k < old(self).subscribe_topics@[id]@.len() ==> !is_pending_sub(
                    #[trigger] old(self).subscribe_topics@[id]@[k],
                    pkid,
                ),
            r matches Some(k) ==> {
                let live = old(self).subscribe_topics@[id]@;
                &&& old(self).is_open(id)
                &&& first_pending_sub(live, pkid, k as int)
                &&& final(self).subscribe_topics@ == old(self).subscribe_topics@.insert(
                    id,
                    final(self).subscribe_topics@[id],
                )
                &&& final(self).subscribe_topics@[id]@ == live.update(
                    k as int,
                    SubscribeTopic {
                        status: if success {
                            SubscribeStatus::Success
                        } else {
                            SubscribeStatus::Fail
                        },
                        ..live[k as int]
                    },
                )
                &&& final(self).subscribe_hises@ == old(self).subscribe_hises@.insert(
                    id,
                    final(self).subscribe_hises@[id],
                )
                &&& if success {
                    his_added(
                        old(self).subscribe_hises@[id]@,
                        final(self).subscribe_hises@[id]@,
                        live[k as int].topic@,
                        live[k as int].qos,
                    )
                } else {
                    final(self).subscribe_hises@[id] == old(self).subscribe_hises@[id]
                }
                &&& *final(self) == (AppData {
                    subscribe_topics: final(self).subscribe_topics,
                    subscribe_hises: final(self).subscribe_hises,
                    ..*old(self)
                })
            },
    {
        if !self.subscribe_topics.contains_key(&id) {
            return None;
        }
        let k = {
            let live = match self.subscribe_topics.get(&id) {
                Some(v) => v,
                None => return None,
            };
            let mut k: usize = 0;
            while k < live.len()
                invariant
                    k <= live@.len(),
                    forall|j: int| 0 <= j < k ==> !is_pending_sub(#[trigger] live@[j], pkid),
                ensures
                    k <= live@.len(),
                    forall|j: int| 0 <= j < k ==> !is_pending_sub(#[trigger] live@[j], pkid),
                    k < live@.len() ==> is_pending_sub(live@[k as int], pkid),
                decreases live@.len() - k,
            {
                if live[k].pkid == pkid && live[k].status == SubscribeStatus::Ing {
                    break;
                }
                k += 1;
            }
            if k == live.len() {
                return None;
            }
            k
        };
        let ghost live0 = self.subscribe_topics@[id]@;
        let ghost his0 = self.subscribe_hises@[id]@;
        let mut live = match self.subscribe_topics.remove(&id) {
            Some(v) => v,
            None => return None,
        };
        let topic = live[k].topic.clone();
        let qos = live[k].qos;
        let status = if success {
            SubscribeStatus::Success
        } else {
            SubscribeStatus::Fail
        };
        let entry = SubscribeTopic { pkid: live[k].pkid, topic: topic.clone(), qos, status };
        live.set(k, entry);
        self.subscribe_topics.insert(id, live);
        proof {
            assert(self.subscribe_topics@ =~= old(self).subscribe_topics@.insert(id, live));
        }
        if success {
            let mut his = match self.subscribe_hises.remove(&id) {
                Some(v) => v,
                None => return None,
            };
            add_subscribe_his(&mut his, &topic, qos);
            proof {
                lemma_his_added_keeps(his0, his@, topic@, qos);
            }
            self.subscribe_hises.insert(id, his);
            proof {
                assert(self.subscribe_hises@ =~= old(self).subscribe_hises@.insert(id, his));
            }
        }
        proof {
            lemma_open_has_broker(*old(self), *self);
        }
        Some(k)
    }

    /// Records a publish of `msg` to `topic` at `qos` on the open tab `id`, waiting for
    /// its ack under a fresh packet id, which it returns.
    pub fn publish(&mut self, id: usize, topic: String, msg: String, qos: QoS) -> (r: Option<u16>)
        requires
            old(self).wf(),
        ensures
            final(self).wf(),
            r is Some <==> old(self).is_open(id),
            r is None ==> *final(self) == *old(self),
            r matches Some(p) ==> {
                &&& p == old(self).next_pkid
                &&& final(self).next_pkid == pkid_after(p)
                &&& final(self).msgs@ == old(self).msgs@.insert(id, final(self).msgs@[id])
                &&& final(self).msgs@[id]@ == old(self).msgs@[id]@.push(
                    Msg::Public(PublicMsg { pkid: p, topic, msg, qos, status: PublicStatus::Ing }),
                )
                &&& *final(self) == (AppData {
                    msgs: final(self).msgs,
                    next_pkid: final(self).next_pkid,
                    ..*old(self)
                })
            },
    {
        if !self.msgs.contains_key(&id) {
            return None;
        }
        let mut log = match self.msgs.remove(&id) {
            Some(v) => v,
            None => return None,
        };
        let pkid = self.alloc_pkid();
        log.push(Msg::Public(PublicMsg { pkid, topic, msg, qos, status: PublicStatus::Ing }));
        self.msgs.insert(id, log);
        proof {
            assert(self.msgs@ =~= old(self).msgs@.insert(id, log));
            lemma_open_has_broker(*old(self), *self);
        }
        Some(pkid)
    }

    /// Applies the ack of a publish: the first publish of tab `id` waiting under `pkid`
    /// turns to `Success`, in place. Returns its position; an unknown tab or packet id
    /// changes nothing.
    pub fn publish_ack(&mut self, id: usize, pkid: u16) -> (r: Option<usize>)
        requires
            old(self).wf(),
        ensures
            final(self).wf(),
            publish_acked(*old(self), *final(self), id, pkid, r),
    {
        let k = {
            let log = match self.msgs.get(&id) {
                Some(v) => v,
                None => return None,
            };
            let mut k: usize = 0;
            while k < log.len()
                invariant
                    k <= log@.len(),
                    forall|j: int| 0 <= j < k ==> !(#[trigger] log@[j]).is_pending_publish(pkid),
                ensures
                    k <= log@.len(),
                    forall|j: int| 0 <= j < k ==> !(#[trigger] log@[j]).is_pending_publish(pkid),
                    k < log@.len() ==> log@[k as int].is_pending_publish(pkid),
                decreases log@.len() - k,
            {
                let hit = match &log[k] {
                    Msg::Public(m) => m.pkid == pkid && m.status == PublicStatus::Ing,
                    Msg::Subscribe(_) => false,
                };
                if hit {
                    break;
                }
                k += 1;
            }
            if k == log.len() {
                return None;
            }
            k
        };
        let mut log = match self.msgs.remove(&id) {
            Some(v) => v,
            None => return None,
        };
        let acked = match &log[k] {
            Msg::Public(m) => Msg::Public(
                PublicMsg {
                    pkid: m.pkid,
                    topic: m.topic.clone(),
                    msg: m.msg.clone(),
                    qos: m.qos,
                    status: PublicStatus::Success,
                },
            ),
            Msg::Subscribe(m) => Msg::Subscribe(
                SubscribeMsg { pkid: m.pkid, topic: m.topic.clone(), msg: m.msg.clone(), qos: m.qos },
            ),
        };
        log.set(k, acked);
        self.msgs.insert(id, log);
        proof {
            assert(self.msgs@ =~= old(self).msgs@.insert(id, log));
            lemma_open_has_broker(*old(self), *self);
        }
        Some(k)
    }

    /// Appends a message received on tab `id`; an unknown tab changes nothing.
    pub fn receive_msg(&mut self, id: usize, m: SubscribeMsg) -> (r: bool)
        requires
            old(self).wf(),
        ensures
            final(self).wf(),
            r == old(self).is_open(id),
            !r ==> *final(self) == *old(self),
            r ==> {
                &&& final(self).msgs@ == old(self).msgs@.insert(id, final(self).msgs@[id])
                &&& final(self).msgs@[id]@ == old(self).msgs@[id]@.push(Msg::Subscribe(m))
                &&& *final(self) == (AppData { msgs: final(self).msgs, ..*old(self) })
            },
    {
        if !self.msgs.contains_key(&id) {
            return false;
        }
        let mut log = match self.msgs.remove(&id) {
            Some(v) => v,
            None => return false,
        };
        log.push(Msg::Subscribe(m));
        self.msgs.insert(id, log);
        proof {
            assert(self.msgs@ =~= old(self).msgs@.insert(id, log));
            lemma_open_has_broker(*old(self), *self);
        }
        true
    }

    /// Whether tab `id` is connected; a tab that is not open is not.
    pub fn is_connected(&self, id: usize) -> (r: bool)
        ensures
            r == (self.tab_statuses@.contains_key(id) && self.tab_statuses@[id].connected),
    {
        match self.tab_statuses.get(&id) {
            Some(status) => status.connected,
            None => false,
        }
    }

    /// Sets the connection flags of tab `id`; an unknown tab changes nothing.
    pub fn set_connection(&mut self, id: usize, try_connect: bool, connected: bool) -> (r: bool)
        requires
            old(self).wf(),
        ensures
            final(self).wf(),
            r == old(self).is_open(id),
            !r ==> *final(self) == *old(self),
            r ==> {
                &&& final(self).tab_statuses@ == old(self).tab_statuses@.insert(
                    id,
                    TabStatus { id, try_connect, connected },
                )
                &&& *final(self) == (AppData { tab_statuses: final(self).tab_statuses, ..*old(self) })
            },
    {
        if !self.tab_statuses.contains_key(&id) {
            return false;
        }
        self.tab_statuses.insert(id, TabStatus { id, try_connect, connected });
        proof {
            lemma_open_has_broker(*old(self), *self);
        }
        true
    }

    /// The id of the highlighted profile when its tab is open.
    pub fn selected_open_id(&self) -> (r: Option<usize>)
        requires
            self.wf(),
        ensures
            r == (match self.selected_id() {
                Some(id) => if self.is_open(id) {
                    Some(id)
                } else {
                    None::<usize>
                },
                None => None,
            }),
    {
        match self.get_selected_broker() {
            Some(b) => if self.subscribe_hises.contains_key(&b.id) {
                Some(b.id)
            } else {
                None
            },
            None => None,
        }
    }

    /// In the highlighted broker's history, selects the entry equal to `topic` and `qos`
    /// and unselects the others. Without a highlighted open broker nothing changes.
    pub fn click_subscribe_his(&mut self, topic: &String, qos: QoS) -> (r: Option<usize>)
        requires
            old(self).wf(),
        ensures
            final(self).wf(),
            r is None <==> !(old(self).selected_id() matches Some(id) && old(self).is_open(id)),
            r is None ==> *final(self) == *old(self),
            r matches Some(id) ==> {
                let h0 = old(self).subscribe_hises@[id]@;
                let h1 = final(self).subscribe_hises@[id]@;
                &&& old(self).selected_id() == Some(id)
                &&& final(self).subscribe_hises@ == old(self).subscribe_hises@.insert(
                    id,
                    final(self).subscribe_hises@[id],
                )
                &&& h1.len() == h0.len()
                &&& forall|i: int|
                    0 <= i < h0.len() ==> #[trigger] h1[i] == (SubscribeHis {
                        selected: h0[i].same_pair(topic@, qos),
                        ..h0[i]
                    })
                &&& *final(self) == (AppData { subscribe_hises: final(self).subscribe_hises, ..*old(self) })
            },
    {
        let id = match self.selected_open_id() {
            Some(id) => id,
            None => return None,
        };
        let ghost h0 = self.subscribe_hises@[id]@;
        let mut his = match self.subscribe_hises.remove(&id) {
            Some(v) => v,
            None => return None,
        };
        select_his(&mut his, topic, qos);
        proof {
            lemma_select_his_keeps(h0, his@, topic@, qos);
        }
        self.subscribe_hises.insert(id, his);
        proof {
            assert(self.subscribe_hises@ =~= old(self).subscribe_hises@.insert(id, his));
            lemma_open_has_broker(*old(self), *self);
        }
        Some(id)
    }

    /// A copy of the selected entry of the highlighted broker's history.
    pub fn get_selected_subscribe_his(&self) -> (r: Option<SubscribeHis>)
        requires
            self.wf(),
        ensures
            r is Some <==> (self.selected_id() matches Some(id) && self.is_open(id) && exists|i: int|
                0 <= i < self.subscribe_hises@[id]@.len()
                    && (#[trigger] self.subscribe_hises@[id]@[i]).selected),
            r matches Some(e) ==> e.selected && self.subscribe_hises@[self.selected_id()->0]@.contains(e),
    {
        let id = match self.selected_open_id() {
            Some(id) => id,
            None => return None,
        };
        let his = match self.subscribe_hises.get(&id) {
            Some(v) => v,
            None => return None,
        };
        match selected_his_index(his) {
            Some(k) => Some(his[k].copy()),
            None => None,
        }
    }

    /// Removes the selected entry of the highlighted broker's history. Returns the
    /// broker's id; when nothing is selected or no open broker is highlighted, nothing
    /// changes.
    pub fn remove_subscribe_his(&mut self) -> (r: Option<usize>)
        requires
            old(self).wf(),
        ensures
            final(self).wf(),
            r is None ==> *final(self) == *old(self),
            r matches Some(id) ==> {
                let h0 = old(self).subscribe_hises@[id]@;
                &&& old(self).selected_id() == Some(id)
                &&& old(self).is_open(id)
                &&& exists|k: int|
                    0 <= k < h0.len() && h0[k].selected && final(self).subscribe_hises@[id]@
                        == h0.remove(k)
                &&& final(self).subscribe_hises@ == old(self).subscribe_hises@.insert(
                    id,
                    final(self).subscribe_hises@[id],
                )
                &&& *final(self) == (AppData { subscribe_hises: final(self).subscribe_hises, ..*old(self) })
            },
            r is None && (old(self).selected_id() matches Some(id) && old(self).is_open(id))
                ==> forall|i: int|
                0 <= i < old(self).subscribe_hises@[old(self).selected_id()->0]@.len()
                    ==> !(#[trigger] old(self).subscribe_hises@[old(self).selected_id()->0]@[i]).selected,
    {
        let id = match self.selected_open_id() {
            Some(id) => id,
            None => return None,
        };
        let k = match self.subscribe_hises.get(&id) {
            Some(v) => match selected_his_index(v) {
                Some(k) => k,
                None => return None,
            },
            None => return None,
        };
        let ghost h0 = self.subscribe_hises@[id]@;
        let mut his = match self.subscribe_hises.remove(&id) {
            Some(v) => v,
            None => return None,
        };
        his.remove(k);
        proof {
            lemma_his_remove_keeps(h0, k as int);
        }
        self.subscribe_hises.insert(id, his);
        proof {
            assert(self.subscribe_hises@ =~= old(self).subscribe_hises@.insert(id, his));
            lemma_open_has_broker(*old(self), *self);
        }
        Some(id)
    }
}

} // verus!
