use vstd::prelude::*;

verus! {

/// MQTT quality-of-service level.
#[derive(Clone, Copy, Debug, PartialEq, Eq, Structural)]
pub enum QoS {
    AtMostOnce,
    AtLeastOnce,
    ExactlyOnce,
}

impl QoS {
    /// The numeric level (0, 1 or 2) of this quality of service.
    pub open spec fn spec_level(self) -> u8 {
        match self {
            QoS::AtMostOnce => 0,
            QoS::AtLeastOnce => 1,
            QoS::ExactlyOnce => 2,
        }
    }

    pub fn level(&self) -> (r: u8)
        ensures
            r == self.spec_level(),
            r <= 2,
    {
        match self {
            QoS::AtMostOnce => 0,
            QoS::AtLeastOnce => 1,
            QoS::ExactlyOnce => 2,
        }
    }

    pub fn from_level(v: u8) -> (r: Option<QoS>)
        ensures
            r.is_some() <==> v <= 2,
            r matches Some(q) ==> q.spec_level() == v,
    {
        if v == 0 {
            Some(QoS::AtMostOnce)
        } else if v == 1 {
            Some(QoS::AtLeastOnce)
        } else if v == 2 {
            Some(QoS::ExactlyOnce)
        } else {
            None
        }
    }
}

/// Status of an outbound publish.
#[derive(Clone, Copy, Debug, PartialEq, Eq, Structural)]
pub enum PublicStatus {
    Ing,
    Success,
}

/// Status of a subscribe request.
#[derive(Clone, Copy, Debug, PartialEq, Eq, Structural)]
pub enum SubscribeStatus {
    Ing,
    Success,
    Fail,
}

/// A subscription in progress or established on one broker.
#[derive(Clone, Debug)]
pub struct SubscribeTopic {
    pub pkid: u16,
    pub topic: String,
    pub qos: QoS,
    pub status: SubscribeStatus,
}

/// A topic and QoS pair that was subscribed to before.
#[derive(Clone, Debug)]
pub struct SubscribeHis {
    pub topic: String,
    pub qos: QoS,
    pub selected: bool,
}

impl SubscribeHis {
    /// Two history entries stand for the same subscription when topic and QoS agree.
    pub open spec fn same_pair(self, topic: Seq<char>, qos: QoS) -> bool {
        self.topic@ == topic && self.qos == qos
    }

    pub fn copy(&self) -> (r: SubscribeHis)
        ensures
            r == *self,
    {
        SubscribeHis { topic: self.topic.clone(), qos: self.qos, selected: self.selected }
    }
}

/// A published message record.
#[derive(Clone, Debug)]
pub struct PublicMsg {
    pub pkid: u16,
    pub topic: String,
    pub msg: String,
    pub qos: QoS,
    pub status: PublicStatus,
}

/// A message received through a subscription.
#[derive(Clone, Debug)]
pub struct SubscribeMsg {
    pub pkid: u16,
    pub topic: String,
    pub msg: String,
    pub qos: QoS,
}

/// One entry of a broker's message log.
#[derive(Clone, Debug)]
pub enum Msg {
    Public(PublicMsg),
    Subscribe(SubscribeMsg),
}

impl Msg {
    pub open spec fn spec_is_public(self) -> bool {
        self is Public
    }

    /// A received message counts as done; a publish only once it was acknowledged.
    pub open spec fn spec_is_sucess(self) -> bool {
        match self {
            Msg::Public(m) => m.status == PublicStatus::Success,
            Msg::Subscribe(_) => true,
        }
    }

    /// Whether this record is a publish with the given packet id still waiting for its ack.
    pub open spec fn is_pending_publish(self, pkid: u16) -> bool {
        match self {
            Msg::Public(m) => m.pkid == pkid && m.status == PublicStatus::Ing,
            Msg::Subscribe(_) => false,
        }
    }

    /// The record with a publish's status turned to `Success`.
    pub open spec fn acked(self) -> Msg {
        match self {
            Msg::Public(m) => Msg::Public(PublicMsg { status: PublicStatus::Success, ..m }),
            Msg::Subscribe(m) => Msg::Subscribe(m),
        }
    }

    pub fn is_public(&self) -> (r: bool)
        ensures
            r == self.spec_is_public(),
    {
        if let Msg::Public(_) = self {
            return true;
        }
        false
    }

    pub fn is_sucess(&self) -> (r: bool)
        ensures
            r == self.spec_is_sucess(),
    {
        if let Msg::Public(msg) = self {
            if msg.status == PublicStatus::Success {
                true
            } else {
                false
            }
        } else {
            true
        }
    }
}

/// The text being typed into a broker's publish form.
#[derive(Clone, Debug)]
pub struct PublicInput {
    pub topic: String,
    pub msg: String,
    pub qos: String,
    pub retain: bool,
}

impl PublicInput {
    pub open spec fn is_empty(self) -> bool {
        self.topic@.len() == 0 && self.msg@.len() == 0 && self.qos@.len() == 0 && !self.retain
    }
}

impl Default for PublicInput {
    fn default() -> (r: PublicInput)
        ensures
            r.is_empty(),
    {
        PublicInput { topic: String::new(), msg: String::new(), qos: String::new(), retain: false }
    }
}

/// The text being typed into a broker's subscribe form.
#[derive(Clone, Debug)]
pub struct SubscribeInput {
    pub topic: String,
    pub qos: String,
}

impl SubscribeInput {
    pub open spec fn is_empty(self) -> bool {
        self.topic@.len() == 0 && self.qos@.len() == 0
    }
}

impl Default for SubscribeInput {
    fn default() -> (r: SubscribeInput)
        ensures
            r.is_empty(),
    {
        SubscribeInput { topic: String::new(), qos: String::new() }
    }
}

/// Connection flags of an open broker tab.
#[derive(Clone, Copy, Debug, PartialEq, Eq, Structural)]
pub struct TabStatus {
    pub id: usize,
    pub try_connect: bool,
    pub connected: bool,
}

#[derive(Clone, Copy, Debug, PartialEq, Eq, Structural, Hash)]
pub enum TabKind {
    Connection,
    Broker,
}

/// A broker connection profile.
#[derive(Clone, Debug)]
pub struct Broker {
    pub id: usize,
    pub client_id: String,
    pub name: String,
    pub addr: String,
    pub port: String,
    pub params: String,
    pub use_credentials: bool,
    pub user_name: String,
    pub password: String,
    pub stored: bool,
    pub selected: bool,
}

/// The persisted part of a broker profile.
#[derive(Clone, Debug)]
pub struct BrokerDB {
    pub id: usize,
    pub client_id: String,
    pub name: String,
    pub addr: String,
    pub port: String,
    pub params: String,
    pub use_credentials: bool,
    pub user_name: String,
    pub password: String,
}

impl Broker {
    /// A fresh, unsaved and unselected profile with the given id and empty fields.
    pub open spec fn is_blank(self, id: usize) -> bool {
        &&& self.id == id
        &&& self.client_id@.len() == 0
        &&& self.name@.len() == 0
        &&& self.addr@.len() == 0
        &&& self.port@.len() == 0
        &&& self.params@.len() == 0
        &&& !self.use_credentials
        &&& self.user_name@.len() == 0
        &&& self.password@.len() == 0
        &&& !self.stored
        &&& !self.selected
    }

    pub fn blank(id: usize) -> (r: Broker)
        ensures
            r.is_blank(id),
    {
        Broker {
            id,
            client_id: String::new(),
            name: String::new(),
            addr: String::new(),
            port: String::new(),
            params: String::new(),
            use_credentials: false,
            user_name: String::new(),
            password: String::new(),
            stored: false,
            selected: false,
        }
    }

    pub fn copy(&self) -> (r: Broker)
        ensures
            r == *self,
    {
        Broker {
            id: self.id,
            client_id: self.client_id.clone(),
            name: self.name.clone(),
            addr: self.addr.clone(),
            port: self.port.clone(),
            params: self.params.clone(),
            use_credentials: self.use_credentials,
            user_name: self.user_name.clone(),
            password: self.password.clone(),
            stored: self.stored,
            selected: self.selected,
        }
    }

    /// This profile with the editable fields taken from `e`; id, stored flag and
    /// selection stay.
    pub open spec fn with_edit(self, e: Broker) -> Broker {
        Broker { id: self.id, stored: self.stored, selected: self.selected, ..e }
    }

    pub fn apply_edit(&self, e: &Broker) -> (r: Broker)
        ensures
            r == self.with_edit(*e),
    {
        Broker {
            id: self.id,
            client_id: e.client_id.clone(),
            name: e.name.clone(),
            addr: e.addr.clone(),
            port: e.port.clone(),
            params: e.params.clone(),
            use_credentials: e.use_credentials,
            user_name: e.user_name.clone(),
            password: e.password.clone(),
            stored: self.stored,
            selected: self.selected,
        }
    }

    pub fn clone_to_db(&self) -> (r: BrokerDB)
        ensures
            r.id == self.id,
            r.client_id == self.client_id,
            r.name == self.name,
            r.addr == self.addr,
            r.port == self.port,
            r.params == self.params,
            r.use_credentials == self.use_credentials,
            r.user_name == self.user_name,
            r.password == self.password,
    {
        BrokerDB {
            id: self.id,
            client_id: self.client_id.clone(),
            name: self.name.clone(),
            addr: self.addr.clone(),
            port: self.port.clone(),
            params: self.params.clone(),
            use_credentials: self.use_credentials,
            user_name: self.user_name.clone(),
            password: self.password.clone(),
        }
    }
}

} // verus!
