use mqtt_tab_state::common::{
    Broker, Msg, PublicInput, PublicStatus, QoS, SubscribeHis, SubscribeInput, SubscribeMsg,
    SubscribeStatus,
};
use mqtt_tab_state::formatter::{
    check_addr, check_port, parse_to_no_empty, parse_to_port, parse_to_qos, ForError, MustInput,
};
use mqtt_tab_state::hierarchy::AppData;
use mqtt_tab_state::intents::{AppEvent, SubmitError};
use mqtt_tab_state::lens::{
    BrokerIndex, BrokerIndexLensPublicInput, BrokerIndexLensSubscribeInput,
    BrokerIndexLensTabStatus, BrokerIndexLensVecMsg, BrokerIndexLensVecSubscribeHis,
    BrokerIndexLensVecSubscribeTopic, BrokerStoredList, DbIndex, Index, LensSelectedSubscribeHis,
    MsgMsgLens, MsgQosLens, MsgTopicLens, PortLens,
};

fn profile(id: usize, name: &str, addr: &str, port: &str) -> Broker {
    let mut b = Broker::blank(id);
    b.name = name.to_string();
    b.addr = addr.to_string();
    b.port = port.to_string();
    b
}

fn sub_input(data: &mut AppData, id: usize, topic: &str, qos: &str) {
    BrokerIndexLensSubscribeInput(id).with_mut(
        data,
        SubscribeInput { topic: topic.to_string(), qos: qos.to_string() },
    );
}

fn his_count(data: &AppData, id: usize, topic: &str, qos: QoS) -> usize {
    BrokerIndexLensVecSubscribeHis(id)
        .with(data)
        .iter()
        .filter(|h| h.topic == topic && h.qos == qos)
        .count()
}

#[test]
fn example_scenario() {
    let mut data = AppData::new();
    let id = data.create_broker();
    assert_eq!(id, 1);
    BrokerIndex(1).with_mut(&mut data, &profile(1, "local", "127.0.0.1", "1883"));
    assert!(!BrokerIndex(1).with(&data).stored);

    let db = data.save_broker(1).unwrap();
    assert_eq!(db.id, 1);
    assert_eq!(db.name, "local");
    assert!(BrokerIndex(1).with(&data).stored);
    let stored = BrokerStoredList.with(&data);
    assert_eq!(stored.len(), 1);
    assert_eq!(stored[0].id, 1);

    match data.connect(1, "generated-42".to_string()) {
        Ok(AppEvent::Connect(b)) => {
            assert_eq!(b.client_id, "generated-42");
            assert_eq!(b.addr, "127.0.0.1");
        }
        other => panic!("unexpected {:?}", other),
    }
    assert_eq!(BrokerIndex(1).with(&data).client_id, "generated-42");

    assert!(data.set_connection(1, false, true));
    assert!(BrokerIndexLensTabStatus(1).with(&data).connected);

    sub_input(&mut data, 1, "a/b", "1");
    let pkid = match data.submit_subscribe(1) {
        Ok(AppEvent::Subscribe(bid, t)) => {
            assert_eq!(bid, 1);
            assert_eq!(t.topic, "a/b");
            assert_eq!(t.qos, QoS::AtLeastOnce);
            assert_eq!(t.status, SubscribeStatus::Ing);
            t.pkid
        }
        other => panic!("unexpected {:?}", other),
    };
    let live = BrokerIndexLensVecSubscribeTopic(1).with(&data);
    assert_eq!(live.len(), 1);
    assert_eq!(live[0].pkid, pkid);
    assert_eq!(live[0].status, SubscribeStatus::Ing);
    assert_eq!(BrokerIndexLensSubscribeInput(1).with(&data).topic, "");

    assert_eq!(data.subscribe_ack(1, pkid, true), Some(0));
    let live = BrokerIndexLensVecSubscribeTopic(1).with(&data);
    assert_eq!(live[0].status, SubscribeStatus::Success);
    let his = BrokerIndexLensVecSubscribeHis(1).with(&data);
    assert_eq!(his.len(), 1);
    assert_eq!(his[0].topic, "a/b");
    assert_eq!(his[0].qos, QoS::AtLeastOnce);
}

#[test]
fn create_opens_every_side_table() {
    let mut data = AppData::new();
    let a = data.create_broker();
    let b = data.create_broker();
    assert_ne!(a, b);
    for id in [a, b] {
        assert!(data.tab_statuses.contains_key(&id));
        assert!(data.msgs.contains_key(&id));
        assert!(data.subscribe_topics.contains_key(&id));
        assert!(data.subscribe_hises.contains_key(&id));
        assert!(data.subscribe_input.contains_key(&id));
        assert!(data.public_input.contains_key(&id));
    }
    assert_eq!(data.broker_tabs, vec![a, b]);
    assert_eq!(data.tab_selected, Some(b));
    assert!(!BrokerIndex(a).with(&data).stored);
}

#[test]
fn delete_removes_every_side_table() {
    let mut data = AppData::new();
    let a = data.create_broker();
    let b = data.create_broker();
    assert!(data.delete_broker(b));
    assert!(data.find_broker(b).is_none());
    assert!(!data.tab_statuses.contains_key(&b));
    assert!(!data.msgs.contains_key(&b));
    assert!(!data.subscribe_topics.contains_key(&b));
    assert!(!data.subscribe_hises.contains_key(&b));
    assert!(!data.subscribe_input.contains_key(&b));
    assert!(!data.public_input.contains_key(&b));
    assert_eq!(data.broker_tabs, vec![a]);
    assert_eq!(data.tab_selected, None);
    assert!(data.find_broker(a).is_some());
    assert!(!data.delete_broker(b));
}

#[test]
fn close_tab_keeps_profile() {
    let mut data = AppData::new();
    let a = data.create_broker();
    assert!(data.close_tab(a));
    assert!(data.find_broker(a).is_some());
    assert!(!data.msgs.contains_key(&a));
    assert!(data.broker_tabs.is_empty());
    assert!(!data.close_tab(a));
}

#[test]
fn stored_view_round_trip() {
    let mut data = AppData::new();
    let a = data.create_broker();
    let b = data.create_broker();
    let c = data.create_broker();
    data.save_broker(a);
    data.save_broker(c);
    let mut view = BrokerStoredList.with(&data);
    assert_eq!(view.iter().map(|x| x.id).collect::<Vec<_>>(), vec![a, c]);
    view[1].name = "edited".to_string();
    BrokerStoredList.with_mut(&mut data, &view);
    assert_eq!(BrokerIndex(c).with(&data).name, "edited");
    assert!(BrokerIndex(c).with(&data).stored);
    assert_eq!(BrokerIndex(a).with(&data).name, "");

    let mut sneaky = Broker::blank(b);
    sneaky.name = "lost".to_string();
    BrokerStoredList.with_mut(&mut data, &vec![sneaky]);
    assert_eq!(BrokerIndex(b).with(&data).name, "");
    assert!(BrokerStoredList.with(&data).iter().all(|x| x.stored));
}

#[test]
fn history_dedup_idempotent() {
    let mut data = AppData::new();
    let id = data.create_broker();
    let pk_a = data.subscribe(id, "t/x".to_string(), QoS::AtMostOnce).unwrap();
    data.subscribe_ack(id, pk_a, true);
    let pk_b = data.subscribe(id, "t/x".to_string(), QoS::AtMostOnce).unwrap();
    assert_ne!(pk_a, pk_b);
    data.subscribe_ack(id, pk_b, true);
    assert_eq!(his_count(&data, id, "t/x", QoS::AtMostOnce), 1);
    let pk_c = data.subscribe(id, "t/x".to_string(), QoS::ExactlyOnce).unwrap();
    data.subscribe_ack(id, pk_c, true);
    assert_eq!(his_count(&data, id, "t/x", QoS::ExactlyOnce), 1);
    assert_eq!(BrokerIndexLensVecSubscribeHis(id).with(&data).len(), 2);
    let selected = BrokerIndexLensVecSubscribeHis(id)
        .with(&data)
        .iter()
        .filter(|h| h.selected)
        .count();
    assert!(selected <= 1);
}

#[test]
fn subscribe_nack_marks_fail() {
    let mut data = AppData::new();
    let id = data.create_broker();
    let p = data.subscribe(id, "n/k".to_string(), QoS::AtLeastOnce).unwrap();
    assert_eq!(data.subscribe_ack(id, p, false), Some(0));
    assert_eq!(BrokerIndexLensVecSubscribeTopic(id).with(&data)[0].status, SubscribeStatus::Fail);
    assert!(BrokerIndexLensVecSubscribeHis(id).with(&data).is_empty());
    assert_eq!(data.subscribe_ack(id, p, true), None);
    assert_eq!(data.subscribe_ack(99, p, true), None);
}

#[test]
fn publish_ack_updates_only_matching_record() {
    let mut data = AppData::new();
    let id = data.create_broker();
    let pk_a = data.publish(id, "a".to_string(), "one".to_string(), QoS::AtLeastOnce).unwrap();
    assert!(data.receive_msg(
        id,
        SubscribeMsg { pkid: 7, topic: "b".to_string(), msg: "in".to_string(), qos: QoS::AtMostOnce }
    ));
    let pk_b = data.publish(id, "a".to_string(), "two".to_string(), QoS::AtLeastOnce).unwrap();
    assert_eq!(data.publish_ack(id, pk_b), Some(2));
    let log = BrokerIndexLensVecMsg(id).with(&data);
    assert!(!log[0].is_sucess());
    assert!(log[1].is_sucess());
    assert!(log[2].is_sucess());
    match &log[2] {
        Msg::Public(m) => {
            assert_eq!(m.pkid, pk_b);
            assert_eq!(m.msg, "two");
            assert_eq!(m.status, PublicStatus::Success);
        }
        _ => panic!("not a publish"),
    }
    let before = log.len();
    assert_eq!(data.publish_ack(id, 4242), None);
    assert_eq!(data.publish_ack(id, pk_b), None);
    assert_eq!(data.publish_ack(id + 100, pk_a), None);
    assert_eq!(BrokerIndexLensVecMsg(id).with(&data).len(), before);
    assert!(!BrokerIndexLensVecMsg(id).with(&data)[0].is_sucess());
}

#[test]
fn fallback_history_is_empty_and_discards_writes() {
    let mut data = AppData::new();
    let id = data.create_broker();
    let p = data.subscribe(id, "keep".to_string(), QoS::AtMostOnce).unwrap();
    data.subscribe_ack(id, p, true);
    assert!(data.get_selected_broker().is_none());
    assert!(LensSelectedSubscribeHis.with(&data).is_empty());
    LensSelectedSubscribeHis.with_mut(
        &mut data,
        vec![SubscribeHis { topic: "ghost".to_string(), qos: QoS::AtMostOnce, selected: false }],
    );
    let his = BrokerIndexLensVecSubscribeHis(id).with(&data);
    assert_eq!(his.len(), 1);
    assert_eq!(his[0].topic, "keep");
    assert!(LensSelectedSubscribeHis.with(&data).is_empty());

    assert!(data.click_broker(id));
    assert_eq!(LensSelectedSubscribeHis.with(&data).len(), 1);
}

#[test]
fn click_broker_is_exclusive() {
    let mut data = AppData::new();
    let a = data.create_broker();
    let b = data.create_broker();
    assert!(data.click_broker(a));
    assert!(data.click_broker(b));
    assert!(!BrokerIndex(a).with(&data).selected);
    assert!(BrokerIndex(b).with(&data).selected);
    assert_eq!(data.get_selected_broker().unwrap().id, b);
    assert!(!data.click_broker(77));
    assert_eq!(data.get_selected_broker().unwrap().id, b);
}

#[test]
fn history_selection_and_removal() {
    let mut data = AppData::new();
    let id = data.create_broker();
    for (t, q) in [("x", QoS::AtMostOnce), ("y", QoS::AtLeastOnce)] {
        let p = data.subscribe(id, t.to_string(), q).unwrap();
        data.subscribe_ack(id, p, true);
    }
    assert_eq!(data.click_subscribe_his(&"y".to_string(), QoS::AtLeastOnce), None);
    data.click_broker(id);
    assert_eq!(data.click_subscribe_his(&"y".to_string(), QoS::AtLeastOnce), Some(id));
    let sel = data.get_selected_subscribe_his().unwrap();
    assert_eq!(sel.topic, "y");
    assert!(sel.selected);
    data.click_subscribe_his(&"x".to_string(), QoS::AtMostOnce);
    assert_eq!(data.get_selected_subscribe_his().unwrap().topic, "x");
    assert_eq!(data.remove_subscribe_his(), Some(id));
    let his = BrokerIndexLensVecSubscribeHis(id).with(&data);
    assert_eq!(his.len(), 1);
    assert_eq!(his[0].topic, "y");
    assert!(data.get_selected_subscribe_his().is_none());
    assert_eq!(data.remove_subscribe_his(), None);
}

#[test]
fn connect_validation_blocks_submission() {
    let mut data = AppData::new();
    let id = data.create_broker();
    assert!(matches!(
        data.connect(id, "g".to_string()),
        Err(SubmitError::Invalid(ForError::NotEmpty))
    ));
    BrokerIndex(id).with_mut(&mut data, &profile(id, "n", "host", "99999"));
    assert!(matches!(
        data.connect(id, "g".to_string()),
        Err(SubmitError::Invalid(ForError::InvalidPort))
    ));
    assert_eq!(BrokerIndex(id).with(&data).client_id, "");
    assert!(matches!(data.connect(500, "g".to_string()), Err(SubmitError::UnknownBroker)));
    let mut p = profile(id, "n", "host", "1883");
    p.client_id = "mine".to_string();
    BrokerIndex(id).with_mut(&mut data, &p);
    match data.connect(id, "g".to_string()) {
        Ok(AppEvent::Connect(b)) => assert_eq!(b.client_id, "mine"),
        other => panic!("unexpected {:?}", other),
    }
}

#[test]
fn submit_forms_validate_and_clear() {
    let mut data = AppData::new();
    let id = data.create_broker();
    sub_input(&mut data, id, "", "1");
    assert!(matches!(data.submit_subscribe(id), Err(SubmitError::Invalid(ForError::NotEmpty))));
    sub_input(&mut data, id, "t", "3");
    assert!(matches!(data.submit_subscribe(id), Err(SubmitError::Invalid(ForError::InvalidQos))));
    assert!(BrokerIndexLensVecSubscribeTopic(id).with(&data).is_empty());
    assert!(matches!(data.submit_subscribe(id + 1), Err(SubmitError::UnknownBroker)));

    BrokerIndexLensPublicInput(id).with_mut(
        &mut data,
        PublicInput {
            topic: "out".to_string(),
            msg: "hello".to_string(),
            qos: "2".to_string(),
            retain: true,
        },
    );
    match data.submit_publish(id) {
        Ok(AppEvent::Publish(bid, m, retain)) => {
            assert_eq!(bid, id);
            assert_eq!(m.topic, "out");
            assert_eq!(m.msg, "hello");
            assert_eq!(m.qos, QoS::ExactlyOnce);
            assert_eq!(m.status, PublicStatus::Ing);
            assert!(retain);
        }
        other => panic!("unexpected {:?}", other),
    }
    assert_eq!(BrokerIndexLensVecMsg(id).with(&data).len(), 1);
    let input = BrokerIndexLensPublicInput(id).with(&data);
    assert_eq!(input.topic, "");
    assert!(!input.retain);
    assert!(matches!(data.submit_publish(id), Err(SubmitError::Invalid(ForError::NotEmpty))));
}

#[test]
fn packet_ids_wrap_past_zero() {
    let mut data = AppData::new();
    let id = data.create_broker();
    data.next_pkid = 65535;
    assert_eq!(data.subscribe(id, "a".to_string(), QoS::AtMostOnce), Some(65535));
    assert_eq!(data.subscribe(id, "b".to_string(), QoS::AtMostOnce), Some(1));
    assert_eq!(data.subscribe(id + 1, "c".to_string(), QoS::AtMostOnce), None);
}

#[test]
fn port_parsing() {
    assert_eq!(parse_to_port("1883"), Ok(1883));
    assert_eq!(parse_to_port("+80"), Ok(80));
    assert_eq!(parse_to_port("65535"), Ok(65535));
    assert_eq!(parse_to_port(""), Err(ForError::NotEmpty));
    assert_eq!(parse_to_port("abc"), Err(ForError::InvalidPort));
    assert_eq!(parse_to_port("65536"), Err(ForError::InvalidPort));
    assert_eq!(parse_to_port("-1"), Err(ForError::InvalidPort));
    assert_eq!(parse_to_port("+"), Err(ForError::InvalidPort));
    assert!(check_port("8883"));
    assert!(!check_port("x"));
    assert_eq!(MustInput.port_value("443"), Ok(443));
}

#[test]
fn text_and_qos_parsing() {
    assert_eq!(parse_to_no_empty("host"), Ok("host".to_string()));
    assert_eq!(parse_to_no_empty(""), Err(ForError::NotEmpty));
    assert!(check_addr("h"));
    assert!(!check_addr(""));
    assert_eq!(MustInput.text_value(""), Err(ForError::NotEmpty));
    assert_eq!(parse_to_qos("0"), Ok(QoS::AtMostOnce));
    assert_eq!(parse_to_qos("2"), Ok(QoS::ExactlyOnce));
    assert_eq!(parse_to_qos("7"), Err(ForError::InvalidQos));
    assert_eq!(parse_to_qos(""), Err(ForError::NotEmpty));
    assert_eq!(QoS::AtLeastOnce.level(), 1);
    assert_eq!(QoS::from_level(2), Some(QoS::ExactlyOnce));
    assert_eq!(QoS::from_level(3), None);
}

#[test]
fn message_lenses() {
    let mut m = Msg::Subscribe(SubscribeMsg {
        pkid: 3,
        topic: "t".to_string(),
        msg: "body".to_string(),
        qos: QoS::ExactlyOnce,
    });
    assert!(!m.is_public());
    assert!(m.is_sucess());
    assert_eq!(MsgMsgLens.with(&m), "body");
    assert_eq!(MsgTopicLens.with(&m), "t");
    assert_eq!(MsgQosLens.with(&m), "2");
    MsgMsgLens.with_mut(&mut m, "new".to_string());
    MsgTopicLens.with_mut(&mut m, "u".to_string());
    MsgTopicLens.set_qos(&mut m, QoS::AtMostOnce);
    assert_eq!(MsgMsgLens.with(&m), "new");
    assert_eq!(MsgTopicLens.with(&m), "u");
    assert_eq!(MsgTopicLens.qos(&m), QoS::AtMostOnce);
    assert_eq!(MsgQosLens.with(&m), "0");
}

#[test]
fn port_lens_and_db_index() {
    let mut b = profile(4, "n", "h", "1883");
    assert_eq!(PortLens.with(&b), Ok(1883));
    assert_eq!(PortLens.with_mut(&mut b, "bad"), Err(ForError::InvalidPort));
    assert_eq!(b.port, "1883");
    assert_eq!(PortLens.with_mut(&mut b, "8883"), Ok(8883));
    assert_eq!(b.port, "8883");
    let db = b.clone_to_db();
    assert_eq!(db.port, "8883");
    assert_eq!(db.name, "n");

    let mut data = AppData::new();
    let id = data.create_broker();
    let first: DbIndex = Index(id).with(data.clone());
    data.set_connection(id, true, false);
    let second: DbIndex = Index(id).with(data.clone());
    assert!(!first.same(&second));
    assert!(second.same(&Index(id).with(data.clone())));
    assert!(!Index(id + 1).with(data.clone()).same(&second));
}

#[test]
fn load_and_reopen_stored_profile() {
    let mut data = AppData::new();
    let mut b = profile(9, "saved", "broker.local", "1883");
    b.stored = true;
    assert!(data.load_broker(b.clone_to_db()));
    assert!(!data.load_broker(b.clone_to_db()));
    assert_eq!(data.next_id, 10);
    assert!(BrokerIndex(9).with(&data).stored);
    assert!(data.broker_tabs.is_empty());
    assert!(!data.msgs.contains_key(&9));

    assert!(data.open_tab(9));
    assert!(data.msgs.contains_key(&9));
    assert!(data.subscribe_hises.contains_key(&9));
    assert_eq!(data.tab_selected, Some(9));
    assert!(!BrokerIndexLensTabStatus(9).with(&data).connected);
    assert!(!data.open_tab(3));
    assert_eq!(data.create_broker(), 10);
    assert!(data.open_tab(9));
    assert_eq!(data.broker_tabs, vec![9, 10]);
    assert_eq!(data.tab_selected, Some(9));
}

#[test]
fn tab_status_lens_keeps_id() {
    let mut data = AppData::new();
    let id = data.create_broker();
    BrokerIndexLensTabStatus(id).with_mut(
        &mut data,
        mqtt_tab_state::common::TabStatus { id: 555, try_connect: true, connected: false },
    );
    let st = BrokerIndexLensTabStatus(id).with(&data);
    assert_eq!(st.id, id);
    assert!(st.try_connect);
}

#[test]
fn connected_flag_of_tabs() {
    let mut data = AppData::new();
    let id = data.create_broker();
    assert!(!data.is_connected(id));
    assert!(data.set_connection(id, true, false));
    assert!(!data.is_connected(id));
    data.set_connection(id, false, true);
    assert!(data.is_connected(id));
    assert!(!data.is_connected(id + 1));
    assert!(!data.set_connection(id + 1, true, true));
}
