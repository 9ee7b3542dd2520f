use rocketmq_remoting::error::BodyDecodeError;
use rocketmq_remoting::util::value::JsonValue;
use rocketmq_remoting::remoting::response::{
    split_two_checked, split_two_to_i64, BrokerInformation, BrokerRuntimeInfo, ConsumerGroups,
    TopicRouteInformation, TopicStats, Topics,
};

#[test]
fn test_serialize_complex_hashmap() {
    let json = r#"
          {"offsetTable":
          {
            {
                "brokerName":"broker-a",
                "queueId":0,
                "topic":"%RETRY%test_submit_68985_l4"
            }:{
                "lastUpdateTimestamp":0,
                "maxOffset":0,
                "minOffset":0}
          }
          }
        "#;

    let topic_stats = TopicStats::parse(json.to_string()).unwrap();
    assert_eq!(topic_stats.entries().len(), 1);
    let (queue, offset) = &topic_stats.entries()[0];
    assert_eq!(queue.broker_name(), "broker-a");
    assert_eq!(queue.queue_id(), 0);
    assert_eq!(queue.topic(), "%RETRY%test_submit_68985_l4");
    assert_eq!(offset.min_offset(), 0);
    assert_eq!(offset.max_offset(), 0);
    assert_eq!(offset.last_update_timestamp(), 0);
}

#[test]
fn master_address_selection() {
    let body = r#"{"brokerAddrTable":{"broker-a":{"brokerAddrs":{0:"10.0.0.1:1","1":"10.0.0.2:1"},"brokerName":"broker-a","cluster":"c"},"broker-b":{"brokerAddrs":{"1":"10.0.0.3:1"},"brokerName":"broker-b","cluster":"c"}},"clusterAddrTable":{"c":["broker-a","broker-b"]}}"#;
    let information = BrokerInformation::parse(body.to_string()).unwrap();
    let addrs = information.all_broker_addrs();
    assert_eq!(addrs, vec!["10.0.0.1:1"]);
    assert_eq!(information.brokers().len(), 2);
    assert_eq!(information.brokers()[1].1.master_broker_addrs(), None);
    assert_eq!(information.clusters()[0].1, vec!["broker-a".to_string(), "broker-b".to_string()]);
}

#[test]
fn broker_information_errors() {
    assert_eq!(
        BrokerInformation::parse("{".to_string()).err(),
        Some(BodyDecodeError::Syntax)
    );
    assert_eq!(
        BrokerInformation::parse(r#"{"brokerAddrTable":{}}"#.to_string()).err(),
        Some(BodyDecodeError::Field)
    );
}

#[test]
fn topics_and_groups() {
    let topics = Topics::parse(r#"{"topicList":["a","b"]}"#.to_string()).unwrap();
    assert_eq!(topics.topics(), &vec!["a".to_string(), "b".to_string()]);
    let groups = ConsumerGroups::parse(r#"{"groupList":["g"]}"#.to_string()).unwrap();
    assert_eq!(groups.groups(), &vec!["g".to_string()]);
    assert_eq!(Topics::parse(r#"{"topicList":[1]}"#.to_string()).err(), Some(BodyDecodeError::Field));
    assert_eq!(Topics::parse("nonsense".to_string()).err(), Some(BodyDecodeError::Syntax));
}

#[test]
fn topic_route() {
    let body = r#"{"brokerDatas":[{"brokerAddrs":{0:"10.0.0.1:10911"},"brokerName":"broker-a","cluster":"c"}],"filterServerTable":{},"queueDatas":[{"brokerName":"broker-a","perm":6,"readQueueNums":4,"topicSysFlag":0,"writeQueueNums":8}]}"#;
    let route = TopicRouteInformation::parse(body.to_string()).unwrap();
    assert_eq!(route.order_topic_conf(), "");
    assert_eq!(route.broker_datas().len(), 1);
    assert_eq!(
        route.broker_datas()[0].master_broker_addrs(),
        Some(&"10.0.0.1:10911".to_string())
    );
    assert_eq!(route.queue_datas()[0].read_queue_nums(), 4);
    assert_eq!(route.queue_datas()[0].write_queue_nums(), 8);
    assert_eq!(route.queue_datas()[0].perm(), 6);
    assert_eq!(route.filter_server_table().len(), 0);
}

#[test]
fn topic_stats_pairs_nested_runs() {
    let body = r#"{"offsetTable":{{"brokerName":"b","queueId":3,"topic":"T","extra":{"x":1}}:{"lastUpdateTimestamp":7,"maxOffset":9,"minOffset":-2},{"brokerName":"b","queueId":4,"topic":"T"}:{"lastUpdateTimestamp":1,"maxOffset":2,"minOffset":3}}}"#;
    let stats = TopicStats::parse(body.to_string()).unwrap();
    assert_eq!(stats.entries().len(), 2);
    assert_eq!(stats.entries()[0].0.queue_id(), 3);
    assert_eq!(stats.entries()[0].1.min_offset(), -2);
    assert_eq!(stats.entries()[0].1.max_offset(), 9);
    assert_eq!(stats.entries()[0].1.last_update_timestamp(), 7);
    assert_eq!(stats.entries()[1].0.queue_id(), 4);
    assert!(!stats.entries()[0].0.same(&stats.entries()[1].0));
    assert!(stats.entries()[0].0.same(&stats.entries()[0].0));
}

#[test]
fn topic_stats_errors() {
    assert_eq!(TopicStats::parse("{}".to_string()).err(), Some(BodyDecodeError::Syntax));
    // a key without a value
    assert_eq!(
        TopicStats::parse(r#"{"offsetTable":{{"brokerName":"b","queueId":3,"topic":"T"}}}"#.to_string())
            .err(),
        Some(BodyDecodeError::Syntax)
    );
    // a key that is no queue
    assert_eq!(
        TopicStats::parse(
            r#"{"offsetTable":{{"brokerName":"b"}:{"lastUpdateTimestamp":7,"maxOffset":9,"minOffset":1}}}"#
                .to_string()
        )
        .err(),
        Some(BodyDecodeError::Field)
    );
    // an empty table
    assert_eq!(TopicStats::parse(r#"{"offsetTable":{}}"#.to_string()).unwrap().entries().len(), 0);
}

#[test]
fn split_two() {
    assert_eq!(split_two_to_i64("330248,13302481".to_string()), (330248, 13302481));
    assert_eq!(split_two_to_i64("107,107".to_string()), (107, 107));
    assert_eq!(split_two_to_i64("-5,+6".to_string()), (-5, 6));
    assert_eq!(split_two_to_i64("1".to_string()), (-1, -1));
    assert_eq!(split_two_to_i64("1,2,3".to_string()), (-1, -1));
    assert_eq!(split_two_to_i64("".to_string()), (-1, -1));
    assert_eq!(split_two_checked("1,x"), None);
    assert_eq!(split_two_checked(","), None);
    assert_eq!(
        split_two_checked("9223372036854775807,-9223372036854775808"),
        Some((i64::MAX, i64::MIN))
    );
    assert_eq!(split_two_checked("9223372036854775808,0"), None);
    assert_eq!(split_two_checked("0,-9223372036854775809"), None);
}

#[test]
fn test_deserialize_broker_runtime_stats_information() {
    let json = r#"
        {
  "table": {
    "msgPutTotalTodayNow": "202317086",
    "scheduleMessageOffset_2": "330248,13302481",
    "scheduleMessageOffset_3": "4368076,4368076",
    "scheduleMessageOffset_8": "1663953,1663953",
    "sendThreadPoolQueueHeadWaitTimeMills": "0",
    "putMessageDistributeTime": "[<=0ms]:0 [0~10ms]:0 [10~50ms]:0 [50~100ms]:0 [100~200ms]:0 [200~500ms]:0 [500ms~1s]:0 [1~2s]:0 [2~3s]:0 [3~4s]:0 [4~5s]:0 [5~10s]:0 [10s~]:0 ",
    "scheduleMessageOffset_9": "1161283,1161283",
    "scheduleMessageOffset_4": "4356130,4356130",
    "scheduleMessageOffset_5": "1887886,1887886",
    "queryThreadPoolQueueHeadWaitTimeMills": "0",
    "scheduleMessageOffset_6": "4341108,4341108",
    "scheduleMessageOffset_7": "4339088,4339088",
    "remainHowManyDataToFlush": "0 B",
    "msgGetTotalTodayNow": "203198287",
    "queryThreadPoolQueueSize": "0",
    "bootTimestamp": "1704677028015",
    "msgPutTotalYesterdayMorning": "202316882",
    "msgGetTotalYesterdayMorning": "203198185",
    "pullThreadPoolQueueSize": "0",
    "commitLogMinOffset": "169651208192",
    "pullThreadPoolQueueHeadWaitTimeMills": "0",
    "runtime": "[ 25 days, 8 hours, 53 minutes, 19 seconds ]",
    "dispatchMaxBuffer": "0",
    "brokerVersion": "397",
    "putTps": "0.0 0.0 0.0",
    "getMissTps": "98.79012098790122 123.2876712328767 121.89155048345326",
    "getTransferedTps": "0.0 0.0 0.0",
    "EndTransactionQueueSize": "0",
    "getTotalTps": "98.79012098790122 123.2876712328767 121.89155048345326",
    "scheduleMessageOffset_11": "1074572,1074572",
    "scheduleMessageOffset_12": "974605,974605",
    "scheduleMessageOffset_13": "781935,781935",
    "consumeQueueDiskRatio": "0.08",
    "scheduleMessageOffset_14": "738865,738865",
    "scheduleMessageOffset_10": "1095418,1095418",
    "pageCacheLockTimeMills": "0",
    "commitLogDiskRatio": "0.08",
    "getFoundTps": "0.0 0.0 0.0",
    "scheduleMessageOffset_15": "738864,738864",
    "scheduleMessageOffset_16": "738861,738861",
    "scheduleMessageOffset_17": "502813,502813",
    "scheduleMessageOffset_18": "107,107",
    "EndTransactionThreadPoolQueueCapacity": "100000",
    "commitLogDiskRatio_/home/soft/rocketmq-4.9.2_0905/store/commitlog": "0.08",
    "commitLogMaxOffset": "169891684804",
    "getMessageEntireTimeMax": "26",
    "msgPutTotalTodayMorning": "202317086",
    "putMessageTimesTotal": "202317086",
    "msgGetTotalTodayMorning": "203198287",
    "brokerVersionDesc": "V4_9_2",
    "sendThreadPoolQueueSize": "0",
    "startAcceptSendRequestTimeStamp": "0",
    "putMessageEntireTimeMax": "37",
    "earliestMessageTimeStamp": "1706162317012",
    "commitLogDirCapacity": "Total : 299.3 GiB, Free : 276.1 GiB.",
    "remainTransientStoreBufferNumbs": "2147483647",
    "queryThreadPoolQueueCapacity": "20000",
    "putMessageAverageSize": "786.4522811632429",
    "dispatchBehindBytes": "0",
    "putMessageSizeTotal": "159112733803",
    "sendThreadPoolQueueCapacity": "10000",
    "pullThreadPoolQueueCapacity": "100000"
  }
}
        "#;

    let info = BrokerRuntimeInfo::from(json.to_string()).unwrap();
    assert_eq!(info.table().get("scheduleMessageOffset_2"), Some(&"330248,13302481".to_string()));
    assert_eq!(info.table().get("brokerVersionDesc"), Some(&"V4_9_2".to_string()));
    assert_eq!(info.table().get("pullThreadPoolQueueCapacity"), Some(&"100000".to_string()));
    assert_eq!(info.table().get("scheduleMessageOffset_8"), None);
    assert_eq!(
        split_two_to_i64(info.table().get("scheduleMessageOffset_2").unwrap().clone()),
        (330248, 13302481)
    );
}

#[test]
fn broker_runtime_info_errors() {
    assert_eq!(BrokerRuntimeInfo::from("{".to_string()).err(), Some(BodyDecodeError::Syntax));
    assert_eq!(BrokerRuntimeInfo::from("{}".to_string()).err(), Some(BodyDecodeError::Field));
    assert_eq!(
        BrokerRuntimeInfo::from(r#"{"table":{"runtime":"x"}}"#.to_string()).err(),
        Some(BodyDecodeError::Field)
    );
}

#[test]
fn a_name_that_comes_twice_keeps_its_last_value() {
    // strict JSON cannot hand a name twice to these readers, a document built by hand can
    let broker = |name: &str, addr: &str, again: &str| {
        JsonValue::Object(vec![
            ("cluster".to_string(), JsonValue::Text("c".to_string())),
            ("brokerName".to_string(), JsonValue::Text(name.to_string())),
            (
                "brokerAddrs".to_string(),
                JsonValue::Object(vec![
                    ("1".to_string(), JsonValue::Text("slave".to_string())),
                    ("0".to_string(), JsonValue::Text(addr.to_string())),
                    ("0".to_string(), JsonValue::Text(again.to_string())),
                ]),
            ),
        ])
    };
    let names = |list: &[&str]| {
        JsonValue::Array(list.iter().map(|n| JsonValue::Text(n.to_string())).collect())
    };
    let document = JsonValue::Object(vec![
        (
            "brokerAddrTable".to_string(),
            JsonValue::Object(vec![
                ("a".to_string(), broker("a", "1.1.1.1:1", "2.2.2.2:2")),
                ("b".to_string(), broker("b", "3.3.3.3:3", "4.4.4.4:4")),
                ("a".to_string(), broker("a2", "5.5.5.5:5", "6.6.6.6:6")),
            ]),
        ),
        (
            "clusterAddrTable".to_string(),
            JsonValue::Object(vec![
                ("c".to_string(), names(&["a", "b"])),
                ("d".to_string(), names(&["x"])),
                ("c".to_string(), names(&["b", "a", "b", "a", "z"])),
            ]),
        ),
    ]);
    let information = BrokerInformation::from_json(&document).unwrap();
    assert_eq!(information.brokers().len(), 2);
    assert_eq!(information.brokers()[0].0, "a");
    assert_eq!(information.brokers()[0].1.broker_name(), "a2");
    assert_eq!(
        information.brokers()[0].1.broker_addrs(),
        &vec![(1, "slave".to_string()), (0, "6.6.6.6:6".to_string())]
    );
    assert_eq!(information.brokers()[1].0, "b");
    assert_eq!(information.all_broker_addrs(), vec!["6.6.6.6:6", "4.4.4.4:4"]);
    assert_eq!(
        information.clusters(),
        &vec![
            ("c".to_string(), vec!["b".to_string(), "a".to_string(), "z".to_string()]),
            ("d".to_string(), vec!["x".to_string()]),
        ]
    );
}

#[test]
fn a_queue_that_comes_twice_keeps_its_last_offsets() {
    let body = r#"{"offsetTable":{{"brokerName":"b","queueId":3,"topic":"T"}:{"lastUpdateTimestamp":7,"maxOffset":9,"minOffset":1},{"brokerName":"b","queueId":4,"topic":"T"}:{"lastUpdateTimestamp":1,"maxOffset":2,"minOffset":3},{"brokerName":"b","queueId":3,"topic":"T"}:{"lastUpdateTimestamp":8,"maxOffset":10,"minOffset":2}}}"#;
    let stats = TopicStats::parse(body.to_string()).unwrap();
    assert_eq!(stats.entries().len(), 2);
    assert_eq!(stats.entries()[0].0.queue_id(), 3);
    assert_eq!(stats.entries()[0].1.max_offset(), 10);
    assert_eq!(stats.entries()[0].1.min_offset(), 2);
    assert_eq!(stats.entries()[0].1.last_update_timestamp(), 8);
    assert_eq!(stats.entries()[1].0.queue_id(), 4);
}

#[test]
fn cluster_names_come_once() {
    let body = r#"{"brokerAddrTable":{},"clusterAddrTable":{"c":["a","a","b","a"]}}"#;
    let information = BrokerInformation::parse(body.to_string()).unwrap();
    assert_eq!(information.clusters()[0].1, vec!["a".to_string(), "b".to_string()]);
    assert_eq!(information.all_broker_addrs().len(), 0);
}
