use reddit_stream::codec::{decode_record, encode_record};
use reddit_stream::listing::posts_from_response;
use reddit_stream::orchestrator::{make_record, Action, Event, Orchestrator, Phase};

fn three_item_body() -> &'static str {
    r#"{"data":{"children":[
        {"data":{"title":"First","selftext":"one","name":"t1"}},
        {"data":{"title":"Second","selftext":"two","name":"t2"}},
        {"data":{"title":"Third","selftext":"three","name":"t3"}}
    ]}}"#
}

#[test]
fn full_iteration_publishes_in_order() {
    let mut orch = Orchestrator::new("rust".to_string(), 25, 10, 0);
    assert!(matches!(orch.phase, Phase::Idle));
    assert!(orch.cursor.is_none());

    match orch.step(Event::Tick) {
        Action::Fetch { source_id, limit, after } => {
            assert_eq!(source_id, "rust");
            assert_eq!(limit, 25);
            assert!(after.is_none());
        },
        _ => panic!("a tick in Idle must start a fetch"),
    }

    let page = posts_from_response(200, three_item_body()).unwrap();
    match orch.step(Event::FetchDone(Ok(page))) {
        Action::Publish(items) => {
            assert_eq!(items.len(), 3);
            assert_eq!(items[0].item_id, "t1");
            assert_eq!(items[1].item_id, "t2");
            assert_eq!(items[2].item_id, "t3");
        },
        _ => panic!("a non-empty fetch must lead to publishing"),
    }
    assert_eq!(orch.cursor.as_deref(), Some("t3"));

    match orch.step(Event::PublishDone) {
        Action::Sleep { seconds } => assert_eq!(seconds, 10),
        _ => panic!("after publishing the loop sleeps"),
    }

    match orch.step(Event::Tick) {
        Action::Fetch { after, .. } => assert_eq!(after.as_deref(), Some("t3")),
        _ => panic!("a tick in Sleeping must start a fetch"),
    }
}

#[test]
fn empty_page_publishes_nothing() {
    let mut orch = Orchestrator::new("rust".to_string(), 25, 10, 0);
    orch.step(Event::Tick);
    let page = posts_from_response(200, r#"{"data":{"children":[]}}"#).unwrap();
    match orch.step(Event::FetchDone(Ok(page))) {
        Action::Sleep { seconds } => assert_eq!(seconds, 10),
        _ => panic!("an empty fetch publishes nothing and sleeps"),
    }
    assert!(orch.cursor.is_none());
    match orch.step(Event::Tick) {
        Action::Fetch { after, .. } => assert!(after.is_none()),
        _ => panic!("expected a fetch"),
    }
}

#[test]
fn fetch_failure_keeps_cursor() {
    let mut orch = Orchestrator::new("rust".to_string(), 25, 10, 0);
    orch.step(Event::Tick);
    let page = posts_from_response(200, three_item_body()).unwrap();
    orch.step(Event::FetchDone(Ok(page)));
    orch.step(Event::PublishDone);
    orch.step(Event::Tick);

    let err = posts_from_response(429, "too many requests").unwrap_err();
    match orch.step(Event::FetchDone(Err(err))) {
        Action::Sleep { seconds } => assert_eq!(seconds, 10),
        _ => panic!("a failed fetch sleeps and retries"),
    }
    assert_eq!(orch.cursor.as_deref(), Some("t3"));
    match orch.step(Event::Tick) {
        Action::Fetch { after, .. } => assert_eq!(after.as_deref(), Some("t3")),
        _ => panic!("the retry carries the same cursor"),
    }
}

#[test]
fn cursor_advances_before_publish_settles() {
    let mut orch = Orchestrator::new("rust".to_string(), 25, 10, 0);
    orch.step(Event::Tick);
    let page = posts_from_response(200, three_item_body()).unwrap();
    let items = match orch.step(Event::FetchDone(Ok(page))) {
        Action::Publish(items) => items,
        _ => panic!("expected a publish batch"),
    };
    // the cursor already points past the batch, whatever each send reports
    assert_eq!(orch.cursor.as_deref(), Some("t3"));
    // a failure of the middle record leaves its siblings deliverable
    let first = encode_record(&make_record(&items[0]));
    let third = encode_record(&make_record(&items[2]));
    assert!(decode_record(&first).is_some());
    assert!(decode_record(&third).is_some());
    orch.step(Event::PublishDone);
    assert_eq!(orch.cursor.as_deref(), Some("t3"));
}

#[test]
fn cancel_stops_the_loop() {
    let mut orch = Orchestrator::new("rust".to_string(), 25, 10, 0);
    orch.step(Event::Tick);
    match orch.step(Event::Cancel) {
        Action::Stop => {},
        _ => panic!("cancel must stop the loop"),
    }
    assert!(matches!(orch.phase, Phase::Stopped));
}

#[test]
fn stray_events_do_nothing() {
    let mut orch = Orchestrator::new("rust".to_string(), 25, 10, 0);
    assert!(matches!(orch.step(Event::PublishDone), Action::Nothing));
    let page = posts_from_response(200, r#"{"data":{"children":[]}}"#).unwrap();
    assert!(matches!(orch.step(Event::FetchDone(Ok(page))), Action::Nothing));
    orch.step(Event::Tick);
    assert!(matches!(orch.step(Event::Tick), Action::Nothing));
}

#[test]
fn record_carries_item_fields() {
    let body = r#"{"data":{"children":[{"data":{"title":"A title","selftext":"A body","name":"t9"}}]}}"#;
    let page = posts_from_response(200, body).unwrap();
    let rec = make_record(&page.items[0]);
    assert_eq!(rec.title, "A title");
    assert_eq!(rec.content, "A body");
    let back = decode_record(&encode_record(&rec)).unwrap();
    assert_eq!(back.title, "A title");
    assert_eq!(back.content, "A body");
    assert_eq!(back.timestamp, rec.timestamp);
}

#[test]
fn failure_bound_stops_the_loop() {
    let mut orch = Orchestrator::new("rust".to_string(), 25, 10, 2);
    orch.step(Event::Tick);
    let e1 = posts_from_response(500, "boom").unwrap_err();
    assert!(matches!(orch.step(Event::FetchDone(Err(e1))), Action::Sleep { .. }));
    orch.step(Event::Tick);
    let e2 = posts_from_response(500, "boom").unwrap_err();
    assert!(matches!(orch.step(Event::FetchDone(Err(e2))), Action::Stop));
    assert!(matches!(orch.phase, Phase::Stopped));
}

#[test]
fn failure_count_resets_on_success() {
    let mut orch = Orchestrator::new("rust".to_string(), 25, 10, 2);
    orch.step(Event::Tick);
    let e1 = posts_from_response(500, "boom").unwrap_err();
    orch.step(Event::FetchDone(Err(e1)));
    orch.step(Event::Tick);
    let page = posts_from_response(200, r#"{"data":{"children":[]}}"#).unwrap();
    orch.step(Event::FetchDone(Ok(page)));
    assert_eq!(orch.consecutive_failures, 0);
    orch.step(Event::Tick);
    let e2 = posts_from_response(500, "boom").unwrap_err();
    assert!(matches!(orch.step(Event::FetchDone(Err(e2))), Action::Sleep { .. }));
}
