use dht_core::database::{
    add_document_url, document_file_name, has_document, insert_record_query, list_command_body,
    setup_step, SetupAction, SetupStage, DB_NAME,
};
use dht_core::network::{
    command_reply, describe_event, handle_event, secret_key_bytes, CommandKind, CommandReply,
    EventAction, NodeEvent, SwarmNotice,
};
use dht_core::rest_api::greeting;

#[test]
fn list_command_is_the_basex_command() {
    assert_eq!(
        list_command_body(),
        format!("\n            <command>\n                <text>LIST {}</text>\n            </command>", DB_NAME)
    );
}

#[test]
fn document_names_and_urls() {
    assert_eq!(document_file_name("40"), "40.xml");
    assert_eq!(
        add_document_url("40"),
        "http://127.0.0.1:8080/rest/dht-db?command=ADD+TO+40.xml+<sysinfo></sysinfo>"
    );
}

#[test]
fn insert_query_text() {
    let expected = format!(
        "<query>
                    <text>
                        insert node .//record as last into doc('{}/{}.xml')/sysinfo
                    </text>
                    <context>{}</context>
                 </query>",
        DB_NAME, "peer", "<record/>"
    );
    assert_eq!(insert_record_query("peer", "<record/>"), expected);
}

#[test]
fn listing_lookup() {
    assert!(has_document("<resources><resource>40.xml</resource></resources>", "40"));
    assert!(!has_document("<resources><resource>41.xml</resource></resources>", "40"));
    assert!(!has_document("", "40"));
}

#[test]
fn setup_creates_missing_document() {
    let (stage, action) = setup_step(SetupStage::Start, "7", "");
    assert!(stage == SetupStage::AwaitingListing);
    match action {
        SetupAction::PostCommand { body } => assert_eq!(body, list_command_body()),
        _ => panic!("expected the listing command"),
    }
    let (stage, action) = setup_step(stage, "7", "<resources/>");
    assert!(stage == SetupStage::AwaitingCreation);
    match action {
        SetupAction::Get { url } => assert_eq!(url, add_document_url("7")),
        _ => panic!("expected the creation request"),
    }
    let (stage, action) = setup_step(stage, "7", "");
    assert!(stage == SetupStage::Connected);
    assert!(matches!(action, SetupAction::Done));
}

#[test]
fn setup_reuses_listed_document() {
    let (stage, _) = setup_step(SetupStage::Start, "7", "");
    let (stage, action) = setup_step(stage, "7", "dht-db 7.xml 12");
    assert!(stage == SetupStage::Connected);
    assert!(matches!(action, SetupAction::Done));
    let (stage, action) = setup_step(stage, "7", "anything");
    assert!(stage == SetupStage::Connected);
    assert!(matches!(action, SetupAction::Done));
}

#[test]
fn found_record_is_handed_on() {
    let actions = handle_event(SwarmNotice::RecordFound { key: b"k".to_vec(), value: "vé".as_bytes().to_vec() });
    assert_eq!(actions.len(), 1);
    match &actions[0] {
        EventAction::Emit(NodeEvent::GetResult { key, value }) => {
            assert_eq!(key, "k");
            assert_eq!(value, "vé");
        }
        _ => panic!("expected the record to be handed on"),
    }
}

#[test]
fn malformed_record_is_rejected() {
    let actions = handle_event(SwarmNotice::RecordFound { key: vec![0xff], value: b"v".to_vec() });
    assert!(matches!(actions.as_slice(), [EventAction::RejectMalformedRecord]));
    let actions = handle_event(SwarmNotice::RecordFound { key: b"k".to_vec(), value: vec![0xc0, 0x80] });
    assert!(matches!(actions.as_slice(), [EventAction::RejectMalformedRecord]));
    let actions = handle_event(SwarmNotice::RecordStored { key: vec![0xed, 0xa0, 0x80] });
    assert!(matches!(actions.as_slice(), [EventAction::RejectMalformedRecord]));
}

#[test]
fn stored_record_is_reported_then_announced() {
    let actions = handle_event(SwarmNotice::RecordStored { key: b"key".to_vec() });
    assert_eq!(actions.len(), 2);
    match &actions[0] {
        EventAction::ReportStored { key } => assert_eq!(key, "key"),
        _ => panic!("expected the report"),
    }
    assert!(matches!(&actions[1], EventAction::Emit(NodeEvent::PutResult { result: Ok(()) })));
}

#[test]
fn other_events() {
    assert!(matches!(handle_event(SwarmNotice::NewListenAddr).as_slice(), [EventAction::ReportListening]));
    assert!(matches!(handle_event(SwarmNotice::PeersDiscovered).as_slice(), [EventAction::AddDiscoveredPeers]));
    assert!(handle_event(SwarmNotice::GetRecordFinished).is_empty());
    assert!(matches!(handle_event(SwarmNotice::GetRecordFailed).as_slice(), [EventAction::ReportGetFailure]));
    assert!(matches!(handle_event(SwarmNotice::PutRecordFailed).as_slice(), [EventAction::ReportPutFailure]));
    assert!(handle_event(SwarmNotice::Other).is_empty());
}

#[test]
fn command_replies() {
    assert!(matches!(command_reply(CommandKind::StartListening, Ok(())), CommandReply::Reply(Ok(()))));
    match command_reply(CommandKind::StartListening, Err("busy".to_string())) {
        CommandReply::Reply(Err(e)) => assert_eq!(e, "busy"),
        _ => panic!("expected the listening error"),
    }
    assert!(matches!(command_reply(CommandKind::Get, Err("x".to_string())), CommandReply::Reply(Ok(()))));
    assert!(matches!(command_reply(CommandKind::Put, Ok(())), CommandReply::Reply(Ok(()))));
    assert!(matches!(command_reply(CommandKind::Put, Err("full".to_string())), CommandReply::Abort));
}

#[test]
fn event_reports() {
    let e = NodeEvent::GetResult { key: "k".to_string(), value: "v".to_string() };
    assert_eq!(describe_event(&e, "None"), "New record: k, v, None");
    let e = NodeEvent::PutResult { result: Ok(()) };
    assert_eq!(describe_event(&e, ""), format!("PutResult: {:?}", Ok::<(), String>(())));
    let e = NodeEvent::PutResult { result: Err("Timeout".to_string()) };
    assert_eq!(describe_event(&e, ""), "PutResult: Err(Timeout)");
}

#[test]
fn secret_key_from_seed() {
    let mut expected = [0u8; 32];
    expected[0] = 40;
    assert_eq!(secret_key_bytes(40), expected.to_vec());
    assert_eq!(secret_key_bytes(0), vec![0u8; 32]);
}

#[test]
fn greeting_route() {
    assert_eq!(greeting("world"), "Hello, world!");
    assert_eq!(greeting(""), "Hello, !");
}
