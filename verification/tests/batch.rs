use sqstransfer::batch::{acknowledged, delete_entries, forward_plan, receipt_handles};
use sqstransfer::message::{DeleteEntry, Message, MessageAttribute, SendEntry};

fn message(body: &str, handle: &str) -> Message {
    Message {
        body: Some(body.to_string()),
        receipt_handle: Some(handle.to_string()),
        attributes: None,
    }
}

fn texts(items: &[&str]) -> Vec<String> {
    items.iter().map(|item| item.to_string()).collect()
}

fn attribute(name: &str, value: &str) -> MessageAttribute {
    MessageAttribute {
        name: name.to_string(),
        data_type: "String".to_string(),
        string_value: Some(value.to_string()),
        binary_value: None,
        string_list_values: None,
        binary_list_values: None,
    }
}

#[test]
fn send_entries_are_tagged_in_batch_order() {
    let batch = vec![message("a", "h0"), message("b", "h1"), message("c", "h2")];
    let (entries, handles) = forward_plan(batch).unwrap();
    assert_eq!(
        entries,
        vec![
            SendEntry { id: "0".to_string(), body: "a".to_string(), attributes: None },
            SendEntry { id: "1".to_string(), body: "b".to_string(), attributes: None },
            SendEntry { id: "2".to_string(), body: "c".to_string(), attributes: None },
        ]
    );
    assert_eq!(handles, texts(&["h0", "h1", "h2"]));
}

#[test]
fn send_entries_go_past_nine() {
    let batch: Vec<Message> =
        (0..12).map(|k| message(&format!("b{}", k), &format!("h{}", k))).collect();
    let (entries, handles) = forward_plan(batch).unwrap();
    assert_eq!(entries.len(), 12);
    assert_eq!(entries[9].id, "9");
    assert_eq!(entries[10].id, "10");
    assert_eq!(entries[11].id, "11");
    assert_eq!(entries[11].body, "b11");
    assert_eq!(handles[11], "h11");
}

#[test]
fn missing_body_is_sent_empty() {
    let batch =
        vec![Message { body: None, receipt_handle: Some("h".to_string()), attributes: None }];
    let (entries, _) = forward_plan(batch).unwrap();
    assert_eq!(entries[0].body, "");
}

#[test]
fn attributes_travel_with_the_message() {
    let carried = vec![
        attribute("key.a", "1"),
        MessageAttribute {
            name: "key.b".to_string(),
            data_type: "Binary".to_string(),
            string_value: None,
            binary_value: Some(vec![0, 1, 255]),
            string_list_values: Some(texts(&["x", "y"])),
            binary_list_values: Some(vec![vec![1], vec![]]),
        },
    ];
    let batch = vec![
        Message {
            body: Some("a".to_string()),
            receipt_handle: Some("h0".to_string()),
            attributes: Some(carried.clone()),
        },
        message("b", "h1"),
    ];
    let (entries, _) = forward_plan(batch).unwrap();
    assert_eq!(entries[0].attributes, Some(carried));
    assert_eq!(entries[1].attributes, None);
}

#[test]
fn nothing_is_planned_without_a_receipt_handle() {
    let batch = vec![
        message("a", "h0"),
        Message { body: Some("b".to_string()), receipt_handle: None, attributes: None },
        message("c", "h2"),
    ];
    assert_eq!(forward_plan(batch.clone()), None);
    assert_eq!(receipt_handles(batch), None);
}

#[test]
fn empty_batch_makes_empty_requests() {
    assert_eq!(forward_plan(vec![]), Some((vec![], vec![])));
    assert_eq!(receipt_handles(vec![]), Some(vec![]));
    assert_eq!(delete_entries(vec![]), vec![]);
    assert_eq!(acknowledged(vec![], &texts(&["0"])), Vec::<String>::new());
}

#[test]
fn receipt_handles_keep_batch_order() {
    let batch = vec![message("a", "h0"), message("b", "h1"), message("c", "")];
    assert_eq!(receipt_handles(batch), Some(texts(&["h0", "h1", ""])));
}

#[test]
fn only_delivered_messages_are_acknowledged() {
    let handles = texts(&["h0", "h1", "h2", "h3", "h4"]);
    assert_eq!(acknowledged(handles.clone(), &texts(&["1", "3"])), texts(&["h0", "h2", "h4"]));
    assert_eq!(acknowledged(handles.clone(), &texts(&["3", "1"])), texts(&["h0", "h2", "h4"]));
    assert_eq!(acknowledged(handles.clone(), &texts(&[])), handles);
    assert_eq!(
        acknowledged(handles.clone(), &texts(&["0", "1", "2", "3", "4"])),
        Vec::<String>::new()
    );
    assert_eq!(acknowledged(handles, &texts(&["4"])), texts(&["h0", "h1", "h2", "h3"]));
}

#[test]
fn acknowledged_count_is_batch_size_less_failures() {
    let handles: Vec<String> = (0..10).map(|k| format!("h{}", k)).collect();
    for mask in 0u32..1024 {
        let failed: Vec<String> =
            (0..10).filter(|k| mask & (1 << k) != 0).map(|k: usize| k.to_string()).collect();
        let kept = acknowledged(handles.clone(), &failed);
        assert_eq!(kept.len(), 10 - failed.len());
        let expected: Vec<String> =
            (0..10).filter(|k| mask & (1 << k) == 0).map(|k| format!("h{}", k)).collect();
        assert_eq!(kept, expected);
    }
}

#[test]
fn foreign_and_repeated_ids_change_nothing() {
    let handles = texts(&["h0", "h1", "h2"]);
    let failed = texts(&["7", "01", "+1", " 1", "one", "", "2", "2"]);
    assert_eq!(acknowledged(handles, &failed), texts(&["h0", "h1"]));
}

#[test]
fn ids_past_nine_are_matched_whole() {
    let handles: Vec<String> = (0..12).map(|k| format!("h{}", k)).collect();
    let kept = acknowledged(handles, &texts(&["11", "1"]));
    let expected: Vec<String> =
        [0, 2, 3, 4, 5, 6, 7, 8, 9, 10].iter().map(|k| format!("h{}", k)).collect();
    assert_eq!(kept, expected);
}

#[test]
fn delete_entries_are_tagged_by_position() {
    assert_eq!(
        delete_entries(texts(&["h0", "h2", "h4"])),
        vec![
            DeleteEntry { id: "0".to_string(), receipt_handle: "h0".to_string() },
            DeleteEntry { id: "1".to_string(), receipt_handle: "h2".to_string() },
            DeleteEntry { id: "2".to_string(), receipt_handle: "h4".to_string() },
        ]
    );
}
