use autosway::message::{Message, Response};

/// Reads a reply as the list of records that it holds.
fn records(input: Vec<u8>) -> Option<Vec<Response>> {
    let value: serde_json::Value = serde_json::from_slice(&input).ok()?;
    let mut responses = Vec::new();
    for record in value.as_array()? {
        responses.push(Response { success: record.get("success")?.as_bool()? });
    }
    Some(responses)
}

#[test]
fn it_should_serialize_a_standard_get_outputs_message() {
    let expected = vec![0, 0, 0, 0, 3, 0, 0, 0];
    let actual = Message::GetOutputs.to_bytes();
    assert_eq!(expected, actual);
}

#[test]
fn it_should_serialize_a_run_command_message_with_a_payload() {
    let expected = vec![3, 0, 0, 0, 0, 0, 0, 0, 102, 111, 111];
    let actual = Message::RunCommand(String::from("foo")).to_bytes();
    assert_eq!(expected, actual);
}

#[test]
fn it_should_return_true_if_all_responses_are_successful() {
    let input = String::from(
        r#"
      [
        {"success": true},
        {"success": true},
        {"success": true}
      ]
    "#,
    )
    .as_bytes()
    .to_vec();
    assert!(Response::bulk_scan(records(input)));
}

#[test]
fn it_should_return_false_with_invalid_json() {
    let input = String::from(
        r#"
      [
        {"success": true}
        {"success": true}
        {"success": true}
      ]
    "#,
    )
    .as_bytes()
    .to_vec();
    assert!(!Response::bulk_scan(records(input)));
}

#[test]
fn it_should_return_false_if_one_response_is_unsuccessful() {
    let input = String::from(
        r#"
      [
        {"success": true},
        {"success": false},
        {"success": true}
      ]
    "#,
    )
    .as_bytes()
    .to_vec();
    assert!(!Response::bulk_scan(records(input)));
}

#[test]
fn an_unreadable_reply_is_a_failure() {
    assert!(!Response::bulk_scan(None));
}

#[test]
fn an_empty_reply_is_a_success() {
    assert!(Response::bulk_scan(Some(Vec::new())));
}

#[test]
fn the_position_of_the_failure_does_not_matter() {
    let ok = Response { success: true };
    let failed = Response { success: false };
    assert!(Response::bulk_scan(Some(vec![ok])));
    assert!(!Response::bulk_scan(Some(vec![failed])));
    assert!(!Response::bulk_scan(Some(vec![failed, ok, ok])));
    assert!(!Response::bulk_scan(Some(vec![ok, ok, failed])));
}

#[test]
fn the_parts_of_a_message() {
    let command = Message::RunCommand(String::from("output eDP1 disable"));
    assert_eq!(0, command.what());
    assert_eq!(19, command.len());
    assert_eq!(b"output eDP1 disable".to_vec(), command.data());
    assert_eq!(3, Message::GetOutputs.what());
    assert_eq!(0, Message::GetOutputs.len());
    assert_eq!(Vec::<u8>::new(), Message::GetOutputs.data());
}

#[test]
fn the_length_counts_bytes_not_characters() {
    let command = Message::RunCommand(String::from("é"));
    assert_eq!(2, command.len());
    assert_eq!(vec![2, 0, 0, 0, 0, 0, 0, 0, 0xc3, 0xa9], command.to_bytes());
}

#[test]
fn the_length_field_is_little_endian() {
    let command = Message::RunCommand("x".repeat(0x01_02_03));
    let bytes = command.to_bytes();
    assert_eq!([3u8, 2, 1, 0], bytes[0..4]);
    assert_eq!([0u8, 0, 0, 0], bytes[4..8]);
    assert_eq!(8 + 0x01_02_03, bytes.len());
}

#[test]
fn a_copy_of_a_message_is_the_same_message() {
    let command = Message::RunCommand(String::from("foo"));
    assert_eq!(command.to_bytes(), command.clone().to_bytes());
    assert!(matches!(Message::GetOutputs.clone(), Message::GetOutputs));
}
