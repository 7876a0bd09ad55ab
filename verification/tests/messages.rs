use asset_cache::messages::{
    counted_error_message, counted_message, message_about, message_about_two, plain_message,
    stage_message, Message,
};
use fluent_bundle::types::FluentValue;

fn value(message: &Message, name: &'static str) -> Option<FluentValue<'static>> {
    message.args.as_ref().and_then(|args| args.get(name)).cloned()
}

fn size(message: &Message) -> usize {
    message.args.as_ref().map_or(0, |args| args.iter().count())
}

#[test]
fn message_without_arguments() {
    let message = plain_message("idling");
    assert_eq!(message.id, "idling");
    assert!(message.args.is_none());
}

#[test]
fn message_with_counts() {
    let message = counted_message("reading-files", 3, 10);
    assert_eq!(message.id, "reading-files");
    assert_eq!(value(&message, "item"), Some(FluentValue::from(3)));
    assert_eq!(value(&message, "total"), Some(FluentValue::from(10)));
    assert_eq!(size(&message), 2);
}

#[test]
fn message_with_counts_and_an_error() {
    let message = counted_error_message("failed-opening-file", 1, 2, "denied".to_string());
    assert_eq!(message.id, "failed-opening-file");
    assert_eq!(value(&message, "item"), Some(FluentValue::from(1)));
    assert_eq!(value(&message, "total"), Some(FluentValue::from(2)));
    assert_eq!(value(&message, "error"), Some(FluentValue::from("denied")));
    assert_eq!(size(&message), 3);
}

#[test]
fn message_with_one_text() {
    let message = message_about("failed-not-file", "file", "7".to_string());
    assert_eq!(message.id, "failed-not-file");
    assert_eq!(value(&message, "file"), Some(FluentValue::from("7")));
    assert_ne!(value(&message, "file"), Some(FluentValue::from(7)));
    assert_eq!(size(&message), 1);
}

#[test]
fn message_with_two_assets() {
    let message = message_about_two("swapped", "a".to_string(), "b".to_string());
    assert_eq!(message.id, "swapped");
    assert_eq!(value(&message, "item_a"), Some(FluentValue::from("a")));
    assert_eq!(value(&message, "item_b"), Some(FluentValue::from("b")));
    assert_eq!(size(&message), 2);
}

#[test]
fn message_of_a_stage() {
    let message = stage_message(4, 5, "Extracting".to_string(), "2");
    assert_eq!(message.id, "stage");
    assert_eq!(value(&message, "item"), Some(FluentValue::from(4)));
    assert_eq!(value(&message, "total"), Some(FluentValue::from(5)));
    assert_eq!(value(&message, "status"), Some(FluentValue::from("Extracting")));
    assert_eq!(value(&message, "stage"), Some(FluentValue::from("2")));
    assert_eq!(value(&message, "max"), Some(FluentValue::from("3")));
    assert_eq!(size(&message), 5);
}
