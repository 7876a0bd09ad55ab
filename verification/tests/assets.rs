use asset_cache::assets::{
    copy_assets, next_request, swap_assets, take_reply, Reply, Request, Transfer,
};
use fluent_bundle::types::FluentValue;
use std::collections::BTreeMap;

type Files = BTreeMap<String, Vec<u8>>;

fn files() -> Files {
    Files::from([
        ("d/a".to_string(), b"first".to_vec()),
        ("d/b".to_string(), b"second".to_vec()),
        ("d/c".to_string(), b"third".to_vec()),
    ])
}

fn run(files: &mut Files, mut transfer: Transfer, writable: bool) -> Vec<String> {
    let mut shown = Vec::new();
    loop {
        let reply = match next_request(&transfer) {
            Request::Read(path) => match files.get(&path) {
                Some(bytes) => Reply::Bytes(bytes.clone()),
                None => Reply::Failed("missing".to_string()),
            },
            Request::Write { path, bytes } => {
                if writable {
                    files.insert(path, bytes);
                    Reply::Written
                } else {
                    Reply::Failed("denied".to_string())
                }
            }
            Request::Nothing => return shown,
        };
        let (next, report) = take_reply(transfer, reply);
        transfer = next;
        for message in [report.failure, report.done].into_iter().flatten() {
            shown.push(message.id.to_string());
        }
    }
}

#[test]
fn swap_exchanges_two_assets() {
    let mut after = files();
    assert_eq!(run(&mut after, swap_assets("d", "a", "b"), true), vec!["swapped"]);
    assert_eq!(after["d/a"], b"second");
    assert_eq!(after["d/b"], b"first");
    assert_eq!(after["d/c"], b"third");
    run(&mut after, swap_assets("d", "a", "b"), true);
    assert_eq!(after, files());
}

#[test]
fn swap_with_itself_changes_nothing() {
    let mut after = files();
    assert_eq!(run(&mut after, swap_assets("d", "a", "a"), true), vec!["swapped"]);
    assert_eq!(after, files());
}

#[test]
fn swap_needs_both_assets() {
    let mut after = files();
    assert_eq!(run(&mut after, swap_assets("d", "a", "x"), true), vec!["failed-opening-file"]);
    assert_eq!(run(&mut after, swap_assets("d", "x", "a"), true), vec!["failed-opening-file"]);
    assert_eq!(after, files());
}

#[test]
fn failed_writes_are_shown_before_the_end() {
    let mut after = files();
    assert_eq!(
        run(&mut after, swap_assets("d", "a", "b"), false),
        vec!["failed-opening-file", "failed-opening-file", "swapped"]
    );
    assert_eq!(
        run(&mut after, copy_assets("d", "a", "b"), false),
        vec!["failed-opening-file", "copied"]
    );
}

#[test]
fn copy_overwrites_the_second_asset() {
    let mut after = files();
    assert_eq!(run(&mut after, copy_assets("d", "a", "b"), true), vec!["copied"]);
    assert_eq!(after["d/a"], b"first");
    assert_eq!(after["d/b"], b"first");
    assert_eq!(run(&mut after, copy_assets("d", "a", "new"), true), vec!["copied"]);
    assert_eq!(after["d/new"], b"first");
}

#[test]
fn copy_needs_the_first_asset() {
    let mut after = files();
    assert_eq!(run(&mut after, copy_assets("d", "x", "b"), true), vec!["failed-opening-file"]);
    assert_eq!(after, files());
}

#[test]
fn transfer_names_both_assets() {
    let (transfer, report) = take_reply(copy_assets("d", "a", "b"), Reply::Bytes(b"x".to_vec()));
    assert!(report.failure.is_none() && report.done.is_none());
    let (_, report) = take_reply(transfer, Reply::Written);
    let args = report.done.unwrap().args.unwrap();
    assert_eq!(args.get("item_a"), Some(&FluentValue::from("a")));
    assert_eq!(args.get("item_b"), Some(&FluentValue::from("b")));
    let (_, report) = take_reply(swap_assets("d", "a", "b"), Reply::Failed("why".to_string()));
    let args = report.failure.unwrap().args.unwrap();
    assert_eq!(args.get("error"), Some(&FluentValue::from("why")));
}
