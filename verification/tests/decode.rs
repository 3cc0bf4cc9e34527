use serde_json::Value;
use stash_feed::decode::{
    batch_from, container_from, cursor_from, decode_batch, decode_cursor, entry_from, FeedError,
};

fn value(text: &str) -> Value {
    serde_json::from_str(text).unwrap()
}

#[test]
fn cursor_is_read_from_a_bootstrap_body() {
    assert_eq!(decode_cursor(b"{\"next_change_id\":\"C0\"}"), Ok("C0".to_string()));
    assert_eq!(
        decode_cursor(b"{\"other\":1,\"next_change_id\":\"123-456\",\"more\":[]}"),
        Ok("123-456".to_string())
    );
    assert_eq!(decode_cursor(b"{\"next_change_id\":\"\"}"), Ok(String::new()));
}

#[test]
fn cursor_missing_is_a_parse_error() {
    assert_eq!(decode_cursor(b"{}"), Err(FeedError::Parse));
    assert_eq!(decode_cursor(b"{\"next_change_id\":7}"), Err(FeedError::Parse));
    assert_eq!(decode_cursor(b"{\"next_change_id\":null}"), Err(FeedError::Parse));
    assert_eq!(decode_cursor(b"[\"next_change_id\"]"), Err(FeedError::Parse));
    assert_eq!(decode_cursor(b"\"next_change_id\""), Err(FeedError::Parse));
}

#[test]
fn body_that_is_not_json_is_a_parse_error() {
    assert_eq!(decode_cursor(b""), Err(FeedError::Parse));
    assert_eq!(decode_cursor(b"{\"next_change_id\":\"C0\""), Err(FeedError::Parse));
    assert_eq!(decode_cursor(b"{\"next_change_id\":\"C0\"} trailing"), Err(FeedError::Parse));
    assert_eq!(decode_cursor(&[0xff, 0xfe]), Err(FeedError::Parse));
    assert_eq!(decode_batch(b"{\"next_change_id\":\"C1\",\"stashes\":["), Err(FeedError::Parse));
    assert_eq!(decode_batch(b"not json"), Err(FeedError::Parse));
}

#[test]
fn batch_is_read_from_a_feed_body() {
    let b = decode_batch(
        b"{\"next_change_id\":\"C1\",\"stashes\":[{\"id\":\"S1\",\"public\":true,\"items\":[{\"id\":\"I1\",\"name\":\"Ring\"},{\"id\":\"I2\"}]},{\"id\":\"S2\",\"items\":[]}]}",
    )
    .unwrap();
    assert_eq!(b.next_cursor, "C1");
    assert_eq!(b.containers.len(), 2);
    let s1 = &b.containers[0];
    assert_eq!(s1.id, "S1");
    assert_eq!(s1.entries.len(), 2);
    assert_eq!(s1.entries[0].id, "I1");
    assert_eq!(s1.entries[0].body, value("{\"id\":\"I1\",\"name\":\"Ring\"}"));
    assert_eq!(s1.entries[1].id, "I2");
    assert_eq!(s1.entries[1].body, value("{\"id\":\"I2\"}"));
    assert_eq!(
        Value::from(s1.fields.clone()),
        value("{\"id\":\"S1\",\"public\":true,\"items\":[{\"id\":\"I1\",\"name\":\"Ring\"},{\"id\":\"I2\"}]}")
    );
    let s2 = &b.containers[1];
    assert_eq!(s2.id, "S2");
    assert!(s2.entries.is_empty());
}

#[test]
fn batch_without_containers_is_a_batch() {
    let b = decode_batch(b"{\"next_change_id\":\"C9\",\"stashes\":[]}").unwrap();
    assert_eq!(b.next_cursor, "C9");
    assert!(b.containers.is_empty());
}

#[test]
fn batch_without_cursor_is_a_parse_error() {
    assert_eq!(decode_batch(b"{\"stashes\":[]}"), Err(FeedError::Parse));
    assert_eq!(decode_batch(b"{\"next_change_id\":1,\"stashes\":[]}"), Err(FeedError::Parse));
}

#[test]
fn malformed_containers_are_a_parse_error() {
    assert_eq!(decode_batch(b"{\"next_change_id\":\"C1\"}"), Err(FeedError::Parse));
    assert_eq!(decode_batch(b"{\"next_change_id\":\"C1\",\"stashes\":{}}"), Err(FeedError::Parse));
    assert_eq!(decode_batch(b"{\"next_change_id\":\"C1\",\"stashes\":[1]}"), Err(FeedError::Parse));
    assert_eq!(
        decode_batch(b"{\"next_change_id\":\"C1\",\"stashes\":[{\"items\":[]}]}"),
        Err(FeedError::Parse)
    );
    assert_eq!(
        decode_batch(b"{\"next_change_id\":\"C1\",\"stashes\":[{\"id\":5,\"items\":[]}]}"),
        Err(FeedError::Parse)
    );
    assert_eq!(
        decode_batch(b"{\"next_change_id\":\"C1\",\"stashes\":[{\"id\":\"S\"}]}"),
        Err(FeedError::Parse)
    );
    assert_eq!(
        decode_batch(b"{\"next_change_id\":\"C1\",\"stashes\":[{\"id\":\"S\",\"items\":\"I\"}]}"),
        Err(FeedError::Parse)
    );
    assert_eq!(
        decode_batch(b"{\"next_change_id\":\"C1\",\"stashes\":[{\"id\":\"S\",\"items\":[{}]}]}"),
        Err(FeedError::Parse)
    );
    assert_eq!(
        decode_batch(b"{\"next_change_id\":\"C1\",\"stashes\":[{\"id\":\"S\",\"items\":[{\"id\":\"1\"},{\"id\":2}]}]}"),
        Err(FeedError::Parse)
    );
    assert_eq!(
        decode_batch(b"{\"next_change_id\":\"C1\",\"stashes\":[{\"id\":\"S\",\"items\":[]},{\"id\":\"T\"}]}"),
        Err(FeedError::Parse)
    );
}

#[test]
fn values_are_read_piece_by_piece() {
    assert_eq!(cursor_from(&value("{\"next_change_id\":\"X\"}")), Ok("X".to_string()));
    assert_eq!(cursor_from(&value("[]")), Err(FeedError::Parse));
    let e = entry_from(&value("{\"id\":\"I\",\"w\":2}")).unwrap();
    assert_eq!(e.id, "I");
    assert_eq!(e.body, value("{\"id\":\"I\",\"w\":2}"));
    assert_eq!(entry_from(&value("{\"w\":2}")), Err(FeedError::Parse));
    assert_eq!(entry_from(&value("\"I\"")), Err(FeedError::Parse));
    let c = container_from(&value("{\"id\":\"S\",\"items\":[{\"id\":\"I\"}]}")).unwrap();
    assert_eq!(c.id, "S");
    assert_eq!(c.entries.len(), 1);
    assert_eq!(c.fields.get("id"), Some(&Value::from("S")));
    assert_eq!(container_from(&value("null")), Err(FeedError::Parse));
    let b = batch_from(&value("{\"next_change_id\":\"X\",\"stashes\":[]}")).unwrap();
    assert_eq!(b.next_cursor, "X");
    assert_eq!(batch_from(&value("{\"next_change_id\":\"X\",\"stashes\":null}")), Err(FeedError::Parse));
}

#[test]
fn ids_may_hold_any_text() {
    let b = decode_batch(
        "{\"next_change_id\":\"\u{e9}\",\"stashes\":[{\"id\":\"a/b\",\"items\":[{\"id\":\"\\\"q\\\"\"}]}]}".as_bytes(),
    )
    .unwrap();
    assert_eq!(b.next_cursor, "\u{e9}");
    assert_eq!(b.containers[0].id, "a/b");
    assert_eq!(b.containers[0].entries[0].id, "\"q\"");
}
