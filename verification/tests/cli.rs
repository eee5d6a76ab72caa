use ark_msg::cli::{
    choose_body, get_chat_members_cli, list_chats_cli, read_messages_cli, resolve_chat, BodySource,
};
use ark_msg::numerals::{decimal_text, parse_integer};
use ark_msg::reltime::Clock;
use ark_msg::types::{Chat, ChatMember, FailureKind, Message, Timestamp};

fn strings(list: &[&str]) -> Vec<String> {
    list.iter().map(|s| s.to_string()).collect()
}

#[test]
fn chats_resolve_by_prefix() {
    let names = strings(&["bob_1", "bob_12", "carol_3"]);
    assert_eq!(resolve_chat(&names, "bob_1").unwrap(), "bob_1");
    assert_eq!(resolve_chat(&names, "carol").unwrap(), "carol_3");
    let missing = resolve_chat(&names, "dave").err().unwrap();
    assert_eq!(missing.kind, FailureKind::NotFound);
    assert_eq!(missing.message, "no chat matches 'dave'");
    let ambiguous = resolve_chat(&names, "bob").err().unwrap();
    assert_eq!(ambiguous.kind, FailureKind::InvalidInput);
    assert_eq!(ambiguous.message, "ambiguous chat 'bob': matches [\"bob_1\", \"bob_12\"]");
    assert_eq!(resolve_chat(&Vec::new(), "").err().unwrap().message, "no chat matches ''");
    assert_eq!(resolve_chat(&strings(&["only_1"]), "").unwrap(), "only_1");
}

#[test]
fn odd_names_are_quoted() {
    let names = strings(&["a\"1", "a\n2"]);
    assert_eq!(
        resolve_chat(&names, "a").err().unwrap().message,
        "ambiguous chat 'a': matches [\"a\\\"1\", \"a\\n2\"]"
    );
}

#[test]
fn chats_are_printed() {
    assert_eq!(list_chats_cli(&Vec::new()), "(no chats)\n");
    let chat = |id: &str, name: Option<&str>| Chat {
        id: id.to_string(),
        name: name.map(str::to_string),
        other_members: strings(&["bob@host"]),
        last_activity: Timestamp { unix_nanos: 0 },
    };
    assert_eq!(
        list_chats_cli(&vec![chat("a_1", Some("team")), chat("b_2", None)]),
        "a_1  team\nb_2  bob@host\n"
    );
}

#[test]
fn messages_are_printed() {
    let message = |body: &str| Message {
        id: "msg_T.md".to_string(),
        sender: "bob@host".to_string(),
        sent: Timestamp { unix_nanos: 0 },
        body: body.to_string(),
    };
    let clock = Clock { now: Timestamp { unix_nanos: 1 }, offset: 0 };
    assert_eq!(
        read_messages_cli(&vec![message("hi"), message("there\n"), message("")], clock),
        "[now] bob@host\nhi\n\n[now] bob@host\nthere\n\n[now] bob@host\n\n\n"
    );
}

#[test]
fn members_are_printed() {
    let member = |address: &str, owner| ChatMember { address: address.to_string(), owner };
    assert_eq!(
        get_chat_members_cli(&vec![member("alice@host", true), member("bob@host", false)]),
        "alice@host  owner\nbob@host\n"
    );
}

#[test]
fn bodies_come_from_one_place() {
    let text = |s: &str| Some(s.to_string());
    assert!(matches!(choose_body(text("f"), text("b")), BodySource::File(path) if path == "f"));
    assert!(matches!(choose_body(None, text("b")), BodySource::Text(body) if body == "b"));
    assert!(matches!(choose_body(None, None), BodySource::Stdin));
}

#[test]
fn numbers_are_spelled_and_read() {
    assert_eq!(decimal_text(0), "0");
    assert_eq!(decimal_text(18_446_744_073_709_551_615), "18446744073709551615");
    assert_eq!(parse_integer("42"), Some(42));
    assert_eq!(parse_integer("-9223372036854775808"), Some(i64::MIN));
    assert_eq!(parse_integer("9223372036854775808"), None);
    assert_eq!(parse_integer("+7"), Some(7));
    assert_eq!(parse_integer(""), None);
    assert_eq!(parse_integer("-"), None);
    assert_eq!(parse_integer("1a"), None);
}
