use ark_msg::message::{
    get_message_path, is_message_name, latest_messages, latest_stamp, list_messages, read_messages,
    send_message, MessageEntry, Stamp,
};
use ark_msg::plan::Action;
use ark_msg::types::{FailureKind, Member, Message, Permission, Timestamp};

const ALICE: &str = "alice@127.0.0.1:80";
const BOB: &str = "bob@127.0.0.1:80";

fn member(address: &str, permission: Permission) -> Member {
    Member { address: address.to_string(), permission }
}

fn entry(name: &str, by: &str, nanos: i128) -> MessageEntry {
    MessageEntry {
        name: name.to_string(),
        stamp: Some(Stamp {
            modified_by: by.to_string(),
            modified: Timestamp { unix_nanos: nanos },
        }),
    }
}

fn message(id: &str) -> Message {
    Message {
        id: id.to_string(),
        sender: BOB.to_string(),
        sent: Timestamp { unix_nanos: 1 },
        body: String::new(),
    }
}

fn ids(messages: &[Message]) -> Vec<&str> {
    messages.iter().map(|message| message.id.as_str()).collect()
}

#[test]
fn direct_messages_go_to_the_others() {
    let members = vec![member(ALICE, Permission::Owner), member(BOB, Permission::Owner)];
    let sending =
        send_message(ALICE, "bob_1", Some(&members), false, "T", b"hello bob".to_vec()).unwrap();
    assert_eq!(sending.file_name, "msg_T.md");
    assert_eq!(sending.actions.len(), 2);
    match &sending.actions[0] {
        Action::WriteFile { path, body } => {
            assert_eq!(path, "/apps/msg/chats/bob_1/msg_T.md");
            assert_eq!(body, b"hello bob");
        }
        _ => panic!("the file is written first"),
    }
    match &sending.actions[1] {
        Action::Put { path, permissions } => {
            assert_eq!(path, "/apps/msg/chats/bob_1/msg_T.md");
            assert_eq!(permissions.readers, [BOB]);
            assert!(permissions.owners.is_empty() && permissions.writers.is_empty());
        }
        _ => panic!("the file is shared next"),
    }
}

#[test]
fn group_messages_go_to_the_group() {
    let members = vec![member(ALICE, Permission::Owner), member("group", Permission::Writer)];
    let sending = send_message(ALICE, "team_1", Some(&members), true, "T", Vec::new()).unwrap();
    match &sending.actions[1] {
        Action::Put { permissions, .. } => assert_eq!(permissions.readers, ["group"]),
        _ => panic!("the file is shared next"),
    }
}

#[test]
fn messages_to_no_chat_are_refused() {
    let failure = send_message(ALICE, "gone_1", None, false, "T", Vec::new()).err().unwrap();
    assert_eq!(failure.kind, FailureKind::NotFound);
    assert_eq!(failure.message, "chat dir missing: /apps/msg/chats/gone_1");
}

#[test]
fn message_files_are_listed_oldest_first() {
    let entries = vec![
        entry("msg_2026-07-28T13-45-07.123Z.md", BOB, 2),
        entry("chat.json", ALICE, 1),
        MessageEntry { name: "msg_unsynced.md".to_string(), stamp: None },
        entry("msg_2026-07-27T13-45-07.123Z.md", ALICE, 5),
    ];
    let messages = list_messages(&entries);
    assert_eq!(
        ids(&messages),
        ["msg_2026-07-27T13-45-07.123Z.md", "msg_2026-07-28T13-45-07.123Z.md"]
    );
    assert_eq!(messages[0].sender, ALICE);
    assert_eq!(messages[0].sent, Timestamp { unix_nanos: 5 });
    assert_eq!(messages[0].body, "");
}

#[test]
fn message_names_start_like_messages() {
    assert!(is_message_name("msg_T.md"));
    assert!(is_message_name("msg_"));
    assert!(!is_message_name("chat.json"));
    assert!(!is_message_name("msg"));
}

#[test]
fn the_latest_messages_are_kept() {
    let all = || vec![message("1"), message("2"), message("3")];
    assert_eq!(ids(&latest_messages(all(), None)), ["1", "2", "3"]);
    assert_eq!(ids(&latest_messages(all(), Some(2))), ["2", "3"]);
    assert_eq!(ids(&latest_messages(all(), Some(0))), Vec::<&str>::new());
    assert_eq!(ids(&latest_messages(all(), Some(9))), ["1", "2", "3"]);
}

#[test]
fn bodies_are_read_or_marked() {
    let read =
        read_messages(vec![message("1"), message("2")], vec![Some("hi".to_string()), None]);
    assert_eq!(read[0].body, "hi");
    assert_eq!(read[1].body, "<binary>");
    assert_eq!(read[1].sender, BOB);
    assert_eq!(get_message_path("bob_1", "msg_T.md"), "/apps/msg/chats/bob_1/msg_T.md");
}

#[test]
fn sent_messages_are_listed_again() {
    let members = vec![member(ALICE, Permission::Owner)];
    let sending = send_message(ALICE, "a_1", Some(&members), false, "T", Vec::new()).unwrap();
    assert_eq!(ids(&list_messages(&vec![entry(&sending.file_name, ALICE, 1)])), ["msg_T.md"]);
}

#[test]
fn the_newest_message_gives_the_latest_stamp() {
    assert_eq!(latest_stamp(&Vec::new()), None);
    assert_eq!(latest_stamp(&vec![entry("chat.json", ALICE, 9)]), None);
    let entries = vec![
        entry("msg_2.md", ALICE, 5),
        entry("msg_1.md", BOB, 7),
        MessageEntry { name: "msg_3.md".to_string(), stamp: None },
        entry("zzz", ALICE, 8),
    ];
    assert_eq!(latest_stamp(&entries), Some(Timestamp { unix_nanos: 5 }));
}
