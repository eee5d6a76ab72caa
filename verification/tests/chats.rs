use ark_msg::chat::{
    create_chat_id, get_chat_display_name, get_chat_members, get_chat_timestamp, is_chat_member,
    list_chats, read_chat, read_other_members, ChatSources, ResolvedMember,
};
use ark_msg::direct::create_direct_chat;
use ark_msg::group::{
    add_group_chat_member, create_group_chat, demote_group_chat_member, get_group_key_path,
    is_owned_by_another, promote_group_chat_member, remove_group_chat_member, share_group_chat,
};
use ark_msg::plan::Action;
use ark_msg::types::{
    Chat, FailureKind, Member, Message, Permission, Permissions, Timestamp,
};

const ALICE: &str = "alice@127.0.0.1:80";
const BOB: &str = "bob@127.0.0.1:80";
const CAROL: &str = "carol@127.0.0.1:80";
const STAMP: &str = "2026-07-28T13-45-07.123Z";

fn at(unix_nanos: i128) -> Timestamp {
    Timestamp { unix_nanos }
}

fn member(address: &str, permission: Permission) -> Member {
    Member { address: address.to_string(), permission }
}

fn strings(list: &[&str]) -> Vec<String> {
    list.iter().map(|s| s.to_string()).collect()
}

fn no_sources() -> ChatSources {
    ChatSources {
        name: None,
        created: None,
        messages: Vec::new(),
        group_file: false,
        group_members: None,
        dir_members: None,
    }
}

fn chat(id: &str, nanos: i128) -> Chat {
    Chat { id: id.to_string(), name: None, other_members: Vec::new(), last_activity: at(nanos) }
}

fn change(permissions: &Permissions) -> String {
    format!(
        "owners {:?} writers {:?} readers {:?} dropped {:?}",
        permissions.owners, permissions.writers, permissions.readers, permissions.dropped
    )
}

fn show(action: &Action) -> String {
    match action {
        Action::CreateDir { path } => format!("dir {}", path),
        Action::WriteFile { path, body } => format!("write {} {:?}", path, body),
        Action::WriteChat { path, chat } => {
            format!("chat {} {} {:?} {:?}", path, chat.id, chat.name, chat.other_members)
        }
        Action::WriteTitle { path, title } => format!("title {} {}", path, title),
        Action::Put { path, permissions } => format!("put {} {}", path, change(permissions)),
        Action::PutPermissions { path, permissions } => {
            format!("permit {} {}", path, change(permissions))
        }
        Action::ChangeMembers { path, added, dropped } => {
            format!("members {} +{:?} -{:?}", path, added, dropped)
        }
    }
}

fn shown(actions: &[Action]) -> Vec<String> {
    actions.iter().map(show).collect()
}

#[test]
fn chat_ids_hold_slug_and_timestamp() {
    assert_eq!(create_chat_id(Some("My Chat"), &[], STAMP), format!("my-chat_{}", STAMP));
    assert_eq!(create_chat_id(None, &strings(&[BOB, CAROL]), STAMP), format!("bob_{}", STAMP));
    assert_eq!(create_chat_id(None, &[], STAMP), format!("chat_{}", STAMP));
}

#[test]
fn chat_ids_give_their_timestamp_back() {
    for slug in ["under_score", "", "a_b_c"] {
        let id = create_chat_id(Some(slug), &[], STAMP);
        assert_eq!(get_chat_timestamp(&id).as_deref(), Some(STAMP));
    }
    assert_eq!(get_chat_timestamp("nothing"), None);
    assert_eq!(get_chat_timestamp("a_b_c").as_deref(), Some("b_c"));
}

#[test]
fn a_chat_is_read_from_what_there_is() {
    let chat = read_chat(ALICE, "bob_1", &no_sources());
    assert_eq!(chat.id, "bob_1");
    assert_eq!(chat.name, None);
    assert!(chat.other_members.is_empty());
    assert_eq!(chat.last_activity, at(0));

    let mut sources = no_sources();
    sources.name = Some("hello".to_string());
    sources.created = Some(at(5));
    let read = read_chat(ALICE, "bob_1", &sources);
    assert_eq!(read.name.as_deref(), Some("hello"));
    assert_eq!(read.last_activity, at(5));

    for (name, sent) in [("msg_1.md", 7), ("msg_2.md", 9)] {
        sources.messages.push(Message {
            id: name.to_string(),
            sender: BOB.to_string(),
            sent: at(sent),
            body: String::new(),
        });
    }
    assert_eq!(read_chat(ALICE, "bob_1", &sources).last_activity, at(9));
}

#[test]
fn other_members_never_hold_the_account() {
    let mut sources = no_sources();
    sources.dir_members =
        Some(vec![member(ALICE, Permission::Owner), member(BOB, Permission::Owner)]);
    assert_eq!(read_other_members(ALICE, &sources), strings(&[BOB]));
    assert_eq!(read_other_members(BOB, &sources), strings(&[ALICE]));

    // The group stands for the members of a group chat, whatever the dir says.
    sources.group_file = true;
    assert!(read_other_members(ALICE, &sources).is_empty());
    sources.group_members = Some(strings(&[ALICE, BOB, CAROL]));
    assert_eq!(read_other_members(ALICE, &sources), strings(&[BOB, CAROL]));
}

#[test]
fn display_names_fall_back() {
    let mut chat = chat("bob_1", 0);
    assert_eq!(get_chat_display_name(&chat), "bob_1");
    chat.other_members = strings(&[BOB]);
    assert_eq!(get_chat_display_name(&chat), BOB);
    chat.other_members = strings(&[BOB, CAROL]);
    assert_eq!(get_chat_display_name(&chat), format!("{}, {}", BOB, CAROL));
    chat.name = Some("hello".to_string());
    assert_eq!(get_chat_display_name(&chat), "hello");
}

#[test]
fn chats_are_listed_by_activity() {
    let listed = list_chats(vec![chat("a", 1), chat("b", 3), chat("c", 2), chat("d", 3)]);
    let ids: Vec<&str> = listed.iter().map(|chat| chat.id.as_str()).collect();
    assert_eq!(ids, ["b", "d", "c", "a"]);
}

#[test]
fn members_are_listed_once_with_their_role() {
    let group = "alice@127.0.0.1:80/apps/msg/chats/plan_1/group.json";
    let entries = vec![
        ResolvedMember { member: member(ALICE, Permission::Owner), group: None },
        ResolvedMember {
            member: member(group, Permission::Writer),
            group: Some(strings(&[ALICE, BOB, CAROL])),
        },
        ResolvedMember { member: member(CAROL, Permission::Owner), group: None },
    ];
    let members = get_chat_members(&entries);
    let listed: Vec<(&str, bool)> =
        members.iter().map(|member| (member.address.as_str(), member.owner)).collect();
    assert_eq!(listed, [(ALICE, true), (BOB, false), (CAROL, true)]);
    assert!(is_chat_member(BOB, &members));
    assert!(!is_chat_member(group, &members));
    assert!(get_chat_members(&Vec::new()).is_empty());
}

#[test]
fn direct_chats_are_owned_by_both() {
    let plan = create_direct_chat(ALICE, Some("hello"), Some("Greeting"), BOB, STAMP, at(3));
    assert_eq!(plan.id, format!("greeting_{}", STAMP));
    let dir = format!("/apps/msg/chats/{}", plan.id);
    let both = format!("owners {:?} writers [] readers [] dropped []", [ALICE, BOB]);
    assert_eq!(
        shown(&plan.actions),
        [
            format!("dir {}", dir),
            format!("put {} {}", dir, both),
            format!("chat {}/chat.json {} Some(\"hello\") {:?}", dir, plan.id, [BOB]),
            format!("put {}/chat.json {}", dir, both),
        ]
    );
    let unnamed = create_direct_chat(ALICE, None, None, BOB, STAMP, at(3));
    assert_eq!(unnamed.id, format!("bob_{}", STAMP));
}

#[test]
fn group_chats_go_through_a_group() {
    let start = create_group_chat(ALICE, None, &strings(&[BOB, CAROL]), STAMP);
    assert_eq!(start.id, format!("bob_{}", STAMP));
    let dir = format!("/apps/msg/chats/{}", start.id);
    assert_eq!(start.group_path, format!("{}/group.json", dir));
    assert_eq!(start.members, strings(&[ALICE, BOB, CAROL]));

    let actions =
        share_group_chat(ALICE, &start.id, Some("team"), &strings(&[BOB, CAROL]), "group", at(3));
    assert_eq!(
        shown(&actions),
        [
            format!("put {} owners {:?} writers [\"group\"] readers [] dropped []", dir, [ALICE]),
            format!("chat {}/chat.json {} Some(\"team\") {:?}", dir, start.id, [BOB, CAROL]),
            format!(
                "put {}/chat.json owners {:?} writers [] readers [\"group\"] dropped []",
                dir,
                [ALICE]
            ),
        ]
    );
}

#[test]
fn members_come_and_go_through_the_group() {
    let added = add_group_chat_member("plan_1", CAROL, true).unwrap();
    assert_eq!(
        shown(&added),
        [format!("members /apps/msg/chats/plan_1/group.json +{:?} -[]", [CAROL])]
    );

    let dir = vec![member(ALICE, Permission::Owner), member("group", Permission::Writer)];
    let removed = remove_group_chat_member(ALICE, "plan_1", BOB, true, &dir, true).unwrap();
    assert_eq!(
        shown(&removed),
        [format!("members /apps/msg/chats/plan_1/group.json +[] -{:?}", [BOB])]
    );
}

#[test]
fn owners_are_demoted_before_they_go() {
    let dir = vec![member(ALICE, Permission::Owner), member(CAROL, Permission::Owner)];
    let removed = remove_group_chat_member(ALICE, "plan_1", CAROL, true, &dir, true).unwrap();
    let dropped = format!("owners [] writers [] readers [] dropped {:?}", [CAROL]);
    assert_eq!(
        shown(&removed),
        [
            format!("permit /apps/msg/chats/plan_1 {}", dropped),
            format!("permit /apps/msg/chats/plan_1/chat.json {}", dropped),
            format!("members /apps/msg/chats/plan_1/group.json +[] -{:?}", [CAROL]),
        ]
    );
}

#[test]
fn promotion_uploads_and_demotion_drops() {
    let dir = vec![member(ALICE, Permission::Owner)];
    let owner = format!("owners {:?} writers [] readers [] dropped []", [CAROL]);
    let promoted = promote_group_chat_member("plan_1", CAROL, true, true).unwrap();
    assert_eq!(
        shown(&promoted),
        [
            format!("put /apps/msg/chats/plan_1 {}", owner),
            format!("put /apps/msg/chats/plan_1/chat.json {}", owner),
        ]
    );
    let without_file = promote_group_chat_member("plan_1", CAROL, true, false).unwrap();
    assert_eq!(shown(&without_file), [format!("put /apps/msg/chats/plan_1 {}", owner)]);

    let demoted = demote_group_chat_member(ALICE, "plan_1", CAROL, true, &dir, false).unwrap();
    assert_eq!(
        shown(&demoted),
        [format!(
            "permit /apps/msg/chats/plan_1 owners [] writers [] readers [] dropped {:?}",
            [CAROL]
        )]
    );
}

#[test]
fn the_sole_owner_stays() {
    let alone = vec![member(ALICE, Permission::Owner), member(BOB, Permission::Writer)];
    let refused = demote_group_chat_member(ALICE, "plan_1", ALICE, true, &alone, true);
    let failure = refused.err().unwrap();
    assert_eq!(failure.kind, FailureKind::InvalidInput);
    assert_eq!(failure.message, "cannot demote self: no other owner");
    assert!(remove_group_chat_member(ALICE, "plan_1", ALICE, true, &alone, true).is_err());
    assert!(!is_owned_by_another(&alone, ALICE));

    let shared = vec![member(ALICE, Permission::Owner), member(BOB, Permission::Owner)];
    assert!(demote_group_chat_member(ALICE, "plan_1", ALICE, true, &shared, true).is_ok());
    assert!(is_owned_by_another(&shared, ALICE));

    // An account that is no owner has nothing to keep the chat from losing.
    let written = vec![member(ALICE, Permission::Writer)];
    assert!(demote_group_chat_member(ALICE, "plan_1", ALICE, true, &written, true).is_ok());
    assert!(demote_group_chat_member(ALICE, "plan_1", ALICE, true, &Vec::new(), true).is_ok());
}

#[test]
fn direct_chat_membership_is_fixed() {
    let dir = vec![member(ALICE, Permission::Owner), member(BOB, Permission::Owner)];
    let refusals = [
        (add_group_chat_member("bob_1", CAROL, false), "cannot add a member to a direct chat"),
        (
            remove_group_chat_member(ALICE, "bob_1", BOB, false, &dir, true),
            "cannot remove a member from a direct chat",
        ),
        (
            promote_group_chat_member("bob_1", BOB, false, true),
            "cannot promote in a direct chat",
        ),
        (
            demote_group_chat_member(ALICE, "bob_1", BOB, false, &dir, true),
            "cannot demote in a direct chat",
        ),
    ];
    for (refused, message) in refusals {
        let failure = refused.err().unwrap();
        assert_eq!(failure.kind, FailureKind::InvalidInput);
        assert_eq!(failure.message, message);
    }
    assert_eq!(get_group_key_path("bob_1"), "/apps/msg/chats/bob_1/group.key");
}
