use ark_msg::convo::{
    add_member, count_members, create, demote, get_activity, get_convo_path, get_title_path, last_activity, list,
    make_dir_name, members, promote, remove_member, resolve, summarize, ConversationDoc,
    ConvoSummary,
};
use ark_msg::plan::Action;
use ark_msg::sync::{
    auto_accept_convo_proposals, is_convo_proposal, next_sync_step, Shares, SyncProgress, SyncStep,
};
use ark_msg::types::{FailureKind, Member, Permission, Permissions, Proposal, Timestamp};

const ALICE: &str = "alice@host";
const BOB: &str = "bob@host";

fn member(address: &str, permission: Permission) -> Member {
    Member { address: address.to_string(), permission }
}

fn strings(list: &[&str]) -> Vec<String> {
    list.iter().map(|s| s.to_string()).collect()
}

fn changed<'a>(action: &'a Action, expected: &str) -> &'a Permissions {
    match action {
        Action::Put { path, permissions } | Action::PutPermissions { path, permissions } => {
            assert_eq!(path, expected);
            permissions
        }
        _ => panic!("permissions change"),
    }
}

#[test]
fn convos_are_named_by_slug_and_second() {
    assert_eq!(make_dir_name("bob", 1_699_999_999), "bob-1699999999");
    let plan = create("Hi", None, &strings(&[BOB]), 1_699_999_999);
    assert_eq!(plan.dir_name, "bob-1699999999");
    assert_eq!(plan.actions.len(), 4);
    let dir = "/apps/msg/convos/bob-1699999999";
    let json = "/apps/msg/convos/bob-1699999999/conversation.json";
    assert_eq!(changed(&plan.actions[1], dir).writers, [BOB]);
    match &plan.actions[2] {
        Action::WriteTitle { path, title } => {
            assert_eq!(path, json);
            assert_eq!(title, "Hi");
        }
        _ => panic!("the title is written"),
    }
    assert_eq!(changed(&plan.actions[3], json).readers, [BOB]);
    assert_eq!(get_convo_path("a-1"), "/apps/msg/convos/a-1");
    assert_eq!(get_title_path("a-1"), "/apps/msg/convos/a-1/conversation.json");
}

#[test]
fn roles_change_on_directory_and_title() {
    let dir = "/apps/msg/convos/a-1";
    let json = "/apps/msg/convos/a-1/conversation.json";
    let added = add_member("a-1", BOB, true);
    assert_eq!(changed(&added[0], dir).writers, [BOB]);
    assert_eq!(changed(&added[1], json).readers, [BOB]);
    assert_eq!(add_member("a-1", BOB, false).len(), 1);
    let removed = remove_member("a-1", BOB, true);
    assert_eq!(changed(&removed[0], dir).dropped, [BOB]);
    assert_eq!(changed(&removed[1], json).dropped, [BOB]);
    let promoted = promote("a-1", BOB, true);
    assert_eq!(changed(&promoted[0], dir).owners, [BOB]);
    assert_eq!(changed(&promoted[1], json).owners, [BOB]);
    let demoted = demote(ALICE, "a-1", BOB, &Vec::new(), true).unwrap();
    assert_eq!(changed(&demoted[0], dir).writers, [BOB]);
    assert_eq!(changed(&demoted[1], json).readers, [BOB]);
}

#[test]
fn the_sole_owner_of_a_convo_stays() {
    let alone = vec![member(ALICE, Permission::Owner), member(BOB, Permission::Writer)];
    let failure = demote(ALICE, "a-1", ALICE, &alone, true).err().unwrap();
    assert_eq!(failure.kind, FailureKind::InvalidInput);
    assert_eq!(failure.message, "cannot demote self: no other owner");
    let shared = vec![member(ALICE, Permission::Owner), member(BOB, Permission::Owner)];
    assert!(demote(ALICE, "a-1", ALICE, &shared, true).is_ok());
}

#[test]
fn the_public_is_no_member() {
    let dir = vec![
        member(ALICE, Permission::Owner),
        member("*", Permission::Reader),
        member(BOB, Permission::Writer),
    ];
    assert_eq!(members(&dir), [ALICE, BOB]);
    assert_eq!(count_members(Some(&dir)), (2, 1));
    assert_eq!(count_members(None), (0, 0));
}

#[test]
fn activity_falls_back_to_the_name() {
    let second = 1_000_000_000;
    assert_eq!(
        last_activity("a-12", Some("1970-01-01T00:01:00Z")),
        Timestamp { unix_nanos: 60 * second }
    );
    assert_eq!(last_activity("a-12", Some("soon")), Timestamp { unix_nanos: 12 * second });
    assert_eq!(last_activity("a-b-12", None), Timestamp { unix_nanos: 12 * second });
    assert_eq!(last_activity("a-+12", None), Timestamp { unix_nanos: 12 * second });
    assert_eq!(last_activity("a-b", None), Timestamp { unix_nanos: 0 });
    assert_eq!(last_activity("a", None), Timestamp { unix_nanos: 0 });
    assert_eq!(last_activity("a-999999999999999999", None), Timestamp { unix_nanos: 0 });
    assert_eq!(last_activity("a-99999999999999999999", None), Timestamp { unix_nanos: 0 });
}

#[test]
fn a_sent_message_is_the_last_activity() {
    let sent = Timestamp { unix_nanos: -7 };
    assert_eq!(get_activity("a-12", Some(sent)), sent);
    assert_eq!(get_activity("a-12", None), Timestamp { unix_nanos: 12_000_000_000 });
}

#[test]
fn plain_readers_are_no_members() {
    let dir = vec![
        member(ALICE, Permission::Owner),
        member("carol@host", Permission::Reader),
        member(BOB, Permission::Writer),
        member("*", Permission::Writer),
    ];
    assert_eq!(members(&dir), [ALICE, BOB]);
}

#[test]
fn convos_are_summarized_and_listed() {
    let dir = vec![member(ALICE, Permission::Owner), member(BOB, Permission::Writer)];
    let doc = ConversationDoc { title: "Hi".to_string() };
    let old = summarize("a-12", Some(&doc), Some(&dir), get_activity("a-12", None));
    assert_eq!(old.title.as_deref(), Some("Hi"));
    assert_eq!((old.member_count, old.owner_count), (2, 1));
    let recent = summarize("b-99", None, None, get_activity("b-99", None));
    assert_eq!(recent.title, None);
    let listed: Vec<ConvoSummary> = list(vec![old, recent]);
    assert_eq!(listed[0].dir_name, "b-99");
    assert_eq!(listed[1].dir_name, "a-12");
}

#[test]
fn convos_resolve_by_prefix() {
    let names = strings(&["bob-1", "bob-12", "eve-3"]);
    assert_eq!(resolve(&names, "bob-1").unwrap(), "bob-1");
    assert_eq!(resolve(&names, "eve").unwrap(), "eve-3");
    let missing = resolve(&names, "mallory").err().unwrap();
    assert_eq!(missing.kind, FailureKind::NotFound);
    assert_eq!(missing.message, "no conversation matches 'mallory'");
    let ambiguous = resolve(&names, "bob").err().unwrap();
    assert_eq!(ambiguous.kind, FailureKind::InvalidInput);
    assert_eq!(
        ambiguous.message,
        "ambiguous conversation 'bob': matches [\"bob-1\", \"bob-12\"]"
    );
}

fn proposal(id: &str, target: &str) -> Proposal {
    Proposal {
        id: id.to_string(),
        target: target.to_string(),
        modified_by: ALICE.to_string(),
        modified: Timestamp { unix_nanos: 0 },
    }
}

#[test]
fn convo_proposals_are_accepted() {
    let proposals = vec![
        proposal("1", "/apps/msg/convos/a-1"),
        proposal("2", "/apps/msg/chats/b_1"),
        proposal("3", "/apps/msg/convos/a-1/conversation.json"),
    ];
    assert!(is_convo_proposal(&proposals[0]));
    assert!(!is_convo_proposal(&proposals[1]));
    let report =
        auto_accept_convo_proposals(&proposals, &vec![None, None, Some("offline".to_string())]);
    assert_eq!(report.accepted, ["1"]);
    assert_eq!(report.skipped, ["2"]);
    assert_eq!(report.failed, [("3".to_string(), "offline".to_string())]);
}

#[test]
fn shares_are_accepted_after_the_sync() {
    for shares in [Shares::Chats, Shares::Convos] {
        assert!(matches!(
            next_sync_step(shares, &SyncProgress::Begun),
            SyncStep::CreateDir { path } if path == "apps/msg"
        ));
        assert!(matches!(
            next_sync_step(shares, &SyncProgress::DirCreated),
            SyncStep::Sync { path } if path == "apps/msg"
        ));
        assert!(matches!(
            next_sync_step(shares, &SyncProgress::Synced),
            SyncStep::ListProposals
        ));
    }
    let listed = SyncProgress::Listed(vec![
        proposal("1", "/apps/msg/convos/a-1"),
        proposal("2", "/apps/msg/chats/b_1"),
        proposal("3", "/apps/msg/chats/b_1/chat.json"),
        proposal("4", "/apps/msg/convos/a-1/conversation.json"),
    ]);
    match next_sync_step(Shares::Chats, &listed) {
        SyncStep::AcceptInvites(invites) => {
            assert_eq!(invites.len(), 1);
            assert_eq!(invites[0].proposal_id, "2");
            assert_eq!(invites[0].chat_id, "b_1");
        }
        _ => panic!("the invites are accepted"),
    }
    match next_sync_step(Shares::Convos, &listed) {
        SyncStep::AcceptProposals(ids) => assert_eq!(ids, ["1", "4"]),
        _ => panic!("the proposals are accepted"),
    }
}
