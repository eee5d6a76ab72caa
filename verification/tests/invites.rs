use ark_msg::invite::{
    accept_invite, get_invited_chat, list_chat_proposal_ids, list_invites, reject_invite, Answer,
};
use ark_msg::types::{Proposal, Timestamp};

fn proposal(id: &str, target: &str) -> Proposal {
    Proposal {
        id: id.to_string(),
        target: target.to_string(),
        modified_by: "alice@host".to_string(),
        modified: Timestamp { unix_nanos: 7 },
    }
}

#[test]
fn chat_directories_are_invites() {
    assert_eq!(get_invited_chat("/apps/msg/chats/bob_1").as_deref(), Some("bob_1"));
    assert_eq!(get_invited_chat("bob@host/apps/msg/chats/bob_1//").as_deref(), Some("bob_1"));
    assert_eq!(get_invited_chat("/apps/msg/chats/bob_1/chat.json"), None);
    assert_eq!(get_invited_chat("/apps/msg/chats/"), None);
    assert_eq!(get_invited_chat("/apps/msg/chats"), None);
    assert_eq!(get_invited_chat("/apps/other/bob_1"), None);
}

#[test]
fn invites_are_listed_as_they_come() {
    let invites = list_invites(&vec![
        proposal("1", "/apps/msg/chats/b_1"),
        proposal("2", "/apps/msg/chats/b_1/chat.json"),
        proposal("3", "/apps/msg/chats/a_2"),
    ]);
    let listed: Vec<(&str, &str)> = invites
        .iter()
        .map(|invite| (invite.proposal_id.as_str(), invite.chat_id.as_str()))
        .collect();
    assert_eq!(listed, [("1", "b_1"), ("3", "a_2")]);
    assert_eq!(invites[0].proposer, "alice@host");
    assert_eq!(invites[0].proposed, Timestamp { unix_nanos: 7 });
}

#[test]
fn files_are_settled_with_their_chat() {
    let pending = vec![
        proposal("2", "/apps/msg/chats/b_1/chat.json"),
        proposal("3", "/apps/msg/chats/b_12/chat.json"),
        proposal("4", "/apps/msg/chats/b_1/group.key"),
    ];
    assert_eq!(list_chat_proposal_ids(&pending, "b_1"), ["2", "4"]);

    let invites = list_invites(&vec![proposal("1", "/apps/msg/chats/b_1")]);
    let accepted = accept_invite(&invites[0]);
    assert!(matches!(accepted.answer, Answer::Accept));
    assert_eq!(accepted.first, "1");
    assert_eq!(accepted.rest(&pending), ["2", "4"]);
    let rejected = reject_invite(&invites[0]);
    assert!(matches!(rejected.answer, Answer::Reject));
    assert_eq!(rejected.first, "1");
    assert_eq!(rejected.rest(&pending), ["2", "4"]);
}
