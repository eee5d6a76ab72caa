use ark_msg::reltime::Clock;
use ark_msg::tui::events::Event;
use ark_msg::tui::keys::{Key, KeyPress};
use ark_msg::tui::model::{
    row_key, AfterChats, AfterMessages, App, Effect, ListRow, Pane, Task,
};
use ark_msg::tui::screen::{
    draw_invite_card, draw_messages, draw_rows, get_scroll, place_cursor, title_messages, Area,
    Line, Tone,
};
use ark_msg::tui::tasks::{report_task, Notice};
use ark_msg::types::{Chat, ChatMember, Invite, Message, Timestamp};

const ALICE: &str = "alice@host";

fn at(unix_nanos: i128) -> Timestamp {
    Timestamp { unix_nanos }
}

fn chat(id: &str, nanos: i128) -> Chat {
    Chat { id: id.to_string(), name: None, other_members: Vec::new(), last_activity: at(nanos) }
}

fn invite(chat_id: &str, nanos: i128) -> Invite {
    Invite {
        proposal_id: format!("p-{}", chat_id),
        chat_id: chat_id.to_string(),
        proposer: "eve@host".to_string(),
        proposed: at(nanos),
    }
}

fn message(body: &str) -> Message {
    Message {
        id: "msg_T.md".to_string(),
        sender: "bob@host".to_string(),
        sent: at(0),
        body: body.to_string(),
    }
}

fn member(address: &str, owner: bool) -> ChatMember {
    ChatMember { address: address.to_string(), owner }
}

fn press(app: &mut App, key: Key) -> Effect {
    app.handle_key(KeyPress { key, control: false })
}

fn type_text(app: &mut App, text: &str) {
    for c in text.chars() {
        assert!(matches!(press(app, Key::Char(c)), Effect::Nothing));
    }
}

fn keys(app: &App) -> Vec<String> {
    app.rows.iter().map(row_key).collect()
}

/// An interface with two chats and an invite between them.
fn opened() -> App {
    let (mut app, effect) = App::new(ALICE);
    assert!(matches!(effect, Effect::ReadChats(AfterChats::Start)));
    let effect = app.chats_read(Ok(vec![chat("a_1", 3), chat("b_2", 1)]), AfterChats::Start);
    match effect {
        Effect::ReadMessages { chat_id, after: AfterMessages::Nothing } => {
            assert_eq!(chat_id, "a_1");
        }
        _ => panic!("the first chat's messages are read"),
    }
    app.messages_read(Ok(vec![message("hi")]), AfterMessages::Nothing);
    app.invites_loaded(vec![invite("c_3", 2)]);
    app
}

fn with_members(group: bool) -> App {
    let mut app = opened();
    match press(&mut app, Key::Char('m')) {
        Effect::CheckGroup { chat_id } => assert_eq!(chat_id, "a_1"),
        _ => panic!("the chat's kind is looked up"),
    }
    match app.group_checked("a_1".to_string(), group) {
        Effect::RequestMembers { chat_id, report } => {
            assert_eq!(chat_id, "a_1");
            assert!(!report);
        }
        _ => panic!("the members are asked for"),
    }
    app.members_loaded("a_1", vec![member(ALICE, true), member("bob@host", false)]);
    app
}

fn plain(line: &Line) -> String {
    line.spans.iter().map(|span| span.text.as_str()).collect()
}

fn tones(line: &Line) -> Vec<Tone> {
    line.spans.iter().map(|span| span.tone).collect()
}

#[test]
fn rows_are_listed_by_activity() {
    let app = opened();
    assert_eq!(keys(&app), ["c:a_1", "i:c_3", "c:b_2"]);
    assert_eq!(app.selected, Some(0));
    assert_eq!(app.messages.len(), 1);
}

#[test]
fn nothing_to_open_with() {
    let (mut app, _) = App::new(ALICE);
    let effect = app.chats_read(Ok(Vec::new()), AfterChats::Start);
    assert!(matches!(effect, Effect::Nothing));
    assert_eq!(app.selected, None);
    assert!(matches!(press(&mut app, Key::Down), Effect::Nothing));
    assert!(matches!(press(&mut app, Key::Char('m')), Effect::Nothing));
    press(&mut app, Key::Tab);
    assert_eq!(app.pane, Pane::Chats);
}

#[test]
fn unreadable_chats_and_messages_are_reported() {
    let mut app = opened();
    app.chats_read(Err("broken".to_string()), AfterChats::Refresh);
    assert_eq!(app.error.as_deref(), Some("list error: broken"));
    assert_eq!(app.rows.len(), 3);
    app.messages_read(Err("lost".to_string()), AfterMessages::Nothing);
    assert_eq!(app.error.as_deref(), Some("read error: lost"));
    assert_eq!(app.messages.len(), 1);
}

#[test]
fn the_rows_go_round() {
    let mut app = opened();
    assert!(matches!(press(&mut app, Key::Up), Effect::ReadMessages { .. }));
    assert_eq!(app.selected, Some(2));
    press(&mut app, Key::Char('j'));
    assert_eq!(app.selected, Some(0));
    assert!(matches!(press(&mut app, Key::Down), Effect::Nothing));
    assert_eq!(app.selected, Some(1));
    assert!(app.messages.is_empty());
    press(&mut app, Key::Char('k'));
    assert_eq!(app.selected, Some(0));
}

#[test]
fn the_selection_follows_its_row() {
    let mut app = opened();
    press(&mut app, Key::Up);
    assert_eq!(app.selected_chat_id().as_deref(), Some("b_2"));
    app.chats_read(Ok(vec![chat("a_1", 3), chat("b_2", 9)]), AfterChats::Refresh);
    assert_eq!(app.selected, Some(0));
    assert_eq!(app.selected_chat_id().as_deref(), Some("b_2"));
    app.chats_read(Ok(vec![chat("a_1", 3)]), AfterChats::Refresh);
    assert_eq!(app.selected_chat_id().as_deref(), Some("a_1"));
}

#[test]
fn control_c_always_quits() {
    for mut app in [opened(), with_members(true), with_members(false)] {
        app.handle_key(KeyPress { key: Key::Char('c'), control: true });
        assert!(app.quit);
    }
    let mut app = opened();
    press(&mut app, Key::Char('c'));
    assert!(!app.quit);
    press(&mut app, Key::Char('q'));
    assert!(app.quit);
}

#[test]
fn messages_are_typed_and_sent() {
    let mut app = opened();
    press(&mut app, Key::Char('i'));
    assert_eq!(app.pane, Pane::Input);
    assert!(matches!(press(&mut app, Key::Enter), Effect::Nothing));
    type_text(&mut app, " hello!");
    press(&mut app, Key::Backspace);
    assert_eq!(app.input, " hello");
    match press(&mut app, Key::Enter) {
        Effect::Queue(Task::Send { chat_id, body }) => {
            assert_eq!(chat_id, "a_1");
            assert_eq!(body, "hello");
        }
        _ => panic!("the message is queued"),
    }
    assert_eq!(app.input, "");
    app.task_sent(true);
    assert_eq!(app.pending, 1);
    app.task_done();
    assert_eq!(app.pending, 0);
    assert!(app.dirty);
    press(&mut app, Key::Esc);
    assert_eq!(app.pane, Pane::Chats);
}

#[test]
fn blank_messages_are_not_sent() {
    let mut app = opened();
    press(&mut app, Key::Tab);
    type_text(&mut app, "  \u{3000} ");
    assert!(matches!(press(&mut app, Key::Enter), Effect::Nothing));
    assert_eq!(app.input, "  \u{3000} ");
}

#[test]
fn tasks_that_cannot_be_queued_are_reported() {
    let mut app = opened();
    app.task_sent(false);
    assert_eq!(app.pending, 0);
    assert_eq!(app.error.as_deref(), Some("tasks stopped"));
    app.task_done();
    assert_eq!(app.pending, 0);
}

#[test]
fn a_direct_chat_is_filled_in() {
    let mut app = opened();
    press(&mut app, Key::Char('n'));
    assert_eq!(app.pane, Pane::NewChat);
    press(&mut app, Key::Enter);
    assert_eq!(app.error.as_deref(), Some("create error: an address is required"));
    type_text(&mut app, "bob@host eve@host");
    press(&mut app, Key::Enter);
    assert_eq!(app.error.as_deref(), Some("create error: a direct chat takes one address"));
    assert_eq!(app.new_chat.as_ref().unwrap().members, "bob@host eve@host");
    for _ in 0..9 {
        press(&mut app, Key::Backspace);
    }
    press(&mut app, Key::Tab);
    assert_eq!(app.new_chat.as_ref().unwrap().field, 0);
    match press(&mut app, Key::Enter) {
        Effect::Queue(Task::CreateDirect { name, address }) => {
            assert_eq!(name, None);
            assert_eq!(address, "bob@host");
        }
        _ => panic!("the chat is queued"),
    }
    assert_eq!(app.pane, Pane::Chats);
    assert!(app.new_chat.is_none());
    assert!(app.error.is_none());
}

#[test]
fn a_group_chat_is_filled_in() {
    let mut app = opened();
    press(&mut app, Key::Char('g'));
    type_text(&mut app, "bob@host, eve@host");
    assert!(matches!(press(&mut app, Key::Enter), Effect::Nothing));
    type_text(&mut app, " team ");
    press(&mut app, Key::Tab);
    press(&mut app, Key::Tab);
    match press(&mut app, Key::Enter) {
        Effect::Queue(Task::CreateGroup { name, members }) => {
            assert_eq!(name.as_deref(), Some("team"));
            assert_eq!(members, ["bob@host", "eve@host"]);
        }
        _ => panic!("the chat is queued"),
    }
    press(&mut app, Key::Char('g'));
    press(&mut app, Key::Char('x'));
    press(&mut app, Key::Esc);
    assert_eq!(app.pane, Pane::Chats);
    assert!(app.new_chat.is_none());
}

#[test]
fn an_unnamed_group_chat_stays_unnamed() {
    let mut app = opened();
    press(&mut app, Key::Char('g'));
    type_text(&mut app, "bob@host");
    press(&mut app, Key::Enter);
    match press(&mut app, Key::Enter) {
        Effect::Queue(Task::CreateGroup { name, members }) => {
            assert_eq!(name, None);
            assert_eq!(members, ["bob@host"]);
        }
        _ => panic!("the chat is queued"),
    }
}

#[test]
fn created_chats_are_selected() {
    let mut app = opened();
    match app.chat_created("d_4".to_string()) {
        Effect::ReadChats(after) => {
            let chats = vec![chat("a_1", 3), chat("b_2", 1), chat("d_4", 0)];
            assert!(matches!(app.chats_read(Ok(chats), after), Effect::ReadMessages { .. }));
        }
        _ => panic!("the chats are read"),
    }
    assert_eq!(app.selected_chat_id().as_deref(), Some("d_4"));
}

#[test]
fn invites_are_accepted() {
    let mut app = opened();
    assert!(matches!(press(&mut app, Key::Char('a')), Effect::Nothing));
    press(&mut app, Key::Down);
    assert!(matches!(press(&mut app, Key::Char('i')), Effect::Nothing));
    assert_eq!(app.pane, Pane::Chats);
    match press(&mut app, Key::Char('a')) {
        Effect::Queue(Task::Accept(invite)) => assert_eq!(invite.chat_id, "c_3"),
        _ => panic!("the acceptance is queued"),
    }
    assert_eq!(keys(&app), ["c:a_1", "c:b_2"]);
    assert_eq!(app.selected, Some(0));
}

#[test]
fn invites_are_rejected() {
    let mut app = opened();
    press(&mut app, Key::Down);
    match press(&mut app, Key::Char('d')) {
        Effect::ReadMessages { chat_id, after } => {
            assert_eq!(chat_id, "a_1");
            match app.messages_read(Ok(Vec::new()), after) {
                Effect::Queue(Task::Reject(invite)) => assert_eq!(invite.chat_id, "c_3"),
                _ => panic!("the rejection is queued"),
            }
        }
        _ => panic!("the messages are read first"),
    }
    assert_eq!(keys(&app), ["c:a_1", "c:b_2"]);
}

#[test]
fn members_of_a_group_are_changed() {
    let mut app = with_members(true);
    assert_eq!(app.pane, Pane::Members);
    press(&mut app, Key::Char('d'));
    assert_eq!(app.error.as_deref(), Some("remove error: cannot remove yourself"));
    match press(&mut app, Key::Char('p')) {
        Effect::Queue(Task::DemoteMember { chat_id, address }) => {
            assert_eq!(chat_id, "a_1");
            assert_eq!(address, ALICE);
        }
        _ => panic!("an owner is demoted"),
    }
    assert!(app.error.is_none());
    press(&mut app, Key::Char('j'));
    assert!(matches!(
        press(&mut app, Key::Char('p')),
        Effect::Queue(Task::PromoteMember { .. })
    ));
    match press(&mut app, Key::Char('d')) {
        Effect::Queue(Task::RemoveMember { chat_id, address }) => {
            assert_eq!(chat_id, "a_1");
            assert_eq!(address, "bob@host");
        }
        _ => panic!("the member is removed"),
    }
    press(&mut app, Key::Char('m'));
    assert_eq!(app.pane, Pane::Chats);
    assert!(app.members.is_none());
}

#[test]
fn members_are_added_by_address() {
    let mut app = with_members(true);
    press(&mut app, Key::Char('a'));
    assert!(matches!(press(&mut app, Key::Enter), Effect::Nothing));
    type_text(&mut app, " jd ");
    press(&mut app, Key::Down);
    press(&mut app, Key::Tab);
    match press(&mut app, Key::Enter) {
        Effect::Queue(Task::AddMember { chat_id, address }) => {
            assert_eq!(chat_id, "a_1");
            assert_eq!(address, "jd");
        }
        _ => panic!("the member is added"),
    }
    assert!(app.members.as_ref().unwrap().adding.is_none());
    press(&mut app, Key::Char('a'));
    press(&mut app, Key::Esc);
    assert!(app.members.as_ref().unwrap().adding.is_none());
    assert_eq!(app.pane, Pane::Members);
}

#[test]
fn direct_pairs_are_fixed() {
    let mut app = with_members(false);
    for key in ['a', 'd', 'p'] {
        assert!(matches!(press(&mut app, Key::Char(key)), Effect::Nothing));
    }
    assert!(app.members.as_ref().unwrap().adding.is_none());
    assert_eq!(app.members.as_ref().unwrap().rows.len(), 2);
}

#[test]
fn member_lists_keep_the_address() {
    let mut app = with_members(true);
    press(&mut app, Key::Down);
    app.members_loaded("a_1", vec![member("bob@host", false), member(ALICE, true)]);
    assert_eq!(app.members.as_ref().unwrap().selected, Some(0));
    app.members_loaded("b_2", Vec::new());
    assert_eq!(app.members.as_ref().unwrap().rows.len(), 2);
    app.members_loaded("a_1", Vec::new());
    assert_eq!(app.members.as_ref().unwrap().selected, None);
    press(&mut app, Key::Down);
    assert!(matches!(press(&mut app, Key::Char('d')), Effect::Nothing));
    assert!(matches!(press(&mut app, Key::Char('p')), Effect::Nothing));
}

#[test]
fn changes_are_read_once() {
    let mut app = with_members(true);
    app.local_changed();
    app.local_changed();
    match app.tick() {
        Effect::ReadChats(after) => match app.chats_read(Ok(vec![chat("a_1", 3)]), after) {
            Effect::ReadMessages { after, .. } => {
                match app.messages_read(Ok(Vec::new()), after) {
                    Effect::RequestMembers { chat_id, report } => {
                        assert_eq!(chat_id, "a_1");
                        assert!(report);
                    }
                    _ => panic!("the members are asked for"),
                }
            }
            _ => panic!("the messages are read"),
        },
        _ => panic!("the chats are read"),
    }
    assert!(matches!(app.tick(), Effect::Nothing));
    app.members_requested(false, false);
    assert!(app.error.is_none());
    app.members_requested(false, true);
    assert_eq!(app.error.as_deref(), Some("members stopped"));
    app.failed("watch: gone".to_string());
    assert_eq!(app.error.as_deref(), Some("watch: gone"));
}

#[test]
fn tasks_are_reported() {
    let send = Task::Send { chat_id: "a_1".to_string(), body: "hi".to_string() };
    let news = report_task(&send, Ok(None));
    assert_eq!(news.len(), 1);
    assert!(matches!(news[0], Notice::TaskDone));
    let news = report_task(&send, Err("offline".to_string()));
    assert!(matches!(&news[0], Notice::Error(error) if error == "send error: offline"));
    assert!(matches!(news[1], Notice::TaskDone));
    let create = Task::CreateDirect { name: None, address: "bob@host".to_string() };
    let news = report_task(&create, Ok(Some("bob_1".to_string())));
    assert!(matches!(&news[0], Notice::ChatCreated(id) if id == "bob_1"));
    for task in [Task::Accept(invite("c_3", 2)), Task::Reject(invite("c_3", 2))] {
        let news = report_task(&task, Ok(None));
        assert!(matches!(news[0], Notice::ReloadInvites));
        assert!(matches!(news[1], Notice::TaskDone));
    }
}

#[test]
fn tasks_have_labels() {
    let (chat_id, address) = (|| "a_1".to_string(), || "bob@host".to_string());
    let labels = [
        (Task::CreateGroup { name: None, members: Vec::new() }, "create"),
        (Task::Accept(invite("c_3", 2)), "accept"),
        (Task::Reject(invite("c_3", 2)), "reject"),
        (Task::AddMember { chat_id: chat_id(), address: address() }, "add"),
        (Task::RemoveMember { chat_id: chat_id(), address: address() }, "remove"),
        (Task::PromoteMember { chat_id: chat_id(), address: address() }, "promote"),
        (Task::DemoteMember { chat_id: chat_id(), address: address() }, "demote"),
    ];
    for (task, label) in labels {
        assert_eq!(task.label(), label);
    }
}

#[test]
fn rows_are_drawn() {
    let app = opened();
    let lines = draw_rows(&app);
    assert_eq!(lines.iter().map(plain).collect::<Vec<_>>(), ["a_1", "[invite] c_3", "b_2"]);
    assert_eq!(tones(&lines[1]), [Tone::Yellow, Tone::Plain]);
    match &app.rows[1] {
        ListRow::Invite(invite) => {
            let clock = Clock { now: at(2), offset: 0 };
            let card = draw_invite_card(invite, clock);
            assert_eq!(
                card.iter().map(plain).collect::<Vec<_>>(),
                [
                    "Chat: c_3",
                    "From:  eve@host",
                    "When:  now",
                    "",
                    "Press  a  to Join   d  to Dismiss"
                ]
            );
        }
        ListRow::Chat(_) => panic!("the invite comes second"),
    }
}

#[test]
fn messages_are_drawn() {
    let clock = Clock { now: at(120_000_000_000), offset: 0 };
    let lines = draw_messages(&vec![message("one\r\ntwo\n\nthree"), message("")], clock);
    assert_eq!(
        lines.iter().map(plain).collect::<Vec<_>>(),
        ["[2 min ago] bob@host", "one", "two", "", "three", "", "[2 min ago] bob@host", ""]
    );
    assert_eq!(tones(&lines[0]), [Tone::Gray, Tone::Cyan]);
    assert_eq!(title_messages(&chat("a_1", 0), 120), "a_1 (120)");
    assert_eq!(get_scroll(10, 6), 6);
    assert_eq!(get_scroll(3, 6), 0);
    assert_eq!(get_scroll(3, 1), 3);
    assert_eq!(get_scroll(65_530, 2), 65_530);
    assert_eq!(get_scroll(70_000, 2), 65_535);
}

#[test]
fn the_message_box_is_drawn() {
    let mut app = opened();
    assert_eq!(app.draw_input().text, "(press Tab or i to type, Enter to send)");
    press(&mut app, Key::Tab);
    assert_eq!(app.draw_input().text, "");
    type_text(&mut app, "h\u{e9}");
    assert_eq!(app.draw_input().text, "h\u{e9}");
    assert_eq!(app.draw_input().tone, Tone::Plain);
    let area = Area { x: 28, y: 20, width: 10, height: 3 };
    assert_eq!(place_cursor(area, &app.input), (31, 21));
    assert_eq!(place_cursor(area, "a long message"), (36, 21));
    assert_eq!(place_cursor(area, &"x".repeat(65_537)), (36, 21));
    assert_eq!(place_cursor(Area { x: 5, y: 0, width: 1, height: 3 }, ""), (5, 1));
    press(&mut app, Key::Down);
    assert_eq!(app.draw_input().text, "(invite selected \u{2014} press a to join)");
    assert_eq!(app.draw_input().tone, Tone::Gray);
}

#[test]
fn forms_are_drawn() {
    let mut app = opened();
    press(&mut app, Key::Char('g'));
    press(&mut app, Key::Char('b'));
    let form = app.new_chat.as_ref().unwrap();
    assert_eq!(
        form.draw().iter().map(plain).collect::<Vec<_>>(),
        [
            "Members: b_",
            "Name:    ",
            "",
            "Members separated by spaces or commas. Name is optional."
        ]
    );
    assert_eq!(form.get_title(), "New Group Chat");
    let area = Area { x: 0, y: 0, width: 100, height: 30 };
    assert_eq!(form.place(area), Area { x: 18, y: 11, width: 64, height: 8 });
    let small = Area { x: 1, y: 2, width: 3, height: 4 };
    assert_eq!(form.place(small), Area { x: 2, y: 2, width: 0, height: 4 });

    press(&mut app, Key::Esc);
    press(&mut app, Key::Char('n'));
    let form = app.new_chat.as_ref().unwrap();
    assert_eq!(
        form.draw().iter().map(plain).collect::<Vec<_>>(),
        ["Address: _", "", "Named after the other account."]
    );
    assert_eq!(form.get_title(), "New Direct Chat");
    assert_eq!(form.place(area).height, 6);
}

#[test]
fn member_lists_are_drawn() {
    let mut app = with_members(true);
    let area = Area { x: 0, y: 0, width: 100, height: 30 };
    let members = app.members.as_ref().unwrap();
    let lines = members.draw(ALICE);
    assert_eq!(
        lines.iter().map(plain).collect::<Vec<_>>(),
        ["alice@host  owner  (you)", "bob@host"]
    );
    assert_eq!(tones(&lines[0]), [Tone::Plain, Tone::Yellow, Tone::Gray]);
    assert_eq!(members.place(area), Area { x: 14, y: 13, width: 72, height: 4 });
    assert!(members.draw_adding().is_none());
    assert_eq!(app.title_members(), "Members \u{2014} a_1");

    press(&mut app, Key::Char('a'));
    press(&mut app, Key::Char('e'));
    let members = app.members.as_ref().unwrap();
    assert_eq!(plain(&members.draw_adding().unwrap()), "Add: e_");
    assert_eq!(members.get_field_height(), 1);
    assert_eq!(members.place(area).height, 5);

    app.members_loaded("a_1", Vec::new());
    let members = app.members.as_ref().unwrap();
    assert_eq!(members.draw(ALICE).iter().map(plain).collect::<Vec<_>>(), ["(loading)"]);
    app.chats_read(Ok(Vec::new()), AfterChats::Refresh);
    assert_eq!(app.title_members(), "Members");
}

#[test]
fn the_status_line_is_drawn() {
    let mut app = opened();
    let chats = "j/k select  Tab/i input  n direct  g group  m members  q quit";
    assert_eq!(plain(&app.draw_status()), format!(" alice@host  | {}", chats));
    assert_eq!(tones(&app.draw_status()), [Tone::Green, Tone::Plain, Tone::Gray]);
    app.task_sent(true);
    assert_eq!(plain(&app.draw_status()), " alice@host  | working (1)");
    app.failed("watch: gone".to_string());
    assert_eq!(plain(&app.draw_status()), " alice@host  | watch: gone");
    assert_eq!(tones(&app.draw_status()), [Tone::Green, Tone::Plain, Tone::Red]);
}

#[test]
fn hints_follow_the_pane() {
    let mut app = opened();
    press(&mut app, Key::Down);
    assert_eq!(app.get_hint(), "j/k select  a join  d dismiss  n/g new  q quit");
    press(&mut app, Key::Up);
    press(&mut app, Key::Tab);
    assert_eq!(app.get_hint(), "Enter send  Up/Down chat  Esc/Tab back");
    press(&mut app, Key::Tab);
    press(&mut app, Key::Char('g'));
    assert_eq!(app.get_hint(), "Tab field  Enter next/create  Esc cancel");
    press(&mut app, Key::Esc);
    press(&mut app, Key::Char('n'));
    assert_eq!(app.get_hint(), "Enter create  Esc cancel");

    let direct = with_members(false);
    assert_eq!(
        direct.get_hint(),
        "j/k select  Esc close  (direct chat \u{2014} members are fixed)"
    );
    let mut group = with_members(true);
    assert_eq!(group.get_hint(), "j/k select  a add  d remove  p demote  Esc close");
    press(&mut group, Key::Down);
    assert_eq!(group.get_hint(), "j/k select  a add  d remove  p promote  Esc close");
    press(&mut group, Key::Char('a'));
    assert_eq!(group.get_hint(), "Enter add  Esc cancel");
}

#[test]
fn events_are_handled() {
    let mut app = opened();
    let nothing = [
        Event::Key(KeyPress { key: Key::Other, control: false }),
        Event::InvitesLoaded(Vec::new()),
        Event::MembersLoaded { chat_id: "a_1".to_string(), members: Vec::new() },
        Event::Timeout,
        Event::Error("proposals: gone".to_string()),
    ];
    for event in nothing {
        assert!(matches!(app.handle_event(event), Effect::Nothing));
    }
    assert_eq!(keys(&app), ["c:a_1", "c:b_2"]);
    assert_eq!(app.error.as_deref(), Some("proposals: gone"));
    assert!(!app.dirty);
    assert!(matches!(app.handle_event(Event::LocalChanged), Effect::Nothing));
    assert!(app.dirty);
    assert!(matches!(app.tick(), Effect::ReadChats(AfterChats::Refresh)));
    assert!(matches!(app.handle_event(Event::TaskDone), Effect::Nothing));
    assert!(app.dirty);
    match app.handle_event(Event::ChatCreated("b_2".to_string())) {
        Effect::ReadChats(AfterChats::Select(chat_id)) => assert_eq!(chat_id, "b_2"),
        _ => panic!("the chats are read"),
    }
    let quit = Event::Key(KeyPress { key: Key::Esc, control: false });
    assert!(matches!(app.handle_event(quit), Effect::Nothing));
    assert!(app.quit);
}
