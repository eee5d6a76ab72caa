//! What is on screen: the text of each part, with its tone, and where the
//! popups lie.

use vstd::prelude::*;

use crate::chat::{self, get_chat_display_name};
use crate::numerals::{self, decimal_text};
use crate::ordering;
use crate::reltime::Clock;
use crate::text;
use crate::tui::model::{
    App, AppView, ListRow, Members, MembersView, NewChat, NewChatView, Pane, RowView,
};
use crate::types::{
    Chat, ChatMember, ChatMemberView, ChatView, Invite, InviteView, Message, MessageView,
};

verus! {

/// The tone of a piece of text.
#[derive(Clone, Copy, PartialEq, Eq, Structural, Debug)]
pub enum Tone {
    Plain,
    Gray,
    Yellow,
    Cyan,
    Green,
    Red,
}

/// A piece of text in one tone.
pub struct Span {
    pub text: String,
    pub tone: Tone,
}

#[verifier::ext_equal]
pub struct SpanView {
    pub text: Seq<char>,
    pub tone: Tone,
}

impl View for Span {
    type V = SpanView;

    open spec fn view(&self) -> SpanView {
        SpanView { text: self.text@, tone: self.tone }
    }
}

/// A piece of text in a tone.
pub open spec fn toned(text: Seq<char>, tone: Tone) -> SpanView {
    SpanView { text, tone }
}

/// A piece of text in a tone.
pub fn span(text: &str, tone: Tone) -> (span: Span)
    ensures
        span@ == toned(text@, tone),
{
    Span { text: text.to_owned(), tone }
}

/// A line of text.
pub struct Line {
    pub spans: Vec<Span>,
}

impl View for Line {
    type V = Seq<SpanView>;

    open spec fn view(&self) -> Seq<SpanView> {
        ordering::views(self.spans@)
    }
}

impl Line {
    /// A line with nothing on it.
    pub fn new() -> (line: Line)
        ensures
            line@ == Seq::<SpanView>::empty(),
    {
        let line = Line { spans: Vec::new() };
        assert(line@ =~= Seq::<SpanView>::empty());
        line
    }

    /// A line of one piece.
    pub fn of(text: &str, tone: Tone) -> (line: Line)
        ensures
            line@ == seq![toned(text@, tone)],
    {
        let mut line = Line::new();
        line.push(text, tone);
        assert(line@ =~= seq![toned(text@, tone)]);
        line
    }

    /// A line of two pieces.
    pub fn of_two(first: &str, first_tone: Tone, second: &str, second_tone: Tone) -> (line: Line)
        ensures
            line@ == seq![toned(first@, first_tone), toned(second@, second_tone)],
    {
        let mut line = Line::of(first, first_tone);
        line.push(second, second_tone);
        assert(line@ =~= seq![toned(first@, first_tone), toned(second@, second_tone)]);
        line
    }

    /// Put a piece behind the others.
    pub fn push(&mut self, text: &str, tone: Tone)
        ensures
            final(self)@ == old(self)@.push(toned(text@, tone)),
    {
        let ghost before = self@;
        self.spans.push(span(text, tone));
        assert(self@ =~= before.push(toned(text@, tone)));
    }
}

/// A rectangle of the screen.
#[derive(Clone, Copy, PartialEq, Eq, Structural, Debug)]
pub struct Area {
    pub x: u16,
    pub y: u16,
    pub width: u16,
    pub height: u16,
}

impl Area {
    /// Whether every column and row of the area has a number, up to the one
    /// past its end.
    pub open spec fn is_on_screen(self) -> bool {
        self.x + self.width <= u16::MAX && self.y + self.height <= u16::MAX
    }

    /// Whether the area lies within another.
    pub open spec fn is_within(self, outer: Area) -> bool {
        &&& outer.x <= self.x
        &&& outer.y <= self.y
        &&& self.x + self.width <= outer.x + outer.width
        &&& self.y + self.height <= outer.y + outer.height
    }
}

/// What is left of `a` after `b` is taken off, but at least 0.
pub open spec fn less(a: int, b: int) -> int {
    if a < b {
        0
    } else {
        a - b
    }
}

/// The smaller of two numbers.
pub open spec fn smaller(a: int, b: int) -> int {
    if a < b {
        a
    } else {
        b
    }
}

/// What is on a row of the list of chats and invites.
pub open spec fn row_line(row: RowView) -> Seq<SpanView> {
    match row {
        RowView::Chat(chat) => seq![toned(chat::display_name(chat), Tone::Plain)],
        RowView::Invite(invite) => seq![
            toned("[invite] "@, Tone::Yellow),
            toned(invite.chat_id, Tone::Plain),
        ],
    }
}

/// A row of the list of chats and invites.
pub fn draw_row(row: &ListRow) -> (line: Line)
    ensures
        line@ == row_line(row@),
{
    match row {
        ListRow::Chat(chat) => Line::of(get_chat_display_name(chat).as_str(), Tone::Plain),
        ListRow::Invite(invite) => Line::of_two(
            "[invite] ",
            Tone::Yellow,
            invite.chat_id.as_str(),
            Tone::Plain,
        ),
    }
}

/// The list of chats and invites.
pub fn draw_rows(app: &App) -> (lines: Vec<Line>)
    ensures
        ordering::views(lines@) == app@.rows.map_values(|row: RowView| row_line(row)),
{
    let ghost all = app@.rows.map_values(|row: RowView| row_line(row));
    let mut lines: Vec<Line> = Vec::new();
    let mut i: usize = 0;
    assert(ordering::views(lines@) =~= all.take(0));
    while i < app.rows.len()
        invariant
            i <= app.rows.len(),
            all == app@.rows.map_values(|row: RowView| row_line(row)),
            ordering::views(lines@) == all.take(i as int),
        decreases app.rows.len() - i,
    {
        let ghost before = lines@;
        lines.push(draw_row(&app.rows[i]));
        assert(ordering::views(lines@) =~= ordering::views(before).push(all[i as int]));
        assert(all.take(i + 1) =~= all.take(i as int).push(all[i as int]));
        i += 1;
    }
    assert(all.take(i as int) =~= all);
    lines
}

/// What is shown of an invite.
pub open spec fn invite_card(invite: InviteView, clock: Clock) -> Seq<Seq<SpanView>> {
    seq![
        seq![toned("Chat: "@, Tone::Gray), toned(invite.chat_id, Tone::Plain)],
        seq![toned("From:  "@, Tone::Gray), toned(invite.proposer, Tone::Cyan)],
        seq![toned("When:  "@, Tone::Gray), toned(clock.says(invite.proposed), Tone::Plain)],
        Seq::empty(),
        seq![toned("Press  a  to Join   d  to Dismiss"@, Tone::Yellow)],
    ]
}

/// An invite.
pub fn draw_invite_card(invite: &Invite, clock: Clock) -> (lines: Vec<Line>)
    requires
        clock.can_say(invite.proposed),
    ensures
        ordering::views(lines@) == invite_card(invite@, clock),
{
    let mut lines: Vec<Line> = Vec::new();
    let when = clock.say(invite.proposed);
    lines.push(Line::of_two("Chat: ", Tone::Gray, invite.chat_id.as_str(), Tone::Plain));
    lines.push(Line::of_two("From:  ", Tone::Gray, invite.proposer.as_str(), Tone::Cyan));
    lines.push(Line::of_two("When:  ", Tone::Gray, when.as_str(), Tone::Plain));
    lines.push(Line::new());
    lines.push(Line::of("Press  a  to Join   d  to Dismiss", Tone::Yellow));
    assert(ordering::views(lines@) =~= invite_card(invite@, clock));
    lines
}

/// Text as lines in one tone.
pub open spec fn plain_lines(list: Seq<Seq<char>>) -> Seq<Seq<SpanView>> {
    list.map_values(|line: Seq<char>| seq![toned(line, Tone::Plain)])
}

/// What is shown of a message: when it was sent and by whom, its lines, and an
/// empty line.
pub open spec fn message_card(message: MessageView, clock: Clock) -> Seq<Seq<SpanView>> {
    (seq![
        seq![
            toned("["@ + clock.says(message.sent) + "] "@, Tone::Gray),
            toned(message.sender, Tone::Cyan),
        ],
    ] + plain_lines(text::lines(message.body))).push(Seq::empty())
}

/// What is shown of some messages, one after the other.
pub open spec fn message_cards(messages: Seq<MessageView>, clock: Clock) -> Seq<Seq<SpanView>>
    decreases messages.len(),
{
    if messages.len() == 0 {
        Seq::empty()
    } else {
        message_cards(messages.drop_last(), clock) + message_card(messages.last(), clock)
    }
}

/// Put what is shown of a message behind some lines.
fn draw_message(lines: &mut Vec<Line>, message: &Message, clock: Clock)
    requires
        clock.can_say(message.sent),
    ensures
        ordering::views(final(lines)@) == ordering::views(old(lines)@) + message_card(
            message@,
            clock,
        ),
{
    let ghost start = ordering::views(lines@);
    let mut head = "[".to_owned();
    head.append(clock.say(message.sent).as_str());
    head.append("] ");
    let ghost first = seq![
        seq![
            toned("["@ + clock.says(message.sent) + "] "@, Tone::Gray),
            toned(message.sender@, Tone::Cyan),
        ],
    ];
    lines.push(Line::of_two(head.as_str(), Tone::Gray, message.sender.as_str(), Tone::Cyan));
    let body = text::split_lines(message.body.as_str());
    let ghost all = plain_lines(text::texts(body@));
    assert(ordering::views(lines@) =~= start + first + all.take(0));
    let mut i: usize = 0;
    while i < body.len()
        invariant
            i <= body.len(),
            all == plain_lines(text::texts(body@)),
            ordering::views(lines@) == start + first + all.take(i as int),
        decreases body.len() - i,
    {
        let ghost before = lines@;
        lines.push(Line::of(body[i].as_str(), Tone::Plain));
        assert(all[i as int] == seq![toned(body@[i as int]@, Tone::Plain)]);
        assert(ordering::views(lines@) =~= ordering::views(before).push(all[i as int]));
        assert(start + first + all.take(i + 1) =~= (start + first + all.take(i as int)).push(
            all[i as int],
        ));
        i += 1;
    }
    let ghost before = lines@;
    lines.push(Line::new());
    assert(all.take(i as int) =~= all);
    assert(ordering::views(lines@) =~= ordering::views(before).push(Seq::empty()));
    assert(ordering::views(lines@) =~= start + message_card(message@, clock));
}

/// Some messages.
pub fn draw_messages(messages: &Vec<Message>, clock: Clock) -> (lines: Vec<Line>)
    requires
        forall|i: int| 0 <= i < messages.len() ==> clock.can_say((#[trigger] messages@[i]).sent),
    ensures
        ordering::views(lines@) == message_cards(ordering::views(messages@), clock),
{
    let ghost all = ordering::views(messages@);
    let mut lines: Vec<Line> = Vec::new();
    let mut i: usize = 0;
    assert(ordering::views(lines@) =~= message_cards(all.take(0), clock));
    while i < messages.len()
        invariant
            i <= messages.len(),
            all == ordering::views(messages@),
            forall|i: int|
                0 <= i < messages.len() ==> clock.can_say((#[trigger] messages@[i]).sent),
            ordering::views(lines@) == message_cards(all.take(i as int), clock),
        decreases messages.len() - i,
    {
        draw_message(&mut lines, &messages[i], clock);
        assert(all.take(i + 1).drop_last() =~= all.take(i as int));
        assert(all.take(i + 1).last() == messages@[i as int]@);
        i += 1;
    }
    assert(all.take(i as int) =~= all);
    lines
}

/// `<name> (<count>)`.
pub open spec fn messages_title(chat: ChatView, count: nat) -> Seq<char> {
    chat::display_name(chat) + " ("@ + numerals::decimal(count) + ")"@
}

/// The title above a chat's messages.
pub fn title_messages(chat: &Chat, count: usize) -> (title: String)
    ensures
        title@ == messages_title(chat@, count as nat),
{
    let mut title = get_chat_display_name(chat);
    title.append(" (");
    title.append(decimal_text(count as u64).as_str());
    title.append(")");
    title
}

/// How many lines to leave out at the top so that the last ones are in sight,
/// between two borders of a box of some height; at most as many as a scroll
/// position holds.
pub fn get_scroll(total: usize, height: u16) -> (scroll: u16)
    ensures
        scroll == smaller(less(total as int, less(height as int, 2)), u16::MAX as int),
{
    let visible: usize = if height < 2 {
        0
    } else {
        (height - 2) as usize
    };
    let hidden: usize = if total < visible {
        0
    } else {
        total - visible
    };
    capped(hidden)
}

/// A number in 16 bits, or the largest that they hold.
fn capped(n: usize) -> (cap: u16)
    ensures
        cap == smaller(n as int, u16::MAX as int),
{
    if n < u16::MAX as usize {
        n as u16
    } else {
        u16::MAX
    }
}

impl AppView {
    /// Whether an invite is selected.
    pub open spec fn is_on_invite(self) -> bool {
        self.selected_row() matches Some(RowView::Invite(_))
    }

    /// What is in the message box: what has been typed, or a hint.
    pub open spec fn input_span(self) -> SpanView {
        if self.is_on_invite() {
            toned("(invite selected — press a to join)"@, Tone::Gray)
        } else if self.input.len() == 0 && self.pane != Pane::Input {
            toned("(press Tab or i to type, Enter to send)"@, Tone::Gray)
        } else {
            toned(self.input, Tone::Plain)
        }
    }

    /// What the keys do, for the status line.
    pub open spec fn hint(self) -> Seq<char> {
        match self.pane {
            Pane::Chats => if self.is_on_invite() {
                "j/k select  a join  d dismiss  n/g new  q quit"@
            } else {
                "j/k select  Tab/i input  n direct  g group  m members  q quit"@
            },
            Pane::Input => "Enter send  Up/Down chat  Esc/Tab back"@,
            Pane::NewChat => if self.new_chat matches Some(form) && form.group {
                "Tab field  Enter next/create  Esc cancel"@
            } else {
                "Enter create  Esc cancel"@
            },
            Pane::Members => match self.members {
                Some(members) => members.hint(),
                None => "j/k select  Esc close  (direct chat — members are fixed)"@,
            },
        }
    }

    /// What stands at the end of the status line: an error, or how much is
    /// being worked on, or what the keys do.
    pub open spec fn status(self) -> SpanView {
        match self.error {
            Some(error) => toned(error, Tone::Red),
            None => if self.pending > 0 {
                toned("working ("@ + numerals::decimal(self.pending) + ")"@, Tone::Yellow)
            } else {
                toned(self.hint(), Tone::Gray)
            },
        }
    }

    /// The status line.
    pub open spec fn status_line(self) -> Seq<SpanView> {
        seq![
            toned(" "@ + self.account + " "@, Tone::Green),
            toned(" | "@, Tone::Plain),
            self.status(),
        ]
    }

    /// The title above the member list.
    pub open spec fn members_title(self) -> Seq<char> {
        match self.selected_row() {
            Some(RowView::Chat(chat)) => "Members — "@ + chat::display_name(chat),
            _ => "Members"@,
        }
    }
}

impl MembersView {
    /// What the keys do in the member list.
    pub open spec fn hint(self) -> Seq<char> {
        if self.adding is Some {
            "Enter add  Esc cancel"@
        } else if !self.group {
            "j/k select  Esc close  (direct chat — members are fixed)"@
        } else if self.selected_member() matches Some(member) && member.owner {
            "j/k select  a add  d remove  p demote  Esc close"@
        } else {
            "j/k select  a add  d remove  p promote  Esc close"@
        }
    }
}

impl App {
    /// Whether an invite is selected.
    fn has_invite_selected(&self) -> (selected: bool)
        ensures
            selected == self@.is_on_invite(),
    {
        match self.selected() {
            Some(ListRow::Invite(_)) => true,
            _ => false,
        }
    }

    /// What is in the message box.
    pub fn draw_input(&self) -> (drawn: Span)
        ensures
            drawn@ == self@.input_span(),
    {
        if self.has_invite_selected() {
            span("(invite selected — press a to join)", Tone::Gray)
        } else if self.input.as_str().is_empty() && self.pane != Pane::Input {
            span("(press Tab or i to type, Enter to send)", Tone::Gray)
        } else {
            span(self.input.as_str(), Tone::Plain)
        }
    }

    /// What the keys do, for the status line.
    pub fn get_hint(&self) -> (hint: &'static str)
        ensures
            hint@ == self@.hint(),
    {
        match self.pane {
            Pane::Chats => {
                if self.has_invite_selected() {
                    "j/k select  a join  d dismiss  n/g new  q quit"
                } else {
                    "j/k select  Tab/i input  n direct  g group  m members  q quit"
                }
            },
            Pane::Input => "Enter send  Up/Down chat  Esc/Tab back",
            Pane::NewChat => match &self.new_chat {
                Some(form) => {
                    if form.group {
                        "Tab field  Enter next/create  Esc cancel"
                    } else {
                        "Enter create  Esc cancel"
                    }
                },
                None => "Enter create  Esc cancel",
            },
            Pane::Members => match &self.members {
                Some(members) => members.get_hint(),
                None => "j/k select  Esc close  (direct chat — members are fixed)",
            },
        }
    }

    /// The status line.
    pub fn draw_status(&self) -> (line: Line)
        ensures
            line@ == self@.status_line(),
    {
        let mut address = " ".to_owned();
        address.append(self.account.as_str());
        address.append(" ");
        let mut line = Line::of_two(address.as_str(), Tone::Green, " | ", Tone::Plain);
        match &self.error {
            Some(error) => {
                line.push(error.as_str(), Tone::Red);
            },
            None => {
                if self.pending > 0 {
                    let mut working = "working (".to_owned();
                    working.append(decimal_text(self.pending as u64).as_str());
                    working.append(")");
                    line.push(working.as_str(), Tone::Yellow);
                } else {
                    line.push(self.get_hint(), Tone::Gray);
                }
            },
        }
        assert(line@ =~= self@.status_line());
        line
    }

    /// The title above the member list.
    pub fn title_members(&self) -> (title: String)
        ensures
            title@ == self@.members_title(),
    {
        match self.selected() {
            Some(ListRow::Chat(chat)) => text::concat(
                "Members — ",
                get_chat_display_name(chat).as_str(),
            ),
            _ => "Members".to_owned(),
        }
    }
}

/// Where the cursor stands in the message box: inside the border, at the end of
/// what has been typed, but no further than the border.
pub open spec fn cursor_at(area: Area, typed: nat) -> (int, int) {
    (smaller(area.x + 1 + typed, area.x + less(area.width as int, 2)), area.y + 1)
}

/// Where the cursor stands in the message box.
pub fn place_cursor(area: Area, input: &str) -> (at: (u16, u16))
    requires
        area.x + less(area.width as int, 2) <= u16::MAX,
        area.y + 1 <= u16::MAX,
    ensures
        (at.0 as int, at.1 as int) == cursor_at(area, input@.len()),
{
    let typed: u16 = capped(input.unicode_len());
    let inner: u16 = if area.width < 2 {
        0
    } else {
        area.width - 2
    };
    if typed < inner {
        (area.x + 1 + typed, area.y + 1)
    } else {
        (area.x + inner, area.y + 1)
    }
}

/// How wide a popup is.
pub open spec fn popup_width(area: Area, widest: u16) -> int {
    smaller(less(area.width as int, 4), widest as int)
}

/// How far a popup is from the left of its area.
pub open spec fn left_margin(area: Area, widest: u16) -> int {
    (area.width - popup_width(area, widest)) / 2
}

/// How far a popup is from the top of its area.
pub open spec fn top_margin(area: Area, height: u16) -> int {
    less(area.height as int, height as int) / 2
}

/// Whether the corner of a popup has a column and a row.
pub open spec fn has_corner(area: Area, widest: u16, height: u16) -> bool {
    area.x + left_margin(area, widest) <= u16::MAX && area.y + top_margin(area, height) <= u16::MAX
}

/// A box of some height in the middle of an area: as wide as the area but for
/// two columns on each side, and at most `widest`.
pub open spec fn popup_in(area: Area, widest: u16, height: u16) -> Area {
    Area {
        x: (area.x + left_margin(area, widest)) as u16,
        y: (area.y + top_margin(area, height)) as u16,
        width: popup_width(area, widest) as u16,
        height: smaller(height as int, area.height as int) as u16,
    }
}

/// A box of some height in the middle of an area.
fn place_popup(area: Area, widest: u16, height: u16) -> (popup: Area)
    requires
        has_corner(area, widest, height),
    ensures
        popup == popup_in(area, widest, height),
{
    let inner: u16 = if area.width < 4 {
        0
    } else {
        area.width - 4
    };
    let width: u16 = if inner < widest {
        inner
    } else {
        widest
    };
    let spare: u16 = if area.height < height {
        0
    } else {
        area.height - height
    };
    Area {
        x: area.x + (area.width - width) / 2,
        y: area.y + spare / 2,
        width,
        height: if height < area.height {
            height
        } else {
            area.height
        },
    }
}

/// A popup lies within the area of the screen that it is over.
pub proof fn popups_stay_inside(area: Area, widest: u16, height: u16)
    requires
        area.is_on_screen(),
    ensures
        has_corner(area, widest, height),
        popup_in(area, widest, height).is_within(area),
        popup_in(area, widest, height).is_on_screen(),
{
}

/// A label and what has been typed behind it, with a cursor where the keys go
/// to it.
pub open spec fn field_line(label: Seq<char>, value: Seq<char>, focused: bool) -> Seq<SpanView> {
    if focused {
        seq![toned(label, Tone::Yellow), toned(value + "_"@, Tone::Plain)]
    } else {
        seq![toned(label, Tone::Gray), toned(value, Tone::Plain)]
    }
}

/// A label and what has been typed behind it.
fn draw_field(label: &str, value: &str, focused: bool) -> (line: Line)
    ensures
        line@ == field_line(label@, value@, focused),
{
    if focused {
        Line::of_two(label, Tone::Yellow, text::concat(value, "_").as_str(), Tone::Plain)
    } else {
        Line::of_two(label, Tone::Gray, value, Tone::Plain)
    }
}

impl NewChatView {
    /// How high the form is.
    pub open spec fn height(self) -> u16 {
        if self.group {
            8
        } else {
            6
        }
    }

    /// The title above the form.
    pub open spec fn title(self) -> Seq<char> {
        if self.group {
            "New Group Chat"@
        } else {
            "New Direct Chat"@
        }
    }

    /// What is in the form.
    pub open spec fn form(self) -> Seq<Seq<SpanView>> {
        if self.group {
            seq![
                field_line("Members: "@, self.members, self.field == 0),
                field_line("Name:    "@, self.name, self.field == 1),
                Seq::empty(),
                seq![
                    toned(
                        "Members separated by spaces or commas. Name is optional."@,
                        Tone::Gray,
                    ),
                ],
            ]
        } else {
            seq![
                field_line("Address: "@, self.members, self.field == 0),
                Seq::empty(),
                seq![toned("Named after the other account."@, Tone::Gray)],
            ]
        }
    }
}

impl NewChat {
    /// Where the form lies.
    pub fn place(&self, area: Area) -> (popup: Area)
        requires
            has_corner(area, 64, self@.height()),
        ensures
            popup == popup_in(area, 64, self@.height()),
    {
        if self.group {
            place_popup(area, 64, 8)
        } else {
            place_popup(area, 64, 6)
        }
    }

    /// The title above the form.
    pub fn get_title(&self) -> (title: &'static str)
        ensures
            title@ == self@.title(),
    {
        if self.group {
            "New Group Chat"
        } else {
            "New Direct Chat"
        }
    }

    /// What is in the form.
    pub fn draw(&self) -> (lines: Vec<Line>)
        ensures
            ordering::views(lines@) == self@.form(),
    {
        let mut lines: Vec<Line> = Vec::new();
        if self.group {
            lines.push(draw_field("Members: ", self.members.as_str(), self.field == 0));
            lines.push(draw_field("Name:    ", self.name.as_str(), self.field == 1));
            lines.push(Line::new());
            lines.push(
                Line::of("Members separated by spaces or commas. Name is optional.", Tone::Gray),
            );
        } else {
            lines.push(draw_field("Address: ", self.members.as_str(), self.field == 0));
            lines.push(Line::new());
            lines.push(Line::of("Named after the other account.", Tone::Gray));
        }
        assert(ordering::views(lines@) =~= self@.form());
        lines
    }
}

/// What is on a row of the member list.
pub open spec fn member_line(member: ChatMemberView, account: Seq<char>) -> Seq<SpanView> {
    let owner = if member.owner {
        seq![toned("  owner"@, Tone::Yellow)]
    } else {
        Seq::empty()
    };
    let you = if member.address == account {
        seq![toned("  (you)"@, Tone::Gray)]
    } else {
        Seq::empty()
    };
    seq![toned(member.address, Tone::Plain)] + owner + you
}

/// A row of the member list.
fn draw_member(member: &ChatMember, account: &str) -> (line: Line)
    ensures
        line@ == member_line(member@, account@),
{
    let mut line = Line::of(member.address.as_str(), Tone::Plain);
    if member.owner {
        line.push("  owner", Tone::Yellow);
    }
    if text::same_text(member.address.as_str(), account) {
        line.push("  (you)", Tone::Gray);
    }
    assert(line@ =~= member_line(member@, account@));
    line
}

impl MembersView {
    /// How many lines the add field takes.
    pub open spec fn field_height(self) -> u16 {
        if self.adding is Some {
            1
        } else {
            0
        }
    }

    /// How high the member list is: its rows and the add field between two
    /// borders, and at least one row; at most as high as an area can be.
    pub open spec fn height(self) -> u16 {
        let needed = self.rows.len() + 2 + self.field_height();
        if needed < 3 {
            3
        } else {
            smaller(needed, u16::MAX as int) as u16
        }
    }

    /// What is in the member list. A chat always has this account as a member,
    /// so an empty list is one still being loaded.
    pub open spec fn list(self, account: Seq<char>) -> Seq<Seq<SpanView>> {
        if self.rows.len() == 0 {
            seq![seq![toned("(loading)"@, Tone::Gray)]]
        } else {
            self.rows.map_values(|member: ChatMemberView| member_line(member, account))
        }
    }

    /// What is in the add field.
    pub open spec fn field(self) -> Option<Seq<SpanView>> {
        match self.adding {
            Some(address) => Some(field_line("Add: "@, address, true)),
            None => None,
        }
    }
}

impl Members {
    /// What the keys do in the member list.
    fn get_hint(&self) -> (hint: &'static str)
        ensures
            hint@ == self@.hint(),
    {
        if self.adding.is_some() {
            "Enter add  Esc cancel"
        } else if !self.group {
            "j/k select  Esc close  (direct chat — members are fixed)"
        } else {
            let owner = match self.selected_member() {
                Some(member) => member.owner,
                None => false,
            };
            if owner {
                "j/k select  a add  d remove  p demote  Esc close"
            } else {
                "j/k select  a add  d remove  p promote  Esc close"
            }
        }
    }

    /// How many lines the add field takes.
    pub fn get_field_height(&self) -> (height: u16)
        ensures
            height == self@.field_height(),
    {
        if self.adding.is_some() {
            1
        } else {
            0
        }
    }

    /// Where the member list lies.
    pub fn place(&self, area: Area) -> (popup: Area)
        requires
            has_corner(area, 72, self@.height()),
        ensures
            popup == popup_in(area, 72, self@.height()),
    {
        let rows: u16 = capped(self.rows.len());
        let around: u16 = 2 + self.get_field_height();
        let height: u16 = if rows == 0 && around < 3 {
            3
        } else if rows < u16::MAX - around {
            rows + around
        } else {
            u16::MAX
        };
        place_popup(area, 72, height)
    }

    /// What is in the member list.
    pub fn draw(&self, account: &str) -> (lines: Vec<Line>)
        ensures
            ordering::views(lines@) == self@.list(account@),
    {
        let mut lines: Vec<Line> = Vec::new();
        if self.rows.len() == 0 {
            lines.push(Line::of("(loading)", Tone::Gray));
            assert(ordering::views(lines@) =~= self@.list(account@));
            return lines;
        }
        let ghost all = self@.rows.map_values(
            |member: ChatMemberView| member_line(member, account@),
        );
        let mut i: usize = 0;
        assert(ordering::views(lines@) =~= all.take(0));
        while i < self.rows.len()
            invariant
                i <= self.rows.len(),
                all == self@.rows.map_values(
                    |member: ChatMemberView| member_line(member, account@),
                ),
                ordering::views(lines@) == all.take(i as int),
            decreases self.rows.len() - i,
        {
            let ghost before = lines@;
            lines.push(draw_member(&self.rows[i], account));
            assert(ordering::views(lines@) =~= ordering::views(before).push(all[i as int]));
            assert(all.take(i + 1) =~= all.take(i as int).push(all[i as int]));
            i += 1;
        }
        assert(all.take(i as int) =~= all);
        lines
    }

    /// What is in the add field.
    pub fn draw_adding(&self) -> (line: Option<Line>)
        ensures
            (match line {
                Some(line) => Some(line@),
                None => None,
            }) == self@.field(),
    {
        match &self.adding {
            Some(address) => Some(draw_field("Add: ", address.as_str(), true)),
            None => None,
        }
    }
}

} // verus!
