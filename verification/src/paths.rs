//! Where chats live, and how their directories are named.

use std::path::{Path, PathBuf};

use vstd::prelude::*;

use crate::text::{self, split_once, strip_chars, substring, to_chars, to_lower_chars, CharClass};
use crate::text_laws;

verus! {

/// The directory that everything of this app lives under.
pub const APPS_MSG: &'static str = "apps/msg";

/// The longest slug, in characters.
pub const SLUG_LIMIT: usize = 32;

/// `apps/msg/chats`.
pub open spec fn chats_root_text() -> Seq<char> {
    APPS_MSG@ + "/chats"@
}

/// `/apps/msg/chats/<chat_id>`.
pub open spec fn chat_path_text(chat_id: Seq<char>) -> Seq<char> {
    "/"@ + chats_root_text() + "/"@ + chat_id
}

/// The directory that holds the chats.
pub fn chats_root() -> (root: String)
    ensures
        root@ == chats_root_text(),
{
    let mut root = APPS_MSG.to_owned();
    root.append("/chats");
    root
}

/// The chat's ark path, e.g. `/apps/msg/chats/<chat_id>`.
pub fn get_chat_ark_path(chat_id: &str) -> (path: String)
    ensures
        path@ == chat_path_text(chat_id@),
{
    let mut path = "/".to_owned();
    path.append(chats_root().as_str());
    path.append("/");
    path.append(chat_id);
    path
}

/// The path of a file in a chat's directory.
pub open spec fn chat_file_text(chat_id: Seq<char>, name: Seq<char>) -> Seq<char> {
    chat_path_text(chat_id) + "/"@ + name
}

/// The ark path of a file in a chat's directory.
pub fn get_chat_file_path(chat_id: &str, name: &str) -> (path: String)
    ensures
        path@ == chat_file_text(chat_id@, name@),
{
    let mut path = get_chat_ark_path(chat_id);
    path.append("/");
    path.append(name);
    path
}

/// `std::path::Path`: a path as the file system has it, which need not be text.
#[verifier::external_type_specification]
#[verifier::external_body]
pub struct ExPath(std::path::Path);

/// `std::path::PathBuf`: a path of its own, as the file system has it.
#[verifier::external_type_specification]
#[verifier::external_body]
pub struct ExPathBuf(std::path::PathBuf);

/// `std::path::Path::join` adjoins one path to another, in the way of the
/// platform. What separates the two, and which paths stand for themselves, is
/// the platform's, so nothing more is said of the result than that it came from
/// this call.
pub assume_specification<P: AsRef<std::path::Path>>[ std::path::Path::join::<P> ](
    base: &std::path::Path,
    part: P,
) -> std::path::PathBuf;

/// `std::path::PathBuf::as_path` lends the same path. A path is opaque here, so
/// nothing more is said of the result than that it came from this call.
pub assume_specification[ std::path::PathBuf::as_path ](
    path: &std::path::PathBuf,
) -> &std::path::Path;

/// Whether `path` is what `part` adjoined to `base` gives.
pub open spec fn is_joined(path: PathBuf, base: &Path, part: &str) -> bool {
    call_ensures(Path::join::<&str>, (base, part), path)
}

/// Whether `lent` is the path that `path` lends.
pub open spec fn is_lent(lent: &Path, path: PathBuf) -> bool {
    call_ensures(PathBuf::as_path, (&path,), lent)
}

/// Whether `path` is `apps/msg/chats` and then `chat_id` adjoined to `root`.
pub open spec fn is_chat_fs_path(path: PathBuf, root: &Path, chat_id: &str) -> bool {
    exists|chats: &str, dir: PathBuf, lent: &Path|
        chats@ == chats_root_text() && #[trigger] is_joined(dir, root, chats) && #[trigger] is_lent(
            lent,
            dir,
        ) && is_joined(path, lent, chat_id)
}

/// The chat's dir in the local mirror under `root`.
pub fn get_chat_fs_path(root: &Path, chat_id: &str) -> (path: PathBuf)
    ensures
        is_chat_fs_path(path, root, chat_id),
{
    let root_text = chats_root();
    let chats = root_text.as_str();
    let dir = root.join(chats);
    let lent = dir.as_path();
    let path = lent.join(chat_id);
    assert(is_joined(dir, root, chats));
    assert(is_lent(lent, dir));
    assert(is_joined(path, lent, chat_id));
    path
}

/// The characters that a slug is made of.
pub open spec fn is_slug_char(c: char) -> bool {
    'a' <= c <= 'z' || '0' <= c <= '9' || c == '-'
}

fn slug_char(c: char) -> (ok: bool)
    ensures
        ok == is_slug_char(c),
{
    'a' <= c && c <= 'z' || '0' <= c && c <= '9' || c == '-'
}

/// A text with the characters of a slug kept and every run of others collapsed
/// to one dash, which is left out at the start and after a dash.
pub open spec fn collapsed(s: Seq<char>) -> Seq<char>
    decreases s.len(),
{
    if s.len() == 0 {
        s
    } else {
        let front = collapsed(s.drop_last());
        if is_slug_char(s.last()) {
            front.push(s.last())
        } else if front.len() == 0 || front.last() == '-' {
            front
        } else {
            front.push('-')
        }
    }
}

/// At most the first `limit` characters of a text.
pub open spec fn capped(s: Seq<char>, limit: int) -> Seq<char> {
    if s.len() <= limit {
        s
    } else {
        s.take(limit)
    }
}

/// The slug that a text is sanitized to.
pub open spec fn slug_text(input: Seq<char>) -> Seq<char> {
    let kept = collapsed(text::lowercase(text::trimmed(input)));
    let slug = capped(text::strip(kept, CharClass::Only('-')), SLUG_LIMIT as int);
    if slug.len() == 0 {
        "chat"@
    } else {
        slug
    }
}

fn collapse(chars: &Vec<char>) -> (out: Vec<char>)
    ensures
        out@ == collapsed(chars@),
{
    let mut out: Vec<char> = Vec::new();
    let mut last_dash = true;
    let mut i: usize = 0;
    while i < chars.len()
        invariant
            i <= chars.len(),
            out@ == collapsed(chars@.take(i as int)),
            last_dash == (out@.len() == 0 || out@.last() == '-'),
        decreases chars.len() - i,
    {
        let c = chars[i];
        assert(chars@.take(i + 1).drop_last() =~= chars@.take(i as int));
        if slug_char(c) {
            out.push(c);
            last_dash = c == '-';
        } else if !last_dash {
            out.push('-');
            last_dash = true;
        }
        i += 1;
    }
    assert(chars@.take(i as int) =~= chars@);
    out
}

/// Sanitize a caller-provided slug: keep `[a-z0-9-]`, collapse others to `-`,
/// trim leading/trailing dashes, cap at 32 chars, fall back to `"chat"` if
/// empty.
pub fn sanitize_slug(input: &str) -> (slug: String)
    ensures
        slug@ == slug_text(input@),
{
    let trimmed = strip_chars(&to_chars(input), CharClass::Space);
    let kept = collapse(&to_lower_chars(&trimmed));
    let stripped = strip_chars(&kept, CharClass::Only('-'));
    let end = if stripped.len() <= SLUG_LIMIT { stripped.len() } else { SLUG_LIMIT };
    if end == 0 {
        return "chat".to_owned();
    }
    assert(stripped@.subrange(0, end as int) =~= capped(stripped@, SLUG_LIMIT as int));
    substring(&stripped, 0, end)
}

/// A slug is one to 32 characters of `[a-z0-9-]`, and its first is no dash. Its
/// last can be a dash only where the text was cut at 32.
pub proof fn slug_is_well_formed(input: Seq<char>)
    ensures
        1 <= slug_text(input).len() <= SLUG_LIMIT,
        forall|i: int|
            0 <= i < slug_text(input).len() ==> is_slug_char(#[trigger] slug_text(input)[i]),
        slug_text(input)[0] != '-',
        slug_text(input).len() < SLUG_LIMIT ==> slug_text(input).last() != '-',
{
    reveal_strlit("chat");
    let kept = collapsed(text::lowercase(text::trimmed(input)));
    lemma_collapsed_chars(text::lowercase(text::trimmed(input)));
    let dash = CharClass::Only('-');
    lemma_strip_front(kept, dash);
    lemma_strip_back(text::strip_front(kept, dash), dash);
}

/// Sanitizing a slug again leaves it as it is, unless it ends in a dash.
pub proof fn sanitizing_is_idempotent(input: Seq<char>)
    requires
        slug_text(input).last() != '-',
    ensures
        slug_text(slug_text(input)) == slug_text(input),
{
    let slug = slug_text(input);
    slug_is_well_formed(input);
    assert(!text::is_space(slug[0]));
    assert(is_slug_char(slug[slug.len() - 1]));
    assert(text::trimmed(slug) == slug);
    lemma_slug_chars_kept(slug);
}

/// What is collapsed holds slug characters only.
proof fn lemma_collapsed_chars(s: Seq<char>)
    ensures
        forall|i: int| 0 <= i < collapsed(s).len() ==> is_slug_char(#[trigger] collapsed(s)[i]),
    decreases s.len(),
{
    if s.len() > 0 {
        let front = collapsed(s.drop_last());
        lemma_collapsed_chars(s.drop_last());
        assert forall|i: int| 0 <= i < collapsed(s).len() implies is_slug_char(
            #[trigger] collapsed(s)[i],
        ) by {
            if i < front.len() {
                assert(is_slug_char(front[i]));
            }
        }
    }
}

/// Slug characters are in lower case and are kept.
proof fn lemma_slug_chars_kept(s: Seq<char>)
    requires
        forall|i: int| 0 <= i < s.len() ==> is_slug_char(#[trigger] s[i]),
    ensures
        text::lowercase(s) == s,
        collapsed(s) == s,
    decreases s.len(),
{
    if s.len() > 0 {
        assert(is_slug_char(s[s.len() - 1]));
        lemma_slug_chars_kept(s.drop_last());
        assert(s.drop_last() + seq![s.last()] =~= s);
        assert(s.drop_last().push(s.last()) =~= s);
    }
}

proof fn lemma_strip_front(s: Seq<char>, class: CharClass)
    ensures
        exists|start: int|
            0 <= start <= s.len() && text::strip_front(s, class) == #[trigger] s.skip(start),
        text::strip_front(s, class).len() > 0 ==> !class.has(text::strip_front(s, class)[0]),
    decreases s.len(),
{
    if s.len() > 0 && class.has(s[0]) {
        lemma_strip_front(s.skip(1), class);
        let start = choose|start: int|
            0 <= start <= s.skip(1).len() && text::strip_front(s.skip(1), class)
                == #[trigger] s.skip(1).skip(start);
        assert(s.skip(1).skip(start) =~= s.skip(start + 1));
    } else {
        assert(s.skip(0) =~= s);
    }
}

proof fn lemma_strip_back(s: Seq<char>, class: CharClass)
    ensures
        exists|end: int|
            0 <= end <= s.len() && text::strip_back(s, class) == #[trigger] s.take(end),
        text::strip_back(s, class).len() > 0 ==> !class.has(text::strip_back(s, class).last()),
    decreases s.len(),
{
    if s.len() > 0 && class.has(s.last()) {
        lemma_strip_back(s.drop_last(), class);
        let end = choose|end: int|
            0 <= end <= s.drop_last().len() && text::strip_back(s.drop_last(), class)
                == #[trigger] s.drop_last().take(end);
        assert(s.drop_last().take(end) =~= s.take(end));
    } else {
        assert(s.take(s.len() as int) =~= s);
    }
}

/// The part of an address before its first `@`, or all of it where there is
/// none.
pub open spec fn local_part(address: Seq<char>) -> Seq<char> {
    match text::cut_first(address, '@') {
        Some((local, _)) => local,
        None => address,
    }
}

/// The slug that stands for a list of members.
pub open spec fn default_slug_text(members: Seq<Seq<char>>) -> Seq<char> {
    if members.len() == 0 {
        "chat"@
    } else {
        slug_text(local_part(members[0]))
    }
}

/// Derive a default slug from the first member's address local-part, or
/// `"chat"` if none.
pub fn default_slug(members: &[String]) -> (slug: String)
    ensures
        slug@ == default_slug_text(text::texts(members@)),
{
    if members.len() == 0 {
        return "chat".to_owned();
    }
    match split_once(members[0].as_str(), '@') {
        Some((local, _)) => sanitize_slug(local.as_str()),
        None => sanitize_slug(members[0].as_str()),
    }
}

/// Chats lie under `apps/msg/chats`, each in a directory named by its id.
pub proof fn chats_lie_under_their_root(chat_id: Seq<char>, name: Seq<char>)
    ensures
        chats_root_text() == "apps/msg/chats"@,
        chat_path_text(chat_id) == "/apps/msg/chats/"@ + chat_id,
        chat_file_text(chat_id, name) == "/apps/msg/chats/"@ + chat_id + "/"@ + name,
{
    reveal_strlit("apps/msg");
    reveal_strlit("/chats");
    reveal_strlit("apps/msg/chats");
    reveal_strlit("/");
    reveal_strlit("/apps/msg/chats/");
    assert(chats_root_text() =~= "apps/msg/chats"@);
    assert(chat_path_text(chat_id) =~= "/apps/msg/chats/"@ + chat_id);
}

/// Collapsing keeps letters, digits and dashes where they stand: what starts with
/// one of them is collapsed on its own, whatever stands in front.
pub proof fn slug_characters_are_kept(a: Seq<char>, b: Seq<char>)
    requires
        b.len() > 0,
        'a' <= b[0] <= 'z' || '0' <= b[0] <= '9' || b[0] == '-',
    ensures
        collapsed(a + b) == collapsed(a) + collapsed(b),
        collapsed(b).len() > 0,
        collapsed(b)[0] == b[0],
        b.len() == 1 ==> collapsed(b) == b,
    decreases b.len(),
{
    reveal_with_fuel(collapsed, 2);
    assert((a + b).drop_last() =~= a + b.drop_last());
    if b.len() == 1 {
        assert(a + b.drop_last() =~= a);
        assert(b.drop_last() =~= Seq::empty());
        assert(collapsed(b) =~= b);
        assert(collapsed(a + b) =~= collapsed(a) + collapsed(b));
    } else {
        slug_characters_are_kept(a, b.drop_last());
        assert(collapsed(a + b) =~= collapsed(a) + collapsed(b));
    }
}

/// Collapsing turns a run of other characters into one dash, and into none at the
/// start or behind a dash.
pub proof fn other_characters_become_one_dash(a: Seq<char>, run: Seq<char>)
    requires
        run.len() > 0,
        forall|i: int|
            0 <= i < run.len() ==> !('a' <= #[trigger] run[i] <= 'z' || '0' <= run[i] <= '9'
                || run[i] == '-'),
    ensures
        collapsed(Seq::empty()) == Seq::<char>::empty(),
        collapsed(a + run) == (if collapsed(a).len() == 0 || collapsed(a).last() == '-' {
            collapsed(a)
        } else {
            collapsed(a).push('-')
        }),
    decreases run.len(),
{
    let front = run.drop_last();
    assert((a + run).drop_last() =~= a + front);
    assert((a + run).last() == run[run.len() - 1]);
    if front.len() == 0 {
        assert(a + front =~= a);
    } else {
        assert forall|i: int| 0 <= i < front.len() implies !('a' <= #[trigger] front[i] <= 'z'
            || '0' <= front[i] <= '9' || front[i] == '-') by {
            assert(front[i] == run[i]);
        }
        other_characters_become_one_dash(a, front);
    }
}

/// A slug is the trimmed text in lower case, collapsed, without the dashes at its
/// ends, and of that the first 32 characters; or `chat` where nothing is left.
pub proof fn slugs_are_cut_from_the_text(input: Seq<char>)
    ensures
        ({
            let kept = collapsed(text::lowercase(text::trimmed(input)));
            exists|start: int, end: int|
                #![trigger kept.subrange(start, end)]
                {
                    &&& 0 <= start <= end <= kept.len()
                    &&& forall|i: int|
                        0 <= i < start || end <= i < kept.len() ==> #[trigger] kept[i] == '-'
                    &&& start < end ==> kept[start] != '-' && kept[end - 1] != '-'
                    &&& slug_text(input) == (if start == end {
                        "chat"@
                    } else if end - start <= 32 {
                        kept.subrange(start, end)
                    } else {
                        kept.subrange(start, start + 32)
                    })
                }
        }),
{
    let kept = collapsed(text::lowercase(text::trimmed(input)));
    let rest = text::strip(kept, CharClass::Only('-'));
    text_laws::stripping_takes_one_character_off(kept, '-');
    let (start, end) = choose|start: int, end: int|
        #![trigger kept.subrange(start, end)]
        0 <= start <= end <= kept.len() && rest == kept.subrange(start, end) && (forall|i: int|
            0 <= i < start || end <= i < kept.len() ==> #[trigger] kept[i] == '-');
    if start < end {
        assert(rest[0] == kept[start]);
        assert(rest.last() == kept[end - 1]);
    }
    if end - start > 32 {
        assert(rest.take(32) =~= kept.subrange(start, start + 32));
    }
}

/// A text of letters, digits and dashes, with no dash at its ends, that is
/// no longer than 32 is its own slug.
pub proof fn slugs_are_their_own(slug: Seq<char>)
    requires
        1 <= slug.len() <= 32,
        forall|i: int|
            0 <= i < slug.len() ==> 'a' <= #[trigger] slug[i] <= 'z' || '0' <= slug[i] <= '9'
                || slug[i] == '-',
        slug[0] != '-',
        slug.last() != '-',
    ensures
        slug_text(slug) == slug,
{
    assert(forall|i: int| 0 <= i < slug.len() ==> is_slug_char(#[trigger] slug[i]));
    assert(is_slug_char(slug[0]) && is_slug_char(slug[slug.len() - 1]));
    assert(text::trimmed(slug) == slug);
    lemma_slug_chars_kept(slug);
}

/// The default slug is made of the part of the first member's address in front of
/// its `@`, whoever the other members are.
pub proof fn the_first_member_gives_the_default_slug(
    local: Seq<char>,
    host: Seq<char>,
    others: Seq<Seq<char>>,
)
    requires
        !local.contains('@'),
    ensures
        default_slug_text(seq![local.push('@') + host] + others) == slug_text(local),
        default_slug_text(seq![local] + others) == slug_text(local),
        default_slug_text(Seq::empty()) == "chat"@,
{
    text_laws::the_first_cut_is_at_the_first(local, '@', host);
    assert((seq![local.push('@') + host] + others)[0] == local.push('@') + host);
    assert((seq![local] + others)[0] == local);
}

} // verus!
