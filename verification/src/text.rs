//! Text as sequences of characters: the operations on it that the rest of the
//! library is stated in, each with a function that computes it.

use vstd::prelude::*;

verus! {

/// The texts that a sequence of strings holds.
pub open spec fn texts(strings: Seq<String>) -> Seq<Seq<char>> {
    strings.map_values(|s: String| s@)
}

/// The text that an optional string holds.
pub open spec fn maybe_text(string: Option<String>) -> Option<Seq<char>> {
    match string {
        Some(s) => Some(s@),
        None => None,
    }
}

/// The text that an optional string slice holds.
pub open spec fn maybe_str(string: Option<&str>) -> Option<Seq<char>> {
    match string {
        Some(s) => Some(s@),
        None => None,
    }
}

/// `String::push` appends one character.
pub assume_specification[ String::push ](s: &mut String, c: char)
    ensures
        final(s)@ == old(s)@.push(c),
;

/// `String::pop` takes the last character off and returns it, or returns
/// `None` and changes nothing where there is none.
pub assume_specification[ String::pop ](s: &mut String) -> (last: Option<char>)
    ensures
        old(s)@.len() == 0 ==> last is None && final(s)@ == old(s)@,
        old(s)@.len() > 0 ==> last == Some(old(s)@.last()) && final(s)@ == old(s)@.drop_last(),
;

/// Whether a character outside ASCII has the Unicode property `White_Space`.
pub uninterp spec fn unicode_white_space(c: char) -> bool;

/// Whether a character is white space.
pub open spec fn is_space(c: char) -> bool {
    if c as int <= 127 {
        c == ' ' || 9 <= c as int <= 13
    } else {
        unicode_white_space(c)
    }
}

/// `char::is_whitespace` is the Unicode property `White_Space`, which among
/// the ASCII characters holds of the space and of U+0009 to U+000D.
pub assume_specification[ char::is_whitespace ](c: char) -> (space: bool)
    ensures
        c as int <= 127 ==> space == (c == ' ' || 9 <= c as int <= 13),
        c as int > 127 ==> space == unicode_white_space(c),
;

/// What a character outside ASCII is in lower case: one character or more.
pub uninterp spec fn unicode_lowercase(c: char) -> Seq<char>;

/// What a character is in lower case.
pub open spec fn lowercase_char(c: char) -> Seq<char> {
    if 'A' <= c <= 'Z' {
        seq![(c as int + 32) as char]
    } else if c as int <= 127 {
        seq![c]
    } else {
        unicode_lowercase(c)
    }
}

/// `char::to_lowercase` maps the ASCII letters `A` to `Z` to `a` to `z`, every
/// other ASCII character to itself, and the rest as Unicode does.
#[verifier::external_body]
fn to_lowercase(c: char) -> (lower: Vec<char>)
    ensures
        'A' <= c <= 'Z' ==> lower@ == seq![(c as int + 32) as char],
        c as int <= 127 && !('A' <= c <= 'Z') ==> lower@ == seq![c],
        c as int > 127 ==> lower@ == unicode_lowercase(c),
{
    c.to_lowercase().collect()
}

/// A text in lower case, character by character.
pub open spec fn lowercase(s: Seq<char>) -> Seq<char>
    decreases s.len(),
{
    if s.len() == 0 {
        s
    } else {
        lowercase(s.drop_last()) + lowercase_char(s.last())
    }
}

/// The characters of a string.
pub fn to_chars(s: &str) -> (chars: Vec<char>)
    ensures
        chars@ == s@,
{
    let mut chars: Vec<char> = Vec::new();
    for c in it: s.chars()
        invariant
            it.seq() == s@,
            chars@ == s@.take(it.index()),
    {
        chars.push(c);
    }
    chars
}

/// The string made of the characters from `start` up to `end`.
pub fn substring(chars: &Vec<char>, start: usize, end: usize) -> (s: String)
    requires
        start <= end <= chars.len(),
    ensures
        s@ == chars@.subrange(start as int, end as int),
{
    let mut s = String::new();
    let mut i: usize = start;
    while i < end
        invariant
            start <= i <= end <= chars.len(),
            s@ == chars@.subrange(start as int, i as int),
        decreases end - i,
    {
        s.push(chars[i]);
        i += 1;
        assert(chars@.subrange(start as int, i as int) =~= chars@.subrange(
            start as int,
            i - 1,
        ).push(chars@[i - 1]));
    }
    s
}

/// Whether two strings hold the same text.
pub fn same_text(a: &str, b: &str) -> (same: bool)
    ensures
        same == (a@ == b@),
{
    a.to_owned() == b.to_owned()
}

/// `a` and then `b`.
pub fn concat(a: &str, b: &str) -> (s: String)
    ensures
        s@ == a@ + b@,
{
    let mut s = a.to_owned();
    s.append(b);
    s
}

/// A text in lower case.
pub fn to_lower_chars(s: &Vec<char>) -> (lower: Vec<char>)
    ensures
        lower@ == lowercase(s@),
{
    let mut lower: Vec<char> = Vec::new();
    let mut i: usize = 0;
    while i < s.len()
        invariant
            i <= s.len(),
            lower@ == lowercase(s@.take(i as int)),
        decreases s.len() - i,
    {
        let mut mapped = to_lowercase(s[i]);
        lower.append(&mut mapped);
        assert(s@.take(i + 1).drop_last() =~= s@.take(i as int));
        i += 1;
    }
    assert(s@.take(i as int) =~= s@);
    lower
}

/// A class of characters that can be taken off the ends of a text.
#[derive(Clone, Copy)]
pub enum CharClass {
    /// White space.
    Space,
    /// One character.
    Only(char),
}

impl CharClass {
    /// Whether a character belongs to the class.
    pub open spec fn has(self, c: char) -> bool {
        match self {
            CharClass::Space => is_space(c),
            CharClass::Only(only) => c == only,
        }
    }

    fn holds(self, c: char) -> (holds: bool)
        ensures
            holds == self.has(c),
    {
        match self {
            CharClass::Space => c.is_whitespace(),
            CharClass::Only(only) => c == only,
        }
    }
}

/// A text without the characters of a class that it starts with.
pub open spec fn strip_front(s: Seq<char>, class: CharClass) -> Seq<char>
    decreases s.len(),
{
    if s.len() > 0 && class.has(s[0]) {
        strip_front(s.skip(1), class)
    } else {
        s
    }
}

/// A text without the characters of a class that it ends with.
pub open spec fn strip_back(s: Seq<char>, class: CharClass) -> Seq<char>
    decreases s.len(),
{
    if s.len() > 0 && class.has(s.last()) {
        strip_back(s.drop_last(), class)
    } else {
        s
    }
}

/// A text without the characters of a class at either end.
pub open spec fn strip(s: Seq<char>, class: CharClass) -> Seq<char> {
    strip_back(strip_front(s, class), class)
}

/// A text without the white space at either end.
pub open spec fn trimmed(s: Seq<char>) -> Seq<char> {
    strip(s, CharClass::Space)
}

fn front_end(chars: &Vec<char>, class: CharClass) -> (start: usize)
    ensures
        start <= chars.len(),
        strip_front(chars@, class) == chars@.skip(start as int),
{
    let mut start: usize = 0;
    assert(chars@.skip(0) =~= chars@);
    while start < chars.len() && class.holds(chars[start])
        invariant
            start <= chars.len(),
            strip_front(chars@, class) == strip_front(chars@.skip(start as int), class),
        decreases chars.len() - start,
    {
        assert(chars@.skip(start as int).skip(1) =~= chars@.skip(start + 1));
        start += 1;
    }
    start
}

fn back_start(chars: &Vec<char>, start: usize, class: CharClass) -> (end: usize)
    requires
        start <= chars.len(),
    ensures
        start <= end <= chars.len(),
        strip_back(chars@.skip(start as int), class) == chars@.subrange(start as int, end as int),
{
    let mut end: usize = chars.len();
    assert(chars@.skip(start as int) =~= chars@.subrange(start as int, end as int));
    while start < end && class.holds(chars[end - 1])
        invariant
            start <= end <= chars.len(),
            strip_back(chars@.skip(start as int), class) == strip_back(
                chars@.subrange(start as int, end as int),
                class,
            ),
        decreases end,
    {
        assert(chars@.subrange(start as int, end as int).drop_last() =~= chars@.subrange(
            start as int,
            end - 1,
        ));
        end -= 1;
    }
    end
}

/// The characters of a text without those of a class at either end.
pub fn strip_chars(chars: &Vec<char>, class: CharClass) -> (stripped: Vec<char>)
    ensures
        stripped@ == strip(chars@, class),
{
    let start = front_end(chars, class);
    let end = back_start(chars, start, class);
    to_chars(substring(chars, start, end).as_str())
}

/// A string without the characters of a class that it ends with.
pub fn strip_end(s: &str, class: CharClass) -> (stripped: String)
    ensures
        stripped@ == strip_back(s@, class),
{
    let chars = to_chars(s);
    let end = back_start(&chars, 0, class);
    assert(chars@.skip(0) =~= chars@);
    substring(&chars, 0, end)
}

/// A string without the white space at either end.
pub fn trim(s: &str) -> (stripped: String)
    ensures
        stripped@ == trimmed(s@),
{
    let chars = to_chars(s);
    let start = front_end(&chars, CharClass::Space);
    let end = back_start(&chars, start, CharClass::Space);
    substring(&chars, start, end)
}

/// Whether a list of strings holds a text.
pub fn list_holds(list: &Vec<String>, s: &str) -> (held: bool)
    ensures
        held == texts(list@).contains(s@),
{
    let mut i: usize = 0;
    while i < list.len()
        invariant
            i <= list.len(),
            forall|before: int| 0 <= before < i ==> texts(list@)[before] != s@,
        decreases list.len() - i,
    {
        if same_text(list[i].as_str(), s) {
            assert(texts(list@)[i as int] == s@);
            return true;
        }
        i += 1;
    }
    false
}

/// The texts of a list, without those that are `s`.
pub open spec fn without_text(list: Seq<Seq<char>>, s: Seq<char>) -> Seq<Seq<char>>
    decreases list.len(),
{
    if list.len() == 0 {
        list
    } else {
        let front = without_text(list.drop_last(), s);
        if list.last() == s {
            front
        } else {
            front.push(list.last())
        }
    }
}

/// Copies of the strings of a list, without those that hold `s`.
pub fn without(list: &Vec<String>, s: &str) -> (rest: Vec<String>)
    ensures
        texts(rest@) == without_text(texts(list@), s@),
{
    let mut rest: Vec<String> = Vec::new();
    let mut i: usize = 0;
    while i < list.len()
        invariant
            i <= list.len(),
            texts(rest@) == without_text(texts(list@).take(i as int), s@),
        decreases list.len() - i,
    {
        assert(texts(list@).take(i + 1).drop_last() =~= texts(list@).take(i as int));
        if !same_text(list[i].as_str(), s) {
            let ghost before = rest@;
            rest.push(list[i].clone());
            assert(texts(rest@) =~= texts(before).push(list@[i as int]@));
        }
        i += 1;
    }
    assert(texts(list@).take(i as int) =~= texts(list@));
    rest
}

/// What is taken out of a list is gone, and all else is still there.
pub proof fn lemma_without(list: Seq<Seq<char>>, s: Seq<char>)
    ensures
        forall|x: Seq<char>|
            without_text(list, s).contains(x) <==> (#[trigger] list.contains(x) && x != s),
    decreases list.len(),
{
    if list.len() > 0 {
        let front = list.drop_last();
        let kept = without_text(front, s);
        let rest = without_text(list, s);
        lemma_without(front, s);
        assert forall|x: Seq<char>|
            rest.contains(x) <==> (#[trigger] list.contains(x) && x != s) by {
            assert(list =~= front.push(list.last()));
            lemma_push_contains(front, list.last(), x);
            lemma_push_contains(kept, list.last(), x);
            assert(kept.contains(x) <==> (front.contains(x) && x != s));
        }
    }
}

/// A list with one more text holds that and what it held before.
pub proof fn lemma_push_contains(list: Seq<Seq<char>>, last: Seq<char>, x: Seq<char>)
    ensures
        list.push(last).contains(x) <==> (list.contains(x) || x == last),
{
    let longer = list.push(last);
    if list.contains(x) {
        let i = choose|i: int| 0 <= i < list.len() && list[i] == x;
        assert(longer[i] == x);
    }
    if x == last {
        assert(longer[list.len() as int] == x);
    }
    if longer.contains(x) {
        let i = choose|i: int| 0 <= i < longer.len() && longer[i] == x;
        if i < list.len() {
            assert(list[i] == x);
        }
    }
}

/// Texts one after another, with `separator` between each two.
pub open spec fn joined(parts: Seq<Seq<char>>, separator: Seq<char>) -> Seq<char>
    decreases parts.len(),
{
    if parts.len() == 0 {
        Seq::empty()
    } else if parts.len() == 1 {
        parts[0]
    } else {
        joined(parts.drop_last(), separator) + separator + parts.last()
    }
}

/// Strings one after another, with `separator` between each two.
pub fn join(parts: &Vec<String>, separator: &str) -> (s: String)
    ensures
        s@ == joined(texts(parts@), separator@),
{
    let mut s = String::new();
    let mut i: usize = 0;
    while i < parts.len()
        invariant
            i <= parts.len(),
            s@ == joined(texts(parts@).take(i as int), separator@),
        decreases parts.len() - i,
    {
        if i > 0 {
            s.append(separator);
        }
        s.append(parts[i].as_str());
        assert(texts(parts@).take(i + 1).drop_last() =~= texts(parts@).take(i as int));
        assert(s@ =~= joined(texts(parts@).take(i + 1), separator@));
        i += 1;
    }
    assert(texts(parts@).take(i as int) =~= texts(parts@));
    s
}

/// Whether `part` stands in `s` at position `at`.
pub open spec fn occurs_at(s: Seq<char>, part: Seq<char>, at: int) -> bool {
    0 <= at && at + part.len() <= s.len() && s.subrange(at, at + part.len()) == part
}

/// Whether `part` stands somewhere in `s`.
pub open spec fn occurs(s: Seq<char>, part: Seq<char>) -> bool {
    exists|at: int| occurs_at(s, part, at)
}

/// Whether the first place in `s` at which `part` stands is `at`.
pub open spec fn occurs_first_at(s: Seq<char>, part: Seq<char>, at: int) -> bool {
    occurs_at(s, part, at) && forall|before: int| 0 <= before < at ==> !occurs_at(s, part, before)
}

fn stands_at(chars: &Vec<char>, part: &Vec<char>, at: usize) -> (stands: bool)
    requires
        at <= chars.len(),
    ensures
        stands == occurs_at(chars@, part@, at as int),
{
    if part.len() > chars.len() - at {
        return false;
    }
    let mut i: usize = 0;
    while i < part.len()
        invariant
            i <= part.len(),
            at + part.len() <= chars.len(),
            chars@.subrange(at as int, at + i) == part@.take(i as int),
        decreases part.len() - i,
    {
        if chars[at + i] != part[i] {
            assert(chars@.subrange(at as int, at + part@.len())[i as int] != part@[i as int]);
            return false;
        }
        assert(chars@.subrange(at as int, at + i + 1) =~= part@.take(i + 1));
        i += 1;
    }
    assert(part@.take(i as int) =~= part@);
    true
}

/// The first place at which `part` stands among `chars`.
pub fn find(chars: &Vec<char>, part: &Vec<char>) -> (at: Option<usize>)
    ensures
        at matches Some(at) ==> at + part.len() <= chars.len() && occurs_first_at(
            chars@,
            part@,
            at as int,
        ),
        at is Some <==> occurs(chars@, part@),
{
    let mut at: usize = 0;
    while at <= chars.len()
        invariant
            at <= chars.len() + 1,
            forall|before: int| 0 <= before < at ==> !occurs_at(chars@, part@, before),
        decreases chars.len() + 1 - at,
    {
        if stands_at(chars, part, at) {
            return Some(at);
        }
        if at == chars.len() {
            return None;
        }
        at += 1;
    }
    None
}

/// Whether `part` stands somewhere in `s`.
pub fn contains(s: &str, part: &str) -> (held: bool)
    ensures
        held == occurs(s@, part@),
{
    find(&to_chars(s), &to_chars(part)).is_some()
}

/// Whether `s` starts with `part`.
pub fn starts_with(s: &str, part: &str) -> (starts: bool)
    ensures
        starts == occurs_at(s@, part@, 0),
{
    stands_at(&to_chars(s), &to_chars(part), 0)
}

/// Whether the first `c` in `s` stands at `at`.
pub open spec fn first_index(s: Seq<char>, c: char, at: int) -> bool {
    0 <= at < s.len() && s[at] == c && forall|before: int| 0 <= before < at ==> s[before] != c
}

/// What stands before and after the first `c` in `s`.
pub open spec fn cut_first(s: Seq<char>, c: char) -> Option<(Seq<char>, Seq<char>)> {
    if s.contains(c) {
        let at = choose|at: int| first_index(s, c, at);
        Some((s.take(at), s.skip(at + 1)))
    } else {
        None
    }
}

/// The cut is at the first `c`.
pub proof fn lemma_cut_first(s: Seq<char>, c: char, at: int)
    requires
        first_index(s, c, at),
    ensures
        cut_first(s, c) == Some((s.take(at), s.skip(at + 1))),
{
    let chosen = choose|i: int| first_index(s, c, i);
    assert(first_index(s, c, chosen));
    assert(s.contains(c));
    assert(chosen == at) by {
        if chosen < at {
            assert(s[chosen] != c);
        } else if at < chosen {
            assert(s[at] != c);
        }
    }
}

/// What stands before and after the first `c` in `s`.
pub fn split_once(s: &str, c: char) -> (parts: Option<(String, String)>)
    ensures
        (match parts {
            Some((before, after)) => Some((before@, after@)),
            None => None,
        }) == cut_first(s@, c),
{
    let chars = to_chars(s);
    let mut i: usize = 0;
    while i < chars.len()
        invariant
            i <= chars.len(),
            chars@ == s@,
            forall|before: int| 0 <= before < i ==> s@[before] != c,
        decreases chars.len() - i,
    {
        if chars[i] == c {
            proof {
                lemma_cut_first(s@, c, i as int);
            }
            let before = substring(&chars, 0, i);
            let after = substring(&chars, i + 1, chars.len());
            assert(before@ =~= s@.take(i as int));
            assert(after@ =~= s@.skip(i + 1));
            return Some((before, after));
        }
        i += 1;
    }
    None
}

/// What stands before and after the last `c` in `s`.
pub open spec fn cut_last(s: Seq<char>, c: char) -> Option<(Seq<char>, Seq<char>)>
    decreases s.len(),
{
    if s.len() == 0 {
        None
    } else if s.last() == c {
        Some((s.drop_last(), Seq::empty()))
    } else {
        match cut_last(s.drop_last(), c) {
            Some((before, after)) => Some((before, after.push(s.last()))),
            None => None,
        }
    }
}

/// The cut is at the last `c`.
pub proof fn lemma_cut_last(s: Seq<char>, c: char, at: int)
    requires
        0 <= at < s.len(),
        s[at] == c,
        forall|later: int| at < later < s.len() ==> s[later] != c,
    ensures
        cut_last(s, c) == Some((s.take(at), s.skip(at + 1))),
    decreases s.len(),
{
    if at == s.len() - 1 {
        assert(s.drop_last() =~= s.take(at));
        assert(s.skip(at + 1) =~= Seq::<char>::empty());
    } else {
        assert(s[s.len() - 1] != c);
        lemma_cut_last(s.drop_last(), c, at);
        assert(s.drop_last().take(at) =~= s.take(at));
        assert(s.drop_last().skip(at + 1).push(s.last()) =~= s.skip(at + 1));
    }
}

/// There is no cut where there is no `c`.
pub proof fn lemma_no_cut_last(s: Seq<char>, c: char)
    requires
        !s.contains(c),
    ensures
        cut_last(s, c) is None,
    decreases s.len(),
{
    if s.len() > 0 {
        assert(s[s.len() - 1] != c);
        assert forall|i: int| 0 <= i < s.drop_last().len() implies s.drop_last()[i] != c by {
            assert(s[i] != c);
        }
        lemma_no_cut_last(s.drop_last(), c);
    }
}

/// What stands before and after the last `c` in `s`.
pub fn rsplit_once(s: &str, c: char) -> (parts: Option<(String, String)>)
    ensures
        (match parts {
            Some((before, after)) => Some((before@, after@)),
            None => None,
        }) == cut_last(s@, c),
{
    let chars = to_chars(s);
    let mut i: usize = chars.len();
    while i > 0
        invariant
            i <= chars.len(),
            chars@ == s@,
            forall|later: int| i <= later < s@.len() ==> s@[later] != c,
        decreases i,
    {
        i -= 1;
        if chars[i] == c {
            proof {
                lemma_cut_last(s@, c, i as int);
            }
            let before = substring(&chars, 0, i);
            let after = substring(&chars, i + 1, chars.len());
            assert(before@ =~= s@.take(i as int));
            assert(after@ =~= s@.skip(i + 1));
            return Some((before, after));
        }
    }
    proof {
        lemma_no_cut_last(s@, c);
    }
    None
}

/// Whether a character parts the fields of a list.
pub open spec fn is_separator(c: char) -> bool {
    c == ',' || c == ' '
}

/// The pieces of a text between commas and spaces, without the empty ones.
pub open spec fn fields(s: Seq<char>) -> Seq<Seq<char>> {
    fields_after(s, Seq::empty())
}

/// The pieces of `start` and then `s` between commas and spaces, without the
/// empty ones, where `start` holds neither.
pub open spec fn fields_after(s: Seq<char>, start: Seq<char>) -> Seq<Seq<char>>
    decreases s.len(),
{
    let first = if start.len() == 0 {
        Seq::<Seq<char>>::empty()
    } else {
        seq![start]
    };
    if s.len() == 0 {
        first
    } else if is_separator(s[0]) {
        first + fields_after(s.skip(1), Seq::empty())
    } else {
        fields_after(s.skip(1), start.push(s[0]))
    }
}

/// The pieces of a string between commas and spaces, without the empty ones.
pub fn split_fields(s: &str) -> (pieces: Vec<String>)
    ensures
        texts(pieces@) == fields(s@),
{
    let chars = to_chars(s);
    let mut pieces: Vec<String> = Vec::new();
    let mut piece = String::new();
    let mut i: usize = 0;
    assert(chars@.skip(0) =~= s@);
    assert(texts(pieces@) + fields(s@) =~= fields(s@));
    assert(piece@ =~= Seq::<char>::empty());
    while i < chars.len()
        invariant
            i <= chars.len(),
            texts(pieces@) + fields_after(chars@.skip(i as int), piece@) == fields(s@),
        decreases chars.len() - i,
    {
        let ghost rest = chars@.skip(i as int);
        assert(rest.skip(1) =~= chars@.skip(i + 1));
        let c = chars[i];
        if c == ',' || c == ' ' {
            if !piece.as_str().is_empty() {
                let ghost before = pieces@;
                let ghost whole = piece@;
                pieces.push(piece);
                assert(texts(pieces@) =~= texts(before) + seq![whole]);
                assert(texts(pieces@) + fields_after(rest.skip(1), Seq::empty()) =~= texts(before)
                    + (seq![whole] + fields_after(rest.skip(1), Seq::empty())));
            } else {
                assert(texts(pieces@) + (Seq::<Seq<char>>::empty() + fields_after(
                    rest.skip(1),
                    Seq::empty(),
                )) =~= texts(pieces@) + fields_after(rest.skip(1), Seq::empty()));
            }
            piece = String::new();
        } else {
            piece.push(c);
        }
        i += 1;
    }
    if !piece.as_str().is_empty() {
        let ghost before = pieces@;
        let ghost whole = piece@;
        pieces.push(piece);
        assert(texts(pieces@) =~= texts(before) + seq![whole]);
    } else {
        assert(texts(pieces@) + Seq::<Seq<char>>::empty() =~= texts(pieces@));
    }
    pieces
}

/// No piece is empty.
pub proof fn lemma_fields(s: Seq<char>)
    ensures
        forall|i: int| 0 <= i < fields(s).len() ==> (#[trigger] fields(s)[i]).len() > 0,
{
    lemma_fields_after(s, Seq::empty());
}

proof fn lemma_fields_after(s: Seq<char>, start: Seq<char>)
    ensures
        forall|i: int|
            0 <= i < fields_after(s, start).len() ==> (#[trigger] fields_after(s, start)[i]).len()
                > 0,
    decreases s.len(),
{
    let all = fields_after(s, start);
    if s.len() == 0 {
        assert forall|i: int| 0 <= i < all.len() implies (#[trigger] all[i]).len() > 0 by {
            assert(all =~= seq![start]);
        }
    } else if is_separator(s[0]) {
        let rest = fields_after(s.skip(1), Seq::empty());
        lemma_fields_after(s.skip(1), Seq::empty());
        assert forall|i: int| 0 <= i < all.len() implies (#[trigger] all[i]).len() > 0 by {
            if start.len() == 0 {
                assert(all[i] == rest[i]);
            } else if i > 0 {
                assert(all[i] == rest[i - 1]);
            }
        }
    } else {
        lemma_fields_after(s.skip(1), start.push(s[0]));
        assert(all == fields_after(s.skip(1), start.push(s[0])));
    }
}

/// A line without the carriage return that it ends with, if it does.
pub open spec fn without_return(s: Seq<char>) -> Seq<char> {
    if s.len() > 0 && s.last() == '\r' {
        s.drop_last()
    } else {
        s
    }
}

/// The lines of a text. A line ends with a line feed, or with a carriage return
/// and a line feed; the last one may end with the text.
pub open spec fn lines(s: Seq<char>) -> Seq<Seq<char>> {
    lines_after(s, Seq::empty())
}

/// The lines of `start` and then `s`, where `start` holds no line feed.
pub open spec fn lines_after(s: Seq<char>, start: Seq<char>) -> Seq<Seq<char>>
    decreases s.len(),
{
    if s.len() == 0 {
        if start.len() == 0 {
            Seq::empty()
        } else {
            seq![start]
        }
    } else if s[0] == '\n' {
        seq![without_return(start)] + lines_after(s.skip(1), Seq::empty())
    } else {
        lines_after(s.skip(1), start.push(s[0]))
    }
}

/// The lines of a string.
pub fn split_lines(s: &str) -> (list: Vec<String>)
    ensures
        texts(list@) == lines(s@),
{
    let chars = to_chars(s);
    let mut list: Vec<String> = Vec::new();
    let mut line = String::new();
    let mut i: usize = 0;
    assert(chars@.skip(0) =~= s@);
    assert(texts(list@) + lines(s@) =~= lines(s@));
    assert(line@ =~= Seq::<char>::empty());
    while i < chars.len()
        invariant
            i <= chars.len(),
            texts(list@) + lines_after(chars@.skip(i as int), line@) == lines(s@),
        decreases chars.len() - i,
    {
        let ghost rest = chars@.skip(i as int);
        assert(rest.skip(1) =~= chars@.skip(i + 1));
        let c = chars[i];
        if c == '\n' {
            let ghost before = list@;
            let ghost start = line@;
            let count = line.as_str().unicode_len();
            if count > 0 && line.as_str().get_char(count - 1) == '\r' {
                line.pop();
            }
            assert(line@ == without_return(start));
            list.push(line);
            line = String::new();
            assert(texts(list@) =~= texts(before) + seq![without_return(start)]);
            assert(texts(list@) + lines_after(rest.skip(1), Seq::empty()) =~= texts(before) + (seq![
                without_return(start),
            ] + lines_after(rest.skip(1), Seq::empty())));
        } else {
            line.push(c);
        }
        i += 1;
    }
    if !line.as_str().is_empty() {
        let ghost before = list@;
        let ghost whole = line@;
        list.push(line);
        assert(texts(list@) =~= texts(before) + seq![whole]);
    } else {
        assert(texts(list@) + Seq::<Seq<char>>::empty() =~= texts(list@));
    }
    list
}

} // verus!
