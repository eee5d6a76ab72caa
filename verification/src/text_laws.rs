//! What the functions on text are for, whatever the texts are.

use vstd::prelude::*;

use crate::text::{self, CharClass};

verus! {

/// Trimming takes white space off both ends of a text, all of it and nothing
/// else.
pub proof fn trimming_takes_white_space_off(s: Seq<char>)
    ensures
        ({
            let white = |c: char|
                c == ' ' || 9 <= c as int <= 13 || (c as int > 127 && text::unicode_white_space(c));
            let rest = text::trimmed(s);
            &&& rest.len() > 0 ==> !white(rest[0]) && !white(rest.last())
            &&& exists|start: int, end: int|
                #![trigger s.subrange(start, end)]
                0 <= start <= end <= s.len() && rest == s.subrange(start, end) && (forall|i: int|
                    0 <= i < start || end <= i < s.len() ==> white(#[trigger] s[i]))
        }),
{
    let (start, end) = lemma_strip(s, CharClass::Space);
    assert(text::trimmed(s) == s.subrange(start, end));
}

/// Taking one character off the ends of a text takes every one of it there and
/// nothing else.
pub proof fn stripping_takes_one_character_off(s: Seq<char>, c: char)
    ensures
        ({
            let rest = text::strip(s, CharClass::Only(c));
            &&& rest.len() > 0 ==> rest[0] != c && rest.last() != c
            &&& exists|start: int, end: int|
                #![trigger s.subrange(start, end)]
                0 <= start <= end <= s.len() && rest == s.subrange(start, end) && (forall|i: int|
                    0 <= i < start || end <= i < s.len() ==> #[trigger] s[i] == c)
        }),
{
    let (start, end) = lemma_strip(s, CharClass::Only(c));
    assert(text::strip(s, CharClass::Only(c)) == s.subrange(start, end));
}

/// Taking one character off the end of a text takes every one of it there and
/// nothing else.
pub proof fn stripping_the_end_takes_one_character_off(s: Seq<char>, c: char)
    ensures
        ({
            let rest = text::strip_back(s, CharClass::Only(c));
            &&& rest.len() > 0 ==> rest.last() != c
            &&& rest.len() <= s.len()
            &&& rest == s.take(rest.len() as int)
            &&& forall|i: int| rest.len() <= i < s.len() ==> #[trigger] s[i] == c
        }),
{
    lemma_strip_back(s, CharClass::Only(c));
}

proof fn lemma_strip_back(s: Seq<char>, class: CharClass)
    ensures
        ({
            let rest = text::strip_back(s, class);
            &&& rest.len() > 0 ==> !class.has(rest.last())
            &&& rest.len() <= s.len()
            &&& rest == s.take(rest.len() as int)
            &&& forall|i: int| rest.len() <= i < s.len() ==> class.has(#[trigger] s[i])
        }),
    decreases s.len(),
{
    if s.len() > 0 && class.has(s.last()) {
        let front = s.drop_last();
        let rest = text::strip_back(front, class);
        lemma_strip_back(front, class);
        assert(rest =~= s.take(rest.len() as int));
        assert forall|i: int| rest.len() <= i < s.len() implies class.has(#[trigger] s[i]) by {
            if i < front.len() {
                assert(class.has(front[i]));
            }
        }
    } else {
        assert(s.take(s.len() as int) =~= s);
    }
}

proof fn lemma_strip_front(s: Seq<char>, class: CharClass)
    ensures
        ({
            let rest = text::strip_front(s, class);
            let start = s.len() - rest.len();
            &&& rest.len() > 0 ==> !class.has(rest[0])
            &&& rest.len() <= s.len()
            &&& rest == s.skip(start)
            &&& forall|i: int| 0 <= i < start ==> class.has(#[trigger] s[i])
        }),
    decreases s.len(),
{
    if s.len() > 0 && class.has(s[0]) {
        let back = s.skip(1);
        let rest = text::strip_front(back, class);
        let start = s.len() - rest.len();
        lemma_strip_front(back, class);
        assert(rest =~= s.skip(start));
        assert forall|i: int| 0 <= i < start implies class.has(#[trigger] s[i]) by {
            if i > 0 {
                assert(class.has(back[i - 1]));
            }
        }
    } else {
        assert(s.skip(0) =~= s);
    }
}

proof fn lemma_strip(s: Seq<char>, class: CharClass) -> (ends: (int, int))
    ensures
        0 <= ends.0 <= ends.1 <= s.len(),
        text::strip(s, class) == s.subrange(ends.0, ends.1),
        forall|i: int| 0 <= i < ends.0 || ends.1 <= i < s.len() ==> class.has(#[trigger] s[i]),
        ends.0 < ends.1 ==> !class.has(s[ends.0]) && !class.has(s[ends.1 - 1]),
{
    let back = text::strip_front(s, class);
    let rest = text::strip_back(back, class);
    let start = s.len() - back.len();
    let end = start + rest.len();
    lemma_strip_front(s, class);
    lemma_strip_back(back, class);
    assert(rest =~= s.subrange(start, end));
    assert forall|i: int| 0 <= i < start || end <= i < s.len() implies class.has(
        #[trigger] s[i],
    ) by {
        if end <= i {
            assert(class.has(back[i - start]));
        }
    }
    if start < end {
        assert(rest[0] == back[0]);
    }
    (start, end)
}

/// Text is put into lower case character by character: `A` to `Z` become `a` to
/// `z`, other ASCII characters stay, and the rest go by Unicode.
pub proof fn lower_case_goes_by_character(a: Seq<char>, b: Seq<char>, c: char)
    ensures
        text::lowercase(a + b) == text::lowercase(a) + text::lowercase(b),
        text::lowercase(Seq::empty()) == Seq::<char>::empty(),
        text::lowercase(seq![c]) == (if 65 <= c as int <= 90 {
            seq![(c as int + 32) as char]
        } else if c as int <= 127 {
            seq![c]
        } else {
            text::unicode_lowercase(c)
        }),
    decreases b.len(),
{
    reveal_with_fuel(text::lowercase, 2);
    assert(seq![c].drop_last() =~= Seq::empty());
    assert(Seq::empty() + text::lowercase_char(c) =~= text::lowercase_char(c));
    if b.len() == 0 {
        assert(a + b =~= a);
        assert(text::lowercase(a) + Seq::empty() =~= text::lowercase(a));
    } else {
        lower_case_goes_by_character(a, b.drop_last(), c);
        assert((a + b).drop_last() =~= a + b.drop_last());
        assert(text::lowercase(a + b) =~= text::lowercase(a) + text::lowercase(b));
    }
}

/// Taking a text out of a list leaves the others, each as often and in the order
/// in which they came.
pub proof fn what_is_not_taken_out_stays(list: Seq<Seq<char>>, s: Seq<char>)
    ensures
        text::without_text(list, s) == list.filter(|x: Seq<char>| x != s),
    decreases list.len(),
{
    reveal(Seq::filter);
    if list.len() > 0 {
        what_is_not_taken_out_stays(list.drop_last(), s);
    }
}

/// Joined texts stand one after another, with the separator between each two and
/// nowhere else.
pub proof fn joined_texts_are_separated(
    a: Seq<Seq<char>>,
    b: Seq<Seq<char>>,
    x: Seq<char>,
    separator: Seq<char>,
)
    ensures
        text::joined(Seq::empty(), separator) == Seq::<char>::empty(),
        text::joined(seq![x], separator) == x,
        a.len() > 0 && b.len() > 0 ==> text::joined(a + b, separator) == text::joined(a, separator)
            + separator + text::joined(b, separator),
    decreases b.len(),
{
    if a.len() > 0 && b.len() == 1 {
        assert((a + b).drop_last() =~= a);
    } else if a.len() > 0 && b.len() > 1 {
        joined_texts_are_separated(a, b.drop_last(), x, separator);
        assert((a + b).drop_last() =~= a + b.drop_last());
        assert(text::joined(a + b, separator) =~= text::joined(a, separator) + separator
            + text::joined(b, separator));
    }
}

/// A text holds a part exactly if it is something, then the part, then something
/// else; it starts with it if there is nothing in front.
pub proof fn parts_stand_in_their_text(front: Seq<char>, part: Seq<char>, back: Seq<char>)
    ensures
        text::occurs_at(front + part + back, part, front.len() as int),
        text::occurs(front + part + back, part),
        text::occurs_at(part + back, part, 0),
{
    let s = front + part + back;
    assert(s.subrange(front.len() as int, (front.len() + part.len()) as int) =~= part);
    assert((part + back).subrange(0, part.len() as int) =~= part);
    assert(text::occurs_at(s, part, front.len() as int));
}

/// Where a part stands in a text, the text is what is in front, the part, and
/// what is behind.
pub proof fn texts_are_made_of_their_parts(s: Seq<char>, part: Seq<char>, at: int)
    requires
        text::occurs_at(s, part, at),
    ensures
        0 <= at <= s.len() - part.len(),
        s == s.take(at) + part + s.skip(at + part.len() as int),
        text::occurs(s, part),
{
    assert(s =~= s.take(at) + part + s.skip(at + part.len() as int));
}

/// A text that holds a part has a first place at which it stands.
pub proof fn a_part_stands_somewhere_first(s: Seq<char>, part: Seq<char>)
    requires
        text::occurs(s, part),
    ensures
        exists|at: int|
            #![trigger s.take(at)]
            text::occurs_first_at(s, part, at) && (forall|front: Seq<char>, back: Seq<char>|
                s == #[trigger] (front + part + back) ==> front.len() >= at),
{
    let some = choose|at: int| text::occurs_at(s, part, at);
    let at = lemma_first(s, part, some);
    assert forall|front: Seq<char>, back: Seq<char>| s == #[trigger] (front + part
        + back) implies front.len() >= at by {
        parts_stand_in_their_text(front, part, back);
        if front.len() < at {
            assert(!text::occurs_at(s, part, front.len() as int));
        }
    }
    assert(s.take(at).len() <= s.len());
}

/// Where a part stands somewhere in a text, it stands somewhere first.
pub proof fn lemma_first(s: Seq<char>, part: Seq<char>, some: int) -> (at: int)
    requires
        text::occurs_at(s, part, some),
    ensures
        text::occurs_first_at(s, part, at),
        at <= some,
    decreases some,
{
    if exists|before: int| 0 <= before < some && text::occurs_at(s, part, before) {
        let before = choose|before: int| 0 <= before < some && text::occurs_at(s, part, before);
        lemma_first(s, part, before)
    } else {
        some
    }
}

/// A text is cut at the first of a character: in front is what holds none of it.
pub proof fn the_first_cut_is_at_the_first(front: Seq<char>, c: char, back: Seq<char>)
    requires
        !front.contains(c),
    ensures
        text::cut_first(front.push(c) + back, c) == Some((front, back)),
        text::cut_first(front, c) is None,
{
    let s = front.push(c) + back;
    let at = front.len() as int;
    assert(s[at] == c);
    assert forall|before: int| 0 <= before < at implies s[before] != c by {
        assert(s[before] == front[before]);
    }
    text::lemma_cut_first(s, c, at);
    assert(s.take(at) =~= front);
    assert(s.skip(at + 1) =~= back);
}

/// A text is cut at the last of a character: behind is what holds none of it.
pub proof fn the_last_cut_is_at_the_last(front: Seq<char>, c: char, back: Seq<char>)
    requires
        !back.contains(c),
    ensures
        text::cut_last(front.push(c) + back, c) == Some((front, back)),
        text::cut_last(back, c) is None,
{
    let s = front.push(c) + back;
    let at = front.len() as int;
    assert forall|later: int| at < later < s.len() implies s[later] != c by {
        assert(s[later] == back[later - at - 1]);
    }
    text::lemma_cut_last(s, c, at);
    text::lemma_no_cut_last(back, c);
    assert(s.take(at) =~= front);
    assert(s.skip(at + 1) =~= back);
}

/// Commas and spaces part the pieces of a text, and nothing else does: a text
/// without them is one piece, and what stands on either side of one is taken
/// apart on its own.
pub proof fn separators_part_the_fields(a: Seq<char>, separator: char, b: Seq<char>)
    requires
        separator == ',' || separator == ' ',
    ensures
        text::fields(a.push(separator) + b) == text::fields(a) + text::fields(b),
{
    lemma_fields_apart(a, Seq::empty(), separator, b);
}

/// A text without commas and spaces is one piece, unless it is empty.
pub proof fn a_word_is_one_field(word: Seq<char>)
    requires
        forall|i: int| 0 <= i < word.len() ==> word[i] != ',' && word[i] != ' ',
    ensures
        text::fields(word) == (if word.len() == 0 {
            Seq::empty()
        } else {
            seq![word]
        }),
{
    lemma_word(word, Seq::empty());
    assert(Seq::empty() + word =~= word);
}

proof fn lemma_word(word: Seq<char>, start: Seq<char>)
    requires
        forall|i: int| 0 <= i < word.len() ==> word[i] != ',' && word[i] != ' ',
    ensures
        text::fields_after(word, start) == (if start.len() + word.len() == 0 {
            Seq::empty()
        } else {
            seq![start + word]
        }),
    decreases word.len(),
{
    if word.len() == 0 {
        assert(start + word =~= start);
    } else {
        lemma_word(word.skip(1), start.push(word[0]));
        assert(start.push(word[0]) + word.skip(1) =~= start + word);
    }
}

proof fn lemma_fields_apart(a: Seq<char>, start: Seq<char>, separator: char, b: Seq<char>)
    requires
        separator == ',' || separator == ' ',
    ensures
        text::fields_after(a.push(separator) + b, start) == text::fields_after(a, start)
            + text::fields(b),
    decreases a.len(),
{
    let s = a.push(separator) + b;
    if a.len() == 0 {
        assert(s.skip(1) =~= b);
        assert(s[0] == separator);
    } else {
        assert(s[0] == a[0]);
        assert(s.skip(1) =~= a.skip(1).push(separator) + b);
        if text::is_separator(a[0]) {
            lemma_fields_apart(a.skip(1), Seq::empty(), separator, b);
            let rest = text::fields_after(a.skip(1), Seq::empty());
            if start.len() == 0 {
                assert(text::fields_after(s, start) =~= text::fields_after(a, start)
                    + text::fields(b));
            } else {
                assert(seq![start] + (rest + text::fields(b)) =~= (seq![start] + rest)
                    + text::fields(b));
            }
        } else {
            lemma_fields_apart(a.skip(1), start.push(a[0]), separator, b);
        }
    }
}

/// A line ends at its line feed, and what follows is taken apart on its own; a
/// carriage return in front of the line feed is no part of the line.
pub proof fn line_feeds_end_the_lines(line: Seq<char>, rest: Seq<char>)
    requires
        !line.contains('\n'),
    ensures
        text::lines(line.push('\n') + rest) == seq![
            if line.len() > 0 && line.last() == '\r' {
                line.take(line.len() - 1)
            } else {
                line
            },
        ] + text::lines(rest),
        text::lines(line) == (if line.len() == 0 {
            Seq::empty()
        } else {
            seq![line]
        }),
{
    lemma_line(line, Seq::empty(), rest);
    assert(Seq::empty() + line =~= line);
    if line.len() > 0 {
        assert(line.drop_last() =~= line.take(line.len() - 1));
    }
}

proof fn lemma_line(line: Seq<char>, start: Seq<char>, rest: Seq<char>)
    requires
        !line.contains('\n'),
    ensures
        text::lines_after(line.push('\n') + rest, start) == seq![text::without_return(start + line)]
            + text::lines(rest),
        text::lines_after(line, start) == (if start.len() + line.len() == 0 {
            Seq::empty()
        } else {
            seq![start + line]
        }),
    decreases line.len(),
{
    let s = line.push('\n') + rest;
    if line.len() == 0 {
        assert(start + line =~= start);
        assert(s[0] == '\n');
        assert(s.skip(1) =~= rest);
    } else {
        let back = line.skip(1);
        assert(line.contains(line[0]));
        assert(!back.contains('\n')) by {
            if back.contains('\n') {
                let i = choose|i: int| 0 <= i < back.len() && back[i] == '\n';
                assert(line[i + 1] == '\n');
            }
        }
        lemma_line(back, start.push(line[0]), rest);
        assert(s.skip(1) =~= back.push('\n') + rest);
        assert(s[0] == line[0]);
        assert(start.push(line[0]) + back =~= start + line);
    }
}

} // verus!
