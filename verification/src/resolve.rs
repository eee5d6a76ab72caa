//! Finding a thing by its name, or by the start of its name.

use vstd::prelude::*;

use crate::text::{self, list_holds, starts_with};
use crate::types::{self, Failure, FailureKind, FailureView};

verus! {

/// A list of strings as it is printed for programmers: `["a", "b"]`.
pub uninterp spec fn debug_text(names: Seq<Seq<char>>) -> Seq<char>;

/// What `format!` makes of a list of strings by `{:?}`.
#[verifier::external_body]
fn debug_list(names: &Vec<String>) -> (s: String)
    ensures
        s@ == debug_text(text::texts(names@)),
{
    format!("{:?}", names)
}

/// The names that start with `arg`.
pub open spec fn starting_with(names: Seq<Seq<char>>, arg: Seq<char>) -> Seq<Seq<char>>
    decreases names.len(),
{
    if names.len() == 0 {
        names
    } else {
        let front = starting_with(names.drop_last(), arg);
        if text::occurs_at(names.last(), arg, 0) {
            front.push(names.last())
        } else {
            front
        }
    }
}

/// What an argument stands for among some names: the name that it is, or else
/// the only name that it starts.
pub open spec fn resolved(
    names: Seq<Seq<char>>,
    arg: Seq<char>,
    noun: Seq<char>,
) -> Result<Seq<char>, FailureView> {
    let matching = starting_with(names, arg);
    if names.contains(arg) {
        Ok(arg)
    } else if matching.len() == 1 {
        Ok(matching[0])
    } else if matching.len() == 0 {
        Err(
            FailureView {
                kind: FailureKind::NotFound,
                message: "no "@ + noun + " matches '"@ + arg + "'"@,
            },
        )
    } else {
        Err(
            FailureView {
                kind: FailureKind::InvalidInput,
                message: "ambiguous "@ + noun + " '"@ + arg + "': matches "@ + debug_text(matching),
            },
        )
    }
}

fn list_starting_with(names: &Vec<String>, arg: &str) -> (matching: Vec<String>)
    ensures
        text::texts(matching@) == starting_with(text::texts(names@), arg@),
{
    let ghost all = text::texts(names@);
    let mut matching: Vec<String> = Vec::new();
    assert(text::texts(matching@) =~= Seq::<Seq<char>>::empty());
    let mut i: usize = 0;
    while i < names.len()
        invariant
            i <= names.len(),
            all == text::texts(names@),
            text::texts(matching@) == starting_with(all.take(i as int), arg@),
        decreases names.len() - i,
    {
        assert(all.take(i + 1).drop_last() =~= all.take(i as int));
        if starts_with(names[i].as_str(), arg) {
            let ghost before = matching@;
            matching.push(names[i].clone());
            assert(text::texts(matching@) =~= text::texts(before).push(names@[i as int]@));
        }
        i += 1;
    }
    assert(all.take(i as int) =~= all);
    matching
}

/// Resolve a caller-provided argument to a full name: it is that name, or starts
/// no other. `noun` says in refusals what is looked for.
pub fn resolve_name(names: &Vec<String>, arg: &str, noun: &str) -> (result: Result<
    String,
    Failure,
>)
    ensures
        types::outcome(result) == resolved(text::texts(names@), arg@, noun@),
{
    if list_holds(names, arg) {
        return Ok(arg.to_owned());
    }
    let matching = list_starting_with(names, arg);
    if matching.len() == 1 {
        assert(text::texts(matching@)[0] == matching@[0]@);
        return Ok(matching[0].clone());
    }
    if matching.len() == 0 {
        let mut message = "no ".to_owned();
        message.append(noun);
        message.append(" matches '");
        message.append(arg);
        message.append("'");
        return Err(Failure { kind: FailureKind::NotFound, message });
    }
    let mut message = "ambiguous ".to_owned();
    message.append(noun);
    message.append(" '");
    message.append(arg);
    message.append("': matches ");
    message.append(debug_list(&matching).as_str());
    Err(Failure { kind: FailureKind::InvalidInput, message })
}

proof fn lemma_starting_with(names: Seq<Seq<char>>, arg: Seq<char>)
    ensures
        forall|i: int|
            0 <= i < starting_with(names, arg).len() ==> names.contains(
                #[trigger] starting_with(names, arg)[i],
            ) && text::occurs_at(starting_with(names, arg)[i], arg, 0),
    decreases names.len(),
{
    if names.len() > 0 {
        let front = starting_with(names.drop_last(), arg);
        lemma_starting_with(names.drop_last(), arg);
        assert forall|i: int| 0 <= i < starting_with(names, arg).len() implies names.contains(
            #[trigger] starting_with(names, arg)[i],
        ) && text::occurs_at(starting_with(names, arg)[i], arg, 0) by {
            if i < front.len() {
                assert(names.drop_last().contains(front[i]));
                let k = choose|k: int|
                    0 <= k < names.drop_last().len() && names.drop_last()[k] == front[i];
                assert(names[k] == front[i]);
            } else {
                assert(names[names.len() - 1] == names.last());
            }
        }
    }
}

/// What an argument is resolved to is one of the names, and starts with the
/// argument.
pub proof fn resolved_names_exist(names: Seq<Seq<char>>, arg: Seq<char>, noun: Seq<char>)
    ensures
        resolved(names, arg, noun) matches Ok(name) ==> names.contains(name) && text::occurs_at(
            name,
            arg,
            0,
        ),
{
    lemma_starting_with(names, arg);
    assert(arg.subrange(0, arg.len() as int) =~= arg);
}

/// A full name is resolved to itself, whatever else it starts.
pub proof fn full_names_resolve_to_themselves(
    names: Seq<Seq<char>>,
    name: Seq<char>,
    noun: Seq<char>,
)
    requires
        names.contains(name),
    ensures
        resolved(names, name, noun) == Ok::<Seq<char>, FailureView>(name),
{
}

/// An argument that is none of the names stands for the one name that it starts.
/// Where it starts none, it is not found; where the names at two places start with
/// it, it is refused as ambiguous, however many there are.
pub proof fn only_unambiguous_starts_resolve(
    names: Seq<Seq<char>>,
    arg: Seq<char>,
    noun: Seq<char>,
)
    requires
        !names.contains(arg),
    ensures
        forall|i: int|
            0 <= i < names.len() && starts(#[trigger] names[i], arg) && (forall|j: int|
                0 <= j < names.len() && j != i ==> !starts(#[trigger] names[j], arg)) ==> resolved(
                names,
                arg,
                noun,
            ) == Ok::<Seq<char>, FailureView>(names[i]),
        (forall|i: int| 0 <= i < names.len() ==> !starts(#[trigger] names[i], arg)) ==> resolved(
            names,
            arg,
            noun,
        ) == Err::<Seq<char>, FailureView>(
            FailureView {
                kind: FailureKind::NotFound,
                message: "no "@ + noun + " matches '"@ + arg + "'"@,
            },
        ),
        forall|i: int, j: int|
            0 <= i < j < names.len() && starts(#[trigger] names[i], arg) && starts(
                #[trigger] names[j],
                arg,
            ) ==> resolved(names, arg, noun) == Err::<Seq<char>, FailureView>(
                FailureView {
                    kind: FailureKind::InvalidInput,
                    message: "ambiguous "@ + noun + " '"@ + arg + "': matches "@ + debug_text(
                        names.filter(|name: Seq<char>| starts(name, arg)),
                    ),
                },
            ),
{
    let matching = starting_with(names, arg);
    lemma_matching(names, arg);
    assert(starting_with(names, arg) == names.filter(|name: Seq<char>| starts(name, arg)));
    assert forall|i: int|
        0 <= i < names.len() && starts(#[trigger] names[i], arg) && (forall|j: int|
            0 <= j < names.len() && j != i ==> !starts(#[trigger] names[j], arg)) implies resolved(
        names,
        arg,
        noun,
    ) == Ok::<Seq<char>, FailureView>(names[i]) by {
        lemma_one_match(names, arg, i);
    }
    if forall|i: int| 0 <= i < names.len() ==> !starts(#[trigger] names[i], arg) {
        lemma_no_match(names, arg);
    }
    assert forall|i: int, j: int|
        0 <= i < j < names.len() && starts(#[trigger] names[i], arg) && starts(
            #[trigger] names[j],
            arg,
        ) implies matching.len() >= 2 by {
        lemma_two_matches(names, arg, i, j);
    }
}

/// Whether a name starts with an argument.
pub open spec fn starts(name: Seq<char>, arg: Seq<char>) -> bool {
    arg.len() <= name.len() && name.take(arg.len() as int) == arg
}

proof fn lemma_starts(name: Seq<char>, arg: Seq<char>)
    ensures
        starts(name, arg) == text::occurs_at(name, arg, 0),
{
    if arg.len() <= name.len() {
        assert(name.take(arg.len() as int) =~= name.subrange(0, arg.len() as int));
    }
}

proof fn lemma_matching(names: Seq<Seq<char>>, arg: Seq<char>)
    ensures
        starting_with(names, arg) == names.filter(|name: Seq<char>| starts(name, arg)),
    decreases names.len(),
{
    reveal(Seq::filter);
    if names.len() > 0 {
        lemma_matching(names.drop_last(), arg);
        lemma_starts(names.last(), arg);
    }
}

proof fn lemma_no_match(names: Seq<Seq<char>>, arg: Seq<char>)
    requires
        forall|i: int| 0 <= i < names.len() ==> !starts(#[trigger] names[i], arg),
    ensures
        starting_with(names, arg).len() == 0,
    decreases names.len(),
{
    if names.len() > 0 {
        lemma_starts(names[names.len() - 1], arg);
        assert forall|i: int| 0 <= i < names.drop_last().len() implies !starts(
            #[trigger] names.drop_last()[i],
            arg,
        ) by {
            assert(names.drop_last()[i] == names[i]);
        }
        lemma_no_match(names.drop_last(), arg);
    }
}

proof fn lemma_one_match(names: Seq<Seq<char>>, arg: Seq<char>, i: int)
    requires
        0 <= i < names.len(),
        starts(names[i], arg),
        forall|j: int| 0 <= j < names.len() && j != i ==> !starts(#[trigger] names[j], arg),
    ensures
        starting_with(names, arg) == seq![names[i]],
    decreases names.len(),
{
    let front = names.drop_last();
    lemma_starts(names[names.len() - 1], arg);
    if i == names.len() - 1 {
        assert forall|j: int| 0 <= j < front.len() implies !starts(#[trigger] front[j], arg) by {
            assert(front[j] == names[j]);
        }
        lemma_no_match(front, arg);
        assert(starting_with(names, arg) =~= seq![names[i]]);
    } else {
        assert(!starts(names[names.len() - 1], arg));
        assert forall|j: int| 0 <= j < front.len() && j != i implies !starts(
            #[trigger] front[j],
            arg,
        ) by {
            assert(front[j] == names[j]);
        }
        lemma_one_match(front, arg, i);
    }
}

proof fn lemma_some_match(names: Seq<Seq<char>>, arg: Seq<char>, i: int)
    requires
        0 <= i < names.len(),
        starts(names[i], arg),
    ensures
        starting_with(names, arg).len() >= 1,
    decreases names.len(),
{
    lemma_starts(names[names.len() - 1], arg);
    if i < names.len() - 1 {
        lemma_some_match(names.drop_last(), arg, i);
    }
}

proof fn lemma_two_matches(names: Seq<Seq<char>>, arg: Seq<char>, i: int, j: int)
    requires
        0 <= i < j < names.len(),
        starts(names[i], arg),
        starts(names[j], arg),
    ensures
        starting_with(names, arg).len() >= 2,
    decreases names.len(),
{
    lemma_starts(names[names.len() - 1], arg);
    if j < names.len() - 1 {
        lemma_two_matches(names.drop_last(), arg, i, j);
    } else {
        lemma_some_match(names.drop_last(), arg, i);
    }
}

} // verus!
