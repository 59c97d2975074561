//! The walk through a JSON text finds the names that the text spells.
use crate::json::JsonView;
use crate::members::Walk;
use crate::{json, members};
use vstd::prelude::*;

verus! {

/// A JSON text, down to how each of its parts is spelled.
pub enum Spelling {
    /// `null`, `true`, `false` or a number.
    Word(Seq<char>),
    /// A string, as it is spelled between its quotes.
    Text(Seq<char>),
    /// The white space behind the opening bracket, and the items.
    List(Seq<char>, Seq<ItemSpelling>),
    /// The white space behind the opening brace, and the members.
    Object(Seq<char>, Seq<MemberSpelling>),
}

/// An item of a list, between white space.
pub struct ItemSpelling {
    pub before: Seq<char>,
    pub value: Spelling,
    pub after: Seq<char>,
}

/// A member of an object: its name, as it is spelled between its quotes, and its value, each between
/// white space.
pub struct MemberSpelling {
    pub before: Seq<char>,
    pub name: Seq<char>,
    pub after_name: Seq<char>,
    pub before_value: Seq<char>,
    pub value: Spelling,
    pub after: Seq<char>,
}

/// Whether `text` is white space of JSON.
pub open spec fn gap(text: Seq<char>) -> bool {
    forall|i: int|
        0 <= i < text.len() ==> #[trigger] text[i] == ' ' || text[i] == '\t' || text[i] == '\n'
            || text[i] == '\r'
}

/// Whether `c` means nothing outside of strings.
pub open spec fn plain(c: char) -> bool {
    c != '"' && c != '{' && c != '}' && c != '[' && c != ']' && c != ','
}

/// Whether `text` can stand between the quotes of a string: no quote in it ends the string, and no
/// backslash spells the quote that does.
pub open spec fn closed_text(text: Seq<char>) -> bool
    decreases text.len(),
{
    if text.len() == 0 {
        true
    } else if text[0] == '\\' {
        text.len() >= 2 && closed_text(text.skip(2))
    } else {
        text[0] != '"' && closed_text(text.skip(1))
    }
}

/// Whether the parts of the text are what they are said to be. Every JSON text is spelled so.
pub open spec fn well_spelled(spelling: Spelling) -> bool
    decreases spelling,
{
    match spelling {
        Spelling::Word(word) => forall|i: int| 0 <= i < word.len() ==> plain(#[trigger] word[i]),
        Spelling::Text(text) => closed_text(text),
        Spelling::List(inside, items) => {
            &&& gap(inside)
            &&& forall|i: int| #![trigger items[i]] 0 <= i < items.len() ==> item_ok(items[i])
        },
        Spelling::Object(inside, all) => {
            &&& gap(inside)
            &&& forall|i: int| #![trigger all[i]] 0 <= i < all.len() ==> member_ok(all[i])
        },
    }
}

/// Whether the parts of an item are what they are said to be.
pub open spec fn item_ok(item: ItemSpelling) -> bool
    decreases item,
{
    gap(item.before) && well_spelled(item.value) && gap(item.after)
}

/// Whether the parts of a member are what they are said to be.
pub open spec fn member_ok(member: MemberSpelling) -> bool
    decreases member,
{
    &&& gap(member.before)
    &&& closed_text(member.name)
    &&& gap(member.after_name)
    &&& gap(member.before_value)
    &&& well_spelled(member.value)
    &&& gap(member.after)
}

/// A string, with its quotes.
pub open spec fn literal(text: Seq<char>) -> Seq<char> {
    seq!['"'] + text + seq!['"']
}

/// The whole text.
pub open spec fn written(spelling: Spelling) -> Seq<char>
    decreases spelling,
{
    match spelling {
        Spelling::Word(word) => word,
        Spelling::Text(text) => literal(text),
        Spelling::List(inside, items) => seq!['['] + inside + written_items(items) + seq![']'],
        Spelling::Object(inside, all) => seq!['{'] + inside + written_members(all) + seq!['}'],
    }
}

/// The items of a list, with commas between them.
pub open spec fn written_items(items: Seq<ItemSpelling>) -> Seq<char>
    decreases items,
{
    if items.len() == 0 {
        Seq::empty()
    } else {
        let item = items[items.len() - 1];
        let last = item.before + written(item.value) + item.after;
        if items.len() == 1 {
            last
        } else {
            written_items(items.drop_last()) + seq![','] + last
        }
    }
}

/// The members of an object, with commas between them.
pub open spec fn written_members(all: Seq<MemberSpelling>) -> Seq<char>
    decreases all,
{
    if all.len() == 0 {
        Seq::empty()
    } else {
        let member = all[all.len() - 1];
        let last = member.before + literal(member.name) + member.after_name + seq![':']
            + member.before_value + written(member.value) + member.after;
        if all.len() == 1 {
            last
        } else {
            written_members(all.drop_last()) + seq![','] + last
        }
    }
}

/// The names of the members, as they are spelled, with their quotes.
pub open spec fn name_literals(all: Seq<MemberSpelling>) -> Seq<Seq<char>> {
    Seq::new(all.len(), |i: int| literal(all[i].name))
}

/// Whether the walk stands between two strings.
spec fn between(walk: Walk) -> bool {
    !walk.in_text && !walk.after_backslash && walk.literal == Seq::<char>::empty()
}

/// Whether a value of the outermost object, or something inside of one, may come next.
spec fn at_value(walk: Walk) -> bool {
    between(walk) && walk.depth >= 1 && (walk.depth == 1 ==> !walk.at_name)
}

proof fn lemma_walk_parts(walk: Walk, a: Seq<char>, b: Seq<char>)
    ensures
        members::walk_over(walk, a + b) == members::walk_over(members::walk_over(walk, a), b),
    decreases b.len(),
{
    if b.len() == 0 {
        assert(a + b =~= a);
    } else {
        assert((a + b).drop_last() =~= a + b.drop_last());
        lemma_walk_parts(walk, a, b.drop_last());
    }
}

proof fn lemma_walk_one(walk: Walk, c: char)
    ensures
        members::walk_over(walk, seq![c]) == members::walk_step(walk, c),
{
    assert(seq![c].drop_last() =~= Seq::<char>::empty());
    reveal_with_fuel(members::walk_over, 2);
}

proof fn lemma_walk_plain(walk: Walk, text: Seq<char>)
    requires
        between(walk),
        forall|i: int| 0 <= i < text.len() ==> plain(#[trigger] text[i]),
    ensures
        members::walk_over(walk, text) == walk,
    decreases text.len(),
{
    if text.len() > 0 {
        assert(text.drop_last().len() < text.len());
        assert forall|i: int| 0 <= i < text.drop_last().len() implies plain(
            #[trigger] text.drop_last()[i],
        ) by {
            assert(plain(text[i]));
        }
        lemma_walk_plain(walk, text.drop_last());
        assert(plain(text[text.len() - 1]));
    }
}

proof fn lemma_walk_gap(walk: Walk, text: Seq<char>)
    requires
        between(walk),
        gap(text),
    ensures
        members::walk_over(walk, text) == walk,
{
    assert forall|i: int| 0 <= i < text.len() implies plain(#[trigger] text[i]) by {}
    lemma_walk_plain(walk, text);
}

proof fn lemma_walk_closed_text(walk: Walk, text: Seq<char>)
    requires
        walk.in_text,
        !walk.after_backslash,
        closed_text(text),
    ensures
        members::walk_over(walk, text) == (Walk { literal: walk.literal + text, ..walk }),
    decreases text.len(),
{
    if text.len() == 0 {
        assert(walk.literal + text =~= walk.literal);
    } else if text[0] == '\\' {
        let opened = Walk { after_backslash: true, literal: walk.literal.push('\\'), ..walk };
        let closed = Walk { literal: walk.literal.push('\\').push(text[1]), ..walk };
        let rest = text.skip(2);
        lemma_walk_one(walk, '\\');
        lemma_walk_one(opened, text[1]);
        lemma_walk_parts(walk, seq!['\\'], seq![text[1]]);
        lemma_walk_parts(walk, seq!['\\'] + seq![text[1]], rest);
        lemma_walk_closed_text(closed, rest);
        assert(text =~= seq!['\\'] + seq![text[1]] + rest);
        assert(closed.literal + rest =~= walk.literal + text);
    } else {
        let further = Walk { literal: walk.literal.push(text[0]), ..walk };
        let rest = text.skip(1);
        lemma_walk_one(walk, text[0]);
        lemma_walk_parts(walk, seq![text[0]], rest);
        lemma_walk_closed_text(further, rest);
        assert(text =~= seq![text[0]] + rest);
        assert(further.literal + rest =~= walk.literal + text);
    }
}

/// The walk after a string: it is a name where one may come next, and else nothing that the walk
/// keeps.
spec fn past_text(walk: Walk, text: Seq<char>) -> Walk {
    if walk.depth == 1 && walk.at_name {
        Walk { at_name: false, names: walk.names.push(literal(text)), ..walk }
    } else {
        walk
    }
}

proof fn lemma_walk_literal(walk: Walk, text: Seq<char>)
    requires
        between(walk),
        closed_text(text),
    ensures
        members::walk_over(walk, literal(text)) == past_text(walk, text),
{
    let opened = Walk { in_text: true, literal: seq!['"'], ..walk };
    let full = Walk { literal: seq!['"'] + text, ..opened };
    lemma_walk_one(walk, '"');
    lemma_walk_closed_text(opened, text);
    lemma_walk_one(full, '"');
    lemma_walk_parts(walk, seq!['"'], text);
    lemma_walk_parts(walk, seq!['"'] + text, seq!['"']);
    assert((seq!['"'] + text).push('"') =~= literal(text));
}

proof fn lemma_walk_value(walk: Walk, spelling: Spelling)
    requires
        at_value(walk),
        well_spelled(spelling),
    ensures
        members::walk_over(walk, written(spelling)) == walk,
    decreases spelling,
{
    match spelling {
        Spelling::Word(word) => {
            lemma_walk_plain(walk, word);
        },
        Spelling::Text(text) => {
            lemma_walk_literal(walk, text);
        },
        Spelling::List(inside, items) => {
            let deeper = Walk { depth: walk.depth + 1, ..walk };
            let inner = written_items(items);
            lemma_walk_one(walk, '[');
            lemma_walk_gap(deeper, inside);
            lemma_walk_items(deeper, items);
            lemma_walk_one(deeper, ']');
            lemma_walk_parts(walk, seq!['['], inside);
            lemma_walk_parts(walk, seq!['['] + inside, inner);
            lemma_walk_parts(walk, seq!['['] + inside + inner, seq![']']);
        },
        Spelling::Object(inside, all) => {
            let deeper = Walk { depth: walk.depth + 1, ..walk };
            let inner = written_members(all);
            lemma_walk_one(walk, '{');
            lemma_walk_gap(deeper, inside);
            lemma_walk_inner_members(deeper, all);
            lemma_walk_one(deeper, '}');
            lemma_walk_parts(walk, seq!['{'], inside);
            lemma_walk_parts(walk, seq!['{'] + inside, inner);
            lemma_walk_parts(walk, seq!['{'] + inside + inner, seq!['}']);
        },
    }
}

proof fn lemma_walk_items(walk: Walk, items: Seq<ItemSpelling>)
    requires
        between(walk),
        walk.depth >= 2,
        forall|i: int| #![trigger items[i]] 0 <= i < items.len() ==> item_ok(items[i]),
    ensures
        members::walk_over(walk, written_items(items)) == walk,
    decreases items,
{
    if items.len() > 0 {
        let item = items[items.len() - 1];
        let value = written(item.value);
        let last = item.before + value + item.after;
        lemma_walk_gap(walk, item.before);
        lemma_walk_value(walk, item.value);
        lemma_walk_gap(walk, item.after);
        lemma_walk_parts(walk, item.before, value);
        lemma_walk_parts(walk, item.before + value, item.after);
        if items.len() > 1 {
            let before = written_items(items.drop_last());
            lemma_walk_items(walk, items.drop_last());
            lemma_walk_one(walk, ',');
            lemma_walk_parts(walk, before, seq![',']);
            lemma_walk_parts(walk, before + seq![','], last);
        }
    }
}

/// A member is walked over as its name is, if its value leaves nothing behind.
proof fn lemma_walk_member(walk: Walk, member: MemberSpelling)
    requires
        between(walk),
        walk.depth >= 1,
        member_ok(member),
        members::walk_over(past_text(walk, member.name), written(member.value)) == past_text(
            walk,
            member.name,
        ),
    ensures
        members::walk_over(
            walk,
            member.before + literal(member.name) + member.after_name + seq![':']
                + member.before_value + written(member.value) + member.after,
        ) == past_text(walk, member.name),
{
    let named = past_text(walk, member.name);
    let name = literal(member.name);
    let value = written(member.value);
    lemma_walk_gap(walk, member.before);
    lemma_walk_literal(walk, member.name);
    lemma_walk_gap(named, member.after_name);
    lemma_walk_one(named, ':');
    lemma_walk_gap(named, member.before_value);
    lemma_walk_gap(named, member.after);
    lemma_walk_parts(walk, member.before, name);
    lemma_walk_parts(walk, member.before + name, member.after_name);
    lemma_walk_parts(walk, member.before + name + member.after_name, seq![':']);
    lemma_walk_parts(
        walk,
        member.before + name + member.after_name + seq![':'],
        member.before_value,
    );
    lemma_walk_parts(
        walk,
        member.before + name + member.after_name + seq![':'] + member.before_value,
        value,
    );
    lemma_walk_parts(
        walk,
        member.before + name + member.after_name + seq![':'] + member.before_value + value,
        member.after,
    );
}

proof fn lemma_walk_inner_members(walk: Walk, all: Seq<MemberSpelling>)
    requires
        between(walk),
        walk.depth >= 2,
        forall|i: int| #![trigger all[i]] 0 <= i < all.len() ==> member_ok(all[i]),
    ensures
        members::walk_over(walk, written_members(all)) == walk,
    decreases all,
{
    if all.len() > 0 {
        let member = all[all.len() - 1];
        lemma_walk_value(walk, member.value);
        lemma_walk_member(walk, member);
        if all.len() > 1 {
            let before = written_members(all.drop_last());
            let last = member.before + literal(member.name) + member.after_name + seq![':']
                + member.before_value + written(member.value) + member.after;
            lemma_walk_inner_members(walk, all.drop_last());
            lemma_walk_one(walk, ',');
            lemma_walk_parts(walk, before, seq![',']);
            lemma_walk_parts(walk, before + seq![','], last);
        }
    }
}

proof fn lemma_walk_outer_members(walk: Walk, all: Seq<MemberSpelling>)
    requires
        between(walk),
        walk.depth == 1,
        walk.at_name,
        forall|i: int| #![trigger all[i]] 0 <= i < all.len() ==> member_ok(all[i]),
    ensures
        members::walk_over(walk, written_members(all)) == (Walk {
            at_name: all.len() == 0,
            names: walk.names + name_literals(all),
            ..walk
        }),
    decreases all.len(),
{
    if all.len() == 0 {
        assert(walk.names + name_literals(all) =~= walk.names);
    } else {
        let member = all[all.len() - 1];
        let name = literal(member.name);
        if all.len() == 1 {
            lemma_walk_value(past_text(walk, member.name), member.value);
            lemma_walk_member(walk, member);
            assert(walk.names + name_literals(all) =~= walk.names.push(name));
        } else {
            let before = written_members(all.drop_last());
            let last = member.before + name + member.after_name + seq![':'] + member.before_value
                + written(member.value) + member.after;
            lemma_walk_outer_members(walk, all.drop_last());
            let so_far = members::walk_over(walk, before);
            let next = Walk { at_name: true, ..so_far };
            lemma_walk_one(so_far, ',');
            lemma_walk_value(past_text(next, member.name), member.value);
            lemma_walk_member(next, member);
            lemma_walk_parts(walk, before, seq![',']);
            lemma_walk_parts(walk, before + seq![','], last);
            assert(walk.names + name_literals(all) =~= (walk.names + name_literals(
                all.drop_last(),
            )).push(name));
        }
    }
}

/// Of every text that is an object the walk finds the names of the object's own members, as they are
/// spelled, in order and each as often as it occurs, and no name or string that lies deeper; white
/// space, and how numbers and strings are spelled, make no difference.
pub proof fn law_the_names_of_an_object_are_found(
    before: Seq<char>,
    inside: Seq<char>,
    all: Seq<MemberSpelling>,
    after: Seq<char>,
)
    requires
        gap(before),
        well_spelled(Spelling::Object(inside, all)),
        gap(after),
    ensures
        members::walked(before + written(Spelling::Object(inside, all)) + after).names
            == name_literals(all),
{
    let start = members::walk_start();
    let entered = Walk { depth: 1, at_name: true, ..start };
    let inner = written_members(all);
    let object = written(Spelling::Object(inside, all));
    lemma_walk_gap(start, before);
    lemma_walk_one(start, '{');
    lemma_walk_gap(entered, inside);
    lemma_walk_outer_members(entered, all);
    let filled = members::walk_over(entered, inner);
    lemma_walk_one(filled, '}');
    lemma_walk_parts(start, seq!['{'], inside);
    lemma_walk_parts(start, seq!['{'] + inside, inner);
    lemma_walk_parts(start, seq!['{'] + inside + inner, seq!['}']);
    lemma_walk_gap(members::walk_over(start, object), after);
    lemma_walk_parts(start, before, object);
    lemma_walk_parts(start, before + object, after);
    assert(start.names + name_literals(all) =~= name_literals(all));
}

proof fn lemma_spelled(literals: Seq<Seq<char>>, names: Seq<Seq<char>>)
    requires
        literals.len() == names.len(),
        forall|i: int|
            0 <= i < names.len() ==> json::json_reading(literals[i]) == Some(
                JsonView::Text(#[trigger] names[i]),
            ),
    ensures
        members::spelled(literals) == names,
    decreases names.len(),
{
    if names.len() > 0 {
        let n = names.len() - 1;
        assert forall|i: int| 0 <= i < n implies json::json_reading(literals.drop_last()[i])
            == Some(JsonView::Text(#[trigger] names.drop_last()[i])) by {
            assert(names.drop_last()[i] == names[i]);
            assert(literals.drop_last()[i] == literals[i]);
        }
        lemma_spelled(literals.drop_last(), names.drop_last());
        assert(json::json_reading(literals[n]) == Some(JsonView::Text(names[n])));
        assert(names.drop_last().push(names[n]) =~= names);
    } else {
        assert(members::spelled(literals) =~= names);
    }
}

/// Where the JSON reader reads each name by itself as a text, the names that are found in an object
/// are these texts, in order and each as often as it occurs.
pub proof fn law_the_names_are_read(
    before: Seq<char>,
    inside: Seq<char>,
    all: Seq<MemberSpelling>,
    after: Seq<char>,
    names: Seq<Seq<char>>,
)
    requires
        gap(before),
        well_spelled(Spelling::Object(inside, all)),
        gap(after),
        names.len() == all.len(),
    ensures
        (forall|i: int|
            0 <= i < names.len() ==> json::json_reading(literal(all[i].name)) == Some(
                JsonView::Text(#[trigger] names[i]),
            )) ==> members::names_in(before + written(Spelling::Object(inside, all)) + after)
            == names,
{
    law_the_names_of_an_object_are_found(before, inside, all, after);
    if forall|i: int|
        0 <= i < names.len() ==> json::json_reading(literal(all[i].name)) == Some(
            JsonView::Text(#[trigger] names[i]),
        ) {
        assert forall|i: int| 0 <= i < names.len() implies json::json_reading(name_literals(all)[i])
            == Some(JsonView::Text(#[trigger] names[i])) by {
            assert(name_literals(all)[i] == literal(all[i].name));
        }
        lemma_spelled(name_literals(all), names);
    }
}

} // verus!
