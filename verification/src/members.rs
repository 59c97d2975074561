//! The names of the members of a JSON object, as its text spells them.
//!
//! A `serde_json::Value` keeps one member per name. Whether a name is repeated is seen in the text
//! only.
use crate::json::{read_json, Json, JsonView};
use crate::{json, text};
use vstd::prelude::*;

verus! {

/// Where a walk through a JSON text stands.
#[verifier::ext_equal]
pub struct Walk {
    /// How many lists and objects are open.
    pub depth: nat,
    /// Whether a string is open.
    pub in_text: bool,
    /// Whether the open string has just seen a backslash that spells the next character.
    pub after_backslash: bool,
    /// Whether the next string of the outermost object is a name.
    pub at_name: bool,
    /// The open string so far, with its quotes and as it is spelled.
    pub literal: Seq<char>,
    /// The names of the outermost object so far, as they are spelled.
    pub names: Seq<Seq<char>>,
}

/// The walk after one more character.
pub open spec fn walk_step(walk: Walk, c: char) -> Walk {
    if walk.in_text {
        let literal = walk.literal.push(c);
        if walk.after_backslash {
            Walk { after_backslash: false, literal, ..walk }
        } else if c == '\\' {
            Walk { after_backslash: true, literal, ..walk }
        } else if c != '"' {
            Walk { literal, ..walk }
        } else if walk.depth == 1 && walk.at_name {
            Walk {
                in_text: false,
                at_name: false,
                literal: Seq::empty(),
                names: walk.names.push(literal),
                ..walk
            }
        } else {
            Walk { in_text: false, literal: Seq::empty(), ..walk }
        }
    } else if c == '"' {
        Walk { in_text: true, literal: seq![c], ..walk }
    } else if c == '{' || c == '[' {
        Walk { depth: walk.depth + 1, at_name: walk.depth == 0 || walk.at_name, ..walk }
    } else if c == '}' || c == ']' {
        Walk {
            depth: if walk.depth == 0 {
                0
            } else {
                (walk.depth - 1) as nat
            },
            ..walk
        }
    } else if c == ',' && walk.depth == 1 {
        Walk { at_name: true, ..walk }
    } else {
        walk
    }
}

/// The walk before the first character.
pub open spec fn walk_start() -> Walk {
    Walk {
        depth: 0,
        in_text: false,
        after_backslash: false,
        at_name: false,
        literal: Seq::empty(),
        names: Seq::empty(),
    }
}

/// The walk after all of `text`.
pub open spec fn walk_over(walk: Walk, text: Seq<char>) -> Walk
    decreases text.len(),
{
    if text.len() == 0 {
        walk
    } else {
        walk_step(walk_over(walk, text.drop_last()), text.last())
    }
}

/// The walk through the whole of `text`.
pub open spec fn walked(text: Seq<char>) -> Walk {
    walk_over(walk_start(), text)
}

/// The strings that the `literals` spell, in order; what spells no string is left out.
pub open spec fn spelled(literals: Seq<Seq<char>>) -> Seq<Seq<char>>
    decreases literals.len(),
{
    if literals.len() == 0 {
        Seq::empty()
    } else {
        let before = spelled(literals.drop_last());
        match json::json_reading(literals.last()) {
            Some(JsonView::Text(name)) => before.push(name),
            _ => before,
        }
    }
}

/// The names of the members of the object that `text` spells, in order, each as often as it occurs.
pub open spec fn names_in(text: Seq<char>) -> Seq<Seq<char>> {
    spelled(walked(text).names)
}

/// A walk through a JSON text.
struct Walker {
    depth: usize,
    in_text: bool,
    after_backslash: bool,
    at_name: bool,
    literal: String,
    names: Vec<String>,
}

impl Walker {
    spec fn model(self) -> Walk {
        Walk {
            depth: self.depth as nat,
            in_text: self.in_text,
            after_backslash: self.after_backslash,
            at_name: self.at_name,
            literal: self.literal@,
            names: text::texts(self.names@),
        }
    }

    fn new() -> (walker: Walker)
        ensures
            walker.model() == walked(Seq::empty()),
    {
        let walker = Walker {
            depth: 0,
            in_text: false,
            after_backslash: false,
            at_name: false,
            literal: String::new(),
            names: Vec::new(),
        };
        assert(walker.model().names =~= Seq::<Seq<char>>::empty());
        walker
    }

    fn step(&mut self, c: char)
        requires
            old(self).depth < usize::MAX,
        ensures
            final(self).model() == walk_step(old(self).model(), c),
            final(self).depth <= old(self).depth + 1,
    {
        if self.in_text {
            self.literal.push(c);
            if self.after_backslash {
                self.after_backslash = false;
            } else if c == '\\' {
                self.after_backslash = true;
            } else if c == '"' {
                let mut literal: String = String::new();
                std::mem::swap(&mut literal, &mut self.literal);
                self.in_text = false;
                if self.depth == 1 && self.at_name {
                    self.at_name = false;
                    self.names.push(literal);
                    assert(text::texts(self.names@) =~= text::texts(old(self).names@).push(literal@));
                }
            }
        } else if c == '"' {
            self.in_text = true;
            self.literal = String::new();
            self.literal.push(c);
            assert(self.literal@ =~= seq![c]);
        } else if c == '{' || c == '[' {
            self.at_name = self.depth == 0 || self.at_name;
            self.depth += 1;
        } else if c == '}' || c == ']' {
            if self.depth > 0 {
                self.depth -= 1;
            }
        } else if c == ',' && self.depth == 1 {
            self.at_name = true;
        }
    }
}

/// The names of the outermost object of `text`, as they are spelled.
fn name_literals(text: &str) -> (literals: Vec<String>)
    ensures
        text::texts(literals@) == walked(text@).names,
{
    let mut walker = Walker::new();
    let n: usize = text.unicode_len();
    for c in it: text.chars()
        invariant
            it.seq() == text@,
            n == text@.len(),
            walker.model() == walked(text@.take(it.index())),
            walker.depth <= it.index() <= n,
    {
        assert(text@.take(it.index() + 1).drop_last() =~= text@.take(it.index()));
        walker.step(c);
    }
    assert(text@.take(text@.len() as int) =~= text@);
    walker.names
}

/// The names of the members of the object that `text` spells, in order, each as often as it occurs.
pub fn member_names(text: &str) -> (names: Vec<String>)
    ensures
        text::texts(names@) == names_in(text@),
{
    let literals: Vec<String> = name_literals(text);
    let mut names: Vec<String> = Vec::new();
    let n: usize = literals.len();
    let mut i: usize = 0;
    assert(text::texts(names@) =~= spelled(text::texts(literals@).take(0)));
    while i < n
        invariant
            i <= n == literals@.len(),
            text::texts(names@) == spelled(text::texts(literals@).take(i as int)),
        decreases n - i,
    {
        let ghost before = names@;
        assert(text::texts(literals@).take(i + 1).drop_last() =~= text::texts(literals@).take(i as int));
        if let Some(Json::Text(name)) = read_json(literals[i].as_str()) {
            names.push(name);
            assert(text::texts(names@) =~= text::texts(before).push(name@));
        }
        i += 1;
    }
    assert(text::texts(literals@).take(n as int) =~= text::texts(literals@));
    names
}

} // verus!
