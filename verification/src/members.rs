//! The names of the members of a JSON object, as its text gives them. A tree keeps one member of
//! each name; the text tells whether a name comes twice.
use vstd::prelude::*;
use vstd::string::StrSliceExecFns;
use vstd::string::StringExecFns;

use crate::json::json_model;
use crate::json::json_tree;
use crate::json::parse_json;
use crate::text::characters;
use crate::text::same_text;

verus! {

/// Where the string ends that has begun before `i`: behind its closing quote.
pub open spec fn string_end(s: Seq<char>, i: int) -> int
    decreases s.len() - i,
{
    if i < 0 || i >= s.len() {
        s.len() as int
    } else if s[i] == '"' {
        i + 1
    } else if s[i] == '\\' && i + 2 <= s.len() {
        string_end(s, i + 2)
    } else {
        string_end(s, i + 1)
    }
}

/// Whether the next character from `i` on, white space of JSON aside, is a colon.
pub open spec fn colon_follows(s: Seq<char>, i: int) -> bool
    decreases s.len() - i,
{
    if i < 0 || i >= s.len() {
        false
    } else if s[i] == ' ' || s[i] == '\t' || s[i] == '\n' || s[i] == '\r' {
        colon_follows(s, i + 1)
    } else {
        s[i] == ':'
    }
}

/// The text that a JSON string stands for.
pub open spec fn name_of(quoted: Seq<char>) -> Option<Seq<char>> {
    match json_tree(quoted) {
        Some(v) => json_model(v).text(),
        None => None,
    }
}

/// The names of members from `i` on, at `depth` brackets: the strings inside of the outermost
/// bracket, and of no other, that a colon follows.
pub open spec fn names_from(s: Seq<char>, i: int, depth: nat) -> Seq<Option<Seq<char>>>
    decreases s.len() - i,
{
    if i < 0 || i >= s.len() {
        Seq::empty()
    } else if s[i] == '"' {
        let end = string_end(s, i + 1);
        if end <= i || end > s.len() {
            Seq::empty()
        } else {
            let rest = names_from(s, end, depth);
            if depth == 1 && colon_follows(s, end) {
                seq![name_of(s.subrange(i, end))] + rest
            } else {
                rest
            }
        }
    } else if s[i] == '{' || s[i] == '[' {
        names_from(s, i + 1, depth + 1)
    } else if s[i] == '}' || s[i] == ']' {
        names_from(
            s,
            i + 1,
            if depth > 0 {
                (depth - 1) as nat
            } else {
                0
            },
        )
    } else {
        names_from(s, i + 1, depth)
    }
}

/// The names of the members of the object that a text holds, in their order.
pub open spec fn member_names(raw: Seq<char>) -> Seq<Option<Seq<char>>> {
    names_from(raw, 0, 0)
}

/// The name by which `serde_json` marks text that it is to read in turn. Where the first member of an
/// object has it, a tree is read from that member's text in place of the object.
pub open spec fn marker() -> Seq<char> {
    "$serde_json::private::RawValue"@
}

/// The fewest characters that the marker takes in a text, its quotes among them.
pub const MARKER_CHARS: usize = 32;

/// A text from `i` on, with no name in place of those members that have the marker for theirs.
pub open spec fn unmarked_from(s: Seq<char>, i: int) -> Seq<char>
    decreases s.len() - i,
{
    if i < 0 || i >= s.len() {
        Seq::empty()
    } else if s[i] == '"' {
        let end = string_end(s, i + 1);
        if end <= i || end > s.len() {
            Seq::empty()
        } else if is_marked(s, i, end) {
            seq!['"', '"'] + unmarked_from(s, end)
        } else {
            s.subrange(i, end) + unmarked_from(s, end)
        }
    } else {
        seq![s[i]] + unmarked_from(s, i + 1)
    }
}

/// Whether the string from `i` to `end` names a member, and the name is the marker.
pub open spec fn is_marked(s: Seq<char>, i: int, end: int) -> bool {
    &&& end - i >= MARKER_CHARS
    &&& colon_follows(s, end)
    &&& name_of(s.subrange(i, end)) == Some(marker())
}

/// A text in which no object is taken for anything else: the marker names no member of it.
pub open spec fn unmarked(raw: Seq<char>) -> Seq<char> {
    unmarked_from(raw, 0)
}

/// Whether a name comes more than once.
pub open spec fn repeats(names: Seq<Option<Seq<char>>>, name: Seq<char>) -> bool {
    exists|i: int, j: int|
        0 <= i < j < names.len() && #[trigger] names[i] == Some(name) && #[trigger] names[j] == Some(
            name,
        )
}

proof fn lemma_string_end(s: Seq<char>, i: int)
    requires
        0 <= i <= s.len(),
    ensures
        i <= string_end(s, i) <= s.len(),
        i < s.len() ==> i < string_end(s, i),
    decreases s.len() - i,
{
    if i < s.len() && s[i] != '"' {
        if s[i] == '\\' && i + 2 <= s.len() {
            lemma_string_end(s, i + 2);
        } else {
            lemma_string_end(s, i + 1);
        }
    }
}

/// Where the string ends that has begun before `i`.
fn find_string_end(s: &Vec<char>, i: usize) -> (r: usize)
    requires
        i <= s@.len(),
    ensures
        r == string_end(s@, i as int),
{
    let mut k: usize = i;
    while k < s.len()
        invariant
            k <= s@.len(),
            string_end(s@, k as int) == string_end(s@, i as int),
        decreases s@.len() - k,
    {
        if s[k] == '"' {
            return k + 1;
        }
        if s[k] == '\\' && s.len() - k >= 2 {
            k = k + 2;
        } else {
            k = k + 1;
        }
    }
    s.len()
}

/// Whether the next character from `i` on, white space of JSON aside, is a colon.
fn is_colon_next(s: &Vec<char>, i: usize) -> (r: bool)
    requires
        i <= s@.len(),
    ensures
        r == colon_follows(s@, i as int),
{
    let mut k: usize = i;
    while k < s.len()
        invariant
            k <= s@.len(),
            colon_follows(s@, k as int) == colon_follows(s@, i as int),
        decreases s@.len() - k,
    {
        let c = s[k];
        if c == ' ' || c == '\t' || c == '\n' || c == '\r' {
            k = k + 1;
        } else {
            return c == ':';
        }
    }
    false
}

/// Reads the text that a JSON string stands for.
fn read_name(quoted: &str) -> (r: Option<String>)
    ensures
        (match r {
            Some(name) => Some(name@),
            None => None,
        }) == name_of(quoted@),
{
    match parse_json(quoted) {
        Ok(v) => match v.as_str() {
            Some(name) => Some(name.to_owned()),
            None => None,
        },
        Err(_) => None,
    }
}

/// What names say.
pub open spec fn names_view(names: Seq<Option<String>>) -> Seq<Option<Seq<char>>> {
    names.map_values(
        |name: Option<String>| match name {
            Some(name) => Some(name@),
            None => None,
        },
    )
}

/// Reads the names of the members of the object that a text holds.
pub fn read_member_names(raw: &str) -> (r: Vec<Option<String>>)
    ensures
        names_view(r@) == member_names(raw@),
{
    let s = characters(raw);
    let mut names: Vec<Option<String>> = Vec::new();
    let mut i: usize = 0;
    let mut depth: usize = 0;
    assert(names_view(names@) + names_from(s@, 0, 0) =~= member_names(raw@));
    while i < s.len()
        invariant
            s@ == raw@,
            i <= s@.len(),
            depth <= i,
            names_view(names@) + names_from(s@, i as int, depth as nat) == member_names(raw@),
        decreases s@.len() - i,
    {
        let c = s[i];
        if c == '"' {
            let ghost rest = names_from(s@, i as int, depth as nat);
            proof {
                lemma_string_end(s@, i + 1);
            }
            let end: usize = find_string_end(&s, i + 1);
            if depth == 1 && is_colon_next(&s, end) {
                let name = read_name(raw.substring_char(i, end));
                let ghost before = names@;
                names.push(name);
                assert(names_view(names@) =~= names_view(before) + seq![
                    name_of(s@.subrange(i as int, end as int)),
                ]);
                assert(names_view(names@) + names_from(s@, end as int, depth as nat)
                    =~= names_view(before) + rest);
            }
            i = end;
        } else {
            if c == '{' || c == '[' {
                depth = depth + 1;
            } else if c == '}' || c == ']' {
                if depth > 0 {
                    depth = depth - 1;
                }
            }
            i = i + 1;
        }
    }
    assert(names_view(names@) =~= member_names(raw@));
    names
}

/// Takes the marker out of the names of a text's members.
pub fn without_marker(raw: &str) -> (r: String)
    ensures
        r@ == unmarked(raw@),
{
    let s = characters(raw);
    let mut out = String::new();
    // What lies between `start` and `i` is as it was and still to be copied.
    let mut start: usize = 0;
    let mut i: usize = 0;
    assert(out@ + s@.subrange(0, 0) + unmarked_from(s@, 0) =~= unmarked(raw@));
    while i < s.len()
        invariant
            s@ == raw@,
            start <= i <= s@.len(),
            out@ + s@.subrange(start as int, i as int) + unmarked_from(s@, i as int) == unmarked(
                raw@,
            ),
        decreases s@.len() - i,
    {
        let ghost run = s@.subrange(start as int, i as int);
        if s[i] == '"' {
            proof {
                lemma_string_end(s@, i + 1);
            }
            let end: usize = find_string_end(&s, i + 1);
            let mut marked = false;
            if end - i >= MARKER_CHARS && is_colon_next(&s, end) {
                if let Some(name) = read_name(raw.substring_char(i, end)) {
                    marked = same_text(name.as_str(), "$serde_json::private::RawValue");
                }
            }
            assert(marked == is_marked(s@, i as int, end as int));
            if marked {
                let ghost copied = out@;
                proof {
                    reveal_strlit("\"\"");
                }
                out.append(raw.substring_char(start, i));
                out.append("\"\"");
                start = end;
                assert(out@ + s@.subrange(end as int, end as int) + unmarked_from(s@, end as int)
                    =~= copied + run + (seq!['"', '"'] + unmarked_from(s@, end as int)));
            } else {
                assert(out@ + s@.subrange(start as int, end as int) + unmarked_from(s@, end as int)
                    =~= out@ + run + (s@.subrange(i as int, end as int) + unmarked_from(
                    s@,
                    end as int,
                )));
            }
            i = end;
        } else {
            assert(out@ + s@.subrange(start as int, i + 1) + unmarked_from(s@, i + 1) =~= out@ + run
                + (seq![s@[i as int]] + unmarked_from(s@, i + 1)));
            i = i + 1;
        }
    }
    out.append(raw.substring_char(start, i));
    assert(out@ =~= unmarked(raw@));
    out
}

/// Whether a name comes more than once.
pub fn is_repeated(names: &Vec<Option<String>>, name: &str) -> (r: bool)
    ensures
        r == repeats(names_view(names@), name@),
{
    let ghost view = names_view(names@);
    let mut seen = false;
    let ghost mut first: int = 0;
    let mut i: usize = 0;
    while i < names.len()
        invariant
            i <= names@.len(),
            view == names_view(names@),
            seen ==> 0 <= first < i && view[first] == Some(name@),
            forall|j: int|
                0 <= j < i && #[trigger] view[j] == Some(name@) ==> seen && j == first,
        decreases names@.len() - i,
    {
        let same = match &names[i] {
            Some(other) => same_text(other.as_str(), name),
            None => false,
        };
        assert(same == (view[i as int] == Some(name@)));
        if same {
            if seen {
                assert(view[first] == Some(name@) && view[i as int] == Some(name@));
                return true;
            }
            seen = true;
            proof {
                first = i as int;
            }
        }
        i = i + 1;
    }
    false
}

/// A name comes more than once where it stands in two places, and only there.
pub proof fn law_two_places_are_a_repetition(
    names: Seq<Option<Seq<char>>>,
    name: Seq<char>,
    i: int,
    j: int,
)
    ensures
        0 <= i < j < names.len() && names[i] == Some(name) && names[j] == Some(name) ==> repeats(
            names,
            name,
        ),
        names.no_duplicates() ==> !repeats(names, name),
        !names.contains(Some(name)) ==> !repeats(names, name),
{
}

/// A text in which no string reads as the marker is left as it is.
pub proof fn law_unmarked_texts_stay(raw: Seq<char>)
    requires
        forall|i: int, j: int|
            0 <= i <= j <= raw.len() ==> name_of(#[trigger] raw.subrange(i, j)) != Some(
                "$serde_json::private::RawValue"@,
            ),
    ensures
        unmarked(raw) == raw,
{
    lemma_unmarked_stays(raw, 0);
    assert(raw.skip(0) =~= raw);
}

proof fn lemma_unmarked_stays(s: Seq<char>, i: int)
    requires
        0 <= i <= s.len(),
        forall|i: int, j: int|
            0 <= i <= j <= s.len() ==> name_of(#[trigger] s.subrange(i, j)) != Some(marker()),
    ensures
        unmarked_from(s, i) == s.skip(i),
    decreases s.len() - i,
{
    if i < s.len() {
        if s[i] == '"' {
            lemma_string_end(s, i + 1);
            let end = string_end(s, i + 1);
            lemma_unmarked_stays(s, end);
            assert(s.subrange(i, end) + s.skip(end) =~= s.skip(i));
        } else {
            lemma_unmarked_stays(s, i + 1);
            assert(seq![s[i]] + s.skip(i + 1) =~= s.skip(i));
        }
    } else {
        assert(s.skip(i) =~= Seq::<char>::empty());
    }
}

/// Whether a text can stand between the quotes of a string: a quote or a backslash only behind a
/// backslash that is not itself behind one.
pub open spec fn is_string_body(s: Seq<char>) -> bool
    decreases s.len(),
{
    if s.len() == 0 {
        true
    } else if s[0] == '\\' {
        s.len() >= 2 && is_string_body(s.skip(2))
    } else {
        s[0] != '"' && is_string_body(s.skip(1))
    }
}

/// Whether a text is a string in quotes.
pub open spec fn is_quoted(s: Seq<char>) -> bool {
    &&& s.len() >= 2
    &&& s.first() == '"'
    &&& s.last() == '"'
    &&& is_string_body(s.subrange(1, s.len() - 1))
}

/// A piece of JSON text and those that follow it: characters outside of strings and brackets, strings,
/// and what stands in brackets.
pub enum Pieces {
    End,
    Plain(char, Box<Pieces>),
    Quoted(Seq<char>, Box<Pieces>),
    Nested { open: char, inner: Box<Pieces>, close: char, rest: Box<Pieces> },
}

impl Pieces {
    /// Whether each piece is what it is said to be.
    pub open spec fn sound(self) -> bool
        decreases self,
    {
        match self {
            Pieces::End => true,
            Pieces::Plain(c, rest) => c != '"' && c != '{' && c != '}' && c != '[' && c != ']'
                && rest.sound(),
            Pieces::Quoted(string, rest) => is_quoted(string) && rest.sound(),
            Pieces::Nested { open, inner, close, rest } => (open == '{' || open == '[') && (close
                == '}' || close == ']') && inner.sound() && rest.sound(),
        }
    }

    /// The text of the pieces.
    pub open spec fn text(self) -> Seq<char>
        decreases self,
    {
        match self {
            Pieces::End => Seq::empty(),
            Pieces::Plain(c, rest) => seq![c] + rest.text(),
            Pieces::Quoted(string, rest) => string + rest.text(),
            Pieces::Nested { open, inner, close, rest } => seq![open] + inner.text() + seq![close]
                + rest.text(),
        }
    }

    /// Whether the pieces are a value: a single string, or anything without strings but in brackets.
    pub open spec fn is_value(self) -> bool
        decreases self,
    {
        match self {
            Pieces::End => true,
            Pieces::Plain(_, rest) => rest.is_value(),
            Pieces::Quoted(_, rest) => *rest is End,
            Pieces::Nested { rest, .. } => rest.is_value(),
        }
    }
}

/// What stands between a member and those that follow it: a comma, where any follow.
pub open spec fn separator(following: Seq<(Seq<char>, Pieces)>) -> Seq<char> {
    if following.len() == 0 {
        Seq::empty()
    } else {
        seq![',']
    }
}

/// The text of members, one after the other, each a name and a value.
pub open spec fn members_text(members: Seq<(Seq<char>, Pieces)>) -> Seq<char>
    decreases members.len(),
{
    if members.len() == 0 {
        Seq::empty()
    } else {
        members.first().0 + seq![':'] + members.first().1.text() + separator(members.drop_first())
            + members_text(members.drop_first())
    }
}

/// Every member of an object is named, in its order, however many there are and whatever their values
/// hold: the names of an object that is written out member by member are those of its members, and
/// of no other.
pub proof fn law_every_member_is_named(
    members: Seq<(Seq<char>, Pieces)>,
    names: Seq<Option<Seq<char>>>,
)
    requires
        forall|i: int|
            0 <= i < members.len() ==> is_quoted((#[trigger] members[i]).0) && members[i].1.sound()
                && members[i].1.is_value(),
        names.len() == members.len(),
        forall|i: int|
            0 <= i < members.len() ==> #[trigger] names[i] == name_of(members[i].0),
    ensures
        member_names(seq!['{'] + members_text(members) + seq!['}']) == names,
{
    let s = seq!['{'] + members_text(members) + seq!['}'];
    assert(s.skip(1) =~= members_text(members) + seq!['}']);
    lemma_names_of_members(s, 1, members, names);
}

/// Whether a text stands in another one at a place.
spec fn stands(s: Seq<char>, at: int, part: Seq<char>) -> bool {
    &&& 0 <= at
    &&& at + part.len() <= s.len()
    &&& s.subrange(at, at + part.len()) == part
}

proof fn lemma_parts_stand(s: Seq<char>, at: int, a: Seq<char>, b: Seq<char>)
    requires
        stands(s, at, a + b),
    ensures
        stands(s, at, a),
        stands(s, at + a.len(), b),
{
    let whole = s.subrange(at, at + (a + b).len());
    assert(s.subrange(at, at + a.len()) =~= whole.subrange(0, a.len() as int));
    assert(whole.subrange(0, a.len() as int) =~= a);
    assert(s.subrange(at + a.len(), at + a.len() + b.len()) =~= whole.subrange(
        a.len() as int,
        (a + b).len() as int,
    ));
    assert(whole.subrange(a.len() as int, (a + b).len() as int) =~= b);
}

proof fn lemma_first_stands(s: Seq<char>, at: int, part: Seq<char>)
    requires
        stands(s, at, part),
        part.len() > 0,
    ensures
        s[at] == part[0],
{
    assert(s.subrange(at, at + part.len())[0] == s[at]);
}

proof fn lemma_names_of_members(
    s: Seq<char>,
    at: int,
    members: Seq<(Seq<char>, Pieces)>,
    names: Seq<Option<Seq<char>>>,
)
    requires
        0 <= at <= s.len(),
        s.skip(at) == members_text(members) + seq!['}'],
        forall|i: int|
            0 <= i < members.len() ==> is_quoted((#[trigger] members[i]).0) && members[i].1.sound()
                && members[i].1.is_value(),
        names.len() == members.len(),
        forall|i: int|
            0 <= i < members.len() ==> #[trigger] names[i] == name_of(members[i].0),
    ensures
        names_from(s, at, 1) == names,
    decreases members.len(),
{
    let rest = members_text(members) + seq!['}'];
    assert(s.subrange(at, at + rest.len()) =~= s.skip(at));
    assert(stands(s, at, rest));
    if members.len() == 0 {
        assert(rest =~= seq!['}']);
        lemma_first_stands(s, at, rest);
        assert(names_from(s, at + 1, 0) =~= Seq::<Option<Seq<char>>>::empty());
        assert(names =~= Seq::<Option<Seq<char>>>::empty());
    } else {
        let (name, value) = members.first();
        assert(members[0] == members.first());
        let tail = members.drop_first();
        let text = members_text(tail) + seq!['}'];
        let sep = separator(tail);
        assert(rest =~= name + (seq![':'] + (value.text() + (sep + text))));
        lemma_parts_stand(s, at, name, seq![':'] + (value.text() + (sep + text)));
        let end = at + name.len();
        lemma_parts_stand(s, end, seq![':'], value.text() + (sep + text));
        let from = end + 1;
        lemma_parts_stand(s, from, value.text(), sep + text);
        let comma = from + value.text().len();
        lemma_first_stands(s, comma, sep + text);
        lemma_parts_stand(s, comma, sep, text);
        let next = comma + sep.len();
        lemma_quoted_end(s, at, name);
        lemma_first_stands(s, at, name);
        lemma_first_stands(s, end, seq![':']);
        assert(colon_follows(s, end));
        assert(s.skip(next) =~= text) by {
            assert(s.subrange(next, next + text.len()) =~= s.skip(next));
        }
        assert forall|i: int| 0 <= i < tail.len() implies is_quoted((#[trigger] tail[i]).0)
            && tail[i].1.sound() && tail[i].1.is_value() by {
            assert(tail[i] == members[i + 1]);
        }
        let others = names.drop_first();
        assert forall|i: int| 0 <= i < tail.len() implies #[trigger] others[i] == name_of(
            tail[i].0,
        ) by {
            assert(others[i] == names[i + 1]);
            assert(tail[i] == members[i + 1]);
        }
        lemma_names_of_members(s, next, tail, others);
        if tail.len() > 0 {
            assert((sep + text)[0] == ',');
        } else {
            assert(sep + text =~= seq!['}']);
        }
        assert(!colon_follows(s, comma));
        lemma_value_is_skipped(s, from, value);
        if tail.len() > 0 {
            assert(s[comma] == ',');
        }
        assert(names_from(s, comma, 1) == names_from(s, next, 1));
        assert(names_from(s, end, 1) == others);
        assert(names[0] == name_of(members[0].0));
        assert(seq![name_of(name)] + others =~= names);
    }
}

/// A string in quotes ends behind its last quote.
proof fn lemma_quoted_end(s: Seq<char>, at: int, string: Seq<char>)
    requires
        stands(s, at, string),
        is_quoted(string),
    ensures
        string_end(s, at + 1) == at + string.len(),
{
    let body = string.subrange(1, string.len() - 1);
    assert(string =~= seq!['"'] + (body + seq!['"']));
    lemma_parts_stand(s, at, seq!['"'], body + seq!['"']);
    lemma_body_end(s, at + 1, body);
}

proof fn lemma_body_end(s: Seq<char>, at: int, body: Seq<char>)
    requires
        stands(s, at, body + seq!['"']),
        is_string_body(body),
    ensures
        string_end(s, at) == at + body.len() + 1,
    decreases body.len(),
{
    let whole = body + seq!['"'];
    lemma_first_stands(s, at, whole);
    if body.len() == 0 {
    } else if body[0] == '\\' {
        assert(whole =~= body.take(2) + (body.skip(2) + seq!['"']));
        lemma_parts_stand(s, at, body.take(2), body.skip(2) + seq!['"']);
        lemma_body_end(s, at + 2, body.skip(2));
    } else {
        assert(whole =~= body.take(1) + (body.skip(1) + seq!['"']));
        lemma_parts_stand(s, at, body.take(1), body.skip(1) + seq!['"']);
        lemma_body_end(s, at + 1, body.skip(1));
    }
}

/// Nothing is named in what stands in more than one bracket.
proof fn lemma_pieces_are_skipped(s: Seq<char>, at: int, pieces: Pieces, depth: nat)
    requires
        stands(s, at, pieces.text()),
        pieces.sound(),
        depth >= 2,
    ensures
        names_from(s, at, depth) == names_from(s, at + pieces.text().len(), depth),
    decreases pieces, 0int,
{
    match pieces {
        Pieces::End => {},
        Pieces::Plain(c, rest) => {
            lemma_first_stands(s, at, pieces.text());
            lemma_parts_stand(s, at, seq![c], rest.text());
            lemma_pieces_are_skipped(s, at + 1, *rest, depth);
        },
        Pieces::Quoted(string, rest) => {
            lemma_parts_stand(s, at, string, rest.text());
            lemma_quoted_end(s, at, string);
            lemma_first_stands(s, at, string);
            lemma_pieces_are_skipped(s, at + string.len(), *rest, depth);
        },
        Pieces::Nested { open, inner, close, rest } => {
            lemma_nested_is_skipped(s, at, open, *inner, close, rest.text(), depth);
            lemma_pieces_are_skipped(s, at + inner.text().len() + 2, *rest, depth);
        },
    }
}

/// What stands in brackets is skipped as a whole.
proof fn lemma_nested_is_skipped(
    s: Seq<char>,
    at: int,
    open: char,
    inner: Pieces,
    close: char,
    rest: Seq<char>,
    depth: nat,
)
    requires
        stands(s, at, seq![open] + inner.text() + seq![close] + rest),
        open == '{' || open == '[',
        close == '}' || close == ']',
        inner.sound(),
        depth >= 1,
    ensures
        names_from(s, at, depth) == names_from(s, at + inner.text().len() + 2, depth),
        stands(s, at + inner.text().len() + 2, rest),
    decreases inner, 1int,
{
    let text = inner.text();
    assert(seq![open] + text + seq![close] + rest =~= seq![open] + (text + (seq![close] + rest)));
    lemma_parts_stand(s, at, seq![open], text + (seq![close] + rest));
    lemma_first_stands(s, at, seq![open]);
    lemma_parts_stand(s, at + 1, text, seq![close] + rest);
    lemma_pieces_are_skipped(s, at + 1, inner, depth + 1);
    let end = at + 1 + text.len();
    lemma_parts_stand(s, end, seq![close], rest);
    lemma_first_stands(s, end, seq![close]);
}

/// Nothing is named in the value of a member.
proof fn lemma_value_is_skipped(s: Seq<char>, at: int, value: Pieces)
    requires
        stands(s, at, value.text()),
        value.sound(),
        value.is_value(),
        !colon_follows(s, at + value.text().len()),
    ensures
        names_from(s, at, 1) == names_from(s, at + value.text().len(), 1),
    decreases value,
{
    match value {
        Pieces::End => {},
        Pieces::Plain(c, rest) => {
            lemma_first_stands(s, at, value.text());
            lemma_parts_stand(s, at, seq![c], rest.text());
            lemma_value_is_skipped(s, at + 1, *rest);
        },
        Pieces::Quoted(string, rest) => {
            assert(rest.text() =~= Seq::<char>::empty());
            assert(value.text() =~= string);
            lemma_quoted_end(s, at, string);
            lemma_first_stands(s, at, string);
        },
        Pieces::Nested { open, inner, close, rest } => {
            lemma_nested_is_skipped(s, at, open, *inner, close, rest.text(), 1);
            lemma_value_is_skipped(s, at + inner.text().len() + 2, *rest);
        },
    }
}

proof fn lemma_string_end_shifts(s: Seq<char>, k: int, i: int)
    requires
        0 <= k <= i <= s.len(),
    ensures
        string_end(s, i) == k + string_end(s.skip(k), i - k),
    decreases s.len() - i,
{
    if i < s.len() {
        assert(s.skip(k)[i - k] == s[i]);
        if s[i] == '"' {
        } else if s[i] == '\\' && i + 2 <= s.len() {
            lemma_string_end_shifts(s, k, i + 2);
        } else {
            lemma_string_end_shifts(s, k, i + 1);
        }
    }
}

proof fn lemma_colon_shifts(s: Seq<char>, k: int, i: int)
    requires
        0 <= k <= i <= s.len(),
    ensures
        colon_follows(s, i) == colon_follows(s.skip(k), i - k),
    decreases s.len() - i,
{
    if i < s.len() {
        assert(s.skip(k)[i - k] == s[i]);
        lemma_colon_shifts(s, k, i + 1);
    }
}

proof fn lemma_unmarked_shifts(s: Seq<char>, k: int, i: int)
    requires
        0 <= k <= i <= s.len(),
    ensures
        unmarked_from(s, i) == unmarked_from(s.skip(k), i - k),
    decreases s.len() - i,
{
    if i < s.len() {
        let t = s.skip(k);
        assert(t[i - k] == s[i]);
        if s[i] == '"' {
            lemma_string_end(s, i + 1);
            lemma_string_end_shifts(s, k, i + 1);
            let end = string_end(s, i + 1);
            lemma_colon_shifts(s, k, end);
            assert(s.subrange(i, end) =~= t.subrange(i - k, end - k));
            lemma_unmarked_shifts(s, k, end);
        } else {
            lemma_unmarked_shifts(s, k, i + 1);
        }
    }
}

proof fn lemma_unmarked_front(front: Seq<char>, rest: Seq<char>)
    requires
        forall|i: int| 0 <= i < front.len() ==> #[trigger] front[i] != '"',
    ensures
        unmarked(front + rest) == front + unmarked(rest),
    decreases front.len(),
{
    let s = front + rest;
    if front.len() == 0 {
        assert(s =~= rest);
        assert(front + unmarked(rest) =~= unmarked(rest));
    } else {
        assert(s[0] == front[0]);
        let others = front.drop_first();
        assert(s.skip(1) =~= others + rest);
        lemma_unmarked_shifts(s, 1, 1);
        assert forall|i: int| 0 <= i < others.len() implies #[trigger] others[i] != '"' by {
            assert(others[i] == front[i + 1]);
        }
        lemma_unmarked_front(others, rest);
        assert(seq![front[0]] + (others + unmarked(rest)) =~= front + unmarked(rest));
    }
}

/// A member that has the marker for its name loses the name, wherever it stands, and everything up to it
/// stays as it is.
pub proof fn law_marked_members_lose_their_name(
    front: Seq<char>,
    name: Seq<char>,
    rest: Seq<char>,
)
    requires
        forall|i: int| 0 <= i < front.len() ==> #[trigger] front[i] != '"',
        is_quoted(name),
        name.len() >= 32,
        name_of(name) == Some("$serde_json::private::RawValue"@),
    ensures
        unmarked(front + (name + (seq![':'] + rest))) == front + (seq!['"', '"'] + (seq![':']
            + unmarked(rest))),
{
    let tail = seq![':'] + rest;
    let s = name + tail;
    lemma_unmarked_front(front, s);
    let end = name.len() as int;
    assert(s.subrange(0, end) =~= name);
    assert(stands(s, 0, name));
    lemma_quoted_end(s, 0, name);
    assert(s[0] == '"');
    assert(s[end] == ':');
    assert(colon_follows(s, end));
    assert(is_marked(s, 0, end));
    lemma_unmarked_shifts(s, end, end);
    assert(s.skip(end) =~= tail);
    lemma_unmarked_front(seq![':'], rest);
}

/// Any other string stays as it is.
pub proof fn law_other_strings_stay(front: Seq<char>, string: Seq<char>, rest: Seq<char>)
    requires
        forall|i: int| 0 <= i < front.len() ==> #[trigger] front[i] != '"',
        is_quoted(string),
        name_of(string) != Some("$serde_json::private::RawValue"@),
    ensures
        unmarked(front + (string + rest)) == front + (string + unmarked(rest)),
{
    let s = string + rest;
    lemma_unmarked_front(front, s);
    let end = string.len() as int;
    assert(s.subrange(0, end) =~= string);
    assert(stands(s, 0, string));
    lemma_quoted_end(s, 0, string);
    assert(s[0] == '"');
    lemma_unmarked_shifts(s, end, end);
    assert(s.skip(end) =~= rest);
}

} // verus!
