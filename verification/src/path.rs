//! File paths as Unix systems have them: text in which `/` separates names, and
//! one in front is the root.
//!
//! Two spellings of one path are the same path: repeated separators, a
//! trailing one, and `.` anywhere but in front say nothing.

use vstd::prelude::*;
use vstd::string::*;

use crate::table::{Order, Ranked};
use crate::value::{Duplicate, Same};

verus! {

/// A file path.
#[derive(Clone, Debug, PartialEq, Eq)]
pub struct FilePath {
    /// The text of it.
    pub text: String,
}

/// One step of a path, with names of type `T`.
#[derive(Clone, Debug, PartialEq, Eq)]
pub enum Part<T> {
    /// The root that an absolute path starts from.
    Root,
    /// The `.` that a relative path starts from.
    Here,
    /// The step `..`.
    Up,
    /// A name.
    Name(T),
}

/// The first separator from `at` on, or the end.
pub open spec fn next_separator(text: Seq<char>, at: int) -> int
    decreases text.len() - at,
{
    if at >= text.len() || text[at] == '/' {
        at
    } else {
        next_separator(text, at + 1)
    }
}

proof fn next_separator_lies_ahead(text: Seq<char>, at: int)
    requires
        0 <= at <= text.len(),
    ensures
        at <= next_separator(text, at) <= text.len(),
        next_separator(text, at) < text.len() ==> text[next_separator(text, at)] == '/',
        forall|i: int| at <= i < next_separator(text, at) ==> text[i] != '/',
    decreases text.len() - at,
{
    if at < text.len() && text[at] != '/' {
        next_separator_lies_ahead(text, at + 1);
    }
}

/// What lies between the separators from `at` on.
pub open spec fn pieces(text: Seq<char>, at: int) -> Seq<Seq<char>>
    decreases text.len() - at,
    when 0 <= at <= text.len()
    via pieces_end
{
    let end = next_separator(text, at);
    if end >= text.len() {
        seq![text.subrange(at, text.len() as int)]
    } else {
        seq![text.subrange(at, end)] + pieces(text, end + 1)
    }
}

#[via_fn]
proof fn pieces_end(text: Seq<char>, at: int) {
    next_separator_lies_ahead(text, at);
}

/// The step that a piece of a path makes, if it makes one.
pub open spec fn step(piece: Seq<char>) -> Option<Part<Seq<char>>> {
    if piece.len() == 0 || piece == seq!['.'] {
        None
    } else if piece == seq!['.', '.'] {
        Some(Part::Up)
    } else {
        Some(Part::Name(piece))
    }
}

/// The steps that pieces make, in order.
pub open spec fn steps(parts: Seq<Seq<char>>) -> Seq<Part<Seq<char>>>
    decreases parts.len(),
{
    if parts.len() == 0 {
        Seq::empty()
    } else {
        match step(parts.last()) {
            Some(part) => steps(parts.drop_last()).push(part),
            None => steps(parts.drop_last()),
        }
    }
}

/// The text starts from the root.
pub open spec fn absolute(text: Seq<char>) -> bool {
    text.len() > 0 && text[0] == '/'
}

/// The text starts from a `.` of its own.
pub open spec fn starts_here(text: Seq<char>) -> bool {
    text.len() > 0 && text[0] == '.' && (text.len() == 1 || text[1] == '/')
}

/// What a path starts from.
pub open spec fn start(text: Seq<char>) -> Seq<Part<Seq<char>>> {
    if absolute(text) {
        seq![Part::Root]
    } else if starts_here(text) {
        seq![Part::Here]
    } else {
        Seq::empty()
    }
}

/// A path, step by step.
pub open spec fn parts(text: Seq<char>) -> Seq<Part<Seq<char>>> {
    start(text) + steps(pieces(text, 0))
}

proof fn steps_of_both(left: Seq<Seq<char>>, right: Seq<Seq<char>>)
    ensures
        steps(left + right) == steps(left) + steps(right),
    decreases right.len(),
{
    if right.len() == 0 {
        assert(left + right =~= left);
        assert(steps(left) + steps(right) =~= steps(left));
    } else {
        assert((left + right).drop_last() =~= left + right.drop_last());
        assert((left + right).last() == right.last());
        steps_of_both(left, right.drop_last());
        assert(steps(left + right) =~= steps(left) + steps(right));
    }
}

/// Two texts with a separator between them have the pieces of both.
proof fn pieces_of_both(left: Seq<char>, right: Seq<char>, at: int)
    requires
        0 <= at <= left.len(),
    ensures
        pieces(left + seq!['/'] + right, at) == pieces(left, at) + pieces(right, 0),
    decreases left.len() - at,
{
    let whole = left + seq!['/'] + right;
    next_separator_within(left, right, at);
    next_separator_lies_ahead(left, at);
    let end = next_separator(left, at);
    assert(whole.subrange(at, end) =~= left.subrange(at, end));
    if end < left.len() {
        pieces_of_both(left, right, end + 1);
        assert(pieces(whole, at) =~= pieces(left, at) + pieces(right, 0));
    } else {
        pieces_shift(left + seq!['/'], right, 0);
        assert(left + seq!['/'] + right =~= whole);
        assert(pieces(whole, at) =~= pieces(left, at) + pieces(right, 0));
    }
}

proof fn next_separator_within(left: Seq<char>, right: Seq<char>, at: int)
    requires
        0 <= at <= left.len(),
    ensures
        next_separator(left + seq!['/'] + right, at) == next_separator(left, at),
    decreases left.len() - at,
{
    if at < left.len() && left[at] != '/' {
        next_separator_within(left, right, at + 1);
    }
}

proof fn next_separator_shift(left: Seq<char>, right: Seq<char>, at: int)
    requires
        0 <= at <= right.len(),
    ensures
        next_separator(left + right, left.len() + at) == left.len() + next_separator(right, at),
    decreases right.len() - at,
{
    if at < right.len() && right[at] != '/' {
        next_separator_shift(left, right, at + 1);
    }
}

proof fn pieces_shift(left: Seq<char>, right: Seq<char>, at: int)
    requires
        0 <= at <= right.len(),
    ensures
        pieces(left + right, left.len() + at) == pieces(right, at),
    decreases right.len() - at,
{
    next_separator_shift(left, right, at);
    next_separator_lies_ahead(right, at);
    let end = next_separator(right, at);
    let whole = left + right;
    assert(whole.subrange(left.len() + at, left.len() + end) =~= right.subrange(at, end));
    if end < right.len() {
        pieces_shift(left, right, end + 1);
    }
}

impl View for FilePath {
    type V = Seq<Part<Seq<char>>>;

    /// The path, step by step.
    open spec fn view(&self) -> Seq<Part<Seq<char>>> {
        parts(self.text@)
    }
}

impl View for Part<String> {
    type V = Part<Seq<char>>;

    open spec fn view(&self) -> Part<Seq<char>> {
        match *self {
            Part::Root => Part::Root,
            Part::Here => Part::Here,
            Part::Up => Part::Up,
            Part::Name(name) => Part::Name(name@),
        }
    }
}

/// The letters of a text.
fn letters(text: &str) -> (r: Vec<char>)
    ensures
        r@ == text@,
{
    let mut found: Vec<char> = Vec::new();
    for letter in iter: text.chars()
        invariant
            iter.seq() == text@,
            found@ == text@.take(iter.index()),
    {
        found.push(letter);
        assert(found@ =~= text@.take(iter.index() + 1));
    }
    assert(found@ =~= text@);
    found
}

/// The steps read out.
pub open spec fn read(list: Seq<Part<String>>) -> Seq<Part<Seq<char>>> {
    list.map_values(|part: Part<String>| part@)
}

/// A name that makes one step: no separator in it, and neither dot.
pub open spec fn plain(name: Seq<char>) -> bool {
    &&& name.len() > 0
    &&& forall|i: int| 0 <= i < name.len() ==> name[i] != '/'
    &&& name != seq!['.']
    &&& name != seq!['.', '.']
}

/// A step that is no start.
pub open spec fn onward(part: Part<Seq<char>>) -> bool {
    match part {
        Part::Up => true,
        Part::Name(name) => plain(name),
        _ => false,
    }
}

/// Pieces hold no separators.
proof fn pieces_hold_no_separator(text: Seq<char>, at: int)
    requires
        0 <= at <= text.len(),
    ensures
        forall|i: int, j: int|
            #![trigger pieces(text, at)[i][j]]
            0 <= i < pieces(text, at).len() && 0 <= j < pieces(text, at)[i].len() ==> pieces(
                text,
                at,
            )[i][j] != '/',
    decreases text.len() - at,
{
    next_separator_lies_ahead(text, at);
    let end = next_separator(text, at);
    if end < text.len() {
        pieces_hold_no_separator(text, end + 1);
        let rest = pieces(text, end + 1);
        assert forall|i: int, j: int|
            #![trigger pieces(text, at)[i][j]]
            0 <= i < pieces(text, at).len() && 0 <= j < pieces(text, at)[i].len() implies pieces(
            text,
            at,
        )[i][j] != '/' by {
            if i > 0 {
                assert(pieces(text, at)[i] == rest[i - 1]);
                assert(rest[i - 1][j] != '/');
            }
        }
    }
}

proof fn steps_go_onward(list: Seq<Seq<char>>)
    requires
        forall|i: int, j: int|
            #![trigger list[i][j]]
            0 <= i < list.len() && 0 <= j < list[i].len() ==> list[i][j] != '/',
    ensures
        forall|i: int| 0 <= i < steps(list).len() ==> onward(#[trigger] steps(list)[i]),
    decreases list.len(),
{
    if list.len() > 0 {
        let shorter = list.drop_last();
        assert forall|i: int, j: int|
            #![trigger shorter[i][j]]
            0 <= i < shorter.len() && 0 <= j < shorter[i].len() implies shorter[i][j] != '/' by {
            assert(list[i][j] != '/');
        }
        steps_go_onward(shorter);
        let last = list.last();
        assert forall|j: int| 0 <= j < last.len() implies last[j] != '/' by {
            assert(list[list.len() - 1][j] != '/');
        }
        assert forall|i: int| 0 <= i < steps(list).len() implies onward(
            #[trigger] steps(list)[i],
        ) by {
            if i < steps(shorter).len() {
                assert(steps(list)[i] == steps(shorter)[i]);
            }
        }
    }
}

/// What follows the start of a path only goes onward.
pub proof fn paths_go_onward(text: Seq<char>)
    ensures
        forall|i: int|
            start(text).len() <= i < parts(text).len() ==> onward(#[trigger] parts(text)[i]),
{
    pieces_hold_no_separator(text, 0);
    steps_go_onward(pieces(text, 0));
    assert forall|i: int| start(text).len() <= i < parts(text).len() implies onward(
        #[trigger] parts(text)[i],
    ) by {
        assert(parts(text)[i] == steps(pieces(text, 0))[i - start(text).len()]);
    }
}

/// The text of one step.
pub open spec fn step_text(part: Part<Seq<char>>) -> Seq<char> {
    match part {
        Part::Root => "/"@,
        Part::Here => "."@,
        Part::Up => ".."@,
        Part::Name(name) => name,
    }
}

/// The text that steps onward have, with a separator between each two.
pub open spec fn spelled(list: Seq<Part<Seq<char>>>) -> Seq<char>
    decreases list.len(),
{
    if list.len() == 0 {
        Seq::empty()
    } else if list.len() == 1 {
        step_text(list[0])
    } else {
        spelled(list.drop_last()) + "/"@ + step_text(list.last())
    }
}

/// An empty text makes no step.
proof fn nothing_makes_no_step()
    ensures
        pieces(Seq::<char>::empty(), 0) == seq![Seq::<char>::empty()],
        steps(pieces(Seq::<char>::empty(), 0)) == Seq::<Part<Seq<char>>>::empty(),
        parts(Seq::<char>::empty()) == Seq::<Part<Seq<char>>>::empty(),
{
    let text = Seq::<char>::empty();
    assert(text.subrange(0, 0) =~= text);
    assert(pieces(text, 0) =~= seq![text]);
    assert(seq![text].drop_last() =~= Seq::<Seq<char>>::empty());
    reveal_with_fuel(steps, 2);
    assert(parts(text) =~= Seq::<Part<Seq<char>>>::empty());
}

/// One step's text is one piece, and makes that step.
proof fn step_text_makes_the_step(part: Part<Seq<char>>)
    requires
        onward(part),
    ensures
        pieces(step_text(part), 0) == seq![step_text(part)],
        step(step_text(part)) == Some(part),
        step_text(part).len() > 0,
        !absolute(step_text(part)),
        !starts_here(step_text(part)),
{
    reveal_strlit("..");
    let text = step_text(part);
    next_separator_lies_ahead(text, 0);
    let end = next_separator(text, 0);
    assert(text.subrange(0, text.len() as int) =~= text);
    if part == Part::<Seq<char>>::Up {
        assert(text =~= seq!['.', '.']);
    }
    if end < text.len() {
        assert(text[end] == '/');
    }
    if starts_here(text) {
        if text.len() == 1 {
            assert(text =~= seq!['.']);
        } else {
            assert(text[1] == '/');
        }
    }
}

/// Steps onward, spelled and read again, are the same steps.
pub proof fn spelling_reads_back(list: Seq<Part<Seq<char>>>)
    requires
        forall|i: int| 0 <= i < list.len() ==> onward(#[trigger] list[i]),
    ensures
        parts(spelled(list)) == list,
        !absolute(spelled(list)),
        !starts_here(spelled(list)),
        list.len() > 0 ==> spelled(list).len() > 0,
        steps(pieces(spelled(list), 0)) == list,
    decreases list.len(),
{
    reveal_strlit("/");
    let text = spelled(list);
    if list.len() == 0 {
        nothing_makes_no_step();
        assert(parts(text) =~= list);
    } else if list.len() == 1 {
        step_text_makes_the_step(list[0]);
        let one = pieces(text, 0);
        assert(one.drop_last() =~= Seq::empty());
        assert(one.last() == text);
        reveal_with_fuel(steps, 2);
        assert(steps(one) =~= seq![list[0]]);
        assert(parts(text) =~= list);
    } else {
        let front = list.drop_last();
        let last = step_text(list.last());
        assert forall|i: int| 0 <= i < front.len() implies onward(#[trigger] front[i]) by {
            assert(front[i] == list[i]);
        }
        spelling_reads_back(front);
        step_text_makes_the_step(list.last());
        let before = spelled(front);
        assert("/"@ =~= seq!['/']);
        assert(text == before + seq!['/'] + last);
        pieces_of_both(before, last, 0);
        steps_of_both(pieces(before, 0), pieces(last, 0));
        assert(pieces(last, 0).drop_last() =~= Seq::empty());
        reveal_with_fuel(steps, 2);
        assert(steps(pieces(last, 0)) =~= seq![list.last()]);
        assert(steps(pieces(text, 0)) =~= list);
        assert(text[0] == before[0]);
        if starts_here(text) {
            if before.len() == 1 {
                assert(before =~= seq!['.']);
            } else {
                assert(text[1] == before[1]);
            }
        }
        assert(parts(text) =~= list);
    }
}

impl FilePath {
    /// The path with this text.
    pub fn new(text: String) -> (r: FilePath)
        ensures
            r.text == text,
    {
        FilePath { text }
    }

    /// Whether there is no text.
    pub fn is_empty(&self) -> (r: bool)
        ensures
            r == (self.text@.len() == 0),
    {
        self.text.as_str().is_empty()
    }

    /// Whether the path starts from the root.
    pub fn is_absolute(&self) -> (r: bool)
        ensures
            r == absolute(self.text@),
    {
        let text = self.text.as_str();
        !text.is_empty() && text.get_char(0) == '/'
    }

    /// The path, step by step.
    pub fn components(&self) -> (r: Vec<Part<String>>)
        ensures
            read(r@) == self@,
    {
        let text = letters(self.text.as_str());
        let mut found: Vec<Part<String>> = Vec::new();
        if text.len() > 0 && text[0] == '/' {
            found.push(Part::Root);
        } else if text.len() > 0 && text[0] == '.' && (text.len() == 1 || text[1] == '/') {
            found.push(Part::Here);
        }
        assert(read(found@) =~= start(text@));
        let mut at: usize = 0;
        let mut end: usize = 0;
        assert(read(found@) + steps(pieces(text@, 0)) == self@);
        loop
            invariant
                text@ == self.text@,
                at <= text@.len(),
                read(found@) + steps(pieces(text@, at as int)) == self@,
            decreases text@.len() - at,
        {
            proof {
                next_separator_lies_ahead(text@, at as int);
            }
            end = at;
            while end < text.len() && text[end] != '/'
                invariant
                    at <= end <= text@.len(),
                    next_separator(text@, at as int) == next_separator(text@, end as int),
                decreases text@.len() - end,
            {
                end = end + 1;
            }
            let ghost piece = text@.subrange(at as int, end as int);
            let ghost rest = if end < text@.len() {
                pieces(text@, end + 1)
            } else {
                Seq::empty()
            };
            let ghost before = found@;
            proof {
                assert(pieces(text@, at as int) =~= seq![piece] + rest);
                steps_of_both(seq![piece], rest);
                assert(seq![piece].drop_last() =~= Seq::empty());
                reveal_with_fuel(steps, 2);
            }
            let size: usize = end - at;
            if size == 0 || (size == 1 && text[at] == '.') {
                proof {
                    assert(size == 1 ==> piece =~= seq!['.']);
                    assert(steps(seq![piece]) =~= Seq::empty());
                    assert(read(found@) + steps(rest) =~= self@);
                }
            } else if size == 2 && text[at] == '.' && text[at + 1] == '.' {
                found.push(Part::Up);
                proof {
                    assert(piece =~= seq!['.', '.']);
                    assert(steps(seq![piece]) =~= seq![Part::Up]);
                    assert(read(found@) =~= read(before).push(Part::Up));
                    assert(read(found@) + steps(rest) =~= self@);
                }
            } else {
                let name = self.text.as_str().substring_char(at, end).to_owned();
                found.push(Part::Name(name));
                proof {
                    if piece == seq!['.'] {
                        assert(piece[0] == '.');
                    }
                    if piece == seq!['.', '.'] {
                        assert(piece[0] == '.' && piece[1] == '.');
                    }
                    assert(steps(seq![piece]) =~= seq![Part::Name(piece)]);
                    assert(read(found@) =~= read(before).push(Part::Name(piece)));
                    assert(read(found@) + steps(rest) =~= self@);
                }
            }
            if end == text.len() {
                assert(read(found@) =~= self@);
                return found;
            }
            at = end + 1;
        }
    }

    /// The text of `path` under `base`.
    pub open spec fn under(base: Seq<char>, path: Seq<char>) -> Seq<char> {
        if absolute(path) {
            path
        } else if base.len() == 0 || base.last() == '/' {
            base + path
        } else {
            base + "/"@ + path
        }
    }

    /// The path `other`, taken from this one unless it is absolute.
    pub fn join(&self, other: &FilePath) -> (r: FilePath)
        ensures
            r.text@ == FilePath::under(self.text@, other.text@),
    {
        if other.is_absolute() {
            return FilePath { text: other.text.clone() };
        }
        let base = self.text.as_str();
        let size: usize = base.unicode_len();
        let mut text = self.text.clone();
        if size > 0 && base.get_char(size - 1) != '/' {
            text.append("/");
        }
        text.append(other.text.as_str());
        FilePath { text }
    }

    /// What is left of the path when `base` is taken off its front, if it
    /// starts with `base`, step by step.
    pub fn strip_prefix(&self, base: &FilePath) -> (r: Option<FilePath>)
        ensures
            r is Some == base@.is_prefix_of(self@),
            r matches Some(rest) ==> base@ + rest@ == self@ && (base@.len() > 0 ==> !absolute(
                rest.text@,
            ) && !starts_here(rest.text@)),
    {
        let whole = self.components();
        let front = base.components();
        assert(base@.len() == front@.len() && self@.len() == whole@.len());
        if front.len() > whole.len() {
            return None;
        }
        let mut at: usize = 0;
        while at < front.len()
            invariant
                at <= front@.len() <= whole@.len(),
                read(whole@) == self@,
                read(front@) == base@,
                forall|i: int| 0 <= i < at ==> #[trigger] base@[i] == self@[i],
            decreases front@.len() - at,
        {
            assert(read(front@)[at as int] == front@[at as int]@);
            assert(read(whole@)[at as int] == whole@[at as int]@);
            if !same_part(&front[at], &whole[at]) {
                assert(base@[at as int] != self@[at as int]);
                return None;
            }
            at = at + 1;
        }
        assert(base@ =~= self@.take(base@.len() as int));
        if front.len() == 0 {
            assert(base@ + self@ =~= self@);
            return Some(FilePath { text: self.text.clone() });
        }
        let ghost rest = self@.skip(at as int);
        proof {
            paths_go_onward(self.text@);
            assert forall|i: int| 0 <= i < rest.len() implies onward(#[trigger] rest[i]) by {
                assert(rest[i] == parts(self.text@)[at + i]);
            }
            spelling_reads_back(rest);
        }
        let mut text = String::new();
        let start: usize = at;
        while at < whole.len()
            invariant
                start <= at <= whole@.len(),
                read(whole@) == self@,
                rest == self@.skip(start as int),
                text@ == spelled(rest.take(at - start)),
            decreases whole@.len() - at,
        {
            proof {
                assert(rest.take(at - start + 1).drop_last() =~= rest.take(at - start));
                assert(rest.take(at - start + 1).last() == self@[at as int]);
                assert(read(whole@)[at as int] == whole@[at as int]@);
            }
            if at > start {
                text.append("/");
            }
            match &whole[at] {
                Part::Root => text.append("/"),
                Part::Here => text.append("."),
                Part::Up => text.append(".."),
                Part::Name(name) => text.append(name.as_str()),
            }
            proof {
                if at == start {
                    assert(text@ =~= step_text(self@[at as int]));
                }
                assert(text@ =~= spelled(rest.take(at - start + 1)));
            }
            at = at + 1;
        }
        assert(rest.take(rest.len() as int) =~= rest);
        assert(base@ + rest =~= self@);
        Some(FilePath { text })
    }
}

fn same_part(left: &Part<String>, right: &Part<String>) -> (r: bool)
    ensures
        r == (left@ == right@),
{
    match (left, right) {
        (Part::Root, Part::Root) => true,
        (Part::Here, Part::Here) => true,
        (Part::Up, Part::Up) => true,
        (Part::Name(left), Part::Name(right)) => *left == *right,
        _ => false,
    }
}

impl Duplicate for FilePath {
    fn duplicate(&self) -> (r: FilePath) {
        FilePath { text: self.text.clone() }
    }
}

impl Same for FilePath {
    open spec fn same(self, other: FilePath) -> bool {
        self@ == other@
    }

    fn is_same(&self, other: &FilePath) -> (r: bool) {
        let left = self.components();
        let right = other.components();
        assert(self@.len() == left@.len() && other@.len() == right@.len());
        if left.len() != right.len() {
            return false;
        }
        for i in 0..left.len()
            invariant
                left@.len() == right@.len(),
                read(left@) == self@,
                read(right@) == other@,
                forall|j: int| 0 <= j < i ==> #[trigger] self@[j] == other@[j],
        {
            assert(read(left@)[i as int] == left@[i as int]@);
            assert(read(right@)[i as int] == right@[i as int]@);
            if !same_part(&left[i], &right[i]) {
                return false;
            }
        }
        assert(self@ =~= other@);
        true
    }

    proof fn same_chains(self, middle: FilePath, last: FilePath) {
    }
}

/// Taking `base` off a path and putting it back in front gives the same
/// path.
pub proof fn stripping_is_undone(base: Seq<char>, rest: Seq<char>, path: Seq<char>)
    requires
        parts(base) + parts(rest) == parts(path),
        parts(base).len() > 0,
        !starts_here(rest),
        !absolute(rest),
    ensures
        parts(FilePath::under(base, rest)) == parts(path),
{
    if base.len() == 0 {
        nothing_makes_no_step();
        assert(base =~= Seq::<char>::empty());
    }
    joining_adds_steps(base, rest);
    assert(parts(base) + steps(pieces(rest, 0)) =~= parts(path));
}

/// A relative path taken from `base` makes the steps of both.
pub proof fn joining_adds_steps(base: Seq<char>, path: Seq<char>)
    requires
        base.len() > 0,
        !absolute(path),
    ensures
        parts(FilePath::under(base, path)) == parts(base) + steps(pieces(path, 0)),
{
    reveal_strlit("/");
    assert("/"@ =~= seq!['/']);
    let text = FilePath::under(base, path);
    let head = if base.last() == '/' {
        base.drop_last()
    } else {
        base
    };
    assert(text =~= head + seq!['/'] + path);
    pieces_of_both(head, path, 0);
    steps_of_both(pieces(head, 0), pieces(path, 0));
    if base.last() == '/' {
        assert(base =~= head + seq!['/'] + Seq::<char>::empty());
        pieces_of_both(head, Seq::empty(), 0);
        nothing_makes_no_step();
        steps_of_both(pieces(head, 0), pieces(Seq::<char>::empty(), 0));
        assert(steps(pieces(base, 0)) =~= steps(pieces(head, 0)));
    }
    assert(text[0] == base[0]);
    if base.len() > 1 {
        assert(text[1] == base[1]);
    } else if base[0] == '.' {
        assert(text[1] == '/');
    }
    assert(start(text) =~= start(base));
    assert(parts(text) =~= parts(base) + steps(pieces(path, 0)));
}

/// A path is read step by step: behind a separator, a name is a step to it, two dots are
/// a step up, and nothing or a single dot is no step at all.
pub proof fn paths_are_read_step_by_step(text: Seq<char>, piece: Seq<char>)
    requires
        text.len() > 0,
        forall|i: int| 0 <= i < piece.len() ==> piece[i] != '/',
    ensures
        piece.len() == 0 || piece == seq!['.'] ==> parts(text + seq!['/'] + piece) == parts(text),
        piece == seq!['.', '.'] ==> parts(text + seq!['/'] + piece) == parts(text).push(Part::Up),
        plain(piece) ==> parts(text + seq!['/'] + piece) == parts(text).push(Part::Name(piece)),
{
    let whole = text + seq!['/'] + piece;
    pieces_of_both(text, piece, 0);
    steps_of_both(pieces(text, 0), pieces(piece, 0));
    single_pieces_stand_alone(piece);
    assert(start(whole) == start(text));
    if piece.len() == 0 || piece == seq!['.'] {
        assert(parts(whole) == parts(text));
    } else if piece == seq!['.', '.'] {
        assert(parts(whole) == parts(text).push(Part::Up));
    } else {
        assert(parts(whole) == parts(text).push(Part::Name(piece)));
    }
}

/// A path of one piece is its step: nothing is no step, a separator is the root, a dot is
/// where one stands, two dots are one up, and any other piece is a name.
pub proof fn paths_start_somewhere(piece: Seq<char>)
    requires
        forall|i: int| 0 <= i < piece.len() ==> piece[i] != '/',
    ensures
        parts(Seq::empty()) == Seq::<Part<Seq<char>>>::empty(),
        parts(seq!['/'] + piece) == seq![Part::<Seq<char>>::Root] + (if plain(piece) {
            seq![Part::Name(piece)]
        } else if piece == seq!['.', '.'] {
            seq![Part::Up]
        } else {
            seq![]
        }),
        piece == seq!['.'] ==> parts(piece) == seq![Part::<Seq<char>>::Here],
        piece == seq!['.', '.'] ==> parts(piece) == seq![Part::<Seq<char>>::Up],
        plain(piece) ==> parts(piece) == seq![Part::Name(piece)],
{
    nothing_makes_no_step();
    single_pieces_stand_alone(piece);
    let none = Seq::<char>::empty();
    assert(none + seq!['/'] + piece =~= seq!['/'] + piece);
    pieces_of_both(none, piece, 0);
    steps_of_both(pieces(none, 0), pieces(piece, 0));
    if plain(piece) {
        if piece.len() == 1 {
            assert(piece[0] != '.') by {
                if piece[0] == '.' {
                    assert(piece =~= seq!['.']);
                }
            }
        }
    }
}

/// A text without separators is one piece.
proof fn single_pieces_stand_alone(piece: Seq<char>)
    requires
        forall|i: int| 0 <= i < piece.len() ==> piece[i] != '/',
    ensures
        pieces(piece, 0) == seq![piece],
        steps(pieces(piece, 0)) == match step(piece) {
            Some(part) => seq![part],
            None => seq![],
        },
{
    next_separator_lies_ahead(piece, 0);
    assert(piece.subrange(0, piece.len() as int) =~= piece);
    assert(seq![piece].drop_last() =~= Seq::<Seq<char>>::empty());
    reveal_with_fuel(steps, 2);
}

/// Where a step stands among the kinds of step.
pub open spec fn rank(part: Part<Seq<char>>) -> int {
    match part {
        Part::Root => 0,
        Part::Here => 1,
        Part::Up => 2,
        Part::Name(_) => 3,
    }
}

/// The order of steps: by kind, and names by their bytes.
pub open spec fn part_precedes(a: Part<Seq<char>>, b: Part<Seq<char>>) -> bool {
    match (a, b) {
        (Part::Name(left), Part::Name(right)) => String::precedes(left, right),
        _ => rank(a) < rank(b),
    }
}

/// From step `at` on, the first difference between the two, or the shorter
/// of them ending, puts `a` first.
pub open spec fn parts_precede(
    a: Seq<Part<Seq<char>>>,
    b: Seq<Part<Seq<char>>>,
    at: int,
) -> bool
    decreases a.len() - at,
{
    if at >= b.len() {
        false
    } else if at >= a.len() {
        true
    } else if a[at] != b[at] {
        part_precedes(a[at], b[at])
    } else {
        parts_precede(a, b, at + 1)
    }
}

proof fn parts_precede_not_itself(a: Seq<Part<Seq<char>>>, at: int)
    ensures
        !parts_precede(a, a, at),
    decreases a.len() - at,
{
    if at < a.len() {
        parts_precede_not_itself(a, at + 1);
    }
}

proof fn part_precedes_strictly(
    a: Part<Seq<char>>,
    b: Part<Seq<char>>,
    c: Part<Seq<char>>,
)
    ensures
        !part_precedes(a, a),
        part_precedes(a, b) && part_precedes(b, c) ==> part_precedes(a, c),
        a != b ==> part_precedes(a, b) || part_precedes(b, a),
{
    if let Part::Name(first) = a {
        String::never_precedes_itself(first);
        if let Part::Name(second) = b {
            if first != second {
                String::precedes_one_way(first, second);
            }
            if let Part::Name(third) = c {
                if part_precedes(a, b) && part_precedes(b, c) {
                    String::precedes_transitively(first, second, third);
                }
            }
        }
    }
}

proof fn parts_precede_transitively(
    a: Seq<Part<Seq<char>>>,
    b: Seq<Part<Seq<char>>>,
    c: Seq<Part<Seq<char>>>,
    at: int,
)
    requires
        parts_precede(a, b, at),
        parts_precede(b, c, at),
    ensures
        parts_precede(a, c, at),
    decreases a.len() - at,
{
    if at < a.len() && at < c.len() {
        if a[at] == b[at] && b[at] == c[at] {
            parts_precede_transitively(a, b, c, at + 1);
        } else {
            part_precedes_strictly(a[at], b[at], c[at]);
            if a[at] == c[at] {
                part_precedes_strictly(b[at], a[at], b[at]);
            }
        }
    }
}

proof fn parts_precede_one_way(a: Seq<Part<Seq<char>>>, b: Seq<Part<Seq<char>>>, at: int)
    requires
        0 <= at <= a.len(),
        at <= b.len(),
        forall|i: int| 0 <= i < at ==> a[i] == b[i],
        a != b,
    ensures
        parts_precede(a, b, at) || parts_precede(b, a, at),
    decreases a.len() - at,
{
    if at < a.len() && at < b.len() {
        if a[at] == b[at] {
            parts_precede_one_way(a, b, at + 1);
        } else {
            part_precedes_strictly(a[at], b[at], a[at]);
        }
    } else if at == a.len() && at == b.len() {
        assert(a =~= b);
    }
}

fn order_parts(left: &Part<String>, right: &Part<String>) -> (r: Order)
    ensures
        match r {
            Order::Less => part_precedes(left@, right@) && left@ != right@,
            Order::Equal => left@ == right@,
            Order::Greater => part_precedes(right@, left@) && left@ != right@,
        },
{
    proof {
        part_precedes_strictly(left@, right@, left@);
        part_precedes_strictly(right@, left@, right@);
    }
    match (left, right) {
        (Part::Name(left), Part::Name(right)) => left.order(right),
        (Part::Root, Part::Root) | (Part::Here, Part::Here) | (Part::Up, Part::Up) => Order::Equal,
        (Part::Root, _) => Order::Less,
        (_, Part::Root) => Order::Greater,
        (Part::Here, _) => Order::Less,
        (_, Part::Here) => Order::Greater,
        (Part::Up, _) => Order::Less,
        (_, Part::Up) => Order::Greater,
    }
}

impl Ranked for FilePath {
    /// The order of the steps, the first difference deciding.
    open spec fn precedes(a: Seq<Part<Seq<char>>>, b: Seq<Part<Seq<char>>>) -> bool {
        parts_precede(a, b, 0)
    }

    proof fn never_precedes_itself(a: Seq<Part<Seq<char>>>) {
        parts_precede_not_itself(a, 0);
    }

    proof fn precedes_transitively(
        a: Seq<Part<Seq<char>>>,
        b: Seq<Part<Seq<char>>>,
        c: Seq<Part<Seq<char>>>,
    ) {
        parts_precede_transitively(a, b, c, 0);
    }

    proof fn precedes_one_way(a: Seq<Part<Seq<char>>>, b: Seq<Part<Seq<char>>>) {
        parts_precede_one_way(a, b, 0);
    }

    fn order(&self, other: &FilePath) -> (r: Order) {
        let left = self.components();
        let right = other.components();
        assert(self@.len() == left@.len() && other@.len() == right@.len());
        let mut at: usize = 0;
        while at < left.len() && at < right.len()
            invariant
                at <= left@.len(),
                at <= right@.len(),
                read(left@) == self@,
                read(right@) == other@,
                forall|i: int| 0 <= i < at ==> self@[i] == other@[i],
                parts_precede(self@, other@, 0) == parts_precede(self@, other@, at as int),
                parts_precede(other@, self@, 0) == parts_precede(other@, self@, at as int),
            decreases left@.len() - at,
        {
            assert(read(left@)[at as int] == left@[at as int]@);
            assert(read(right@)[at as int] == right@[at as int]@);
            match order_parts(&left[at], &right[at]) {
                Order::Less => {
                    return Order::Less;
                },
                Order::Greater => {
                    return Order::Greater;
                },
                Order::Equal => {},
            }
            at = at + 1;
        }
        if left.len() < right.len() {
            Order::Less
        } else if right.len() < left.len() {
            Order::Greater
        } else {
            assert(self@ =~= other@);
            Order::Equal
        }
    }
}

/// Steps as a path can make them: a start only in front.
pub open spec fn well_formed(list: Seq<Part<Seq<char>>>) -> bool {
    forall|i: int|
        0 <= i < list.len() ==> onward(#[trigger] list[i]) || (i == 0 && !(list[0] is Up)
            && !(list[0] is Name))
}

/// The steps of any text are well formed.
proof fn parts_are_well_formed(text: Seq<char>)
    ensures
        well_formed(parts(text)),
{
    paths_go_onward(text);
}

/// The name that steps end in, if they end in one.
pub open spec fn last_name(list: Seq<Part<Seq<char>>>) -> Option<Seq<char>> {
    if list.len() == 0 {
        None
    } else {
        match list.last() {
            Part::Name(name) => Some(name),
            _ => None,
        }
    }
}

/// The last dot of a name at or before `at`, or nothing where there is none
/// behind the first letter.
pub open spec fn last_dot(name: Seq<char>, at: int) -> Option<int>
    decreases at,
{
    if at <= 0 {
        None
    } else if name[at] == '.' {
        Some(at)
    } else {
        last_dot(name, at - 1)
    }
}

/// What follows the last dot of a name; a dot in front hides the file and
/// starts no extension.
pub open spec fn extension_of(name: Seq<char>) -> Option<Seq<char>> {
    match last_dot(name, name.len() - 1) {
        Some(at) => Some(name.skip(at + 1)),
        None => None,
    }
}

/// The steps with `suffix` at the end of the last name, or as a name of its
/// own where they end in none.
pub open spec fn suffixed(list: Seq<Part<Seq<char>>>, suffix: Seq<char>) -> Seq<Part<Seq<char>>> {
    match last_name(list) {
        Some(name) => list.drop_last().push(Part::Name(name + suffix)),
        None => list.push(Part::Name(suffix)),
    }
}

impl FilePath {
    /// The path that makes these steps.
    pub fn from_parts(list: &Vec<Part<String>>) -> (r: FilePath)
        requires
            well_formed(read(list@)),
        ensures
            r@ == read(list@),
    {
        let ghost whole = read(list@);
        let mut text = String::new();
        let mut at: usize = 0;
        let mut base = String::new();
        if list.len() > 0 {
            assert(whole[0] == list@[0]@);
            match &list[0] {
                Part::Root => {
                    base.append("/");
                    at = 1;
                },
                Part::Here => {
                    base.append(".");
                    at = 1;
                },
                _ => {},
            }
        }
        let start: usize = at;
        let ghost rest = whole.skip(start as int);
        while at < list.len()
            invariant
                start <= at <= list@.len(),
                whole == read(list@),
                rest == whole.skip(start as int),
                text@ == spelled(rest.take(at - start)),
            decreases list@.len() - at,
        {
            proof {
                assert(rest.take(at - start + 1).drop_last() =~= rest.take(at - start));
                assert(rest.take(at - start + 1).last() == whole[at as int]);
                assert(whole[at as int] == list@[at as int]@);
            }
            if at > start {
                text.append("/");
            }
            match &list[at] {
                Part::Root => text.append("/"),
                Part::Here => text.append("."),
                Part::Up => text.append(".."),
                Part::Name(name) => text.append(name.as_str()),
            }
            proof {
                if at == start {
                    assert(text@ =~= step_text(whole[at as int]));
                }
                assert(text@ =~= spelled(rest.take(at - start + 1)));
            }
            at = at + 1;
        }
        proof {
            assert(rest.take(rest.len() as int) =~= rest);
            assert forall|i: int| 0 <= i < rest.len() implies onward(#[trigger] rest[i]) by {
                assert(rest[i] == whole[start + i]);
            }
            spelling_reads_back(rest);
            reveal_strlit("/");
            reveal_strlit(".");
            if start == 0 {
                assert(rest =~= whole);
            } else {
                assert(base@.len() == 1);
                joining_adds_steps(base@, text@);
                let one = base@;
                reveal_with_fuel(pieces, 3);
                reveal_with_fuel(next_separator, 3);
                reveal_with_fuel(steps, 3);
                if one[0] == '/' {
                    assert(one.subrange(0, 0) =~= Seq::<char>::empty());
                    assert(one.subrange(1, 1) =~= Seq::<char>::empty());
                    assert(pieces(one, 1) =~= seq![Seq::<char>::empty()]);
                    assert(pieces(one, 0) =~= seq![Seq::<char>::empty(), Seq::<char>::empty()]);
                    assert(pieces(one, 0).drop_last() =~= seq![Seq::<char>::empty()]);
                    assert(pieces(one, 0).drop_last().drop_last() =~= Seq::empty());
                } else {
                    assert(one.subrange(0, 1) =~= seq!['.']);
                    assert(pieces(one, 0) =~= seq![seq!['.']]);
                    assert(pieces(one, 0).drop_last() =~= Seq::empty());
                }
                assert(parts(one) =~= seq![whole[0]]);
                assert(seq![whole[0]] + rest =~= whole);
            }
        }
        if start == 0 {
            FilePath { text }
        } else {
            FilePath { text: base }.join(&FilePath { text })
        }
    }

    /// The name that the path ends in, if it ends in one.
    pub fn file_name(&self) -> (r: Option<String>)
        ensures
            r is Some == last_name(self@) is Some,
            r matches Some(name) ==> last_name(self@) == Some(name@),
    {
        let mut list = self.components();
        assert(self@.len() == list@.len());
        match list.pop() {
            Some(Part::Name(name)) => {
                assert(read(list@.push(Part::Name(name)))[list@.len() as int] == Part::Name(name@));
                Some(name)
            },
            _ => None,
        }
    }

    /// What follows the last dot of the name that the path ends in.
    pub fn extension(&self) -> (r: Option<String>)
        ensures
            (match r {
                Some(found) => Some(found@),
                None => None,
            }) == (match last_name(self@) {
                Some(name) => extension_of(name),
                None => None,
            }),
    {
        match self.file_name() {
            None => None,
            Some(name) => {
                let size: usize = name.as_str().unicode_len();
                let mut at: usize = size;
                while at > 1
                    invariant
                        at <= size == name@.len(),
                        last_name(self@) == Some(name@),
                        last_dot(name@, at - 1) == last_dot(name@, size - 1),
                    decreases at,
                {
                    if name.as_str().get_char(at - 1) == '.' {
                        let found = name.as_str().substring_char(at, size).to_owned();
                        assert(found@ =~= name@.skip(at as int));
                        return Some(found);
                    }
                    at = at - 1;
                }
                None
            },
        }
    }

    /// The path with `suffix` at the end of its last name, or as a name of its
    /// own where it ends in none.
    pub fn with_suffix(&self, suffix: &str) -> (r: FilePath)
        requires
            plain(suffix@),
        ensures
            r@ == suffixed(self@, suffix@),
    {
        let mut list = self.components();
        proof {
            parts_are_well_formed(self.text@);
        }
        let name = self.file_name();
        let ghost before = list@;
        assert(read(before) == self@);
        match name {
            Some(mut name) => {
                let ghost stem = name@;
                assert(self@.last() == Part::Name(stem));
                assert(onward(self@[self@.len() - 1]));
                name.append(suffix);
                list.pop();
                list.push(Part::Name(name));
                proof {
                    let last = stem + suffix@;
                    assert(last[0] == stem[0]);
                    assert forall|i: int| 0 <= i < last.len() implies last[i] != '/' by {
                        if i >= stem.len() {
                            assert(last[i] == suffix@[i - stem.len()]);
                        }
                    }
                    if last == seq!['.'] || last == seq!['.', '.'] {
                        if stem.len() == 1 {
                            assert(stem =~= seq!['.']);
                        }
                    }
                    assert(plain(last));
                    assert(read(list@) =~= suffixed(self@, suffix@));
                    assert forall|i: int| 0 <= i < read(list@).len() implies onward(
                        #[trigger] read(list@)[i],
                    ) || (i == 0 && !(read(list@)[0] is Up) && !(read(list@)[0] is Name)) by {
                        if i < self@.len() - 1 {
                            assert(read(list@)[i] == self@[i]);
                        }
                    }
                }
            },
            None => {
                list.push(Part::Name(suffix.to_owned()));
                proof {
                    assert(read(list@) =~= suffixed(self@, suffix@));
                    assert forall|i: int| 0 <= i < read(list@).len() implies onward(
                        #[trigger] read(list@)[i],
                    ) || (i == 0 && !(read(list@)[0] is Up) && !(read(list@)[0] is Name)) by {
                        if i < self@.len() {
                            assert(read(list@)[i] == self@[i]);
                        }
                    }
                }
            },
        }
        FilePath::from_parts(&list)
    }
}

} // verus!
