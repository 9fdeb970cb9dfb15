//! Clack-style prompts for the config wizard, as the lines they draw and the keys
//! they answer to.

use vstd::prelude::*;
use vstd::std_specs::cmp::*;

use crate::style::Look;
use crate::style;
use crate::text;

verus! {

/// The keys that a prompt tells apart.
#[derive(Clone, Copy, Debug, PartialEq, Eq, Structural)]
pub enum Key {
    ArrowUp,
    ArrowDown,
    ArrowLeft,
    ArrowRight,
    Enter,
    Escape,
    CtrlC,
    Backspace,
    Char(char),
    Other,
}

/// Where a prompt stands: being edited, holding an answer that was refused,
/// answered, or given up.
#[derive(Debug, PartialEq, Eq)]
pub enum Phase {
    Active,
    Error(String),
    Submit,
    Cancel,
}

impl Phase {
    /// The color of the bar beside a prompt.
    pub open spec fn bar_look(self) -> Look {
        match self {
            Phase::Active => Look::Cyan,
            Phase::Error(_) => Look::Yellow,
            Phase::Submit => Look::Muted,
            Phase::Cancel => Look::Red,
        }
    }

    /// The symbol before a question.
    pub open spec fn symbol_view(self, colors: bool) -> Seq<char> {
        match self {
            Phase::Active => style::painted("◆"@, Look::Cyan, colors),
            Phase::Error(_) => style::painted("▲"@, Look::Yellow, colors),
            Phase::Submit => style::painted("◇"@, Look::Green, colors),
            Phase::Cancel => style::painted("■"@, Look::Red, colors),
        }
    }

    /// How a prompt shows its answer once it is no longer being edited.
    pub open spec fn settled_view(self, answer: Seq<char>, colors: bool) -> Option<Seq<char>> {
        match self {
            Phase::Submit => Some(style::painted(answer, Look::Dim, colors)),
            Phase::Cancel => Some(style::painted(answer, Look::Struck, colors)),
            _ => None,
        }
    }

    /// Paints what belongs to the bar beside a prompt.
    pub fn bar(&self, s: &str, colors: bool) -> (r: String)
        ensures
            r@ == style::painted(s@, self.bar_look(), colors),
    {
        let look = match self {
            Phase::Active => Look::Cyan,
            Phase::Error(_) => Look::Yellow,
            Phase::Submit => Look::Muted,
            Phase::Cancel => Look::Red,
        };
        style::paint(s, look, colors)
    }

    /// The symbol before a question.
    pub fn symbol(&self, colors: bool) -> (r: String)
        ensures
            r@ == self.symbol_view(colors),
    {
        match self {
            Phase::Active => self.bar("◆", colors),
            Phase::Error(_) => self.bar("▲", colors),
            Phase::Submit => style::paint("◇", Look::Green, colors),
            Phase::Cancel => self.bar("■", colors),
        }
    }

    /// How a prompt shows its answer once it is no longer being edited.
    pub fn settled(&self, answer: &str, colors: bool) -> (r: Option<String>)
        ensures
            match r {
                Some(s) => self.settled_view(answer@, colors) == Some(s@),
                None => self.settled_view(answer@, colors) is None,
            },
    {
        match self {
            Phase::Submit => Some(style::paint(answer, Look::Dim, colors)),
            Phase::Cancel => Some(style::paint(answer, Look::Struck, colors)),
            _ => None,
        }
    }
}

/// Something that asks a question and is driven by keys.
pub trait Widget: Sized {
    type Output;

    /// It can be drawn and driven.
    spec fn ready(self) -> bool;

    /// What a key makes of it.
    spec fn keyed(self, key: Key, next: Self) -> bool;

    /// What it makes of itself, and what it answers, when its answer is taken.
    spec fn submitted(self, next: Self, result: Result<Self::Output, String>) -> bool;

    /// The lines under the question.
    spec fn shown(self, phase: Phase, colors: bool) -> Seq<Seq<char>>;

    fn key(&mut self, key: Key)
        requires
            old(self).ready(),
        ensures
            final(self).ready(),
            old(self).keyed(key, *final(self)),
    ;

    fn submit(&mut self) -> (result: Result<Self::Output, String>)
        requires
            old(self).ready(),
        ensures
            final(self).ready(),
            old(self).submitted(*final(self), result),
    ;

    fn body(&self, phase: &Phase, colors: bool) -> (r: Vec<String>)
        requires
            self.ready(),
        ensures
            text::views(r@) == self.shown(*phase, colors),
    ;
}

/// A choice from a list, of which a window is shown.
#[derive(Debug)]
pub struct Select<T> {
    pub question: String,
    pub items: Vec<(T, String, String)>,
    pub cursor: usize,
    pub top: usize,
    pub visible: usize,
}

/// A choice with no items yet, all of which will be shown.
pub fn select<T: Clone + PartialEq>(question: &str) -> (r: Select<T>)
    ensures
        r.question@ == question@,
        r.items@.len() == 0,
        r.cursor == 0,
        r.top == 0,
        r.visible == usize::MAX,
{
    Select {
        question: question.to_owned(),
        items: Vec::new(),
        cursor: 0,
        top: 0,
        visible: usize::MAX,
    }
}

/// The first item that holds `value`, by the equality of its type; the first of
/// all where none does.
pub open spec fn first_holding<T: PartialEq>(
    items: Seq<(T, String, String)>,
    value: T,
    cursor: int,
) -> bool {
    ||| {
        &&& 0 <= cursor < items.len()
        &&& items[cursor].0.eq_spec(&value)
        &&& forall|i: int| 0 <= i < cursor ==> !(#[trigger] items[i]).0.eq_spec(&value)
    }
    ||| {
        &&& cursor == 0
        &&& forall|i: int| 0 <= i < items.len() ==> !(#[trigger] items[i]).0.eq_spec(&value)
    }
}

impl<T: Clone + PartialEq> Select<T> {
    /// Adds an item: what it stands for, its name, and a hint shown beside it.
    pub fn item(self, value: T, label: &str, hint: &str) -> (r: Select<T>)
        ensures
            r.question == self.question,
            r.items@.len() == self.items@.len() + 1,
            r.items@.drop_last() == self.items@,
            r.items@.last().0 == value,
            r.items@.last().1@ == label@,
            r.items@.last().2@ == hint@,
            r.cursor == self.cursor,
            r.top == self.top,
            r.visible == self.visible,
    {
        let mut r = self;
        r.items.push((value, label.to_owned(), hint.to_owned()));
        assert(r.items@.drop_last() =~= self.items@);
        r
    }

    /// Starts on the item holding `value`; call it after the items are added.
    pub fn initial_value(self, value: T) -> (r: Select<T>)
        ensures
            r == (Select { cursor: r.cursor, ..self }),
            r.cursor == 0 || r.cursor < self.items@.len(),
            T::obeys_eq_spec() ==> first_holding(self.items@, value, r.cursor as int),
    {
        let mut r = self;
        r.cursor = 0;
        let mut i: usize = 0;
        while i < r.items.len()
            invariant
                i <= r.items@.len(),
                r == (Select { cursor: 0, ..self }),
                T::obeys_eq_spec() ==> forall|j: int|
                    0 <= j < i ==> !(#[trigger] self.items@[j]).0.eq_spec(&value),
            decreases r.items@.len() - i,
        {
            if r.items[i].0 == value {
                r.cursor = i;
                return r;
            }
            i = i + 1;
        }
        r
    }
}

/// Where the window begins once it has been moved, no further than needed, to
/// show the cursor.
pub open spec fn scrolled(top: usize, cursor: usize, visible: usize) -> usize {
    if cursor < top {
        cursor
    } else if cursor >= top + visible {
        (cursor + 1 - visible) as usize
    } else {
        top
    }
}

/// Scrolling shows the cursor and moves the window no further than needed: not at
/// all where the cursor was inside it, otherwise just to its near edge, and no
/// window that shows the cursor is closer. Scrolling again changes nothing.
pub proof fn scrolling_moves_no_further_than_needed(
    top: usize,
    cursor: usize,
    visible: usize,
    other: usize,
)
    requires
        visible >= 1,
        cursor < usize::MAX,
    ensures
        scrolled(top, cursor, visible) <= cursor < scrolled(top, cursor, visible) + visible,
        top <= cursor < top + visible ==> scrolled(top, cursor, visible) == top,
        cursor < top ==> scrolled(top, cursor, visible) == cursor,
        cursor >= top + visible ==> scrolled(top, cursor, visible) == cursor + 1 - visible,
        scrolled(scrolled(top, cursor, visible), cursor, visible) == scrolled(top, cursor, visible),
        other <= cursor < other + visible ==> {
            ||| top <= scrolled(top, cursor, visible) <= other
            ||| other <= scrolled(top, cursor, visible) <= top
        },
{
}

/// Where the cursor goes: a step up or down, within the items.
pub open spec fn moved(cursor: usize, key: Key, len: nat) -> usize {
    match key {
        Key::ArrowUp => if cursor > 0 {
            (cursor - 1) as usize
        } else {
            0
        },
        Key::ArrowDown => if cursor + 1 < len {
            (cursor + 1) as usize
        } else {
            (len - 1) as usize
        },
        _ => cursor,
    }
}

impl<T> Select<T> {
    /// There are items, the cursor is on one of them, and the window begins
    /// within the list.
    pub open spec fn wf(self) -> bool {
        &&& self.cursor < self.items@.len()
        &&& self.top <= self.items@.len()
    }

    /// Where the window ends.
    pub open spec fn end(self) -> int {
        if self.top + self.visible < self.items@.len() {
            self.top + self.visible
        } else {
            self.items@.len() as int
        }
    }

    /// The line of an item: a filled mark, the name and the hint where the cursor
    /// is, an empty mark and the name elsewhere.
    pub open spec fn row(self, i: int, colors: bool) -> Seq<char> {
        let label = self.items@[i].1@;
        let hint = self.items@[i].2@;
        if i != self.cursor {
            style::painted("○"@, Look::Dim, colors) + " "@ + style::painted(label, Look::Dim, colors)
        } else if hint.len() == 0 {
            style::painted("●"@, Look::Green, colors) + " "@ + label
        } else {
            style::painted("●"@, Look::Green, colors) + " "@ + label + " "@ + style::painted(
                "("@ + hint + ")"@,
                Look::Dim,
                colors,
            )
        }
    }

    /// The line that stands for items outside the window, if there are any.
    pub open spec fn more(any: bool, colors: bool) -> Seq<Seq<char>> {
        if any {
            seq![style::painted("..."@, Look::Dim, colors)]
        } else {
            Seq::empty()
        }
    }

    /// Moves the window to show the cursor.
    fn scroll(&mut self)
        requires
            old(self).cursor < old(self).items@.len(),
        ensures
            *final(self) == (Select {
                top: scrolled(old(self).top, old(self).cursor, old(self).visible),
                ..*old(self)
            }),
    {
        assert(self.items.len() == self.items@.len());
        if self.cursor < self.top {
            self.top = self.cursor;
        } else if self.cursor >= self.top.saturating_add(self.visible) {
            self.top = self.cursor + 1 - self.visible;
        }
    }

    fn write_row(&self, i: usize, colors: bool) -> (r: String)
        requires
            i < self.items@.len(),
        ensures
            r@ == self.row(i as int, colors),
    {
        let label = self.items[i].1.as_str();
        let hint = self.items[i].2.as_str();
        if i != self.cursor {
            let mut r = style::paint("○", Look::Dim, colors);
            r.append(" ");
            r.append(style::paint(label, Look::Dim, colors).as_str());
            r
        } else if hint.is_empty() {
            let mut r = style::paint("●", Look::Green, colors);
            r.append(" ");
            r.append(label);
            r
        } else {
            let mut note = "(".to_owned();
            note.append(hint);
            note.append(")");
            let mut r = style::paint("●", Look::Green, colors);
            r.append(" ");
            r.append(label);
            r.append(" ");
            r.append(style::paint(note.as_str(), Look::Dim, colors).as_str());
            r
        }
    }
}

impl<T: Clone> Widget for Select<T> {
    type Output = T;

    open spec fn ready(self) -> bool {
        self.wf()
    }

    open spec fn keyed(self, key: Key, next: Self) -> bool {
        let cursor = moved(self.cursor, key, self.items@.len());
        next == (Select { cursor, top: scrolled(self.top, cursor, self.visible), ..self })
    }

    open spec fn submitted(self, next: Self, result: Result<T, String>) -> bool {
        &&& next == self
        &&& result is Ok
        &&& cloned(self.items@[self.cursor as int].0, result.unwrap())
    }

    open spec fn shown(self, phase: Phase, colors: bool) -> Seq<Seq<char>> {
        match phase.settled_view(self.items@[self.cursor as int].1@, colors) {
            Some(answer) => seq![answer],
            None => Self::more(self.top > 0, colors) + Seq::new(
                (self.end() - self.top) as nat,
                |i: int| self.row(self.top + i, colors),
            ) + Self::more(self.end() < self.items@.len(), colors),
        }
    }

    fn key(&mut self, key: Key) {
        assert(self.items.len() == self.items@.len());
        match key {
            Key::ArrowUp => {
                self.cursor = self.cursor.saturating_sub(1);
            },
            Key::ArrowDown => {
                if self.cursor + 1 < self.items.len() {
                    self.cursor = self.cursor + 1;
                } else {
                    self.cursor = self.items.len() - 1;
                }
            },
            _ => {},
        }
        self.scroll();
    }

    fn submit(&mut self) -> (result: Result<T, String>) {
        Ok(self.items[self.cursor].0.clone())
    }

    fn body(&self, phase: &Phase, colors: bool) -> (r: Vec<String>) {
        if let Some(answer) = phase.settled(self.items[self.cursor].1.as_str(), colors) {
            let mut r: Vec<String> = Vec::new();
            r.push(answer);
            assert(text::views(r@) =~= self.shown(*phase, colors));
            return r;
        }
        assert(self.items.len() == self.items@.len());
        let reach = self.top.saturating_add(self.visible);
        let end = if reach < self.items.len() {
            reach
        } else {
            self.items.len()
        };
        assert(end == self.end());
        let mut lines: Vec<String> = Vec::new();
        if self.top > 0 {
            lines.push(style::paint("...", Look::Dim, colors));
        }
        let ghost before = Self::more(self.top > 0, colors);
        assert(text::views(lines@) =~= before);
        let mut i: usize = self.top;
        assert(text::views(lines@) =~= before + Seq::new(
            0,
            |j: int| self.row(self.top + j, colors),
        ));
        while i < end
            invariant
                self.top <= i <= end <= self.items@.len(),
                text::views(lines@) == before + Seq::new(
                    (i - self.top) as nat,
                    |j: int| self.row(self.top + j, colors),
                ),
            decreases end - i,
        {
            let ghost so_far = lines@;
            let row = self.write_row(i, colors);
            lines.push(row);
            proof {
                text::views_push(so_far, row);
                assert(text::views(lines@) =~= before + Seq::new(
                    (i + 1 - self.top) as nat,
                    |j: int| self.row(self.top + j, colors),
                ));
            }
            i = i + 1;
        }
        if end < self.items.len() {
            let ghost so_far = lines@;
            let more = style::paint("...", Look::Dim, colors);
            lines.push(more);
            proof {
                text::views_push(so_far, more);
            }
        }
        assert(text::views(lines@) =~= self.shown(*phase, colors));
        lines
    }
}

/// Whatever key is pressed, the cursor stays within the items and the window
/// shows it.
pub proof fn select_stays_within_its_items<T: Clone>(menu: Select<T>, key: Key, next: Select<T>)
    requires
        menu.wf(),
        menu.visible >= 1,
        menu.keyed(key, next),
    ensures
        next.wf(),
        next.items == menu.items,
        next.visible == menu.visible,
        next.top <= next.cursor < next.end(),
        next.end() - next.top <= next.visible,
{
}

/// What decides whether an answer will do.
pub trait Validator: Sized {
    /// It can judge this answer.
    spec fn handles(self, answer: String) -> bool;

    /// What it may say of this answer.
    spec fn judges(self, answer: String, verdict: Result<(), String>) -> bool;

    fn check(&self, answer: &String) -> (verdict: Result<(), String>)
        requires
            self.handles(*answer),
        ensures
            self.judges(*answer, verdict),
    ;
}

/// Any answer will do.
#[derive(Clone, Copy, Debug)]
pub struct AnyAnswer;

impl Validator for AnyAnswer {
    open spec fn handles(self, answer: String) -> bool {
        true
    }

    open spec fn judges(self, answer: String, verdict: Result<(), String>) -> bool {
        verdict is Ok
    }

    fn check(&self, answer: &String) -> (verdict: Result<(), String>) {
        Ok(())
    }
}

/// A function says whether an answer will do, or why not.
#[derive(Debug)]
pub struct Checked<F> {
    pub check: F,
}

impl<F: Fn(&String) -> Result<(), String>> Validator for Checked<F> {
    open spec fn handles(self, answer: String) -> bool {
        call_requires(self.check, (&answer,))
    }

    open spec fn judges(self, answer: String, verdict: Result<(), String>) -> bool {
        call_ensures(self.check, (&answer,), verdict)
    }

    fn check(&self, answer: &String) -> (verdict: Result<(), String>) {
        (self.check)(answer)
    }
}

/// A line of text to be typed.
#[derive(Debug)]
pub struct Input<V> {
    pub question: String,
    pub value: String,
    pub placeholder: Option<String>,
    pub default: Option<String>,
    pub validator: V,
}

/// A line of text with nothing typed, which any answer satisfies.
pub fn input(question: &str) -> (r: Input<AnyAnswer>)
    ensures
        r.question@ == question@,
        r.value@.len() == 0,
        r.placeholder is None,
        r.default is None,
{
    Input {
        question: question.to_owned(),
        value: String::new(),
        placeholder: None,
        default: None,
        validator: AnyAnswer,
    }
}

impl<V> Input<V> {
    /// Sets what is shown while nothing is typed.
    pub fn placeholder(self, s: &str) -> (r: Input<V>)
        ensures
            r == (Input { placeholder: r.placeholder, ..self }),
            text::optional(r.placeholder) == Some(s@),
    {
        let mut r = self;
        r.placeholder = Some(s.to_owned());
        r
    }

    /// What an empty answer means; shown as the placeholder unless one is set.
    pub fn default_input(self, value: &str) -> (r: Input<V>)
        ensures
            r == (Input { default: r.default, ..self }),
            text::optional(r.default) == Some(value@),
    {
        let mut r = self;
        r.default = Some(value.to_owned());
        r
    }

    /// Has every answer checked before it is taken.
    pub fn validate<F: Fn(&String) -> Result<(), String>>(self, check: F) -> (r: Input<Checked<F>>)
        ensures
            r.question == self.question,
            r.value == self.value,
            r.placeholder == self.placeholder,
            r.default == self.default,
            r.validator.check == check,
    {
        Input {
            question: self.question,
            value: self.value,
            placeholder: self.placeholder,
            default: self.default,
            validator: Checked { check },
        }
    }

    /// What is shown while nothing is typed.
    pub open spec fn hint(self) -> Option<Seq<char>> {
        match self.placeholder {
            Some(s) => Some(s@),
            None => text::optional(self.default),
        }
    }
}

/// What a key makes of the text typed so far.
pub open spec fn typed(value: Seq<char>, key: Key) -> Seq<char> {
    match key {
        Key::Char(c) => if text::control(c) {
            value
        } else {
            value.push(c)
        },
        Key::Backspace => if value.len() > 0 {
            value.drop_last()
        } else {
            value
        },
        _ => value,
    }
}

/// What an answer comes to once it is judged.
pub open spec fn taken(
    answer: String,
    verdict: Result<(), String>,
    result: Result<String, String>,
) -> bool {
    match verdict {
        Ok(_) => result is Ok && result.unwrap()@ == answer@,
        Err(message) => result == Err::<String, String>(message),
    }
}

impl<V: Validator> Widget for Input<V> {
    type Output = String;

    open spec fn ready(self) -> bool {
        forall|answer: String| #[trigger] self.validator.handles(answer)
    }

    open spec fn keyed(self, key: Key, next: Self) -> bool {
        &&& next == (Input { value: next.value, ..self })
        &&& next.value@ == typed(self.value@, key)
    }

    open spec fn submitted(self, next: Self, result: Result<String, String>) -> bool {
        if self.value@.len() == 0 && self.default is None {
            &&& next == self
            &&& result is Err
            &&& result->Err_0@ == "Input required"@
        } else {
            &&& next == (Input { value: next.value, ..self })
            &&& next.value@ == if self.value@.len() == 0 {
                self.default.unwrap()@
            } else {
                self.value@
            }
            &&& exists|verdict: Result<(), String>| #[trigger]
                self.validator.judges(next.value, verdict) && taken(next.value, verdict, result)
        }
    }

    open spec fn shown(self, phase: Phase, colors: bool) -> Seq<Seq<char>> {
        match phase.settled_view(self.value@, colors) {
            Some(answer) => seq![answer],
            None => if self.value@.len() > 0 {
                seq![self.value@ + style::painted(" "@, Look::Reverse, colors)]
            } else if self.hint() is Some && self.hint().unwrap().len() > 0 {
                let hint = self.hint().unwrap();
                seq![
                    style::painted(hint.take(1), Look::DimReverse, colors) + style::painted(
                        hint.skip(1),
                        Look::Dim,
                        colors,
                    ),
                ]
            } else {
                seq![style::painted(" "@, Look::Reverse, colors)]
            },
        }
    }

    fn key(&mut self, key: Key) {
        match key {
            Key::Char(c) => {
                if !text::is_control(c) {
                    self.value.push(c);
                }
            },
            Key::Backspace => {
                self.value.pop();
            },
            _ => {},
        }
    }

    fn submit(&mut self) -> (result: Result<String, String>) {
        if self.value.as_str().is_empty() {
            match &self.default {
                Some(default) => {
                    let value = default.clone();
                    self.value = value;
                },
                None => {
                    return Err("Input required".to_owned());
                },
            }
        }
        assert(self.validator.handles(self.value));
        let verdict = self.validator.check(&self.value);
        match verdict {
            Ok(_) => {
                let result: Result<String, String> = Ok(self.value.clone());
                assert(taken(self.value, verdict, result));
                result
            },
            Err(message) => {
                let result: Result<String, String> = Err(message);
                assert(taken(self.value, verdict, result));
                result
            },
        }
    }

    fn body(&self, phase: &Phase, colors: bool) -> (r: Vec<String>) {
        let line = match phase.settled(self.value.as_str(), colors) {
            Some(answer) => answer,
            None => if !self.value.as_str().is_empty() {
                let mut line = self.value.clone();
                line.append(style::paint(" ", Look::Reverse, colors).as_str());
                line
            } else {
                let hint = match &self.placeholder {
                    Some(s) => Some(s),
                    None => match &self.default {
                        Some(s) => Some(s),
                        None => None,
                    },
                };
                match hint {
                    Some(hint) => if hint.as_str().is_empty() {
                        style::paint(" ", Look::Reverse, colors)
                    } else {
                        let n = hint.as_str().unicode_len();
                        let first = hint.as_str().substring_char(0, 1);
                        let rest = hint.as_str().substring_char(1, n);
                        let mut line = style::paint(first, Look::DimReverse, colors);
                        line.append(style::paint(rest, Look::Dim, colors).as_str());
                        line
                    },
                    None => style::paint(" ", Look::Reverse, colors),
                }
            },
        };
        let mut r: Vec<String> = Vec::new();
        r.push(line);
        assert(text::views(r@) =~= self.shown(*phase, colors));
        r
    }
}

/// A question to be answered with yes or no.
#[derive(Debug)]
pub struct Confirm {
    pub question: String,
    pub yes: bool,
}

/// A question that stands on no.
pub fn confirm(question: &str) -> (r: Confirm)
    ensures
        r.question@ == question@,
        !r.yes,
{
    Confirm { question: question.to_owned(), yes: false }
}

impl Confirm {
    /// Starts on yes or on no.
    pub fn initial_value(self, yes: bool) -> (r: Confirm)
        ensures
            r == (Confirm { yes, ..self }),
    {
        let mut r = self;
        r.yes = yes;
        r
    }

    /// One of the two answers: a filled mark and the answer, or both dimmed.
    pub open spec fn radio(on: bool, label: Seq<char>, colors: bool) -> Seq<char> {
        if on {
            style::painted("●"@, Look::Green, colors) + " "@ + label
        } else {
            style::painted("○"@, Look::Dim, colors) + " "@ + style::painted(label, Look::Dim, colors)
        }
    }

    fn write_radio(on: bool, label: &str, colors: bool) -> (r: String)
        ensures
            r@ == Confirm::radio(on, label@, colors),
    {
        if on {
            let mut r = style::paint("●", Look::Green, colors);
            r.append(" ");
            r.append(label);
            r
        } else {
            let mut r = style::paint("○", Look::Dim, colors);
            r.append(" ");
            r.append(style::paint(label, Look::Dim, colors).as_str());
            r
        }
    }
}

/// Whether a question stands on yes after a key.
pub open spec fn toggled(yes: bool, key: Key) -> bool {
    match key {
        Key::ArrowLeft => true,
        Key::Char('y') => true,
        Key::Char('Y') => true,
        Key::ArrowRight => false,
        Key::Char('n') => false,
        Key::Char('N') => false,
        _ => yes,
    }
}

impl Widget for Confirm {
    type Output = bool;

    open spec fn ready(self) -> bool {
        true
    }

    open spec fn keyed(self, key: Key, next: Self) -> bool {
        next == (Confirm { yes: toggled(self.yes, key), ..self })
    }

    open spec fn submitted(self, next: Self, result: Result<bool, String>) -> bool {
        next == self && result == Ok::<bool, String>(self.yes)
    }

    open spec fn shown(self, phase: Phase, colors: bool) -> Seq<Seq<char>> {
        let answer = if self.yes {
            "Yes"@
        } else {
            "No"@
        };
        match phase.settled_view(answer, colors) {
            Some(answer) => seq![answer],
            None => seq![
                Confirm::radio(self.yes, "Yes"@, colors) + style::painted(" / "@, Look::Dim, colors)
                    + Confirm::radio(!self.yes, "No"@, colors),
            ],
        }
    }

    fn key(&mut self, key: Key) {
        match key {
            Key::ArrowLeft => {
                self.yes = true;
            },
            Key::ArrowRight => {
                self.yes = false;
            },
            Key::Char(c) => {
                if c == 'y' || c == 'Y' {
                    self.yes = true;
                } else if c == 'n' || c == 'N' {
                    self.yes = false;
                }
            },
            _ => {},
        }
    }

    fn submit(&mut self) -> (result: Result<bool, String>) {
        Ok(self.yes)
    }

    fn body(&self, phase: &Phase, colors: bool) -> (r: Vec<String>) {
        let answer = if self.yes {
            "Yes"
        } else {
            "No"
        };
        let line = match phase.settled(answer, colors) {
            Some(answer) => answer,
            None => {
                let mut line = Confirm::write_radio(self.yes, "Yes", colors);
                line.append(style::paint(" / ", Look::Dim, colors).as_str());
                line.append(Confirm::write_radio(!self.yes, "No", colors).as_str());
                line
            },
        };
        let mut r: Vec<String> = Vec::new();
        r.push(line);
        assert(text::views(r@) =~= self.shown(*phase, colors));
        r
    }
}

/// The lines beside the bar.
pub open spec fn barred(lines: Seq<Seq<char>>, look: Look, colors: bool) -> Seq<Seq<char>> {
    Seq::new(lines.len(), |i: int| style::painted("│"@, look, colors) + "  "@ + lines[i])
}

/// The last line of a frame: what was wrong with an answer, or what became of the
/// question.
pub open spec fn closing(phase: Phase, colors: bool) -> Seq<char> {
    match phase {
        Phase::Active => style::painted("└"@, Look::Cyan, colors),
        Phase::Error(message) => style::painted("└  "@ + message@, Look::Yellow, colors),
        Phase::Submit => style::painted("│"@, Look::Muted, colors),
        Phase::Cancel => style::painted("└  Operation cancelled."@, Look::Red, colors),
    }
}

/// The frame of a prompt: its question, what it shows, and how it closes.
pub open spec fn framed<W: Widget>(question: Seq<char>, widget: W, phase: Phase, colors: bool) -> Seq<
    Seq<char>,
> {
    seq![phase.symbol_view(colors) + "  "@ + question] + barred(
        widget.shown(phase, colors),
        phase.bar_look(),
        colors,
    ) + seq![closing(phase, colors)]
}

/// Draws a prompt.
pub fn frame<W: Widget>(question: &str, widget: &W, phase: &Phase, colors: bool) -> (lines: Vec<String>)
    requires
        widget.ready(),
    ensures
        text::views(lines@) == framed(question@, *widget, *phase, colors),
{
    let mut lines: Vec<String> = Vec::new();
    let mut head = phase.symbol(colors);
    head.append("  ");
    head.append(question);
    let ghost first = seq![head@];
    lines.push(head);
    let body = widget.body(phase, colors);
    let ghost shown = widget.shown(*phase, colors);
    let ghost look = phase.bar_look();
    let mut i: usize = 0;
    assert(text::views(lines@) =~= first + barred(shown, look, colors).take(0));
    while i < body.len()
        invariant
            i <= body.len(),
            shown == text::views(body@),
            look == phase.bar_look(),
            text::views(lines@) == first + barred(shown, look, colors).take(i as int),
        decreases body.len() - i,
    {
        let ghost so_far = lines@;
        let mut line = phase.bar("│", colors);
        line.append("  ");
        line.append(body[i].as_str());
        lines.push(line);
        proof {
            text::views_push(so_far, line);
            assert(barred(shown, look, colors).take(i + 1) =~= barred(shown, look, colors).take(
                i as int,
            ).push(line@));
            assert(text::views(lines@) =~= first + barred(shown, look, colors).take(i + 1));
        }
        i = i + 1;
    }
    assert(barred(shown, look, colors).take(shown.len() as int) =~= barred(shown, look, colors));
    let last = match phase {
        Phase::Active => phase.bar("└", colors),
        Phase::Error(message) => {
            let mut s = "└  ".to_owned();
            s.append(message.as_str());
            phase.bar(s.as_str(), colors)
        },
        Phase::Submit => phase.bar("│", colors),
        Phase::Cancel => phase.bar("└  Operation cancelled.", colors),
    };
    let ghost so_far = lines@;
    lines.push(last);
    proof {
        text::views_push(so_far, last);
        assert(text::views(lines@) =~= framed(question@, *widget, *phase, colors));
    }
    lines
}

/// A prompt while it is on the terminal.
#[derive(Debug)]
pub struct Session<W> {
    pub question: String,
    pub widget: W,
    pub phase: Phase,
}

/// What comes of a key: another round, an answer, or the end without one.
#[derive(Debug, PartialEq, Eq)]
pub enum Step<T> {
    Redraw,
    Done(T),
    Cancelled,
}

impl<W: Widget> Session<W> {
    /// What comes of taking the answer as it stands.
    pub open spec fn enters(self, next: Self, step: Step<W::Output>, result: Result<W::Output, String>) -> bool {
        &&& self.widget.submitted(next.widget, result)
        &&& match result {
            Ok(value) => step == Step::Done(value) && next.phase is Submit,
            Err(message) => step is Redraw && next.phase == Phase::Error(message),
        }
    }

    /// What comes of a key.
    pub open spec fn steps(self, key: Key, next: Self, step: Step<W::Output>) -> bool {
        &&& next.question == self.question
        &&& match key {
            Key::Enter => exists|result: Result<W::Output, String>| #[trigger]
                self.enters(next, step, result),
            Key::Escape => step is Cancelled && next.phase is Cancel && next.widget == self.widget,
            Key::CtrlC => step is Cancelled && next.phase is Cancel && next.widget == self.widget,
            _ => step is Redraw && next.phase is Active && self.widget.keyed(key, next.widget),
        }
    }

    /// Acts on a key. An answer that is refused is held, with what is wrong with
    /// it, until the next key.
    pub fn step(&mut self, key: Key) -> (step: Step<W::Output>)
        requires
            old(self).widget.ready(),
        ensures
            final(self).widget.ready(),
            old(self).steps(key, *final(self), step),
    {
        match key {
            Key::Enter => {
                let result = self.widget.submit();
                let ghost outcome = result;
                match result {
                    Ok(value) => {
                        self.phase = Phase::Submit;
                        let step = Step::Done(value);
                        assert(old(self).enters(*self, step, outcome));
                        step
                    },
                    Err(message) => {
                        self.phase = Phase::Error(message);
                        let step = Step::<W::Output>::Redraw;
                        assert(old(self).enters(*self, step, outcome));
                        step
                    },
                }
            },
            Key::Escape | Key::CtrlC => {
                self.phase = Phase::Cancel;
                Step::Cancelled
            },
            _ => {
                self.phase = Phase::Active;
                self.widget.key(key);
                Step::Redraw
            },
        }
    }

    /// Draws the prompt as it stands.
    pub fn frame(&self, colors: bool) -> (lines: Vec<String>)
        requires
            self.widget.ready(),
        ensures
            text::views(lines@) == framed(self.question@, self.widget, self.phase, colors),
    {
        frame(self.question.as_str(), &self.widget, &self.phase, colors)
    }
}

impl<T: Clone + PartialEq> Select<T> {
    /// Puts the choice on a terminal of so many rows: five are left for what
    /// stands around the window, and at least one item is shown.
    pub fn interact(self, rows: usize) -> (r: Session<Select<T>>)
        requires
            self.wf(),
        ensures
            r.question == self.question,
            r.phase is Active,
            r.widget.ready(),
            ({
                let visible = if rows > 5 {
                    (rows - 5) as usize
                } else {
                    1
                };
                r.widget == (Select { visible, top: scrolled(self.top, self.cursor, visible), ..self })
            }),
    {
        let mut widget = self;
        let room = rows.saturating_sub(5);
        widget.visible = if room > 1 {
            room
        } else {
            1
        };
        widget.scroll();
        let question = widget.question.clone();
        Session { question, widget, phase: Phase::Active }
    }
}

impl<V: Validator> Input<V> {
    /// Puts the question on the terminal.
    pub fn interact(self) -> (r: Session<Input<V>>)
        ensures
            r.question == self.question,
            r.phase is Active,
            r.widget == self,
    {
        let question = self.question.clone();
        Session { question, widget: self, phase: Phase::Active }
    }
}

impl Confirm {
    /// Puts the question on the terminal.
    pub fn interact(self) -> (r: Session<Confirm>)
        ensures
            r.question == self.question,
            r.phase is Active,
            r.widget == self,
    {
        let question = self.question.clone();
        Session { question, widget: self, phase: Phase::Active }
    }
}

/// A refused answer never ends a prompt: it stays, and shows why.
pub proof fn refused_answers_are_held<W: Widget>(
    session: Session<W>,
    next: Session<W>,
    step: Step<W::Output>,
    key: Key,
)
    requires
        session.steps(key, next, step),
        forall|result: Result<W::Output, String>|
            #[trigger] session.widget.submitted(next.widget, result) ==> result is Err,
    ensures
        step !is Done,
        key is Enter ==> next.phase is Error,
{
    if key is Enter {
        let result = choose|result: Result<W::Output, String>| #[trigger]
            session.enters(next, step, result);
        assert(session.enters(next, step, result));
        assert(session.widget.submitted(next.widget, result));
    }
}

/// A prompt ends only by Enter, with an answer, or by Escape or Ctrl-C, without.
pub proof fn only_three_keys_end_a_prompt<W: Widget>(
    session: Session<W>,
    next: Session<W>,
    step: Step<W::Output>,
    key: Key,
)
    requires
        session.steps(key, next, step),
    ensures
        step is Done ==> key is Enter,
        step is Cancelled <==> key is Escape || key is CtrlC,
{
    if key is Enter {
        let result = choose|result: Result<W::Output, String>| #[trigger]
            session.enters(next, step, result);
        assert(session.enters(next, step, result));
    }
}

/// The arrows move the cursor by one item, as far as there is one; no other key moves
/// it, and no key changes what there is to choose from.
pub proof fn arrows_move_by_one_item<T: Clone>(menu: Select<T>, key: Key, next: Select<T>)
    requires
        menu.cursor < menu.items@.len() <= usize::MAX,
        menu.keyed(key, next),
    ensures
        next.items == menu.items,
        next.question == menu.question,
        next.visible == menu.visible,
        key is ArrowDown && menu.cursor + 1 < menu.items@.len() ==> next.cursor == menu.cursor + 1,
        key is ArrowDown && menu.cursor + 1 == menu.items@.len() ==> next.cursor == menu.cursor,
        key is ArrowUp && menu.cursor > 0 ==> next.cursor == menu.cursor - 1,
        key is ArrowUp && menu.cursor == 0 ==> next.cursor == 0,
        key !is ArrowUp && key !is ArrowDown ==> next.cursor == menu.cursor,
{
}

/// What is chosen is the item that the cursor stands on, whichever that is.
pub proof fn the_item_under_the_cursor_is_chosen<T: Clone>(
    menu: Select<T>,
    next: Select<T>,
    result: Result<T, String>,
)
    requires
        menu.submitted(next, result),
    ensures
        result is Ok,
        cloned(menu.items@[menu.cursor as int].0, result.unwrap()),
        next == menu,
{
}

/// The cursor starts on the first item that holds the value.
pub proof fn the_first_such_item_is_found<T: PartialEq>(
    items: Seq<(T, String, String)>,
    value: T,
    cursor: int,
    i: int,
)
    requires
        first_holding(items, value, cursor),
        0 <= i < items.len(),
        items[i].0.eq_spec(&value),
        forall|j: int| 0 <= j < i ==> !(#[trigger] items[j]).0.eq_spec(&value),
    ensures
        cursor == i,
{
}

/// While a choice is open, each item of the window has its line, in order: a filled
/// mark, the name and the hint for the one under the cursor, an empty mark and the
/// dimmed name for the others. Items before or behind the window are told of by a
/// line each, and by none where there are none.
pub proof fn every_item_in_the_window_is_shown<T: Clone>(
    menu: Select<T>,
    phase: Phase,
    colors: bool,
    k: int,
)
    requires
        phase is Active || phase is Error,
        menu.cursor < menu.items@.len(),
        menu.top <= k < menu.items@.len(),
        k < menu.top + menu.visible,
    ensures
        ({
            let lines = menu.shown(phase, colors);
            let above: int = if menu.top > 0 {
                1
            } else {
                0
            };
            let label = menu.items@[k].1@;
            let hint = menu.items@[k].2@;
            let shown = if menu.top + menu.visible < menu.items@.len() {
                menu.visible as int
            } else {
                menu.items@.len() - menu.top
            };
            let below: int = if menu.top + menu.visible < menu.items@.len() {
                1
            } else {
                0
            };
            &&& lines.len() == above + shown + below
            &&& k != menu.cursor ==> lines[above + k - menu.top] == style::painted(
                "○"@,
                Look::Dim,
                colors,
            ) + " "@ + style::painted(label, Look::Dim, colors)
            &&& k == menu.cursor && hint.len() == 0 ==> lines[above + k - menu.top]
                == style::painted("●"@, Look::Green, colors) + " "@ + label
            &&& k == menu.cursor && hint.len() > 0 ==> lines[above + k - menu.top]
                == style::painted("●"@, Look::Green, colors) + " "@ + label + " "@ + style::painted(
                "("@ + hint + ")"@,
                Look::Dim,
                colors,
            )
            &&& above == 1 ==> lines[0] == style::painted("..."@, Look::Dim, colors)
            &&& below == 1 ==> lines.last() == style::painted("..."@, Look::Dim, colors)
        }),
{
}

/// A choice that was made or given up shows its name alone.
pub proof fn a_settled_choice_shows_its_name<T: Clone>(menu: Select<T>, colors: bool)
    ensures
        menu.shown(Phase::Submit, colors) == seq![
            style::painted(menu.items@[menu.cursor as int].1@, Look::Dim, colors),
        ],
        menu.shown(Phase::Cancel, colors) == seq![
            style::painted(menu.items@[menu.cursor as int].1@, Look::Struck, colors),
        ],
{
}

/// A character that can be typed is added at the end, the key for it takes the last
/// one away, and no other key changes a text.
pub proof fn typing_adds_at_the_end(value: Seq<char>, key: Key, c: char)
    ensures
        c as int >= 0x20 && !(0x7f <= c as int <= 0x9f) ==> typed(value, Key::Char(c)) == value.push(
            c,
        ) && typed(typed(value, Key::Char(c)), Key::Backspace) == value,
        c as int <= 0x1f || 0x7f <= c as int <= 0x9f ==> typed(value, Key::Char(c)) == value,
        value.len() == 0 ==> typed(value, Key::Backspace) == value,
        key !is Char && key !is Backspace ==> typed(value, key) == value,
{
    assert(value.push(c).drop_last() =~= value);
}

/// An answer is what was typed, or the default where nothing was; the validator's word
/// on it is final. Without either there is no answer.
pub proof fn an_answer_is_what_was_typed<V: Validator>(
    field: Input<V>,
    next: Input<V>,
    result: Result<String, String>,
)
    requires
        field.submitted(next, result),
    ensures
        result matches Ok(answer) ==> answer@ == if field.value@.len() > 0 {
            field.value@
        } else {
            field.default.unwrap()@
        },
        result matches Ok(answer) ==> field.value@.len() > 0 || field.default is Some,
        field.value@.len() == 0 && field.default is None ==> result is Err && result->Err_0@
            == "Input required"@,
        field.value@.len() > 0 || field.default is Some ==> exists|verdict: Result<(), String>|
            #[trigger] field.validator.judges(next.value, verdict) && (verdict is Ok <==> result is Ok)
                && (verdict matches Err(message) ==> result == Err::<String, String>(message)),
        field.value@.len() > 0 || field.default is Some ==> next.value@ == if field.value@.len() > 0 {
            field.value@
        } else {
            field.default.unwrap()@
        },
{
    if field.value@.len() > 0 || field.default is Some {
        let verdict = choose|verdict: Result<(), String>| #[trigger]
            field.validator.judges(next.value, verdict) && taken(next.value, verdict, result);
        assert(field.validator.judges(next.value, verdict) && taken(next.value, verdict, result));
    }
}

/// While a text is open it is shown with the cursor behind it; where nothing is typed
/// the placeholder stands there, or else the default, with the cursor on its first
/// character.
pub proof fn a_text_is_shown_with_its_cursor<V: Validator>(field: Input<V>, phase: Phase, colors: bool)
    requires
        phase is Active || phase is Error,
    ensures
        field.value@.len() > 0 ==> field.shown(phase, colors) == seq![
            field.value@ + style::painted(" "@, Look::Reverse, colors),
        ],
        field.value@.len() == 0 && field.placeholder is None && field.default is None ==> field.shown(
            phase,
            colors,
        ) == seq![style::painted(" "@, Look::Reverse, colors)],
        field.value@.len() == 0 && field.placeholder is Some && field.placeholder.unwrap()@.len()
            == 0 ==> field.shown(phase, colors) == seq![style::painted(" "@, Look::Reverse, colors)],
        field.value@.len() == 0 && field.placeholder is None && field.default is Some
            && field.default.unwrap()@.len() == 0 ==> field.shown(phase, colors) == seq![
            style::painted(" "@, Look::Reverse, colors),
        ],
        field.value@.len() == 0 && field.placeholder is Some && field.placeholder.unwrap()@.len() > 0
            ==> field.shown(phase, colors) == seq![
            style::painted(field.placeholder.unwrap()@.take(1), Look::DimReverse, colors)
                + style::painted(field.placeholder.unwrap()@.skip(1), Look::Dim, colors),
        ],
        field.value@.len() == 0 && field.placeholder is None && field.default is Some
            && field.default.unwrap()@.len() > 0 ==> field.shown(phase, colors) == seq![
            style::painted(field.default.unwrap()@.take(1), Look::DimReverse, colors)
                + style::painted(field.default.unwrap()@.skip(1), Look::Dim, colors),
        ],
        field.shown(Phase::Submit, colors) == seq![style::painted(field.value@, Look::Dim, colors)],
        field.shown(Phase::Cancel, colors) == seq![style::painted(field.value@, Look::Struck, colors)],
{
}

/// Left and `y` say yes, right and `n` say no, and no other key changes what a
/// question stands on; that is its answer.
pub proof fn a_question_stands_on_yes_or_no(
    question: Confirm,
    key: Key,
    next: Confirm,
    after: Confirm,
    result: Result<bool, String>,
)
    requires
        question.keyed(key, next),
        next.submitted(after, result),
    ensures
        key is ArrowLeft || key == Key::Char('y') || key == Key::Char('Y') ==> result == Ok::<
            bool,
            String,
        >(true),
        key is ArrowRight || key == Key::Char('n') || key == Key::Char('N') ==> result == Ok::<
            bool,
            String,
        >(false),
        key !is ArrowLeft && key !is ArrowRight && (key matches Key::Char(c) ==> c != 'y' && c != 'Y'
            && c != 'n' && c != 'N') ==> result == Ok::<bool, String>(question.yes),
        next.question == question.question,
{
}

/// A question shows both answers, with the mark at the one it stands on, and just
/// that one once it is settled.
pub proof fn a_question_marks_its_answer(question: Confirm, phase: Phase, colors: bool)
    requires
        phase is Active || phase is Error,
    ensures
        question.yes ==> question.shown(phase, colors) == seq![
            style::painted("●"@, Look::Green, colors) + " "@ + "Yes"@ + style::painted(
                " / "@,
                Look::Dim,
                colors,
            ) + (style::painted("○"@, Look::Dim, colors) + " "@ + style::painted(
                "No"@,
                Look::Dim,
                colors,
            )),
        ],
        !question.yes ==> question.shown(phase, colors) == seq![
            style::painted("○"@, Look::Dim, colors) + " "@ + style::painted("Yes"@, Look::Dim, colors)
                + style::painted(" / "@, Look::Dim, colors) + (style::painted(
                "●"@,
                Look::Green,
                colors,
            ) + " "@ + "No"@),
        ],
        question.shown(Phase::Submit, colors) == seq![
            style::painted(
                if question.yes {
                    "Yes"@
                } else {
                    "No"@
                },
                Look::Dim,
                colors,
            ),
        ],
        question.shown(Phase::Cancel, colors) == seq![
            style::painted(
                if question.yes {
                    "Yes"@
                } else {
                    "No"@
                },
                Look::Struck,
                colors,
            ),
        ],
{
}

/// A frame has the question first, then every line of the widget beside the bar, and
/// what became of the question last.
pub proof fn a_frame_holds_every_line<W: Widget>(
    question: Seq<char>,
    widget: W,
    phase: Phase,
    colors: bool,
    i: int,
)
    ensures
        ({
            let lines = framed(question, widget, phase, colors);
            let look = match phase {
                Phase::Active => Look::Cyan,
                Phase::Error(_) => Look::Yellow,
                Phase::Submit => Look::Muted,
                Phase::Cancel => Look::Red,
            };
            &&& lines.len() == widget.shown(phase, colors).len() + 2
            &&& lines[0] == (match phase {
                Phase::Active => style::painted("◆"@, Look::Cyan, colors),
                Phase::Error(_) => style::painted("▲"@, Look::Yellow, colors),
                Phase::Submit => style::painted("◇"@, Look::Green, colors),
                Phase::Cancel => style::painted("■"@, Look::Red, colors),
            }) + "  "@ + question
            &&& 0 <= i < widget.shown(phase, colors).len() ==> lines[i + 1] == style::painted(
                "│"@,
                look,
                colors,
            ) + "  "@ + widget.shown(phase, colors)[i]
            &&& lines.last() == match phase {
                Phase::Active => style::painted("└"@, Look::Cyan, colors),
                Phase::Error(message) => style::painted("└  "@ + message@, Look::Yellow, colors),
                Phase::Submit => style::painted("│"@, Look::Muted, colors),
                Phase::Cancel => style::painted("└  Operation cancelled."@, Look::Red, colors),
            }
        }),
{
}

/// Enter takes the widget's answer or shows why there is none. Every key but that and
/// the two that give up goes to the widget, and the prompt stays open.
pub proof fn every_other_key_goes_to_the_widget<W: Widget>(
    session: Session<W>,
    next: Session<W>,
    step: Step<W::Output>,
    key: Key,
)
    requires
        session.steps(key, next, step),
    ensures
        next.question == session.question,
        key is Enter ==> exists|result: Result<W::Output, String>| #[trigger]
            session.widget.submitted(next.widget, result) && (result matches Ok(value) ==> step
                == Step::Done(value) && next.phase is Submit) && (result matches Err(message)
                ==> step is Redraw && next.phase == Phase::Error(message)),
        key is Escape || key is CtrlC ==> step is Cancelled && next.phase is Cancel && next.widget
            == session.widget,
        key !is Enter && key !is Escape && key !is CtrlC ==> step is Redraw && next.phase is Active
            && session.widget.keyed(key, next.widget),
{
    if key is Enter {
        let result = choose|result: Result<W::Output, String>| #[trigger]
            session.enters(next, step, result);
        assert(session.enters(next, step, result));
        assert(session.widget.submitted(next.widget, result));
    }
}

/// A choice can be drawn wherever its cursor stands on an item and its window begins
/// within them.
pub proof fn a_choice_with_items_can_be_drawn<T: Clone>(menu: Select<T>)
    ensures
        menu.ready() <==> menu.cursor < menu.items@.len() && menu.top <= menu.items@.len(),
{
}

/// A key that is typed changes the text and nothing else of the question.
pub proof fn keys_change_only_the_text<V: Validator>(field: Input<V>, key: Key, next: Input<V>)
    requires
        field.keyed(key, next),
    ensures
        next.question == field.question,
        next.placeholder == field.placeholder,
        next.default == field.default,
        next.validator == field.validator,
        next.value@ == typed(field.value@, key),
{
}

/// Where nothing is to be checked every answer will do; where a function is given, its
/// word is the verdict.
pub proof fn answers_are_judged_as_asked<F: Fn(&String) -> Result<(), String>>(
    check: Checked<F>,
    answer: String,
    verdict: Result<(), String>,
)
    ensures
        AnyAnswer.handles(answer),
        AnyAnswer.judges(answer, verdict) <==> verdict is Ok,
        check.handles(answer) <==> call_requires(check.check, (&answer,)),
        check.judges(answer, verdict) <==> call_ensures(check.check, (&answer,), verdict),
{
}

/// A prompt for a text is open to every answer that its validator can judge.
pub proof fn a_text_can_be_asked_for<V: Validator>(field: Input<V>, question: Confirm)
    ensures
        field.ready() <==> forall|answer: String| #[trigger] field.validator.handles(answer),
        question.ready(),
{
}

/// Where no item holds the value the cursor starts on the first.
pub proof fn without_such_an_item_the_first_is_taken<T: PartialEq>(
    items: Seq<(T, String, String)>,
    value: T,
    cursor: int,
)
    requires
        first_holding(items, value, cursor),
        forall|j: int| 0 <= j < items.len() ==> !(#[trigger] items[j]).0.eq_spec(&value),
    ensures
        cursor == 0,
{
}

} // verus!
