//! How text looks on a terminal: colors, width, and lines cut to fit.

use vstd::prelude::*;

verus! {

/// The ways in which text is painted.
#[derive(Clone, Copy, Debug, PartialEq, Eq, Structural)]
pub enum Look {
    Cyan,
    Yellow,
    Red,
    Green,
    Muted,
    Dim,
    Struck,
    Reverse,
    DimReverse,
    Banner,
}

/// The style that a dotted name stands for, as the escape sequences that switch it
/// on; only those that are used here.
pub open spec fn escapes(dotted: Seq<char>) -> Option<Seq<char>> {
    if dotted == "cyan"@ {
        Some("\u{1b}[36m"@)
    } else if dotted == "yellow"@ {
        Some("\u{1b}[33m"@)
    } else if dotted == "red"@ {
        Some("\u{1b}[31m"@)
    } else if dotted == "green"@ {
        Some("\u{1b}[32m"@)
    } else if dotted == "black.bright"@ {
        Some("\u{1b}[38;5;8m"@)
    } else if dotted == "dim"@ {
        Some("\u{1b}[2m"@)
    } else if dotted == "dim.strikethrough"@ {
        Some("\u{1b}[2m\u{1b}[9m"@)
    } else if dotted == "reverse"@ {
        Some("\u{1b}[7m"@)
    } else if dotted == "dim.reverse"@ {
        Some("\u{1b}[2m\u{1b}[7m"@)
    } else if dotted == "black.on_cyan"@ {
        Some("\u{1b}[30m\u{1b}[46m"@)
    } else {
        None
    }
}

/// Calls `console::Style::from_dotted_str` and writes the text in that style, with
/// colors forced on or off.
///
/// With colors off the text comes out as it is. With colors on it stands between
/// the escape sequences of the style and the one that resets it.
#[verifier::external_body]
fn apply_style(s: &str, dotted: &str, colors: bool) -> (r: String)
    requires
        escapes(dotted@) is Some,
    ensures
        r@ == if colors {
            escapes(dotted@).unwrap() + s@ + "\u{1b}[0m"@
        } else {
            s@
        },
{
    console::Style::from_dotted_str(dotted).force_styling(colors).apply_to(s).to_string()
}

impl Look {
    /// The dotted name of the look.
    pub open spec fn dotted(self) -> Seq<char> {
        match self {
            Look::Cyan => "cyan"@,
            Look::Yellow => "yellow"@,
            Look::Red => "red"@,
            Look::Green => "green"@,
            Look::Muted => "black.bright"@,
            Look::Dim => "dim"@,
            Look::Struck => "dim.strikethrough"@,
            Look::Reverse => "reverse"@,
            Look::DimReverse => "dim.reverse"@,
            Look::Banner => "black.on_cyan"@,
        }
    }
}

/// The text in a look: on a terminal without colors it is the text alone.
pub open spec fn painted(s: Seq<char>, look: Look, colors: bool) -> Seq<char> {
    if colors {
        escapes(look.dotted()).unwrap() + s + "\u{1b}[0m"@
    } else {
        s
    }
}

/// Paints a text.
pub fn paint(s: &str, look: Look, colors: bool) -> (r: String)
    ensures
        r@ == painted(s@, look, colors),
{
    let dotted = match look {
        Look::Cyan => "cyan",
        Look::Yellow => "yellow",
        Look::Red => "red",
        Look::Green => "green",
        Look::Muted => "black.bright",
        Look::Dim => "dim",
        Look::Struck => "dim.strikethrough",
        Look::Reverse => "reverse",
        Look::DimReverse => "dim.reverse",
        Look::Banner => "black.on_cyan",
    };
    apply_style(s, dotted, colors)
}

/// How many columns of a terminal a text takes, by `console::measure_text_width`.
pub uninterp spec fn text_width(s: Seq<char>) -> usize;

/// Calls `console::measure_text_width`: the columns that a text takes, escape
/// sequences not counted. The result depends on the text alone.
#[verifier::external_body]
pub(crate) fn measure(s: &str) -> (n: usize)
    ensures
        n == text_width(s@),
{
    console::measure_text_width(s)
}

/// A text cut to so many columns, by `console::truncate_str`.
pub uninterp spec fn cut(s: Seq<char>, width: usize, tail: Seq<char>) -> Seq<char>;

/// Calls `console::truncate_str`: a text that takes more columns than `width` is
/// cut and ends in `tail`, with its escape sequences kept. The result depends on
/// the arguments alone, and a text that fits is left as it is.
#[verifier::external_body]
fn truncate(s: &str, width: usize, tail: &str) -> (r: String)
    ensures
        r@ == cut(s@, width, tail@),
        text_width(s@) <= width ==> r@ == s@,
{
    console::truncate_str(s, width, tail).into_owned()
}

/// The lines of a frame cut to a terminal's width, with the last column left free:
/// a line that wrapped would throw off how far up the next frame reaches.
pub fn fit(lines: &Vec<String>, columns: usize) -> (r: Vec<String>)
    ensures
        r.len() == lines.len(),
        forall|i: int|
            0 <= i < r.len() ==> (#[trigger] r@[i])@ == fitted(lines@[i]@, columns),
        forall|i: int|
            0 <= i < r.len() && text_width(lines@[i]@) < columns ==> (#[trigger] r@[i])@ == lines@[i]@,
{
    let width = columns.saturating_sub(1);
    let mut r: Vec<String> = Vec::new();
    let mut i: usize = 0;
    while i < lines.len()
        invariant
            i <= lines.len(),
            i == r.len(),
            width == if columns > 0 {
                columns - 1
            } else {
                0
            },
            forall|j: int| 0 <= j < i ==> (#[trigger] r@[j])@ == fitted(lines@[j]@, columns),
            forall|j: int|
                0 <= j < i && text_width(lines@[j]@) < columns ==> (#[trigger] r@[j])@ == lines@[j]@,
        decreases lines.len() - i,
    {
        r.push(truncate(lines[i].as_str(), width, "…"));
        i = i + 1;
    }
    r
}

/// A line cut to a terminal's width.
pub open spec fn fitted(s: Seq<char>, columns: usize) -> Seq<char> {
    cut(
        s,
        (if columns > 0 {
            columns - 1
        } else {
            0
        }) as usize,
        "…"@,
    )
}

/// Without colors nothing is painted. With them a text of any kind stands, whole,
/// between the codes of its look and the one code that resets them all.
pub proof fn painting_keeps_the_text(s: Seq<char>, look: Look)
    ensures
        painted(s, look, false) == s,
        painted(s, look, true) == (match look {
            Look::Cyan => "\u{1b}[36m"@,
            Look::Yellow => "\u{1b}[33m"@,
            Look::Red => "\u{1b}[31m"@,
            Look::Green => "\u{1b}[32m"@,
            Look::Muted => "\u{1b}[38;5;8m"@,
            Look::Dim => "\u{1b}[2m"@,
            Look::Struck => "\u{1b}[2m\u{1b}[9m"@,
            Look::Reverse => "\u{1b}[7m"@,
            Look::DimReverse => "\u{1b}[2m\u{1b}[7m"@,
            Look::Banner => "\u{1b}[30m\u{1b}[46m"@,
        }) + s + "\u{1b}[0m"@,
{
    reveal_strlit("cyan");
    reveal_strlit("yellow");
    reveal_strlit("red");
    reveal_strlit("green");
    reveal_strlit("black.bright");
    reveal_strlit("dim");
    reveal_strlit("dim.strikethrough");
    reveal_strlit("reverse");
    reveal_strlit("dim.reverse");
    reveal_strlit("black.on_cyan");
    assert("cyan"@.len() == 4 && "yellow"@.len() == 6 && "red"@.len() == 3 && "green"@.len() == 5);
    assert("black.bright"@.len() == 12 && "dim"@.len() == 3 && "dim.strikethrough"@.len() == 17);
    assert("reverse"@.len() == 7 && "dim.reverse"@.len() == 11 && "black.on_cyan"@.len() == 13);
    assert("dim"@[0] != "red"@[0]);
}

/// A terminal shows one column less of a line than it has, whatever the line holds.
pub proof fn the_last_column_stays_free(s: Seq<char>, columns: usize)
    ensures
        columns > 0 ==> fitted(s, columns) == cut(s, (columns - 1) as usize, "…"@),
        columns == 0 ==> fitted(s, columns) == cut(s, 0, "…"@),
{
}

} // verus!
