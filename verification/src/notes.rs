//! What stands between the prompts of the wizard: its beginning and end, remarks,
//! and a box with a note.

use vstd::prelude::*;

use crate::style::Look;
use crate::style;
use crate::text;

verus! {

/// The line that the wizard begins with.
pub fn intro(title: &str, colors: bool) -> (r: String)
    ensures
        r@ == style::painted("┌"@, Look::Muted, colors) + "  "@ + title@ + "\n"@ + style::painted(
            "│"@,
            Look::Muted,
            colors,
        ),
{
    let mut r = style::paint("┌", Look::Muted, colors);
    r.append("  ");
    r.append(title);
    r.append("\n");
    r.append(style::paint("│", Look::Muted, colors).as_str());
    r
}

/// The line that the wizard ends with.
pub fn outro(message: &str, colors: bool) -> (r: String)
    ensures
        r@ == style::painted("└"@, Look::Muted, colors) + "  "@ + message@ + "\n"@,
{
    let mut r = style::paint("└", Look::Muted, colors);
    r.append("  ");
    r.append(message);
    r.append("\n");
    r
}

/// The line that the wizard ends with when nothing was done.
pub fn outro_cancel(message: &str, colors: bool) -> (r: String)
    ensures
        r@ == style::painted("└"@, Look::Muted, colors) + "  "@ + style::painted(
            message@,
            Look::Red,
            colors,
        ) + "\n"@,
{
    outro(style::paint(message, Look::Red, colors).as_str(), colors)
}

/// The first `n` lines of a remark: the first after its symbol, the others beside
/// the bar.
pub open spec fn remarked(
    symbol: Seq<char>,
    lines: Seq<Seq<char>>,
    n: int,
    colors: bool,
) -> Seq<char>
    decreases n,
{
    if n <= 1 {
        symbol + "  "@ + (if lines.len() > 0 {
            lines[0]
        } else {
            Seq::empty()
        }) + "\n"@
    } else {
        remarked(symbol, lines, n - 1, colors) + style::painted("│"@, Look::Muted, colors) + "  "@
            + lines[n - 1] + "\n"@
    }
}

/// A remark: its lines, the first after the symbol, and the bar below.
pub open spec fn logged(symbol: Seq<char>, s: Seq<char>, colors: bool) -> Seq<char> {
    let lines = text::text_lines(s);
    remarked(symbol, lines, lines.len() as int, colors) + style::painted("│"@, Look::Muted, colors)
}

/// Writes a remark after a symbol.
fn log(symbol: &str, s: &str, colors: bool) -> (r: String)
    ensures
        r@ == logged(symbol@, s@, colors),
{
    let lines = text::lines(s);
    let ghost all = text::text_lines(s@);
    let mut r = symbol.to_owned();
    r.append("  ");
    if lines.len() > 0 {
        r.append(lines[0].as_str());
    } else {
        r.append("");
        proof {
            reveal_strlit("");
            assert(""@ =~= Seq::<char>::empty());
        }
    }
    r.append("\n");
    let mut i: usize = 1;
    while i < lines.len()
        invariant
            1 <= i,
            all == text::views(lines@),
            i <= lines.len() || i == 1,
            r@ == remarked(symbol@, all, i as int, colors),
        decreases lines.len() - i,
    {
        r.append(style::paint("│", Look::Muted, colors).as_str());
        r.append("  ");
        r.append(lines[i].as_str());
        r.append("\n");
        i = i + 1;
    }
    r.append(style::paint("│", Look::Muted, colors).as_str());
    r
}

/// A remark in passing.
pub fn remark(s: &str, colors: bool) -> (r: String)
    ensures
        r@ == logged(style::painted("├"@, Look::Muted, colors), s@, colors),
{
    log(style::paint("├", Look::Muted, colors).as_str(), s, colors)
}

/// A remark to be heeded.
pub fn warning(s: &str, colors: bool) -> (r: String)
    ensures
        r@ == logged(style::painted("▲"@, Look::Yellow, colors), s@, colors),
{
    log(style::paint("▲", Look::Yellow, colors).as_str(), s, colors)
}

/// The title of a note as it stands in the upper edge of the box.
pub open spec fn note_header(title: Seq<char>) -> Seq<char> {
    "  "@ + title + " "@
}

/// The lines of a note, with an empty one before and after.
pub open spec fn note_lines(message: Seq<char>) -> Seq<Seq<char>> {
    text::pieces("\n"@ + message + "\n"@, '\n')
}

/// The room that the widest of the lines needs, with two columns to spare, and at
/// least `least`.
pub open spec fn widest(lines: Seq<Seq<char>>, least: nat) -> nat
    decreases lines.len(),
{
    if lines.len() == 0 {
        least
    } else {
        let before = widest(lines.drop_last(), least);
        let own = style::text_width(lines.last()) as nat + 2;
        if own > before {
            own
        } else {
            before
        }
    }
}

/// The width of the box around a note.
pub open spec fn note_width(title: Seq<char>, message: Seq<char>) -> nat {
    widest(note_lines(message), style::text_width(note_header(title)) as nat)
}

/// One line in the box.
pub open spec fn note_row(line: Seq<char>, width: nat, colors: bool) -> Seq<char> {
    style::painted("│"@, Look::Muted, colors) + "  "@ + style::painted(line, Look::Dim, colors)
        + text::repeated(' ', (width - style::text_width(line)) as nat) + style::painted(
        "│"@,
        Look::Muted,
        colors,
    ) + "\n"@
}

/// The upper edge of the box, and the first lines in it.
pub open spec fn note_top(title: Seq<char>, lines: Seq<Seq<char>>, width: nat, colors: bool) -> Seq<
    char,
>
    decreases lines.len(),
{
    if lines.len() == 0 {
        style::painted("◇"@, Look::Green, colors) + note_header(title) + style::painted(
            text::repeated('─', (2 + width - style::text_width(note_header(title))) as nat) + "╮"@,
            Look::Muted,
            colors,
        ) + "\n"@
    } else {
        note_top(title, lines.drop_last(), width, colors) + note_row(lines.last(), width, colors)
    }
}

/// A note in a box.
pub open spec fn boxed(title: Seq<char>, message: Seq<char>, colors: bool) -> Seq<char> {
    let width = note_width(title, message);
    note_top(title, note_lines(message), width, colors) + style::painted(
        "├"@ + text::repeated('─', width + 2) + "╯"@,
        Look::Muted,
        colors,
    ) + "\n"@ + style::painted("│"@, Look::Muted, colors) + "\n"@
}

proof fn widest_holds(lines: Seq<Seq<char>>, least: nat)
    ensures
        least <= widest(lines, least),
        forall|i: int|
            0 <= i < lines.len() ==> style::text_width(#[trigger] lines[i]) + 2 <= widest(lines, least),
    decreases lines.len(),
{
    if lines.len() > 0 {
        widest_holds(lines.drop_last(), least);
        assert forall|i: int| 0 <= i < lines.len() implies style::text_width(#[trigger] lines[i]) + 2
            <= widest(lines, least) by {
            if i < lines.len() - 1 {
                assert(lines.drop_last()[i] == lines[i]);
            }
        }
    }
}

proof fn widest_grows(lines: Seq<Seq<char>>, least: nat, n: int)
    requires
        0 <= n <= lines.len(),
    ensures
        widest(lines.take(n), least) <= widest(lines, least),
    decreases lines.len() - n,
{
    if n == lines.len() {
        assert(lines.take(n) =~= lines);
    } else {
        widest_grows(lines, least, n + 1);
        assert(lines.take(n + 1).drop_last() =~= lines.take(n));
    }
}

/// The lines of a note, with an empty one before and after.
fn split_note(message: &str) -> (lines: Vec<String>)
    ensures
        text::views(lines@) == note_lines(message@),
{
    let mut spaced = "\n".to_owned();
    spaced.append(message);
    spaced.append("\n");
    text::split(spaced.as_str(), '\n')
}

fn head_note(title: &str) -> (header: String)
    ensures
        header@ == note_header(title@),
{
    let mut header = "  ".to_owned();
    header.append(title);
    header.append(" ");
    header
}

/// The width of the box around a note, if a frame of that width can be counted.
fn measure_note(title: &str, message: &str) -> (width: Option<usize>)
    ensures
        match width {
            Some(n) => n == note_width(title@, message@) && n + 2 <= usize::MAX,
            None => note_width(title@, message@) + 2 > usize::MAX,
        },
{
    let lines = split_note(message);
    let ghost all = note_lines(message@);
    let least = style::measure(head_note(title).as_str());
    let mut width: usize = least;
    if width > usize::MAX - 2 {
        proof {
            widest_holds(all, least as nat);
        }
        return None;
    }
    let mut i: usize = 0;
    assert(all.take(0) =~= Seq::<Seq<char>>::empty());
    while i < lines.len()
        invariant
            i <= lines.len(),
            all == text::views(lines@),
            all == note_lines(message@),
            least == style::text_width(note_header(title@)),
            width == widest(all.take(i as int), least as nat),
            width + 2 <= usize::MAX,
        decreases lines.len() - i,
    {
        proof {
            widest_grows(all, least as nat, i + 1);
            assert(all.take(i + 1).drop_last() =~= all.take(i as int));
            assert(all.take(i + 1).last() == lines@[i as int]@);
        }
        let own = style::measure(lines[i].as_str());
        if own > usize::MAX - 4 {
            return None;
        }
        if own + 2 > width {
            width = own + 2;
        }
        i = i + 1;
    }
    assert(all.take(all.len() as int) =~= all);
    Some(width)
}

/// Puts a note in a box that lines up around it.
pub fn note_box(title: &str, message: &str, colors: bool) -> (r: String)
    requires
        note_width(title@, message@) + 2 <= usize::MAX,
    ensures
        r@ == boxed(title@, message@, colors),
{
    let lines = split_note(message);
    let header = head_note(title);
    let ghost all = note_lines(message@);
    let ghost wide = note_width(title@, message@);
    proof {
        widest_holds(all, style::text_width(note_header(title@)) as nat);
    }
    let width = match measure_note(title, message) {
        Some(n) => n,
        None => {
            assert(false);
            0
        },
    };
    let mut edge = text::repeat('─', 2 + (width - style::measure(header.as_str())));
    edge.append("╮");
    let mut r = style::paint("◇", Look::Green, colors);
    r.append(header.as_str());
    r.append(style::paint(edge.as_str(), Look::Muted, colors).as_str());
    r.append("\n");
    let mut i: usize = 0;
    assert(all.take(0) =~= Seq::<Seq<char>>::empty());
    while i < lines.len()
        invariant
            i <= lines.len(),
            all == text::views(lines@),
            width == wide,
            forall|j: int|
                0 <= j < all.len() ==> style::text_width(#[trigger] all[j]) + 2 <= wide,
            r@ == note_top(title@, all.take(i as int), wide, colors),
        decreases lines.len() - i,
    {
        proof {
            assert(all.take(i + 1).drop_last() =~= all.take(i as int));
            assert(all.take(i + 1).last() == lines@[i as int]@);
            assert(all[i as int] == lines@[i as int]@);
        }
        let line = lines[i].as_str();
        let mut row = style::paint("│", Look::Muted, colors);
        row.append("  ");
        row.append(style::paint(line, Look::Dim, colors).as_str());
        row.append(text::repeat(' ', width - style::measure(line)).as_str());
        row.append(style::paint("│", Look::Muted, colors).as_str());
        row.append("\n");
        r.append(row.as_str());
        i = i + 1;
    }
    assert(all.take(all.len() as int) =~= all);
    let mut edge = "├".to_owned();
    edge.append(text::repeat('─', width + 2).as_str());
    edge.append("╯");
    r.append(style::paint(edge.as_str(), Look::Muted, colors).as_str());
    r.append("\n");
    r.append(style::paint("│", Look::Muted, colors).as_str());
    r.append("\n");
    r
}

/// The box holds its title and every line: each is padded to the width of the box,
/// and no line is wider than that.
pub proof fn the_box_holds_every_line(title: Seq<char>, message: Seq<char>)
    ensures
        style::text_width(note_header(title)) <= note_width(title, message),
        forall|i: int|
            0 <= i < note_lines(message).len() ==> style::text_width(
                #[trigger] note_lines(message)[i],
            ) + 2 <= note_width(title, message),
{
    widest_holds(note_lines(message), style::text_width(note_header(title)) as nat);
}

/// Puts a note in a box, unless the box would be wider than can be counted.
pub fn note(title: &str, message: &str, colors: bool) -> (r: Option<String>)
    ensures
        match r {
            Some(s) => s@ == boxed(title@, message@, colors) && note_width(title@, message@) + 2
                <= usize::MAX,
            None => note_width(title@, message@) + 2 > usize::MAX,
        },
{
    match measure_note(title, message) {
        Some(_) => Some(note_box(title, message, colors)),
        None => None,
    }
}

/// A note holds every line of its message, with an empty one before and after.
pub proof fn a_note_holds_its_message(message: Seq<char>)
    ensures
        note_lines(message) == seq![Seq::<char>::empty()] + text::pieces(message, '\n') + seq![
            Seq::<char>::empty(),
        ],
{
    reveal_strlit("\n");
    let none = Seq::<char>::empty();
    assert("\n"@ =~= none.push('\n'));
    text::a_text_without_separators_is_whole(none, '\n');
    text::a_separator_parts_the_text(none, message.push('\n'), '\n');
    text::a_separator_parts_the_text(message, none, '\n');
    assert("\n"@ + message + "\n"@ =~= none.push('\n') + message.push('\n'));
    assert(message.push('\n') + none =~= message.push('\n'));
    assert(note_lines(message) =~= seq![none] + text::pieces(message, '\n') + seq![none]);
}

/// A box is no wider than its title or its widest line with two columns to spare.
pub proof fn the_box_is_no_wider_than_needed(title: Seq<char>, message: Seq<char>)
    ensures
        note_width(title, message) == style::text_width("  "@ + title + " "@) || exists|i: int|
            0 <= i < note_lines(message).len() && note_width(title, message) == style::text_width(
                #[trigger] note_lines(message)[i],
            ) + 2,
{
    widest_is_reached(note_lines(message), style::text_width(note_header(title)) as nat);
}

proof fn widest_is_reached(lines: Seq<Seq<char>>, least: nat)
    ensures
        widest(lines, least) == least || exists|i: int|
            0 <= i < lines.len() && widest(lines, least) == style::text_width(#[trigger] lines[i]) + 2,
    decreases lines.len(),
{
    if lines.len() > 0 {
        let before = lines.drop_last();
        widest_is_reached(before, least);
        if widest(lines, least) == widest(before, least) && widest(before, least) != least {
            let i = choose|i: int|
                0 <= i < before.len() && widest(before, least) == style::text_width(
                    #[trigger] before[i],
                ) + 2;
            assert(lines[i] == before[i]);
        } else if widest(lines, least) != least {
            assert(lines[lines.len() - 1] == lines.last());
        }
    }
}

/// Each line of a note makes the box longer by a row: the line, dimmed, blanks up to
/// the width of the box, and the two edges.
pub proof fn every_line_has_its_row(
    title: Seq<char>,
    lines: Seq<Seq<char>>,
    line: Seq<char>,
    width: nat,
    colors: bool,
)
    requires
        style::text_width(line) <= width,
        style::text_width("  "@ + title + " "@) <= width,
    ensures
        note_top(title, Seq::empty(), width, colors) == style::painted("◇"@, Look::Green, colors) + (
        "  "@ + title + " "@) + style::painted(
            text::repeated('─', (2 + width - style::text_width("  "@ + title + " "@)) as nat)
                + "╮"@,
            Look::Muted,
            colors,
        ) + "\n"@,
        note_top(title, lines.push(line), width, colors) == note_top(title, lines, width, colors) + (
        style::painted("│"@, Look::Muted, colors) + "  "@ + style::painted(line, Look::Dim, colors)
            + text::repeated(' ', (width - style::text_width(line)) as nat) + style::painted(
            "│"@,
            Look::Muted,
            colors,
        ) + "\n"@),
{
    assert(lines.push(line).drop_last() =~= lines);
}

/// Below the lines of a note stand the lower edge, as wide as the upper one, and the
/// bar.
pub proof fn the_box_is_closed(title: Seq<char>, message: Seq<char>, colors: bool)
    ensures
        boxed(title, message, colors) == note_top(
            title,
            note_lines(message),
            note_width(title, message),
            colors,
        ) + style::painted(
            "├"@ + text::repeated('─', note_width(title, message) + 2) + "╯"@,
            Look::Muted,
            colors,
        ) + "\n"@ + style::painted("│"@, Look::Muted, colors) + "\n"@,
{
}

/// A remark holds every line of its text: the first behind the symbol, each other
/// behind the bar, and the bar alone at the end.
pub proof fn a_remark_holds_every_line(
    symbol: Seq<char>,
    s: Seq<char>,
    lines: Seq<Seq<char>>,
    n: int,
    colors: bool,
)
    ensures
        logged(symbol, s, colors) == remarked(
            symbol,
            text::text_lines(s),
            text::text_lines(s).len() as int,
            colors,
        ) + style::painted("│"@, Look::Muted, colors),
        lines.len() > 0 ==> remarked(symbol, lines, 1, colors) == symbol + "  "@ + lines[0] + "\n"@,
        lines.len() == 0 ==> remarked(symbol, lines, 0, colors) == symbol + "  "@ + "\n"@,
        1 < n <= lines.len() ==> remarked(symbol, lines, n, colors) == remarked(
            symbol,
            lines,
            n - 1,
            colors,
        ) + style::painted("│"@, Look::Muted, colors) + "  "@ + lines[n - 1] + "\n"@,
{
    assert(symbol + "  "@ + Seq::<char>::empty() =~= symbol + "  "@);
}

} // verus!
