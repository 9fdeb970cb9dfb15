use console::{strip_ansi_codes, style};
use op_cache::notes::{intro, note, note_box, outro, outro_cancel, remark, warning};
use op_cache::prompt::{confirm, frame, input, select, Key, Phase, Step, Widget};
use op_cache::style::{fit, paint, Look};

fn plain(lines: Vec<String>) -> Vec<String> {
    lines.iter().map(|l| strip_ansi_codes(l).into_owned()).collect()
}

#[test]
fn select_moves_within_its_items_and_scrolls_a_short_window() {
    let mut menu = select("Pick")
        .item(1, "one", "first")
        .item(2, "two", "")
        .item(3, "three", "")
        .initial_value(2);
    menu.visible = 2;
    assert_eq!(plain(menu.body(&Phase::Active, true)), ["○ one", "● two", "..."]);

    menu.key(Key::ArrowDown);
    menu.key(Key::ArrowDown);
    assert_eq!(
        plain(menu.body(&Phase::Active, true)),
        ["...", "○ two", "● three"]
    );
    assert_eq!(menu.submit(), Ok(3));
    assert_eq!(plain(menu.body(&Phase::Submit, true)), ["three"]);

    for _ in 0..3 {
        menu.key(Key::ArrowUp);
    }
    assert_eq!(
        plain(menu.body(&Phase::Active, true)),
        ["● one (first)", "○ two", "..."]
    );
}

#[test]
fn input_falls_back_to_its_default_and_holds_invalid_answers() {
    let ask = || {
        input("How long?").default_input("1h").validate(|s: &String| {
            if s == "soon" {
                Err("no".to_string())
            } else {
                Ok(())
            }
        })
    };

    let mut prompt = ask();
    assert_eq!(plain(prompt.body(&Phase::Active, true)), ["1h"]);
    assert_eq!(prompt.submit(), Ok("1h".to_string()));

    let mut prompt = ask();
    for c in "soon!".chars() {
        prompt.key(Key::Char(c));
    }
    prompt.key(Key::Backspace);
    assert_eq!(plain(prompt.body(&Phase::Active, true)), ["soon "]);
    assert_eq!(prompt.submit(), Err("no".to_string()));

    assert_eq!(input("Name?").submit(), Err("Input required".to_string()));
}

#[test]
fn note_box_lines_up_around_styled_text() {
    let message = format!(
        "{} value\nlonger line here",
        style("label").dim().force_styling(true)
    );
    let note = strip_ansi_codes(&note_box("Title", &message, true)).into_owned();
    let lines: Vec<&str> = note.lines().collect();
    assert_eq!(
        lines,
        [
            "◇  Title ────────────╮",
            "│                    │",
            "│  label value       │",
            "│  longer line here  │",
            "│                    │",
            "├────────────────────╯",
            "│",
        ]
    );
}

#[test]
fn a_long_title_widens_the_box() {
    assert_eq!(
        note("A rather long title", "x", false).unwrap(),
        "◇  A rather long title ──╮\n\
         │                        │\n\
         │  x                     │\n\
         │                        │\n\
         ├────────────────────────╯\n\
         │\n"
    );
    assert_eq!(note("T", "x", false).unwrap(), note_box("T", "x", false));
}

#[test]
fn looks_are_those_of_the_console() {
    let on = |s: console::StyledObject<&'static str>| s.force_styling(true).to_string();
    assert_eq!(paint("x", Look::Cyan, true), on(style("x").cyan()));
    assert_eq!(paint("x", Look::Yellow, true), on(style("x").yellow()));
    assert_eq!(paint("x", Look::Red, true), on(style("x").red()));
    assert_eq!(paint("x", Look::Green, true), on(style("x").green()));
    assert_eq!(paint("x", Look::Muted, true), on(style("x").black().bright()));
    assert_eq!(paint("x", Look::Dim, true), on(style("x").dim()));
    assert_eq!(paint("x", Look::Struck, true), on(style("x").dim().strikethrough()));
    assert_eq!(paint("x", Look::Reverse, true), on(style("x").reverse()));
    assert_eq!(paint("x", Look::DimReverse, true), on(style("x").dim().reverse()));
    assert_eq!(paint("x", Look::Banner, true), on(style("x").on_cyan().black()));
    assert_eq!(paint("", Look::Red, true), on(style("").red()));
    assert_eq!(paint("x", Look::Cyan, true), "\u{1b}[36mx\u{1b}[0m");
    assert_eq!(paint("x", Look::Muted, true), "\u{1b}[38;5;8mx\u{1b}[0m");
    assert_eq!(paint("x", Look::Banner, true), "\u{1b}[30m\u{1b}[46mx\u{1b}[0m");
    assert_eq!(paint("x", Look::Banner, false), "x");
}

#[test]
fn lines_are_cut_to_the_terminal() {
    let lines = vec!["abcdef".to_string(), "abc".to_string(), "漢字".to_string()];
    assert_eq!(fit(&lines, 5), ["abc…", "abc", "漢字"]);
    assert_eq!(fit(&lines, 4), ["ab…", "abc", "漢…"]);
    assert_eq!(fit(&lines, 80), lines);
}

#[test]
fn confirm_turns_on_its_keys() {
    let mut question = confirm("Sure?");
    assert_eq!(question.body(&Phase::Active, false), ["○ Yes / ● No"]);
    question.key(Key::Char('y'));
    assert_eq!(question.body(&Phase::Active, false), ["● Yes / ○ No"]);
    question.key(Key::ArrowRight);
    assert_eq!(question.submit(), Ok(false));
    question.key(Key::ArrowLeft);
    assert_eq!(question.submit(), Ok(true));
    question.key(Key::Char('N'));
    question.key(Key::Char('x'));
    question.key(Key::Enter);
    assert_eq!(question.submit(), Ok(false));
    assert_eq!(confirm("Sure?").initial_value(true).submit(), Ok(true));
    assert_eq!(question.body(&Phase::Cancel, false), ["No"]);
}

#[test]
fn a_session_holds_a_refused_answer_until_the_next_key() {
    let mut session = input("Name?").interact();
    assert_eq!(session.frame(false), ["◆  Name?", "│   ", "└"]);
    assert_eq!(session.step(Key::Enter), Step::Redraw);
    assert_eq!(session.frame(false), ["▲  Name?", "│   ", "└  Input required"]);
    assert_eq!(session.step(Key::Char('\u{7}')), Step::Redraw);
    assert_eq!(session.frame(false), ["◆  Name?", "│   ", "└"]);
    assert_eq!(session.step(Key::Char('m')), Step::Redraw);
    assert_eq!(session.step(Key::Char('e')), Step::Redraw);
    assert_eq!(session.step(Key::Enter), Step::Done("me".to_string()));
    assert_eq!(session.frame(false), ["◇  Name?", "│  me", "│"]);
}

#[test]
fn a_session_is_given_up_on_escape() {
    let mut session = confirm("Sure?").interact();
    assert_eq!(session.step(Key::Other), Step::Redraw);
    assert_eq!(session.step(Key::Escape), Step::Cancelled);
    assert_eq!(session.frame(false), ["■  Sure?", "│  No", "└  Operation cancelled."]);
    let mut session = input("Name?").interact();
    assert_eq!(session.step(Key::CtrlC), Step::Cancelled);
}

#[test]
fn a_choice_leaves_room_on_the_terminal() {
    let menu = || {
        select("Pick")
            .item('a', "a", "")
            .item('b', "b", "hint")
            .item('c', "c", "")
            .initial_value('c')
    };
    assert_eq!(menu().interact(7).frame(false), ["◆  Pick", "│  ...", "│  ○ b", "│  ● c", "└"]);
    assert_eq!(menu().interact(0).frame(false), ["◆  Pick", "│  ...", "│  ● c", "└"]);
    let mut session = menu().interact(24);
    assert_eq!(session.frame(false), ["◆  Pick", "│  ○ a", "│  ○ b", "│  ● c", "└"]);
    assert_eq!(session.step(Key::ArrowUp), Step::Redraw);
    assert_eq!(session.frame(false), ["◆  Pick", "│  ○ a", "│  ● b (hint)", "│  ○ c", "└"]);
    assert_eq!(session.step(Key::Enter), Step::Done('b'));
    assert_eq!(select("?").item(1, "x", "").initial_value(9).cursor, 0);
}

#[test]
fn a_window_moves_no_further_than_needed() {
    let tops = |keys: &[Key]| {
        let mut menu = select("Pick").item(0, "a", "").item(1, "b", "").item(2, "c", "").item(3, "d", "");
        menu.visible = 2;
        let mut tops = Vec::new();
        for key in keys {
            menu.key(*key);
            tops.push(menu.top);
        }
        tops
    };
    let (up, down) = (Key::ArrowUp, Key::ArrowDown);
    assert_eq!(tops(&[down, down, down, up, up, up, Key::Other]), [0, 1, 2, 2, 1, 0, 0]);
}

#[test]
fn a_placeholder_stands_before_the_default() {
    let field = input("Q").default_input("1h").placeholder("e.g. 2h");
    assert_eq!(field.body(&Phase::Active, false), ["e.g. 2h"]);
    assert_eq!(
        field.body(&Phase::Active, true),
        ["\u{1b}[2m\u{1b}[7me\u{1b}[0m\u{1b}[2m.g. 2h\u{1b}[0m"]
    );
    assert_eq!(frame("Q", &field, &Phase::Active, false), ["◆  Q", "│  e.g. 2h", "└"]);
}

#[test]
fn remarks_stand_beside_the_bar() {
    assert_eq!(intro("T", false), "┌  T\n│");
    assert_eq!(outro("bye", false), "└  bye\n");
    assert_eq!(outro_cancel("no", false), "└  no\n");
    assert_eq!(
        outro_cancel("no", true),
        "\u{1b}[38;5;8m└\u{1b}[0m  \u{1b}[31mno\u{1b}[0m\n"
    );
    assert_eq!(remark("a\nb\n", false), "├  a\n│  b\n│");
    assert_eq!(remark("", false), "├  \n│");
    assert_eq!(warning("w", false), "▲  w\n│");
    assert_eq!(
        warning("w", true),
        "\u{1b}[33m▲\u{1b}[0m  w\n\u{1b}[38;5;8m│\u{1b}[0m"
    );
}
