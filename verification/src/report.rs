//! What `status`, `inspect` and the commands that only tell the daemon something
//! print.

use vstd::prelude::*;

use crate::cli::Command;
use crate::config;
use crate::protocol::{Entry, Status};
use crate::text;
use crate::time::Duration;

verus! {

/// What is told in one line.
pub open spec fn told(s: Seq<char>) -> Seq<char> {
    "op-cache: "@ + s + "\n"@
}

/// Tells something in one line.
pub fn announce(s: &str) -> (r: String)
    ensures
        r@ == told(s@),
{
    let mut r = "op-cache: ".to_owned();
    r.append(s);
    r.append("\n");
    r
}

/// What is told of a command that only tells the daemon something: what it came
/// to, or that there was no daemon.
pub open spec fn outcome(command: Command, reached: bool) -> Seq<char> {
    match command {
        Command::Clear => if reached {
            "cleared"@
        } else {
            "nothing to clear"@
        },
        Command::Stop => if reached {
            "stopped"@
        } else {
            "not running"@
        },
        _ => if reached {
            "nothing cached"@
        } else {
            "not running"@
        },
    }
}

/// What to print once the daemon was told to clear or stop, or could not be
/// reached, or had nothing to show.
pub fn sent(command: Command, reached: bool) -> (r: String)
    ensures
        r@ == told(outcome(command, reached)),
{
    let s = match command {
        Command::Clear => if reached {
            "cleared"
        } else {
            "nothing to clear"
        },
        Command::Stop => if reached {
            "stopped"
        } else {
            "not running"
        },
        _ => if reached {
            "nothing cached"
        } else {
            "not running"
        },
    };
    announce(s)
}

/// What to print for a command that lacks its arguments.
pub fn needs_arguments(command: &str) -> (r: String)
    ensures
        r@ == told(command@ + " needs arguments; see op-cache --help"@),
{
    let mut s = command.to_owned();
    s.append(" needs arguments; see op-cache --help");
    announce(s.as_str())
}

/// What is written for so many seconds.
pub open spec fn seconds(secs: u64) -> Seq<char> {
    config::rendered_duration(secs, 0)
}

fn write_seconds(secs: u64) -> (r: String)
    ensures
        r@ == seconds(secs),
{
    config::format_duration(Duration::from_secs(secs))
}

/// Where things are, and how long secrets live.
pub open spec fn settings_part(config: Seq<char>, socket: Seq<char>, ttl: Option<Duration>) -> Seq<
    char,
> {
    "config   "@ + config + "\nsocket   "@ + socket + "\nttl      "@ + config::written_lifetime(
        ttl,
        "until the daemon exits"@,
    ) + "\n"@
}

/// Tells where the configuration and the socket are, and how long secrets live.
pub fn settings(config_path: &str, socket: &str, ttl: Option<Duration>) -> (r: String)
    requires
        config::lifetime_wf(ttl),
    ensures
        r@ == settings_part(config_path@, socket@, ttl),
{
    let mut r = "config   ".to_owned();
    r.append(config_path);
    r.append("\nsocket   ");
    r.append(socket);
    r.append("\nttl      ");
    r.append(config::format_lifetime(ttl, "until the daemon exits").as_str());
    r.append("\n");
    r
}

/// When the daemon gives up.
pub open spec fn patience(idle_timeout_secs: Option<u64>) -> Seq<char> {
    match idle_timeout_secs {
        Some(secs) => "after "@ + seconds(secs),
        None => "never"@,
    }
}

/// A secret in the status: its key, and when it lapses if it does.
pub open spec fn listed(entry: Entry) -> Seq<char> {
    "  "@ + shown_key(entry) + (match entry.expires_in_secs {
        Some(secs) => "  expires in "@ + seconds(secs),
        None => ""@,
    }) + "\n"@
}

/// How the daemon is doing, and the first secrets that it holds.
pub open spec fn daemon_part(status: Status, entries: Seq<Entry>) -> Seq<char>
    decreases entries.len(),
{
    if entries.len() == 0 {
        "daemon   pid "@ + text::decimal(status.pid as nat) + ", up "@ + seconds(status.uptime_secs)
            + ", idles out "@ + patience(status.idle_timeout_secs) + "\ncached   "@ + text::decimal(
            status.cached as nat,
        ) + "\n"@
    } else {
        daemon_part(status, entries.drop_last()) + listed(entries.last())
    }
}

/// Tells how the daemon is doing, and what it holds.
pub fn running(status: &Status, entries: &Vec<Entry>) -> (r: String)
    ensures
        r@ == daemon_part(*status, entries@),
{
    let mut r = "daemon   pid ".to_owned();
    r.append(text::number(status.pid as u64).as_str());
    r.append(", up ");
    r.append(write_seconds(status.uptime_secs).as_str());
    r.append(", idles out ");
    match status.idle_timeout_secs {
        Some(secs) => {
            let mut after = "after ".to_owned();
            after.append(write_seconds(secs).as_str());
            r.append(after.as_str());
        },
        None => r.append("never"),
    }
    r.append("\ncached   ");
    r.append(text::number(status.cached as u64).as_str());
    r.append("\n");
    let mut i: usize = 0;
    assert(entries@.take(0) =~= Seq::<Entry>::empty());
    while i < entries.len()
        invariant
            i <= entries.len(),
            r@ == daemon_part(*status, entries@.take(i as int)),
        decreases entries.len() - i,
    {
        assert(entries@.take(i + 1).drop_last() =~= entries@.take(i as int));
        let entry = &entries[i];
        let mut line = "  ".to_owned();
        line.append(write_key(entry).as_str());
        match entry.expires_in_secs {
            Some(secs) => {
                let mut when = "  expires in ".to_owned();
                when.append(write_seconds(secs).as_str());
                line.append(when.as_str());
            },
            None => line.append(""),
        }
        line.append("\n");
        r.append(line.as_str());
        i = i + 1;
    }
    assert(entries@.take(entries@.len() as int) =~= entries@);
    r
}

/// The end of the status when there is no daemon.
pub fn not_running() -> (r: String)
    ensures
        r@ == "daemon   not running\n"@,
{
    "daemon   not running\n".to_owned()
}

/// A key as it is shown: its arguments with blanks between them.
pub open spec fn shown_key(entry: Entry) -> Seq<char> {
    text::swapped(entry.key@, '\u{1f}', ' ')
}

fn write_key(entry: &Entry) -> (r: String)
    ensures
        r@ == shown_key(*entry),
{
    text::replace(entry.key.as_str(), '\u{1f}', ' ')
}

/// When a secret lapses.
pub open spec fn expiry(entry: Entry) -> Seq<char> {
    match entry.expires_in_secs {
        Some(secs) => "in "@ + seconds(secs),
        None => "when the daemon exits"@,
    }
}

fn write_expiry(entry: &Entry) -> (r: String)
    ensures
        r@ == expiry(*entry),
{
    match entry.expires_in_secs {
        Some(secs) => {
            let mut r = "in ".to_owned();
            r.append(write_seconds(secs).as_str());
            r
        },
        None => "when the daemon exits".to_owned(),
    }
}

/// The larger of two numbers.
pub open spec fn larger(a: nat, b: nat) -> nat {
    if a < b {
        b
    } else {
        a
    }
}

/// The width of the first column: the bytes of the longest key, and no less than
/// its head takes.
pub open spec fn key_width(entries: Seq<Entry>) -> nat
    decreases entries.len(),
{
    if entries.len() == 0 {
        9
    } else {
        larger(key_width(entries.drop_last()), config::bytes(shown_key(entries.last())).len())
    }
}

/// The width of the second column: the characters of the longest preview, and no
/// less than its head takes.
pub open spec fn value_width(entries: Seq<Entry>) -> nat
    decreases entries.len(),
{
    if entries.len() == 0 {
        5
    } else {
        larger(value_width(entries.drop_last()), entries.last().preview@.len())
    }
}

/// One row of the table.
pub open spec fn row(
    key: Seq<char>,
    value: Seq<char>,
    expires: Seq<char>,
    key_width: nat,
    value_width: nat,
) -> Seq<char> {
    text::padded(key, key_width) + "  "@ + text::padded(value, value_width) + "  "@ + expires
        + "\n"@
}

/// The head of the table, and the rows of the first secrets.
pub open spec fn table(entries: Seq<Entry>, key_width: nat, value_width: nat) -> Seq<char>
    decreases entries.len(),
{
    if entries.len() == 0 {
        row("REFERENCE"@, "VALUE"@, "EXPIRES"@, key_width, value_width)
    } else {
        table(entries.drop_last(), key_width, value_width) + row(
            shown_key(entries.last()),
            entries.last().preview@,
            expiry(entries.last()),
            key_width,
            value_width,
        )
    }
}

fn write_row(key: &str, value: &str, expires: &str, key_width: usize, value_width: usize) -> (r:
    String)
    ensures
        r@ == row(key@, value@, expires@, key_width as nat, value_width as nat),
{
    let mut r = text::pad(key, key_width);
    r.append("  ");
    r.append(text::pad(value, value_width).as_str());
    r.append("  ");
    r.append(expires);
    r.append("\n");
    r
}

/// Lists what the daemon holds, in columns that line up.
pub fn inspect(entries: &Vec<Entry>) -> (r: String)
    ensures
        r@ == if entries@.len() == 0 {
            told(outcome(Command::Inspect, true))
        } else {
            table(entries@, key_width(entries@), value_width(entries@))
        },
{
    if entries.len() == 0 {
        return sent(Command::Inspect, true);
    }
    let mut keys: usize = 9;
    let mut values: usize = 5;
    let mut i: usize = 0;
    assert(entries@.take(0) =~= Seq::<Entry>::empty());
    while i < entries.len()
        invariant
            i <= entries.len(),
            keys == key_width(entries@.take(i as int)),
            values == value_width(entries@.take(i as int)),
        decreases entries.len() - i,
    {
        assert(entries@.take(i + 1).drop_last() =~= entries@.take(i as int));
        let key = write_key(&entries[i]);
        let n = key.as_str().as_bytes().len();
        if keys < n {
            keys = n;
        }
        let n = entries[i].preview.as_str().unicode_len();
        if values < n {
            values = n;
        }
        i = i + 1;
    }
    assert(entries@.take(entries@.len() as int) =~= entries@);
    let mut r = write_row("REFERENCE", "VALUE", "EXPIRES", keys, values);
    let mut i: usize = 0;
    while i < entries.len()
        invariant
            i <= entries.len(),
            r@ == table(entries@.take(i as int), keys as nat, values as nat),
        decreases entries.len() - i,
    {
        assert(entries@.take(i + 1).drop_last() =~= entries@.take(i as int));
        let entry = &entries[i];
        r.append(
            write_row(
                write_key(entry).as_str(),
                entry.preview.as_str(),
                write_expiry(entry).as_str(),
                keys,
                values,
            ).as_str(),
        );
        i = i + 1;
    }
    assert(entries@.take(entries@.len() as int) =~= entries@);
    r
}

proof fn no_more_characters_than_bytes(s: Seq<char>)
    ensures
        s.len() <= config::bytes(s).len(),
    decreases s.len(),
{
    broadcast use vstd::utf8::char_is_scalar;

    if s.len() > 0 {
        no_more_characters_than_bytes(s.drop_first());
        assert(vstd::utf8::encode_scalar(s[0] as u32).len() >= 1);
    }
}

/// The columns line up: whatever is listed, each key and each preview takes exactly
/// the width of its column, and so do the heads.
pub proof fn columns_line_up(entries: Seq<Entry>, i: int)
    requires
        0 <= i < entries.len(),
    ensures
        text::padded("REFERENCE"@, key_width(entries)).len() == key_width(entries),
        text::padded("VALUE"@, value_width(entries)).len() == value_width(entries),
        text::padded(shown_key(entries[i]), key_width(entries)).len() == key_width(entries),
        text::padded(entries[i].preview@, value_width(entries)).len() == value_width(entries),
{
    reveal_strlit("REFERENCE");
    reveal_strlit("VALUE");
    widths_hold(entries, i);
    no_more_characters_than_bytes(shown_key(entries[i]));
}

proof fn widths_hold(entries: Seq<Entry>, i: int)
    requires
        0 <= i < entries.len(),
    ensures
        9 <= key_width(entries),
        5 <= value_width(entries),
        config::bytes(shown_key(entries[i])).len() <= key_width(entries),
        entries[i].preview@.len() <= value_width(entries),
    decreases entries.len(),
{
    if entries.len() > 1 {
        widths_hold(
            entries.drop_last(),
            if i < entries.len() - 1 {
                i
            } else {
                0
            },
        );
    } else {
        assert(key_width(entries.drop_last()) == 9);
        assert(value_width(entries.drop_last()) == 5);
    }
}

/// Every secret has its row: one more secret makes the table longer by the line with
/// its key, the preview and when it lapses, behind all the others.
pub proof fn every_secret_has_its_row(entries: Seq<Entry>, entry: Entry, keys: nat, values: nat)
    ensures
        table(Seq::empty(), keys, values) == text::padded("REFERENCE"@, keys) + "  "@
            + text::padded("VALUE"@, values) + "  "@ + "EXPIRES"@ + "\n"@,
        table(entries.push(entry), keys, values) == table(entries, keys, values) + (text::padded(
            text::swapped(entry.key@, '\u{1f}', ' '),
            keys,
        ) + "  "@ + text::padded(entry.preview@, values) + "  "@ + (match entry.expires_in_secs {
            Some(secs) => "in "@ + config::rendered_duration(secs, 0),
            None => "when the daemon exits"@,
        }) + "\n"@),
{
    assert(entries.push(entry).drop_last() =~= entries);
}

/// What stands in the line of a secret.
pub open spec fn line(entry: Entry, keys: nat, values: nat) -> Seq<char> {
    text::padded(text::swapped(entry.key@, '\u{1f}', ' '), keys) + "  "@ + text::padded(
        entry.preview@,
        values,
    ) + "  "@ + (match entry.expires_in_secs {
        Some(secs) => "in "@ + config::rendered_duration(secs, 0),
        None => "when the daemon exits"@,
    })
}

/// The table has a line for its head and one for every secret, in order, each with
/// the key first, then the preview and when it lapses. Texts that hold newlines
/// themselves are left out.
pub proof fn the_table_has_a_line_for_every_secret(entries: Seq<Entry>, keys: nat, values: nat)
    requires
        forall|i: int, j: int|
            0 <= i < entries.len() && 0 <= j < line(entries[i], keys, values).len()
                ==> #[trigger] line(entries[i], keys, values)[j] != '\n',
    ensures
        ({
            let lines = text::pieces(table(entries, keys, values), '\n');
            &&& lines.len() == entries.len() + 2
            &&& lines[0] == text::padded("REFERENCE"@, keys) + "  "@ + text::padded("VALUE"@, values)
                + "  "@ + "EXPIRES"@
            &&& lines.last().len() == 0
            &&& forall|i: int|
                0 <= i < entries.len() ==> #[trigger] lines[i + 1] == text::padded(
                    text::swapped(entries[i].key@, '\u{1f}', ' '),
                    keys,
                ) + "  "@ + text::padded(entries[i].preview@, values) + "  "@ + (
                match entries[i].expires_in_secs {
                    Some(secs) => "in "@ + config::rendered_duration(secs, 0),
                    None => "when the daemon exits"@,
                })
        }),
        table(entries, keys, values).len() > 0,
        table(entries, keys, values).last() == '\n',
    decreases entries.len(),
{
    reveal_strlit("\n");
    assert("\n"@ =~= seq!['\n']);
    let all = table(entries, keys, values);
    let lines = text::pieces(all, '\n');
    if entries.len() == 0 {
        let head = text::padded("REFERENCE"@, keys) + "  "@ + text::padded("VALUE"@, values) + "  "@
            + "EXPIRES"@;
        reveal_strlit("REFERENCE");
        reveal_strlit("VALUE");
        reveal_strlit("EXPIRES");
        reveal_strlit("  ");
        assert forall|i: int| 0 <= i < head.len() implies #[trigger] head[i] != '\n' by {}
        assert(all =~= head.push('\n') + Seq::<char>::empty());
        text::a_text_without_separators_is_whole(head, '\n');
        text::a_text_without_separators_is_whole(Seq::empty(), '\n');
        text::a_separator_parts_the_text(head, Seq::empty(), '\n');
        assert(lines =~= seq![head, Seq::<char>::empty()]);
    } else {
        let before = entries.drop_last();
        let body = line(entries.last(), keys, values);
        let above = table(before, keys, values);
        assert forall|i: int, j: int|
            0 <= i < before.len() && 0 <= j < line(before[i], keys, values).len() implies #[trigger] line(
            before[i],
            keys,
            values,
        )[j] != '\n' by {
            assert(before[i] == entries[i]);
        }
        the_table_has_a_line_for_every_secret(before, keys, values);
        let top = above.drop_last();
        assert(above =~= top.push('\n') + Seq::<char>::empty());
        assert forall|j: int| 0 <= j < body.len() implies #[trigger] body[j] != '\n' by {
            assert(line(entries[entries.len() - 1], keys, values)[j] != '\n');
        }
        text::a_text_without_separators_is_whole(body, '\n');
        text::a_text_without_separators_is_whole(Seq::empty(), '\n');
        text::a_separator_parts_the_text(top, Seq::empty(), '\n');
        text::a_separator_parts_the_text(body, Seq::empty(), '\n');
        assert(body.push('\n') + Seq::<char>::empty() =~= body.push('\n'));
        text::a_separator_parts_the_text(top, body.push('\n'), '\n');
        assert(all =~= top.push('\n') + body.push('\n'));
        let upper = text::pieces(above, '\n');
        assert(upper =~= text::pieces(top, '\n') + seq![Seq::<char>::empty()]);
        assert(lines =~= text::pieces(top, '\n') + seq![body, Seq::<char>::empty()]);
        assert forall|i: int| 0 <= i < entries.len() implies #[trigger] lines[i + 1] == line(
            entries[i],
            keys,
            values,
        ) by {
            if i < before.len() {
                assert(upper[i + 1] == lines[i + 1]);
                assert(before[i] == entries[i]);
            }
        }
    }
}

/// The columns are just as wide as what is widest in them, and their heads at least.
pub proof fn columns_are_no_wider_than_needed(entries: Seq<Entry>, i: int)
    ensures
        9 <= key_width(entries),
        5 <= value_width(entries),
        0 <= i < entries.len() ==> vstd::utf8::encode_utf8(
            text::swapped(entries[i].key@, '\u{1f}', ' '),
        ).len() <= key_width(entries),
        0 <= i < entries.len() ==> entries[i].preview@.len() <= value_width(entries),
        key_width(entries) == 9 || exists|j: int|
            0 <= j < entries.len() && key_width(entries) == vstd::utf8::encode_utf8(
                text::swapped((#[trigger] entries[j]).key@, '\u{1f}', ' '),
            ).len(),
        value_width(entries) == 5 || exists|j: int|
            0 <= j < entries.len() && value_width(entries) == (#[trigger] entries[j]).preview@.len(),
    decreases entries.len(),
{
    if entries.len() > 0 {
        let before = entries.drop_last();
        let last = entries.len() - 1;
        columns_are_no_wider_than_needed(before, i);
        assert(entries[last] == entries.last());
        if i < last && 0 <= i {
            assert(before[i] == entries[i]);
        }
        if key_width(entries) == key_width(before) && key_width(before) != 9 {
            let j = choose|j: int|
                0 <= j < before.len() && key_width(before) == vstd::utf8::encode_utf8(
                    text::swapped((#[trigger] before[j]).key@, '\u{1f}', ' '),
                ).len();
            assert(entries[j] == before[j]);
        }
        if value_width(entries) == value_width(before) && value_width(before) != 5 {
            let j = choose|j: int|
                0 <= j < before.len() && value_width(before) == (#[trigger] before[j]).preview@.len();
            assert(entries[j] == before[j]);
        }
    }
}

/// The status has a line for every secret too: one more makes it longer by its key,
/// and by when it lapses where it does.
pub proof fn every_secret_has_its_line_in_the_status(status: Status, entries: Seq<Entry>, entry: Entry)
    ensures
        daemon_part(status, Seq::empty()) == "daemon   pid "@ + text::decimal(status.pid as nat)
            + ", up "@ + config::rendered_duration(status.uptime_secs, 0) + ", idles out "@ + (
        match status.idle_timeout_secs {
            Some(secs) => "after "@ + config::rendered_duration(secs, 0),
            None => "never"@,
        }) + "\ncached   "@ + text::decimal(status.cached as nat) + "\n"@,
        daemon_part(status, entries.push(entry)) == daemon_part(status, entries) + ("  "@
            + text::swapped(entry.key@, '\u{1f}', ' ') + (match entry.expires_in_secs {
            Some(secs) => "  expires in "@ + config::rendered_duration(secs, 0),
            None => ""@,
        }) + "\n"@),
{
    assert(entries.push(entry).drop_last() =~= entries);
}

/// The status begins with where things are, and how long secrets live.
pub proof fn the_status_begins_with_the_settings(
    path: Seq<char>,
    socket: Seq<char>,
    ttl: Option<Duration>,
)
    ensures
        settings_part(path, socket, ttl) == "config   "@ + path + "\nsocket   "@ + socket
            + "\nttl      "@ + (match ttl {
            Some(d) => config::rendered_duration(d.secs, d.nanos),
            None => "until the daemon exits"@,
        }) + "\n"@,
{
}

/// What is told of a command is what came of it, behind the name of the program.
pub proof fn commands_are_told_apart(s: Seq<char>)
    ensures
        told(s) == "op-cache: "@ + s + "\n"@,
        outcome(Command::Clear, true) == "cleared"@,
        outcome(Command::Clear, false) == "nothing to clear"@,
        outcome(Command::Stop, true) == "stopped"@,
        outcome(Command::Stop, false) == "not running"@,
        outcome(Command::Inspect, true) == "nothing cached"@,
        outcome(Command::Inspect, false) == "not running"@,
{
}

} // verus!
