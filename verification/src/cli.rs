//! What a command line asks for, and how its words are taken apart.

use vstd::prelude::*;

use crate::text;

verus! {

/// What every secret reference begins with.
pub const OP_REF_PREFIX: &'static str = "op://";

/// What parts the arguments in the key of a cached secret.
pub const KEY_SEPARATOR: &'static str = "\u{1f}";

/// How the program is used; a description goes before it.
pub const HELP: &'static str = "

Usage: op-cache [COMMAND]

Commands:
  read     Read a secret reference, from the cache when it's there
  run      Run a command with its op:// environment variables resolved
  config   Configure caching interactively
  status   Show whether the daemon is up and how it's configured
  inspect  List what's in memory, with a masked peek at each value and its expiry
  clear    Drop every cached secret
  stop     Stop the daemon, dropping every cached secret
  help     Print this message

Anything else is passed straight to `op`.

Options:
  -h, --help     Print help
  -V, --version  Print version
";

/// What a command line asks for.
#[derive(Clone, Copy, Debug, PartialEq, Eq, Structural)]
pub enum Command {
    Help,
    Version,
    Read,
    Run,
    /// `read` with nothing to read.
    BareRead,
    /// `run` with nothing to run.
    BareRun,
    Config,
    Status,
    Inspect,
    Clear,
    Stop,
    Daemon,
    /// Something for `op` to understand.
    Op,
}

/// What a command line asks for. The words that ask for one thing stand alone;
/// `read` and `run` take what follows.
pub open spec fn asked(words: Seq<Seq<char>>) -> Command {
    if words.len() == 0 {
        Command::Help
    } else if words.len() > 1 {
        if words[0] == "read"@ {
            Command::Read
        } else if words[0] == "run"@ {
            Command::Run
        } else {
            Command::Op
        }
    } else if words[0] == "-h"@ || words[0] == "--help"@ || words[0] == "help"@ {
        Command::Help
    } else if words[0] == "-V"@ || words[0] == "--version"@ {
        Command::Version
    } else if words[0] == "read"@ {
        Command::BareRead
    } else if words[0] == "run"@ {
        Command::BareRun
    } else if words[0] == "config"@ {
        Command::Config
    } else if words[0] == "status"@ {
        Command::Status
    } else if words[0] == "inspect"@ {
        Command::Inspect
    } else if words[0] == "clear"@ {
        Command::Clear
    } else if words[0] == "stop"@ {
        Command::Stop
    } else if words[0] == "daemon"@ {
        Command::Daemon
    } else {
        Command::Op
    }
}

/// Tells what a command line asks for.
pub fn dispatch(words: &[String]) -> (c: Command)
    ensures
        c == asked(text::views(words@)),
{
    if words.len() == 0 {
        return Command::Help;
    }
    let first = words[0].as_str();
    if words.len() > 1 {
        if text::same(first, "read") {
            Command::Read
        } else if text::same(first, "run") {
            Command::Run
        } else {
            Command::Op
        }
    } else if text::same(first, "-h") || text::same(first, "--help") || text::same(first, "help") {
        Command::Help
    } else if text::same(first, "-V") || text::same(first, "--version") {
        Command::Version
    } else if text::same(first, "read") {
        Command::BareRead
    } else if text::same(first, "run") {
        Command::BareRun
    } else if text::same(first, "config") {
        Command::Config
    } else if text::same(first, "status") {
        Command::Status
    } else if text::same(first, "inspect") {
        Command::Inspect
    } else if text::same(first, "clear") {
        Command::Clear
    } else if text::same(first, "stop") {
        Command::Stop
    } else if text::same(first, "daemon") {
        Command::Daemon
    } else {
        Command::Op
    }
}

/// Whether `read` is to write to a file, which is left to `op`.
pub fn writes_file(args: &[String]) -> (r: bool)
    ensures
        r == exists|i: int|
            0 <= i < args@.len() && ((#[trigger] args@[i])@ == "-o"@ || args@[i]@ == "--out-file"@),
{
    let mut i: usize = 0;
    while i < args.len()
        invariant
            i <= args@.len(),
            forall|j: int|
                0 <= j < i ==> (#[trigger] args@[j])@ != "-o"@ && args@[j]@ != "--out-file"@,
        decreases args@.len() - i,
    {
        let arg = args[i].as_str();
        if text::same(arg, "-o") || text::same(arg, "--out-file") {
            assert(args@[i as int]@ == "-o"@ || args@[i as int]@ == "--out-file"@);
            return true;
        }
        i = i + 1;
    }
    false
}

/// The arguments with the name of a subcommand before them.
pub fn with_subcommand<T: Clone>(name: T, args: &[T]) -> (r: Vec<T>)
    ensures
        r@.len() == args@.len() + 1,
        r@[0] == name,
        forall|i: int| 0 <= i < args@.len() ==> cloned(#[trigger] args@[i], r@[i + 1]),
{
    let mut full: Vec<T> = Vec::new();
    full.push(name);
    let mut i: usize = 0;
    while i < args.len()
        invariant
            i <= args@.len(),
            full@.len() == i + 1,
            full@[0] == name,
            forall|j: int| 0 <= j < i ==> cloned(#[trigger] args@[j], full@[j + 1]),
        decreases args@.len() - i,
    {
        let arg = args[i].clone();
        full.push(arg);
        i = i + 1;
    }
    full
}

/// The place of the first `--`, if there is one.
pub open spec fn dashes(args: Seq<Seq<char>>) -> Option<int> {
    if exists|i: int| 0 <= i < args.len() && args[i] == "--"@ {
        Some(
            choose|i: int|
                0 <= i < args.len() && args[i] == "--"@ && forall|j: int|
                    0 <= j < i ==> #[trigger] args[j] != "--"@,
        )
    } else {
        None
    }
}

/// The command that `run` is to run: what follows a leading `--`, or everything
/// where there is no `--` and nothing that looks like an option comes first.
/// Nothing where a `--` comes later, or where no command is left.
pub open spec fn command_of(args: Seq<Seq<char>>) -> Option<Seq<Seq<char>>> {
    let command = match dashes(args) {
        Some(i) => if i == 0 {
            args.skip(1)
        } else {
            Seq::empty()
        },
        None => if args.len() > 0 && args[0].len() > 0 && args[0][0] == '-' {
            Seq::empty()
        } else {
            args
        },
    };
    if command.len() > 0 {
        Some(command)
    } else {
        None
    }
}

/// `run -- cmd` and `run cmd` both mean cmd; any flag before the `--` is
/// something op-cache doesn't know, so the caller hands the whole thing to op.
pub fn command_after_dashes(args: &[String]) -> (r: Option<&[String]>)
    ensures
        match r {
            Some(command) => {
                &&& command_of(text::views(args@)) == Some(text::views(command@))
                &&& command@ == args@.skip(args@.len() - command@.len())
            },
            None => command_of(text::views(args@)) is None,
        },
{
    let ghost all = text::views(args@);
    let mut i: usize = 0;
    while i < args.len()
        invariant
            i <= args@.len(),
            all == text::views(args@),
            forall|j: int| 0 <= j < i ==> #[trigger] all[j] != "--"@,
        decreases args@.len() - i,
    {
        if text::same(args[i].as_str(), "--") {
            proof {
                assert(all[i as int] == "--"@);
                let d = dashes(all).unwrap();
                assert(0 <= d < all.len() && all[d] == "--"@ && forall|j: int|
                    0 <= j < d ==> #[trigger] all[j] != "--"@);
                assert(d == i);
            }
            if i > 0 || args.len() == 1 {
                return None;
            }
            let command = vstd::slice::slice_subrange(args, 1, args.len());
            assert(text::views(command@) =~= all.skip(1));
            return Some(command);
        }
        i = i + 1;
    }
    assert(dashes(all) is None);
    if args.len() == 0 {
        return None;
    }
    let first = args[0].as_str();
    if !first.is_empty() && first.get_char(0) == '-' {
        return None;
    }
    assert(args@.skip(0) =~= args@);
    Some(args)
}

/// The key under which the result of a `read` is cached: its arguments, parted by
/// a character that none of them is likely to hold.
pub open spec fn key_of(args: Seq<Seq<char>>) -> Seq<char> {
    text::joined(args, KEY_SEPARATOR@)
}

/// The key under which the result of a `read` with these arguments is cached.
pub fn cache_key(args: &[String]) -> (key: String)
    ensures
        key@ == key_of(text::views(args@)),
{
    text::join(args, KEY_SEPARATOR)
}

/// A text without the character that parts the arguments in a key.
pub open spec fn unparted(s: Seq<char>) -> bool {
    forall|i: int| 0 <= i < s.len() ==> #[trigger] s[i] != '\u{1f}'
}

proof fn last_part_is_unique(x: Seq<char>, a: Seq<char>, y: Seq<char>, b: Seq<char>, sep: Seq<char>)
    requires
        sep == seq!['\u{1f}'],
        unparted(a),
        unparted(b),
        x + sep + a == y + sep + b,
    ensures
        x == y,
        a == b,
{
    let s = x + sep + a;
    assert(s[x.len() as int] == '\u{1f}');
    assert(s == y + sep + b);
    assert(s.len() == x.len() + 1 + a.len() && s.len() == y.len() + 1 + b.len());
    assert(s[y.len() as int] == '\u{1f}');
    if x.len() < y.len() {
        assert(s[y.len() as int] == a[y.len() - x.len() - 1]);
    }
    if y.len() < x.len() {
        assert((y + sep + b)[x.len() as int] == b[x.len() - y.len() - 1]);
    }
    assert(x =~= s.take(x.len() as int));
    assert(y =~= (y + sep + b).take(y.len() as int));
    assert(a =~= s.skip(x.len() as int + 1));
    assert(b =~= (y + sep + b).skip(y.len() as int + 1));
}

/// Different arguments have different keys: what was read with other flags, or
/// from another place, is another entry. Arguments that hold the separator
/// themselves are left out, and so is an empty list.
pub proof fn different_arguments_have_different_keys(a: Seq<Seq<char>>, b: Seq<Seq<char>>)
    requires
        a.len() > 0,
        b.len() > 0,
        forall|i: int| 0 <= i < a.len() ==> unparted(#[trigger] a[i]),
        forall|i: int| 0 <= i < b.len() ==> unparted(#[trigger] b[i]),
        key_of(a) == key_of(b),
    ensures
        a == b,
    decreases a.len(),
{
    let sep = KEY_SEPARATOR@;
    reveal_strlit("\u{1f}");
    assert(sep =~= seq!['\u{1f}']);
    if a.len() == 1 && b.len() == 1 {
        assert(a =~= b);
    } else if a.len() == 1 {
        let x = text::joined(b.drop_last(), sep);
        assert(a[0][x.len() as int] == '\u{1f}') by {
            assert(a[0] == x + sep + b.last());
        }
    } else if b.len() == 1 {
        let x = text::joined(a.drop_last(), sep);
        assert(b[0][x.len() as int] == '\u{1f}') by {
            assert(b[0] == x + sep + a.last());
        }
    } else {
        last_part_is_unique(
            text::joined(a.drop_last(), sep),
            a.last(),
            text::joined(b.drop_last(), sep),
            b.last(),
            sep,
        );
        different_arguments_have_different_keys(a.drop_last(), b.drop_last());
        assert(a =~= a.drop_last().push(a.last()));
        assert(b =~= b.drop_last().push(b.last()));
    }
}

/// A variable whose value is a secret reference.
pub open spec fn is_ref(var: (Seq<char>, Seq<char>)) -> bool {
    OP_REF_PREFIX@.is_prefix_of(var.1)
}

/// One variable comes before another: by name, then by value.
pub open spec fn var_before(a: (Seq<char>, Seq<char>), b: (Seq<char>, Seq<char>)) -> bool {
    text::precedes(a.0, b.0) || (a.0 == b.0 && text::precedes(a.1, b.1))
}

/// No variable comes before one that stands ahead of it.
pub open spec fn vars_sorted(vars: Seq<(Seq<char>, Seq<char>)>) -> bool {
    forall|i: int, j: int| 0 <= i < j < vars.len() ==> !var_before(#[trigger] vars[j], #[trigger] vars[i])
}

proof fn var_before_transitive(
    a: (Seq<char>, Seq<char>),
    b: (Seq<char>, Seq<char>),
    c: (Seq<char>, Seq<char>),
)
    requires
        var_before(a, b),
        var_before(b, c),
    ensures
        var_before(a, c),
{
    if text::precedes(a.0, b.0) && text::precedes(b.0, c.0) {
        text::precedes_transitive(a.0, b.0, c.0);
    }
    if a.0 == b.0 && b.0 == c.0 {
        if text::precedes(a.0, b.0) {
            text::precedes_irreflexive(a.0);
        }
        text::precedes_transitive(a.1, b.1, c.1);
    }
}

fn is_var_before(a: &(String, String), b: &(String, String)) -> (r: bool)
    ensures
        r == var_before((a.0@, a.1@), (b.0@, b.1@)),
{
    text::is_before(a.0.as_str(), b.0.as_str()) || (text::same(a.0.as_str(), b.0.as_str())
        && text::is_before(a.1.as_str(), b.1.as_str()))
}

proof fn insert_var(
    vars: Seq<(Seq<char>, Seq<char>)>,
    i: int,
    var: (Seq<char>, Seq<char>),
)
    requires
        vars_sorted(vars),
        0 <= i <= vars.len(),
        forall|j: int| 0 <= j < i ==> !var_before(var, #[trigger] vars[j]),
        i < vars.len() ==> var_before(var, vars[i]),
    ensures
        vars_sorted(vars.insert(i, var)),
{
    let after = vars.insert(i, var);
    assert forall|a: int, b: int| 0 <= a < b < after.len() implies !var_before(
        #[trigger] after[b],
        #[trigger] after[a],
    ) by {
        if a == i {
            let j = b - 1;
            assert(after[b] == vars[j]);
            if var_before(vars[j], var) {
                var_before_transitive(vars[j], var, vars[i]);
                if j == i {
                    text::precedes_irreflexive(vars[i].0);
                    text::precedes_irreflexive(vars[i].1);
                }
            }
        } else if b == i {
            assert(after[a] == vars[a]);
        } else {
            let x = if a < i {
                a
            } else {
                a - 1
            };
            let y = if b < i {
                b
            } else {
                b - 1
            };
            assert(after[a] == vars[x]);
            assert(after[b] == vars[y]);
        }
    }
}

proof fn var_before_total(a: (Seq<char>, Seq<char>), b: (Seq<char>, Seq<char>))
    ensures
        var_before(a, b) || var_before(b, a) || a == b,
        !var_before(a, a),
{
    text::precedes_total(a.0, b.0);
    text::precedes_total(a.1, b.1);
    text::precedes_irreflexive(a.0);
    text::precedes_irreflexive(a.1);
}

/// Variables can be sorted in one way only.
pub proof fn sorted_variables_are_unique(
    a: Seq<(Seq<char>, Seq<char>)>,
    b: Seq<(Seq<char>, Seq<char>)>,
)
    requires
        vars_sorted(a),
        vars_sorted(b),
        a.to_multiset() == b.to_multiset(),
    ensures
        a == b,
    decreases a.len(),
{
    broadcast use vstd::seq_lib::group_to_multiset_ensures;

    vstd::seq_lib::to_multiset_len(a);
    vstd::seq_lib::to_multiset_len(b);
    if a.len() == 0 {
        assert(a =~= b);
    } else {
        let x = a.last();
        let y = b.last();
        assert(a.contains(x));
        assert(b.contains(y));
        assert(b.to_multiset().count(x) > 0);
        assert(a.to_multiset().count(y) > 0);
        assert(b.contains(x));
        assert(a.contains(y));
        let j = choose|j: int| 0 <= j < b.len() && b[j] == x;
        let i = choose|i: int| 0 <= i < a.len() && a[i] == y;
        var_before_total(x, y);
        var_before_total(y, x);
        assert(!var_before(x, y)) by {
            if i < a.len() - 1 {
                assert(!var_before(a[a.len() - 1], a[i]));
            }
        }
        assert(!var_before(y, x)) by {
            if j < b.len() - 1 {
                assert(!var_before(b[b.len() - 1], b[j]));
            }
        }
        let c = a.drop_last();
        let d = b.drop_last();
        assert(a =~= c.push(x));
        assert(b =~= d.push(x));
        vstd::seq_lib::to_multiset_build(c, x);
        vstd::seq_lib::to_multiset_build(d, x);
        assert(c.to_multiset() =~= a.to_multiset().remove(x));
        assert(d.to_multiset() =~= b.to_multiset().remove(x));
        sorted_variables_are_unique(c, d);
    }
}

/// The variables that hold secret references, sorted.
pub fn op_refs(vars: Vec<(String, String)>) -> (refs: Vec<(String, String)>)
    ensures
        vars_sorted(text::pair_views(refs@)),
        text::pair_views(refs@).to_multiset() == text::pair_views(vars@).filter(
            |var: (Seq<char>, Seq<char>)| is_ref(var),
        ).to_multiset(),
        forall|name: Seq<char>, value: Seq<char>| #[trigger]
            text::pair_views(refs@).contains((name, value)) <==> text::pair_views(vars@).contains(
                (name, value),
            ) && "op://"@.is_prefix_of(value),
        forall|i: int, j: int|
            0 <= i < j < refs@.len() ==> {
                &&& !text::precedes((#[trigger] refs@[j]).0@, (#[trigger] refs@[i]).0@)
                &&& refs@[i].0@ == refs@[j].0@ ==> !text::precedes(refs@[j].1@, refs@[i].1@)
            },
{
    let ghost all = text::pair_views(vars@);
    let ghost wanted = |var: (Seq<char>, Seq<char>)| is_ref(var);
    let mut refs: Vec<(String, String)> = Vec::new();
    let mut i: usize = 0;
    proof {
        reveal(Seq::filter);
        assert(all.take(0) =~= Seq::<(Seq<char>, Seq<char>)>::empty());
        assert(text::pair_views(refs@) =~= all.take(0).filter(wanted));
    }
    while i < vars.len()
        invariant
            i <= vars.len(),
            all == text::pair_views(vars@),
            wanted == (|var: (Seq<char>, Seq<char>)| is_ref(var)),
            vars_sorted(text::pair_views(refs@)),
            text::pair_views(refs@).to_multiset() == all.take(i as int).filter(wanted).to_multiset(),
        decreases vars.len() - i,
    {
        let ghost before = text::pair_views(refs@);
        let ghost var = all[i as int];
        proof {
            reveal(Seq::filter);
            assert(all.take(i + 1).drop_last() =~= all.take(i as int));
            assert(all.take(i + 1).last() == var);
        }
        if text::starts_with(vars[i].1.as_str(), OP_REF_PREFIX) {
            let pair = (vars[i].0.clone(), vars[i].1.clone());
            let mut at: usize = 0;
            while at < refs.len() && !is_var_before(&pair, &refs[at])
                invariant
                    at <= refs.len(),
                    before == text::pair_views(refs@),
                    var == (pair.0@, pair.1@),
                    forall|j: int| 0 <= j < at ==> !var_before(var, #[trigger] before[j]),
                decreases refs.len() - at,
            {
                at = at + 1;
            }
            refs.insert(at, pair);
            proof {
                assert(text::pair_views(refs@) =~= before.insert(at as int, var));
                insert_var(before, at as int, var);
                vstd::seq_lib::to_multiset_insert(before, at as int, var);
                vstd::seq_lib::to_multiset_build(all.take(i as int).filter(wanted), var);
            }
        }
        i = i + 1;
    }
    assert(all.take(all.len() as int) =~= all);
    proof {
        assert forall|name: Seq<char>, value: Seq<char>| #[trigger]
            text::pair_views(refs@).contains((name, value)) <==> all.contains((name, value))
                && "op://"@.is_prefix_of(value) by {
            every_reference_is_kept(all, text::pair_views(refs@), (name, value));
        }
        assert forall|i: int, j: int| 0 <= i < j < refs@.len() implies {
            &&& !text::precedes((#[trigger] refs@[j]).0@, (#[trigger] refs@[i]).0@)
            &&& refs@[i].0@ == refs@[j].0@ ==> !text::precedes(refs@[j].1@, refs@[i].1@)
        } by {
            assert(!var_before(text::pair_views(refs@)[j], text::pair_views(refs@)[i]));
        }
    }
    refs
}

/// Calls `String::from_utf8`: the bytes are taken for the UTF-8 of a string, if
/// they are that of one, and handed back otherwise.
#[verifier::external_body]
fn decode(bytes: Vec<u8>) -> (r: Result<String, Vec<u8>>)
    ensures
        r is Ok == vstd::utf8::valid_utf8(bytes@),
        r matches Ok(s) ==> vstd::utf8::encode_utf8(s@) == bytes@,
        r matches Err(kept) ==> kept@ == bytes@,
{
    String::from_utf8(bytes).map_err(|e| e.into_bytes())
}

/// A secret without the newline that `op` ends it with.
pub open spec fn without_newline(value: Seq<u8>) -> Seq<u8> {
    if value.len() > 0 && value.last() == 10 {
        value.drop_last()
    } else {
        value
    }
}

/// The value that a variable gets for a secret: the secret without its newline,
/// if that is UTF-8, and otherwise its bytes.
pub fn env_value(value: Vec<u8>) -> (r: Result<String, Vec<u8>>)
    ensures
        r is Ok == vstd::utf8::valid_utf8(without_newline(value@)),
        r matches Ok(s) ==> vstd::utf8::encode_utf8(s@) == without_newline(value@),
        r matches Err(bytes) ==> bytes@ == without_newline(value@),
{
    let mut value = value;
    let n = value.len();
    if n > 0 && value[n - 1] == 10 {
        value.pop();
    }
    decode(value)
}

/// The value alone makes a variable a reference: its first five characters, whatever
/// its name is and whatever follows.
pub proof fn the_value_alone_makes_a_reference(
    a: Seq<char>,
    b: Seq<char>,
    value: Seq<char>,
    rest: Seq<char>,
)
    ensures
        is_ref((a, value)) == is_ref((b, value)),
        is_ref((a, "op://"@ + rest)),
        is_ref((a, value)) <==> value.len() >= 5 && value[0] == 'o' && value[1] == 'p' && value[2]
            == ':' && value[3] == '/' && value[4] == '/',
{
    reveal_strlit("op://");
    let prefix = "op://"@;
    assert(prefix.len() == 5 && prefix[0] == 'o' && prefix[1] == 'p' && prefix[2] == ':' && prefix[3]
        == '/' && prefix[4] == '/');
    assert((prefix + rest).subrange(0, 5) =~= prefix);
    if value.len() >= 5 {
        let head = value.subrange(0, 5);
        assert(head[0] == value[0] && head[1] == value[1] && head[2] == value[2] && head[3]
            == value[3] && head[4] == value[4]);
        if value[0] == 'o' && value[1] == 'p' && value[2] == ':' && value[3] == '/' && value[4]
            == '/' {
            assert(prefix =~= head);
        }
    }
}

/// Of any variables, those are resolved whose values are references, every one of
/// them and no other.
pub proof fn every_reference_is_kept(
    vars: Seq<(Seq<char>, Seq<char>)>,
    refs: Seq<(Seq<char>, Seq<char>)>,
    var: (Seq<char>, Seq<char>),
)
    requires
        refs.to_multiset() == vars.filter(|var: (Seq<char>, Seq<char>)| is_ref(var)).to_multiset(),
    ensures
        refs.contains(var) <==> vars.contains(var) && "op://"@.is_prefix_of(var.1),
{
    let wanted = |var: (Seq<char>, Seq<char>)| is_ref(var);
    let kept = vars.filter(wanted);
    vstd::seq_lib::to_multiset_contains(refs, var);
    vstd::seq_lib::to_multiset_contains(kept, var);
    if kept.contains(var) {
        let i = choose|i: int| 0 <= i < kept.len() && kept[i] == var;
        vars.lemma_filter_pred(wanted, i);
        vars.lemma_filter_contains_rev(wanted, var);
    }
    if vars.contains(var) && is_ref(var) {
        let i = choose|i: int| 0 <= i < vars.len() && vars[i] == var;
        vars.lemma_filter_contains(wanted, i);
    }
}

/// The key of one argument is that argument; each further one stands behind a
/// separator of its own.
pub proof fn a_key_holds_every_argument(args: Seq<Seq<char>>, arg: Seq<char>)
    ensures
        key_of(seq![arg]) == arg,
        args.len() > 0 ==> key_of(args.push(arg)) == key_of(args) + "\u{1f}"@ + arg,
{
    text::joining_adds_one_separator_for_each_text(args, arg, "\u{1f}"@);
}

/// Only a newline at the very end is taken away, and only one.
pub proof fn one_newline_is_taken_away(value: Seq<u8>)
    ensures
        without_newline(value.push(10)) == value,
        value.len() == 0 || value.last() != 10 ==> without_newline(value) == value,
{
    assert(value.push(10).drop_last() =~= value);
}

/// A leading `--` is dropped, and the command is all that follows it.
pub proof fn the_command_follows_leading_dashes(command: Seq<Seq<char>>)
    ensures
        command_of(seq!["--"@] + command) == if command.len() > 0 {
            Some(command)
        } else {
            None
        },
{
    let args = seq!["--"@] + command;
    assert(args[0] == "--"@);
    let d = dashes(args).unwrap();
    assert(0 <= d < args.len() && args[d] == "--"@ && forall|j: int|
        0 <= j < d ==> #[trigger] args[j] != "--"@);
    assert(d == 0);
    assert(args.skip(1) =~= command);
}

/// Without `--` the command is everything, unless the first word looks like an
/// option.
pub proof fn without_dashes_the_command_is_everything(args: Seq<Seq<char>>)
    requires
        args.len() > 0,
        forall|i: int| 0 <= i < args.len() ==> #[trigger] args[i] != "--"@,
    ensures
        args[0].len() > 0 && args[0][0] == '-' ==> command_of(args) is None,
        args[0].len() == 0 || args[0][0] != '-' ==> command_of(args) == Some(args),
        command_of(Seq::empty()) is None,
{
}

/// Anything before the `--` is left to `op`.
pub proof fn words_before_the_dashes_are_left_to_op(args: Seq<Seq<char>>, i: int)
    requires
        0 < i < args.len(),
        args[i] == "--"@,
        args[0] != "--"@,
    ensures
        command_of(args) is None,
{
    first_dashes(args, i);
    let d = dashes(args).unwrap();
    assert(0 <= d < args.len() && args[d] == "--"@ && forall|j: int|
        0 <= j < d ==> #[trigger] args[j] != "--"@);
}

proof fn first_dashes(args: Seq<Seq<char>>, i: int)
    requires
        0 <= i < args.len(),
        args[i] == "--"@,
    ensures
        exists|d: int|
            0 <= d < args.len() && args[d] == "--"@ && forall|j: int|
                0 <= j < d ==> #[trigger] args[j] != "--"@,
    decreases i,
{
    if exists|j: int| 0 <= j < i && #[trigger] args[j] == "--"@ {
        let j = choose|j: int| 0 <= j < i && #[trigger] args[j] == "--"@;
        first_dashes(args, j);
    }
}

/// `read` and `run` take whatever follows them; every other command stands alone, and
/// all else is for `op`.
pub proof fn words_ask_for_what_they_say(words: Seq<Seq<char>>)
    ensures
        words.len() == 0 ==> asked(words) is Help,
        words.len() >= 2 && words[0] == "read"@ ==> asked(words) is Read,
        words.len() >= 2 && words[0] == "run"@ ==> asked(words) is Run,
        words.len() >= 2 && words[0] != "read"@ && words[0] != "run"@ ==> asked(words) is Op,
        words.len() == 1 ==> {
            let word = words[0];
            &&& asked(words) is Help <==> word == "-h"@ || word == "--help"@ || word == "help"@
            &&& asked(words) is Version <==> word == "-V"@ || word == "--version"@
            &&& asked(words) is BareRead <==> word == "read"@
            &&& asked(words) is BareRun <==> word == "run"@
            &&& asked(words) is Config <==> word == "config"@
            &&& asked(words) is Status <==> word == "status"@
            &&& asked(words) is Inspect <==> word == "inspect"@
            &&& asked(words) is Clear <==> word == "clear"@
            &&& asked(words) is Stop <==> word == "stop"@
            &&& asked(words) is Daemon <==> word == "daemon"@
            &&& asked(words) !is Read
            &&& asked(words) !is Run
        },
{
    reveal_strlit("-h");
    reveal_strlit("--help");
    reveal_strlit("help");
    reveal_strlit("-V");
    reveal_strlit("--version");
    reveal_strlit("read");
    reveal_strlit("run");
    reveal_strlit("config");
    reveal_strlit("status");
    reveal_strlit("inspect");
    reveal_strlit("clear");
    reveal_strlit("stop");
    reveal_strlit("daemon");
    assert("-h"@.len() == 2 && "-V"@.len() == 2 && "run"@.len() == 3 && "help"@.len() == 4);
    assert("read"@.len() == 4 && "stop"@.len() == 4 && "clear"@.len() == 5 && "--help"@.len() == 6);
    assert("config"@.len() == 6 && "status"@.len() == 6 && "daemon"@.len() == 6);
    assert("inspect"@.len() == 7 && "--version"@.len() == 9);
    assert("-h"@[1] == 'h' && "-V"@[1] == 'V');
    assert("help"@[0] == 'h' && "read"@[0] == 'r' && "stop"@[0] == 's');
    assert("--help"@[0] == '-' && "config"@[0] == 'c' && "status"@[0] == 's' && "daemon"@[0] == 'd');
}

} // verus!
