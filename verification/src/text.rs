//! Characters and strings: the operations the rest of the crate needs, each
//! stated over the sequence of characters that a string holds.

use vstd::prelude::*;

verus! {

/// `String::push`: the character is added at the end.
pub assume_specification[ String::push ](s: &mut String, c: char)
    ensures
        final(s)@ == old(s)@.push(c),
;

/// `String::pop`: the last character is taken off and handed back, and an empty
/// string is left as it is.
pub assume_specification[ String::pop ](s: &mut String) -> (c: Option<char>)
    ensures
        old(s)@.len() == 0 ==> c is None && final(s)@ == old(s)@,
        old(s)@.len() > 0 ==> c == Some(old(s)@.last()) && final(s)@ == old(s)@.drop_last(),
;

/// What the standard library writes for a string when it is to be shown in quotes.
pub uninterp spec fn quoted(s: Seq<char>) -> Seq<char>;

/// Calls the `Debug` formatter of `str`: the text in double quotes, with what
/// could not be read there escaped. It depends on the text alone.
#[verifier::external_body]
pub(crate) fn quote(s: &str) -> (r: String)
    ensures
        r@ == quoted(s@),
{
    format!("{:?}", s)
}

/// The characters of a string, for access by position.
pub fn chars_of(s: &str) -> (v: Vec<char>)
    ensures
        v@ == s@,
{
    let mut v: Vec<char> = Vec::new();
    for c in it: s.chars()
        invariant
            it.seq() == s@,
            v@ == s@.take(it.index()),
    {
        assert(s@.take(it.index() + 1) =~= s@.take(it.index()).push(c));
        v.push(c);
    }
    assert(s@.take(s@.len() as int) =~= s@);
    v
}

/// The string made of `v[from..to]`.
pub fn string_of(v: &Vec<char>, from: usize, to: usize) -> (s: String)
    requires
        from <= to <= v.len(),
    ensures
        s@ == v@.subrange(from as int, to as int),
{
    let mut s = String::new();
    let mut i: usize = from;
    while i < to
        invariant
            from <= i <= to <= v.len(),
            s@ == v@.subrange(from as int, i as int),
        decreases to - i,
    {
        assert(v@.subrange(from as int, i + 1) =~= v@.subrange(from as int, i as int).push(v@[i as int]));
        s.push(v[i]);
        i = i + 1;
    }
    s
}

/// Whether two strings hold the same characters.
pub fn same(a: &str, b: &str) -> (r: bool)
    ensures
        r == (a@ == b@),
{
    let x = chars_of(a);
    let y = chars_of(b);
    if x.len() != y.len() {
        return false;
    }
    let mut i: usize = 0;
    while i < x.len()
        invariant
            i <= x.len(),
            x.len() == y.len(),
            x@ == a@,
            y@ == b@,
            forall|j: int| 0 <= j < i ==> x@[j] == y@[j],
        decreases x.len() - i,
    {
        if x[i] != y[i] {
            return false;
        }
        i = i + 1;
    }
    assert(x@ =~= y@);
    true
}


/// Whether `s` begins with `prefix`.
pub fn starts_with(s: &str, prefix: &str) -> (r: bool)
    ensures
        r == prefix@.is_prefix_of(s@),
{
    let x = chars_of(s);
    let p = chars_of(prefix);
    if p.len() > x.len() {
        return false;
    }
    let mut i: usize = 0;
    while i < p.len()
        invariant
            i <= p.len() <= x.len(),
            x@ == s@,
            p@ == prefix@,
            forall|j: int| 0 <= j < i ==> x@[j] == p@[j],
        decreases p.len() - i,
    {
        if x[i] != p[i] {
            assert(s@.subrange(0, prefix@.len() as int)[i as int] == x@[i as int]);
            return false;
        }
        i = i + 1;
    }
    assert(prefix@ =~= s@.subrange(0, prefix@.len() as int));
    true
}

/// `a` comes before `b` in the order of their characters, a prefix before
/// whatever extends it. UTF-8 keeps this order, so it is that of the bytes too.
pub open spec fn precedes(a: Seq<char>, b: Seq<char>) -> bool
    decreases a.len(),
{
    if b.len() == 0 {
        false
    } else if a.len() == 0 {
        true
    } else if a[0] != b[0] {
        a[0] < b[0]
    } else {
        precedes(a.drop_first(), b.drop_first())
    }
}

/// Nothing precedes itself.
pub proof fn precedes_irreflexive(a: Seq<char>)
    ensures
        !precedes(a, a),
    decreases a.len(),
{
    if a.len() > 0 {
        precedes_irreflexive(a.drop_first());
    }
}

/// What precedes something precedes all that the other precedes.
pub proof fn precedes_transitive(a: Seq<char>, b: Seq<char>, c: Seq<char>)
    requires
        precedes(a, b),
        precedes(b, c),
    ensures
        precedes(a, c),
    decreases a.len(),
{
    if a.len() > 0 && a[0] == b[0] && b[0] == c[0] {
        precedes_transitive(a.drop_first(), b.drop_first(), c.drop_first());
    }
}

/// Of two different texts one precedes the other.
pub proof fn precedes_total(a: Seq<char>, b: Seq<char>)
    ensures
        precedes(a, b) || precedes(b, a) || a == b,
    decreases a.len(),
{
    if a.len() == 0 || b.len() == 0 {
        if a.len() == b.len() {
            assert(a =~= b);
        }
    } else if a[0] == b[0] {
        precedes_total(a.drop_first(), b.drop_first());
        if a.drop_first() == b.drop_first() {
            assert(a =~= seq![a[0]] + a.drop_first());
            assert(b =~= seq![b[0]] + b.drop_first());
        }
    }
}

/// Dropping a common beginning keeps the order.
proof fn precedes_after_prefix(a: Seq<char>, b: Seq<char>, n: int)
    requires
        0 <= n <= a.len(),
        n <= b.len(),
        forall|j: int| 0 <= j < n ==> a[j] == b[j],
    ensures
        precedes(a, b) == precedes(a.skip(n), b.skip(n)),
    decreases n,
{
    if n == 0 {
        assert(a.skip(0) =~= a);
        assert(b.skip(0) =~= b);
    } else {
        assert forall|j: int| 0 <= j < n - 1 implies a.drop_first()[j] == b.drop_first()[j] by {
            assert(a[j + 1] == b[j + 1]);
        }
        precedes_after_prefix(a.drop_first(), b.drop_first(), n - 1);
        assert(a.drop_first().skip(n - 1) =~= a.skip(n));
        assert(b.drop_first().skip(n - 1) =~= b.skip(n));
    }
}

/// Whether `a` comes before `b`.
pub fn is_before(a: &str, b: &str) -> (r: bool)
    ensures
        r == precedes(a@, b@),
{
    let x = chars_of(a);
    let y = chars_of(b);
    let mut i: usize = 0;
    while i < x.len() && i < y.len() && x[i] == y[i]
        invariant
            i <= x.len(),
            i <= y.len(),
            forall|j: int| 0 <= j < i ==> x@[j] == y@[j],
        decreases x.len() - i,
    {
        i = i + 1;
    }
    proof {
        precedes_after_prefix(a@, b@, i as int);
    }
    if i < x.len() && i < y.len() {
        x[i] < y[i]
    } else {
        i < y.len()
    }
}

/// The characters that Unicode lists as white space.
pub open spec fn white(c: char) -> bool {
    ||| '\u{9}' <= c <= '\u{d}'
    ||| c == ' '
    ||| c == '\u{85}'
    ||| c == '\u{a0}'
    ||| c == '\u{1680}'
    ||| '\u{2000}' <= c <= '\u{200a}'
    ||| c == '\u{2028}'
    ||| c == '\u{2029}'
    ||| c == '\u{202f}'
    ||| c == '\u{205f}'
    ||| c == '\u{3000}'
}

/// Whether `c` is white space.
pub fn is_white(c: char) -> (r: bool)
    ensures
        r == white(c),
{
    ('\u{9}' <= c && c <= '\u{d}') || c == ' ' || c == '\u{85}' || c == '\u{a0}' || c == '\u{1680}'
        || ('\u{2000}' <= c && c <= '\u{200a}') || c == '\u{2028}' || c == '\u{2029}'
        || c == '\u{202f}' || c == '\u{205f}' || c == '\u{3000}'
}

/// The control characters: the two blocks below the space and after the tilde.
pub open spec fn control(c: char) -> bool {
    c <= '\u{1f}' || '\u{7f}' <= c <= '\u{9f}'
}

/// Whether `c` is a control character.
pub fn is_control(c: char) -> (r: bool)
    ensures
        r == control(c),
{
    c <= '\u{1f}' || ('\u{7f}' <= c && c <= '\u{9f}')
}

/// `s` without the white space that it begins with.
pub open spec fn trimmed_start(s: Seq<char>) -> Seq<char>
    decreases s.len(),
{
    if s.len() > 0 && white(s[0]) {
        trimmed_start(s.drop_first())
    } else {
        s
    }
}

/// `s` without the white space that it ends with.
pub open spec fn trimmed_end(s: Seq<char>) -> Seq<char>
    decreases s.len(),
{
    if s.len() > 0 && white(s.last()) {
        trimmed_end(s.drop_last())
    } else {
        s
    }
}

/// `s` without the white space around it.
pub open spec fn trimmed(s: Seq<char>) -> Seq<char> {
    trimmed_end(trimmed_start(s))
}

/// The text without the white space around it.
pub fn trim(s: &str) -> (r: String)
    ensures
        r@ == trimmed(s@),
{
    let v = chars_of(s);
    let mut from: usize = 0;
    assert(v@.skip(0) =~= v@);
    while from < v.len() && is_white(v[from])
        invariant
            from <= v.len(),
            trimmed_start(v@) == trimmed_start(v@.skip(from as int)),
        decreases v.len() - from,
    {
        assert(v@.skip(from as int).drop_first() =~= v@.skip(from + 1));
        from = from + 1;
    }
    let ghost rest = v@.skip(from as int);
    assert(trimmed_start(v@) == rest);
    let mut to: usize = v.len();
    assert(v@.subrange(from as int, to as int) =~= rest);
    while to > from && is_white(v[to - 1])
        invariant
            from <= to <= v.len(),
            trimmed_end(rest) == trimmed_end(v@.subrange(from as int, to as int)),
        decreases to,
    {
        assert(v@.subrange(from as int, to as int).drop_last() =~= v@.subrange(from as int, to - 1));
        to = to - 1;
    }
    string_of(&v, from, to)
}


proof fn trimmed_end_keeps_the_beginning(s: Seq<char>)
    ensures
        trimmed_end(s).is_prefix_of(s),
        trimmed_end(trimmed_end(s)) == trimmed_end(s),
    decreases s.len(),
{
    if s.len() > 0 && white(s.last()) {
        trimmed_end_keeps_the_beginning(s.drop_last());
    }
    assert(trimmed_end(s) =~= s.subrange(0, trimmed_end(s).len() as int));
}

proof fn trimmed_start_begins_in_black(s: Seq<char>)
    ensures
        trimmed_start(s).len() > 0 ==> !white(trimmed_start(s)[0]),
    decreases s.len(),
{
    if s.len() > 0 && white(s[0]) {
        trimmed_start_begins_in_black(s.drop_first());
    }
}

/// A text that was trimmed has no white space left to trim.
pub proof fn trimming_twice_is_trimming_once(s: Seq<char>)
    ensures
        trimmed(trimmed(s)) == trimmed(s),
{
    let rest = trimmed_start(s);
    trimmed_start_begins_in_black(s);
    trimmed_end_keeps_the_beginning(rest);
    if trimmed(s).len() > 0 {
        assert(trimmed(s)[0] == rest[0]);
    }
    assert(trimmed_start(trimmed(s)) == trimmed(s));
}

/// What the strings of a list hold.
pub open spec fn views(v: Seq<String>) -> Seq<Seq<char>> {
    Seq::new(v.len(), |i: int| v[i]@)
}

/// What a list of pairs of strings holds.
pub open spec fn pair_views(pairs: Seq<(String, String)>) -> Seq<(Seq<char>, Seq<char>)> {
    Seq::new(pairs.len(), |i: int| (pairs[i].0@, pairs[i].1@))
}

/// What an optional string holds.
pub open spec fn optional(s: Option<String>) -> Option<Seq<char>> {
    match s {
        Some(s) => Some(s@),
        None => None,
    }
}

/// The list with one more string at its end.
pub proof fn views_push(v: Seq<String>, s: String)
    ensures
        views(v.push(s)) == views(v).push(s@),
{
    assert(views(v.push(s)) =~= views(v).push(s@));
}

/// What lies between the separators, in order; the text itself where it has none.
pub open spec fn pieces(s: Seq<char>, sep: char) -> Seq<Seq<char>>
    decreases s.len(),
{
    if s.len() == 0 {
        seq![Seq::empty()]
    } else {
        let before = pieces(s.drop_last(), sep);
        if s.last() == sep {
            before.push(Seq::empty())
        } else {
            before.drop_last().push(before.last().push(s.last()))
        }
    }
}

/// There is always at least one piece.
pub proof fn pieces_nonempty(s: Seq<char>, sep: char)
    ensures
        pieces(s, sep).len() > 0,
    decreases s.len(),
{
    if s.len() > 0 {
        pieces_nonempty(s.drop_last(), sep);
    }
}

/// Cuts the text at every `sep`.
pub fn split(s: &str, sep: char) -> (r: Vec<String>)
    ensures
        views(r@) == pieces(s@, sep),
        r.len() > 0,
{
    let v = chars_of(s);
    let mut done: Vec<String> = Vec::new();
    let mut piece = String::new();
    let mut i: usize = 0;
    assert(v@.take(0) =~= Seq::<char>::empty());
    assert(views(done@).push(piece@) =~= pieces(v@.take(0), sep));
    while i < v.len()
        invariant
            i <= v.len(),
            views(done@).push(piece@) == pieces(v@.take(i as int), sep),
        decreases v.len() - i,
    {
        let ghost before = views(done@).push(piece@);
        let ghost done_before = done@;
        let ghost piece_before = piece@;
        assert(v@.take(i + 1).drop_last() =~= v@.take(i as int));
        assert(v@.take(i + 1).last() == v@[i as int]);
        assert(before.drop_last() =~= views(done_before));
        if v[i] == sep {
            let whole = piece;
            done.push(whole);
            piece = String::new();
            proof {
                views_push(done_before, whole);
                assert(views(done@) =~= before);
            }
        } else {
            piece.push(v[i]);
        }
        i = i + 1;
    }
    assert(v@.take(v@.len() as int) =~= v@);
    let ghost done_before = done@;
    done.push(piece);
    proof {
        views_push(done_before, piece);
    }
    done
}

/// A line that a newline ended, without the carriage return before it.
pub open spec fn line_body(s: Seq<char>) -> Seq<char> {
    if s.len() > 0 && s.last() == '\r' {
        s.drop_last()
    } else {
        s
    }
}

/// The lines of a text: a newline ends a line, with or without a carriage return
/// before it, and nothing after the last newline is no line.
pub open spec fn text_lines(s: Seq<char>) -> Seq<Seq<char>> {
    let all = pieces(s, '\n');
    let ended = Seq::new((all.len() - 1) as nat, |i: int| line_body(all[i]));
    if all.last().len() == 0 {
        ended
    } else {
        ended.push(all.last())
    }
}

/// The lines of the text.
pub fn lines(s: &str) -> (r: Vec<String>)
    ensures
        views(r@) == text_lines(s@),
{
    let all = split(s, '\n');
    let ghost pieces_of = views(all@);
    let mut r: Vec<String> = Vec::new();
    let last = all.len() - 1;
    let mut i: usize = 0;
    while i < last
        invariant
            i <= last,
            last == all.len() - 1,
            pieces_of == views(all@),
            r.len() == i,
            forall|j: int| 0 <= j < i ==> (#[trigger] r@[j])@ == line_body(pieces_of[j]),
        decreases last - i,
    {
        let mut line = all[i].clone();
        let v = chars_of(line.as_str());
        if v.len() > 0 && v[v.len() - 1] == '\r' {
            line.pop();
        }
        r.push(line);
        i = i + 1;
    }
    assert(views(r@) =~= Seq::new((pieces_of.len() - 1) as nat, |j: int| line_body(pieces_of[j])));
    if !all[last].as_str().is_empty() {
        let ghost before = r@;
        let line = all[last].clone();
        r.push(line);
        proof {
            views_push(before, line);
        }
    }
    r
}

/// The same character `n` times.
pub open spec fn repeated(c: char, n: nat) -> Seq<char> {
    Seq::new(n, |i: int| c)
}

/// A string of `n` times `c`.
pub fn repeat(c: char, n: usize) -> (s: String)
    ensures
        s@ == repeated(c, n as nat),
{
    let mut s = String::new();
    let mut i: usize = 0;
    while i < n
        invariant
            i <= n,
            s@ == repeated(c, i as nat),
        decreases n - i,
    {
        s.push(c);
        i = i + 1;
        assert(s@ =~= repeated(c, i as nat));
    }
    s
}

/// `s` with blanks after it up to `width` characters; longer text is left alone.
pub open spec fn padded(s: Seq<char>, width: nat) -> Seq<char> {
    if s.len() < width {
        s + repeated(' ', (width - s.len()) as nat)
    } else {
        s
    }
}

/// The text with blanks after it up to `width` characters.
pub fn pad(s: &str, width: usize) -> (r: String)
    ensures
        r@ == padded(s@, width as nat),
{
    let n = s.unicode_len();
    let mut r = s.to_owned();
    if n < width {
        r.append(repeat(' ', width - n).as_str());
    }
    r
}

/// The decimal digits of a number.
pub open spec fn decimal(n: nat) -> Seq<char>
    decreases n,
{
    if n < 10 {
        seq![digit(n)]
    } else {
        decimal(n / 10).push(digit(n % 10))
    }
}

/// The character for a number below ten.
pub open spec fn digit(n: nat) -> char {
    (n + 48) as char
}

/// Writes a number in decimal.
pub fn number(n: u64) -> (s: String)
    ensures
        s@ == decimal(n as nat),
    decreases n,
{
    let c = (48 + (n % 10) as u8) as char;
    assert(c == digit(n as nat % 10));
    if n < 10 {
        let mut s = String::new();
        s.push(c);
        assert(s@ =~= decimal(n as nat));
        s
    } else {
        let mut s = number(n / 10);
        s.push(c);
        s
    }
}

/// The texts one after the other, with `sep` between each two.
pub open spec fn joined(list: Seq<Seq<char>>, sep: Seq<char>) -> Seq<char>
    decreases list.len(),
{
    if list.len() == 0 {
        Seq::empty()
    } else if list.len() == 1 {
        list[0]
    } else {
        joined(list.drop_last(), sep) + sep + list.last()
    }
}

/// Puts the strings one after the other, with `sep` between each two.
pub fn join(list: &[String], sep: &str) -> (s: String)
    ensures
        s@ == joined(views(list@), sep@),
{
    let ghost all = views(list@);
    let mut s = String::new();
    let mut i: usize = 0;
    assert(all.take(0) =~= Seq::<Seq<char>>::empty());
    while i < list.len()
        invariant
            i <= list.len(),
            all == views(list@),
            s@ == joined(all.take(i as int), sep@),
        decreases list.len() - i,
    {
        assert(all.take(i + 1).drop_last() =~= all.take(i as int));
        if i > 0 {
            s.append(sep);
            s.append(list[i].as_str());
        } else {
            s = list[i].clone();
        }
        i = i + 1;
    }
    assert(all.take(all.len() as int) =~= all);
    s
}

/// The text with every `from` turned into `to`.
pub open spec fn swapped(s: Seq<char>, from: char, to: char) -> Seq<char> {
    s.map_values(
        |c: char|
            if c == from {
                to
            } else {
                c
            },
    )
}

/// Turns every `from` of the text into `to`.
pub fn replace(s: &str, from: char, to: char) -> (r: String)
    ensures
        r@ == swapped(s@, from, to),
{
    let v = chars_of(s);
    let mut r = String::new();
    let mut i: usize = 0;
    while i < v.len()
        invariant
            i <= v.len(),
            r@ == swapped(v@.take(i as int), from, to),
        decreases v.len() - i,
    {
        if v[i] == from {
            r.push(to);
        } else {
            r.push(v[i]);
        }
        i = i + 1;
        assert(r@ =~= swapped(v@.take(i as int), from, to));
    }
    assert(v@.take(v@.len() as int) =~= v@);
    r
}

/// Where two texts first differ decides which comes first, by the number of the
/// character; a text comes before all that it begins.
pub proof fn the_first_difference_decides(a: Seq<char>, b: Seq<char>, n: int)
    requires
        0 <= n <= a.len(),
        n <= b.len(),
        forall|i: int| 0 <= i < n ==> a[i] == b[i],
    ensures
        n < a.len() && n < b.len() && a[n] != b[n] ==> (precedes(a, b) <==> (a[n] as int)
            < (b[n] as int)),
        n == a.len() ==> (precedes(a, b) <==> a.len() < b.len()),
        n == b.len() ==> !precedes(a, b),
{
    precedes_after_prefix(a, b, n);
}

/// What a list of strings holds is what each of them holds, in place.
pub proof fn every_string_keeps_its_place(
    v: Seq<String>,
    pairs: Seq<(String, String)>,
    s: String,
    i: int,
)
    ensures
        views(v).len() == v.len(),
        0 <= i < v.len() ==> views(v)[i] == v[i]@,
        pair_views(pairs).len() == pairs.len(),
        0 <= i < pairs.len() ==> pair_views(pairs)[i] == (pairs[i].0@, pairs[i].1@),
        optional(Some(s)) == Some(s@),
        optional(None) is None,
{
}

/// Trimming takes away white space at both ends and nothing else: what is left is a
/// part of the text, all before and behind it is white, and its own ends are not.
pub proof fn trimming_takes_only_white_ends(s: Seq<char>)
    ensures
        ({
            let i = s.len() - trimmed_start(s).len();
            let j = i + trimmed(s).len();
            &&& 0 <= i <= j <= s.len()
            &&& trimmed(s) == s.subrange(i, j)
            &&& forall|k: int| 0 <= k < i ==> white(#[trigger] s[k])
            &&& forall|k: int| j <= k < s.len() ==> white(#[trigger] s[k])
            &&& trimmed(s).len() > 0 ==> !white(s[i]) && !white(s[j - 1])
        }),
{
    let rest = trimmed_start(s);
    let i = s.len() - rest.len();
    trimmed_start_is_an_end(s);
    trimmed_start_begins_in_black(s);
    trimmed_end_is_a_beginning(rest);
    let j = i + trimmed(s).len();
    assert(trimmed(s) =~= s.subrange(i, j));
    assert forall|k: int| j <= k < s.len() implies white(#[trigger] s[k]) by {
        assert(rest[k - i] == s[k]);
    }
    if trimmed(s).len() > 0 {
        assert(rest[0] == s[i]);
        assert(trimmed(s).last() == s[j - 1]);
    }
}

proof fn trimmed_start_is_an_end(s: Seq<char>)
    ensures
        trimmed_start(s).len() <= s.len(),
        trimmed_start(s) == s.skip(s.len() - trimmed_start(s).len()),
        forall|k: int| 0 <= k < s.len() - trimmed_start(s).len() ==> white(#[trigger] s[k]),
    decreases s.len(),
{
    if s.len() > 0 && white(s[0]) {
        let rest = s.drop_first();
        trimmed_start_is_an_end(rest);
        assert(s.skip(s.len() - trimmed_start(s).len()) =~= rest.skip(
            rest.len() - trimmed_start(rest).len(),
        ));
        assert forall|k: int| 0 <= k < s.len() - trimmed_start(s).len() implies white(
            #[trigger] s[k],
        ) by {
            if k > 0 {
                assert(rest[k - 1] == s[k]);
            }
        }
    } else {
        assert(s.skip(0) =~= s);
    }
}

proof fn trimmed_end_is_a_beginning(s: Seq<char>)
    ensures
        trimmed_end(s).len() <= s.len(),
        trimmed_end(s) == s.take(trimmed_end(s).len() as int),
        forall|k: int| trimmed_end(s).len() <= k < s.len() ==> white(#[trigger] s[k]),
        trimmed_end(s).len() > 0 ==> !white(trimmed_end(s).last()),
    decreases s.len(),
{
    if s.len() > 0 && white(s.last()) {
        let rest = s.drop_last();
        trimmed_end_is_a_beginning(rest);
        assert(s.take(trimmed_end(s).len() as int) =~= rest.take(trimmed_end(rest).len() as int));
        assert forall|k: int| trimmed_end(s).len() <= k < s.len() implies white(#[trigger] s[k]) by {
            if k < rest.len() {
                assert(rest[k] == s[k]);
            }
        }
    } else {
        assert(s.take(s.len() as int) =~= s);
    }
}

/// Joining puts the separator between each two texts and nowhere else.
pub proof fn joining_adds_one_separator_for_each_text(list: Seq<Seq<char>>, x: Seq<char>, sep: Seq<char>)
    ensures
        joined(Seq::empty(), sep) == Seq::<char>::empty(),
        joined(seq![x], sep) == x,
        list.len() > 0 ==> joined(list.push(x), sep) == joined(list, sep) + sep + x,
{
    assert(list.push(x).drop_last() =~= list);
}

/// Cutting a text at its separators loses nothing: the pieces joined again are the
/// text, and no piece holds a separator.
pub proof fn pieces_make_the_text(s: Seq<char>, sep: char)
    ensures
        joined(pieces(s, sep), seq![sep]) == s,
        pieces(s, sep).len() > 0,
        forall|i: int, j: int|
            0 <= i < pieces(s, sep).len() && 0 <= j < pieces(s, sep)[i].len() ==> #[trigger] pieces(
                s,
                sep,
            )[i][j] != sep,
    decreases s.len(),
{
    let all = pieces(s, sep);
    if s.len() == 0 {
        assert(all[0] =~= s);
    } else {
        let rest = s.drop_last();
        let before = pieces(rest, sep);
        pieces_make_the_text(rest, sep);
        assert(s =~= rest.push(s.last()));
        if s.last() == sep {
            assert(all.drop_last() =~= before);
            assert(joined(all, seq![sep]) =~= s);
        } else {
            let mine = before.last().push(s.last());
            assert(all.drop_last() =~= before.drop_last());
            assert(all.last() == mine);
            if before.len() == 1 {
                assert(all =~= seq![mine]);
                assert(before[0] == rest);
                assert(mine =~= s);
            } else {
                assert(rest == joined(before.drop_last(), seq![sep]) + seq![sep] + before.last());
                assert(joined(all, seq![sep]) =~= s);
            }
        }
        assert forall|i: int, j: int| 0 <= i < all.len() && 0 <= j < all[i].len() implies #[trigger] all[i][j]
            != sep by {
            if i < before.len() - 1 || s.last() == sep {
                if i < before.len() {
                    assert(all[i] == before[i]);
                    assert(before[i][j] != sep);
                }
            } else if j < before[i].len() {
                assert(all[i][j] == before[i][j]);
            }
        }
    }
}

/// A separator parts a text: what stands before it and behind it is cut as if it
/// stood alone.
pub proof fn a_separator_parts_the_text(a: Seq<char>, b: Seq<char>, sep: char)
    ensures
        pieces(a.push(sep) + b, sep) == pieces(a, sep) + pieces(b, sep),
    decreases b.len(),
{
    let s = a.push(sep) + b;
    if b.len() == 0 {
        assert(s =~= a.push(sep));
        assert(a.push(sep).drop_last() =~= a);
        assert(pieces(s, sep) =~= pieces(a, sep) + pieces(b, sep));
    } else {
        a_separator_parts_the_text(a, b.drop_last(), sep);
        pieces_nonempty(b.drop_last(), sep);
        assert(s.drop_last() =~= a.push(sep) + b.drop_last());
        assert(s.last() == b.last());
        assert(pieces(s, sep) =~= pieces(a, sep) + pieces(b, sep));
    }
}

/// A text without separators is one piece.
pub proof fn a_text_without_separators_is_whole(s: Seq<char>, sep: char)
    requires
        forall|i: int| 0 <= i < s.len() ==> #[trigger] s[i] != sep,
    ensures
        pieces(s, sep) == seq![s],
    decreases s.len(),
{
    if s.len() > 0 {
        a_text_without_separators_is_whole(s.drop_last(), sep);
        assert(s =~= s.drop_last().push(s.last()));
        assert(pieces(s, sep) =~= seq![s]);
    } else {
        assert(s =~= Seq::<char>::empty());
        assert(pieces(s, sep) =~= seq![s]);
    }
}

/// A newline ends a line, a carriage return before it belongs to it, and what
/// follows the last newline is a line only if there is something.
pub proof fn newlines_end_lines(line: Seq<char>, rest: Seq<char>)
    requires
        forall|i: int| 0 <= i < line.len() ==> #[trigger] line[i] != '\n',
    ensures
        text_lines(line) == if line.len() == 0 {
            Seq::<Seq<char>>::empty()
        } else {
            seq![line]
        },
        text_lines(line.push('\n') + rest) == seq![
            if line.len() > 0 && line.last() == '\r' {
                line.drop_last()
            } else {
                line
            },
        ] + text_lines(rest),
{
    a_text_without_separators_is_whole(line, '\n');
    a_separator_parts_the_text(line, rest, '\n');
    pieces_nonempty(rest, '\n');
    let all = pieces(line.push('\n') + rest, '\n');
    let later = pieces(rest, '\n');
    assert(all =~= seq![line] + later);
    assert(all.last() == later.last());
    assert(text_lines(line) =~= if line.len() == 0 {
        Seq::<Seq<char>>::empty()
    } else {
        seq![line]
    });
    assert(text_lines(line.push('\n') + rest) =~= seq![line_body(line)] + text_lines(rest));
}

/// Padding adds blanks behind a text until it is wide enough, and changes nothing
/// of it.
pub proof fn padding_only_adds_blanks(s: Seq<char>, width: nat, c: char, n: nat)
    ensures
        padded(s, width).len() == if s.len() < width {
            width
        } else {
            s.len()
        },
        forall|i: int| 0 <= i < s.len() ==> padded(s, width)[i] == s[i],
        forall|i: int| s.len() <= i < width ==> #[trigger] padded(s, width)[i] == ' ',
        repeated(c, n).len() == n,
        forall|i: int| 0 <= i < n ==> #[trigger] repeated(c, n)[i] == c,
{
}

/// A digit behind a number makes it ten times as large and adds itself.
pub proof fn a_digit_makes_a_number_ten_times_as_large(n: nat, d: nat)
    requires
        d < 10,
    ensures
        decimal(d) == seq![(d + 48) as char],
        n > 0 ==> decimal(n * 10 + d) == decimal(n).push((d + 48) as char),
{
    assert((n * 10 + d) / 10 == n);
    assert((n * 10 + d) % 10 == d);
}

/// Replacing a character changes just that one, wherever it stands.
pub proof fn replacing_changes_one_character(s: Seq<char>, from: char, to: char, i: int)
    ensures
        swapped(s, from, to).len() == s.len(),
        0 <= i < s.len() && s[i] == from ==> swapped(s, from, to)[i] == to,
        0 <= i < s.len() && s[i] != from ==> swapped(s, from, to)[i] == s[i],
{
}

} // verus!
