//! The spans of time that a text such as `1h 30m` names, added up to see where they
//! leave the range of a duration.

use vstd::prelude::*;

use crate::text;

verus! {

/// The nanoseconds in `u64::MAX` seconds and one more: the least sum that is no
/// duration.
pub const BRIM: u128 = 18_446_744_073_709_551_616_000_000_000;

/// Where in the list of spans a text stands.
#[derive(Clone, Copy, Debug, PartialEq, Eq, Structural)]
pub enum Place {
    /// Between two spans.
    Gap,
    /// In a number.
    Number,
    /// In the fraction of a number.
    Fraction,
    /// In a unit.
    Unit,
}

/// The spans added up so far, and the one that is being read.
#[verifier::ext_equal]
pub struct Sum {
    /// The nanoseconds of the spans before.
    pub total: nat,
    pub number: nat,
    /// The digits of the fraction, as a number.
    pub part: nat,
    /// What that number is divided by.
    pub scale: nat,
    pub place: Place,
    pub unit: Seq<char>,
}

/// What the spans of a text come to.
#[verifier::ext_equal]
pub enum Tally {
    /// A sum in range.
    Open(Sum),
    /// Some of them come to exactly `BRIM`.
    Brim,
    /// No more is added: the sum is out of range, or this is no list of spans.
    Closed,
}

/// A decimal digit.
pub open spec fn digit(c: char) -> bool {
    '0' <= c <= '9'
}

/// A character that a unit may hold.
pub open spec fn letter(c: char) -> bool {
    'a' <= c <= 'z' || 'A' <= c <= 'Z' || c == 'µ'
}

/// What a digit stands for.
pub open spec fn value(c: char) -> nat {
    (c as nat - 48) as nat
}

/// The nanoseconds of a unit. A month has 30.44 days, a year 365.25.
pub open spec fn unit_nanos(unit: Seq<char>) -> Option<nat> {
    if unit == "nanos"@ || unit == "nsec"@ || unit == "ns"@ {
        Some(1)
    } else if unit == "usec"@ || unit == "us"@ || unit == "µs"@ {
        Some(1_000)
    } else if unit == "millis"@ || unit == "msec"@ || unit == "ms"@ {
        Some(1_000_000)
    } else if unit == "seconds"@ || unit == "second"@ || unit == "secs"@ || unit == "sec"@ || unit
        == "s"@ {
        Some(1_000_000_000)
    } else if unit == "minutes"@ || unit == "minute"@ || unit == "min"@ || unit == "mins"@ || unit
        == "m"@ {
        Some(60_000_000_000)
    } else if unit == "hours"@ || unit == "hour"@ || unit == "hr"@ || unit == "hrs"@ || unit
        == "h"@ {
        Some(3_600_000_000_000)
    } else if unit == "days"@ || unit == "day"@ || unit == "d"@ {
        Some(86_400_000_000_000)
    } else if unit == "weeks"@ || unit == "week"@ || unit == "wk"@ || unit == "wks"@ || unit
        == "w"@ {
        Some(604_800_000_000_000)
    } else if unit == "months"@ || unit == "month"@ || unit == "M"@ {
        Some(2_630_016_000_000_000)
    } else if unit == "years"@ || unit == "year"@ || unit == "yr"@ || unit == "yrs"@ || unit
        == "y"@ {
        Some(31_557_600_000_000_000)
    } else {
        None
    }
}

impl Sum {
    /// Before anything is read.
    pub open spec fn start() -> Sum {
        Sum {
            total: 0,
            number: 0,
            part: 0,
            scale: 1,
            place: Place::Gap,
            unit: Seq::empty(),
        }
    }

    /// Begins a span with its first digit.
    pub open spec fn begun(self, c: char) -> Sum {
        Sum {
            total: self.total,
            number: value(c),
            part: 0,
            scale: 1,
            place: Place::Number,
            unit: Seq::empty(),
        }
    }

    /// Adds the span that was read: its number first, then its fraction.
    pub open spec fn ended(self) -> Tally {
        match unit_nanos(self.unit) {
            None => Tally::Closed,
            Some(nanos) => {
                let whole = self.total + self.number * nanos;
                let all = whole + self.part * nanos / self.scale;
                if whole == BRIM || all == BRIM {
                    Tally::Brim
                } else if all > BRIM {
                    Tally::Closed
                } else {
                    Tally::Open(Sum { total: all, place: Place::Gap, ..self })
                }
            },
        }
    }

    /// Reads one more character. White space parts spans, but not the digits of a
    /// number; a number has to fit in a `u64`, and so has what its fraction is
    /// divided by.
    pub open spec fn reads(self, c: char) -> Tally {
        match self.place {
            Place::Gap => if digit(c) {
                Tally::Open(self.begun(c))
            } else if text::white(c) {
                Tally::Open(self)
            } else {
                Tally::Closed
            },
            Place::Number => if digit(c) {
                let number = self.number * 10 + value(c);
                if number > u64::MAX {
                    Tally::Closed
                } else {
                    Tally::Open(Sum { number, ..self })
                }
            } else if text::white(c) {
                Tally::Open(self)
            } else if letter(c) {
                Tally::Open(Sum { place: Place::Unit, unit: seq![c], ..self })
            } else if c == '.' {
                Tally::Open(Sum { place: Place::Fraction, ..self })
            } else {
                Tally::Closed
            },
            Place::Fraction => if digit(c) {
                if self.scale > 1_000_000_000_000_000_000 {
                    Tally::Closed
                } else {
                    Tally::Open(
                        Sum {
                            part: self.part * 10 + value(c),
                            scale: self.scale * 10,
                            ..self
                        },
                    )
                }
            } else if text::white(c) {
                Tally::Open(self)
            } else if letter(c) && self.scale > 1 {
                Tally::Open(Sum { place: Place::Unit, unit: seq![c], ..self })
            } else {
                Tally::Closed
            },
            Place::Unit => if letter(c) {
                Tally::Open(Sum { unit: self.unit.push(c), ..self })
            } else if digit(c) {
                match self.ended() {
                    Tally::Open(sum) => Tally::Open(sum.begun(c)),
                    out => out,
                }
            } else if text::white(c) {
                self.ended()
            } else {
                Tally::Closed
            },
        }
    }
}

/// What the spans of a text come to, but for one that the text ends in.
pub open spec fn tally(s: Seq<char>) -> Tally
    decreases s.len(),
{
    if s.len() == 0 {
        Tally::Open(Sum::start())
    } else {
        match tally(s.drop_last()) {
            Tally::Open(sum) => sum.reads(s.last()),
            out => out,
        }
    }
}

/// At no point do the spans of the text come to exactly `BRIM` nanoseconds.
pub open spec fn countable(s: Seq<char>) -> bool {
    match tally(s) {
        Tally::Open(sum) => sum.place is Unit ==> sum.ended() !is Brim,
        Tally::Brim => false,
        Tally::Closed => true,
    }
}

/// The spans added up so far, and the one that is being read.
struct Adder {
    total: u128,
    number: u64,
    part: u64,
    scale: u64,
    place: Place,
    unit: String,
}

/// Whether the sum is still in range.
#[derive(Clone, Copy, PartialEq, Eq, Structural)]
enum Range {
    Within,
    Brim,
    Closed,
}

/// What the spans come to, by whether the sum is in range.
spec fn tallied(range: Range, adder: Adder) -> Tally {
    match range {
        Range::Within => Tally::Open(adder@),
        Range::Brim => Tally::Brim,
        Range::Closed => Tally::Closed,
    }
}

impl View for Adder {
    type V = Sum;

    closed spec fn view(&self) -> Sum {
        Sum {
            total: self.total as nat,
            number: self.number as nat,
            part: self.part as nat,
            scale: self.scale as nat,
            place: self.place,
            unit: self.unit@,
        }
    }
}

fn is_letter(c: char) -> (r: bool)
    ensures
        r == letter(c),
{
    ('a' <= c && c <= 'z') || ('A' <= c && c <= 'Z') || c == 'µ'
}

fn nanos_of(unit: &str) -> (r: Option<u64>)
    ensures
        match r {
            Some(n) => unit_nanos(unit@) == Some(n as nat) && n <= 31_557_600_000_000_000,
            None => unit_nanos(unit@) is None,
        },
{
    if text::same(unit, "nanos") || text::same(unit, "nsec") || text::same(unit, "ns") {
        Some(1)
    } else if text::same(unit, "usec") || text::same(unit, "us") || text::same(unit, "µs") {
        Some(1_000)
    } else if text::same(unit, "millis") || text::same(unit, "msec") || text::same(unit, "ms") {
        Some(1_000_000)
    } else if text::same(unit, "seconds") || text::same(unit, "second") || text::same(unit, "secs")
        || text::same(unit, "sec") || text::same(unit, "s") {
        Some(1_000_000_000)
    } else if text::same(unit, "minutes") || text::same(unit, "minute") || text::same(unit, "min")
        || text::same(unit, "mins") || text::same(unit, "m") {
        Some(60_000_000_000)
    } else if text::same(unit, "hours") || text::same(unit, "hour") || text::same(unit, "hr")
        || text::same(unit, "hrs") || text::same(unit, "h") {
        Some(3_600_000_000_000)
    } else if text::same(unit, "days") || text::same(unit, "day") || text::same(unit, "d") {
        Some(86_400_000_000_000)
    } else if text::same(unit, "weeks") || text::same(unit, "week") || text::same(unit, "wk")
        || text::same(unit, "wks") || text::same(unit, "w") {
        Some(604_800_000_000_000)
    } else if text::same(unit, "months") || text::same(unit, "month") || text::same(unit, "M") {
        Some(2_630_016_000_000_000)
    } else if text::same(unit, "years") || text::same(unit, "year") || text::same(unit, "yr")
        || text::same(unit, "yrs") || text::same(unit, "y") {
        Some(31_557_600_000_000_000)
    } else {
        None
    }
}

impl Adder {
    spec fn wf(self) -> bool {
        &&& self.total < BRIM
        &&& 1 <= self.scale <= 10_000_000_000_000_000_000
        &&& self.part < self.scale
    }

    fn begin(&mut self, c: char)
        requires
            old(self).wf(),
            digit(c),
        ensures
            final(self).wf(),
            final(self)@ == old(self)@.begun(c),
    {
        self.number = c as u64 - 48;
        self.part = 0;
        self.scale = 1;
        self.place = Place::Number;
        self.unit = String::new();
        assert(self.unit@ =~= Seq::<char>::empty());
    }

    fn end(&mut self) -> (r: Range)
        requires
            old(self).wf(),
        ensures
            r is Within ==> final(self).wf(),
            tallied(r, *final(self)) == old(self)@.ended(),
    {
        let nanos = match nanos_of(self.unit.as_str()) {
            Some(n) => n,
            None => return Range::Closed,
        };
        let number = self.number;
        let part = self.part;
        let scale = self.scale;
        assert(number * nanos <= 0xffff_ffff_ffff_ffff * 31_557_600_000_000_000) by (nonlinear_arith)
            requires
                number <= 0xffff_ffff_ffff_ffff,
                nanos <= 31_557_600_000_000_000,
        ;
        assert(part * nanos <= 0xffff_ffff_ffff_ffff * 31_557_600_000_000_000) by (nonlinear_arith)
            requires
                part <= 0xffff_ffff_ffff_ffff,
                nanos <= 31_557_600_000_000_000,
        ;
        let product = part as u128 * nanos as u128;
        assert(product / scale as u128 <= product) by (nonlinear_arith)
            requires
                scale >= 1,
        ;
        let whole = self.total + number as u128 * nanos as u128;
        let all = whole + product / scale as u128;
        if whole == BRIM || all == BRIM {
            Range::Brim
        } else if all > BRIM {
            Range::Closed
        } else {
            self.total = all;
            self.place = Place::Gap;
            Range::Within
        }
    }

    fn read(&mut self, c: char) -> (r: Range)
        requires
            old(self).wf(),
        ensures
            r is Within ==> final(self).wf(),
            tallied(r, *final(self)) == old(self)@.reads(c),
    {
        let is_digit = '0' <= c && c <= '9';
        let is_white = text::is_white(c);
        match self.place {
            Place::Gap => {
                if is_digit {
                    self.begin(c);
                    Range::Within
                } else if is_white {
                    Range::Within
                } else {
                    Range::Closed
                }
            },
            Place::Number => {
                if is_digit {
                    let number = self.number as u128 * 10 + (c as u128 - 48);
                    if number > 0xffff_ffff_ffff_ffff {
                        return Range::Closed;
                    }
                    self.number = number as u64;
                    Range::Within
                } else if is_white {
                    Range::Within
                } else if is_letter(c) {
                    self.start_unit(c);
                    Range::Within
                } else if c == '.' {
                    self.place = Place::Fraction;
                    Range::Within
                } else {
                    Range::Closed
                }
            },
            Place::Fraction => {
                if is_digit {
                    if self.scale > 1_000_000_000_000_000_000 {
                        return Range::Closed;
                    }
                    self.part = self.part * 10 + (c as u64 - 48);
                    self.scale = self.scale * 10;
                    Range::Within
                } else if is_white {
                    Range::Within
                } else if is_letter(c) && self.scale > 1 {
                    self.start_unit(c);
                    Range::Within
                } else {
                    Range::Closed
                }
            },
            Place::Unit => {
                if is_letter(c) {
                    self.unit.push(c);
                    Range::Within
                } else if is_digit {
                    let range = self.end();
                    if let Range::Within = range {
                        self.begin(c);
                    }
                    range
                } else if is_white {
                    self.end()
                } else {
                    Range::Closed
                }
            },
        }
    }

    fn start_unit(&mut self, c: char)
        requires
            old(self).wf(),
        ensures
            final(self).wf(),
            final(self)@ == (Sum { place: Place::Unit, unit: seq![c], ..old(self)@ }),
    {
        let mut unit = String::new();
        unit.push(c);
        assert(unit@ =~= seq![c]);
        self.unit = unit;
        self.place = Place::Unit;
    }
}

proof fn out_of_range_stays_so(s: Seq<char>, n: int)
    requires
        0 <= n <= s.len(),
        tally(s.take(n)) !is Open,
    ensures
        tally(s) == tally(s.take(n)),
    decreases s.len() - n,
{
    if n == s.len() {
        assert(s.take(n) =~= s);
    } else {
        assert(s.take(n + 1).drop_last() =~= s.take(n));
        out_of_range_stays_so(s, n + 1);
    }
}

/// Whether the spans of the text never come to exactly `BRIM` nanoseconds.
pub fn is_countable(s: &str) -> (r: bool)
    ensures
        r == countable(s@),
{
    let v = text::chars_of(s);
    let mut adder = Adder {
        total: 0,
        number: 0,
        part: 0,
        scale: 1,
        place: Place::Gap,
        unit: String::new(),
    };
    assert(v@.take(0) =~= Seq::<char>::empty());
    assert(adder@ =~= Sum::start());
    let mut i: usize = 0;
    while i < v.len()
        invariant
            i <= v.len(),
            v@ == s@,
            adder.wf(),
            tally(v@.take(i as int)) == Tally::Open(adder@),
        decreases v.len() - i,
    {
        assert(v@.take(i + 1).drop_last() =~= v@.take(i as int));
        let range = adder.read(v[i]);
        i = i + 1;
        match range {
            Range::Within => {},
            Range::Brim => {
                proof {
                    out_of_range_stays_so(v@, i as int);
                }
                return false;
            },
            Range::Closed => {
                proof {
                    out_of_range_stays_so(v@, i as int);
                }
                return true;
            },
        }
    }
    assert(v@.take(v@.len() as int) =~= v@);
    match adder.place {
        Place::Unit => match adder.end() {
            Range::Brim => false,
            _ => true,
        },
        _ => true,
    }
}

/// A text cannot be counted only where a span brings the sum to exactly 2^64 seconds:
/// up to some place it is a list of spans, and the last of them, its number of units
/// alone or with the fraction, makes that sum.
pub proof fn only_the_brim_cannot_be_counted(s: Seq<char>)
    requires
        !countable(s),
    ensures
        exists|n: int|
            0 <= n <= s.len() && (#[trigger] tally(s.take(n)) matches Tally::Open(sum)
                && at_the_brim(sum)),
{
    if tally(s) is Brim {
        let n = last_open(s);
        assert(tally(s.take(n)) is Open);
    } else {
        assert(s.take(s.len() as int) =~= s);
        assert(tally(s.take(s.len() as int)) is Open);
    }
}

/// The span that is being read makes the sum exactly 2^64 seconds.
pub open spec fn at_the_brim(sum: Sum) -> bool {
    &&& sum.place is Unit
    &&& unit_nanos(sum.unit) matches Some(nanos) && (sum.total + sum.number * nanos
        == 18_446_744_073_709_551_616_000_000_000 || sum.total + sum.number * nanos + sum.part
        * nanos / sum.scale == 18_446_744_073_709_551_616_000_000_000)
}

proof fn last_open(s: Seq<char>) -> (n: int)
    requires
        tally(s) is Brim,
    ensures
        0 <= n < s.len(),
        tally(s.take(n)) is Open,
        at_the_brim(tally(s.take(n))->Open_0),
    decreases s.len(),
{
    let before = s.drop_last();
    if tally(before) is Open {
        assert(s.take(s.len() - 1) =~= before);
        s.len() - 1
    } else {
        let n = last_open(before);
        assert(s.take(n) =~= before.take(n));
        n
    }
}

/// A span behind others counts its number of units, whatever the number and the unit:
/// the sum grows by just that, and the text can be counted unless it makes exactly
/// 2^64 seconds.
pub proof fn a_span_counts_its_number_of_units(
    before: Seq<char>,
    sum: Sum,
    n: u64,
    unit: Seq<char>,
    nanos: nat,
)
    requires
        tally(before) == Tally::Open(sum),
        sum.place is Gap,
        unit_nanos(unit) == Some(nanos),
        unit.len() > 0,
        forall|i: int|
            0 <= i < unit.len() ==> 'a' <= #[trigger] unit[i] <= 'z' || 'A' <= unit[i] <= 'Z'
                || unit[i] == 'µ',
    ensures
        countable(before + text::decimal(n as nat) + unit) <==> sum.total + n * nanos
            != 18_446_744_073_709_551_616_000_000_000,
        sum.total + n * nanos < 18_446_744_073_709_551_616_000_000_000 ==> (tally(
            (before + text::decimal(n as nat) + unit).push(' '),
        ) matches Tally::Open(after) && after.total == sum.total + n * nanos && after.place is Gap),
{
    let head = before + text::decimal(n as nat);
    digits_make_the_number(before, sum, n as nat);
    letters_make_the_unit(head, tally(head)->Open_0, unit);
    let whole = head + unit;
    assert(whole.push(' ').drop_last() =~= whole);
    assert(0 * nanos / 1 == 0) by (nonlinear_arith);
    assert(text::white(' ') && !letter(' ') && !digit(' '));
}

proof fn digits_make_the_number(before: Seq<char>, sum: Sum, n: nat)
    requires
        tally(before) == Tally::Open(sum),
        sum.place is Gap,
        n <= u64::MAX,
    ensures
        tally(before + text::decimal(n)) == Tally::Open(
            Sum {
                total: sum.total,
                number: n,
                part: 0,
                scale: 1,
                place: Place::Number,
                unit: Seq::empty(),
            },
        ),
    decreases n,
{
    let s = before + text::decimal(n);
    let c = text::decimal(n).last();
    if n < 10 {
        assert(s.drop_last() =~= before);
        assert(c == (n + 48) as char);
        assert(digit(c) && value(c) == n);
    } else {
        digits_make_the_number(before, sum, n / 10);
        assert(s.drop_last() =~= before + text::decimal(n / 10));
        assert(c == (n % 10 + 48) as char);
        assert(digit(c) && value(c) == n % 10);
    }
    assert(s.last() == c);
}

proof fn letters_make_the_unit(head: Seq<char>, sum: Sum, unit: Seq<char>)
    requires
        tally(head) == Tally::Open(sum),
        sum.place is Number,
        unit.len() > 0,
        forall|i: int| 0 <= i < unit.len() ==> letter(#[trigger] unit[i]),
    ensures
        tally(head + unit) == Tally::Open(Sum { place: Place::Unit, unit, ..sum }),
    decreases unit.len(),
{
    let s = head + unit;
    let c = unit.last();
    assert(letter(unit[unit.len() - 1]));
    assert(!digit(c) && !text::white(c));
    assert(s.last() == c);
    if unit.len() == 1 {
        assert(s.drop_last() =~= head);
        assert(unit =~= seq![c]);
    } else {
        letters_make_the_unit(head, sum, unit.drop_last());
        assert(s.drop_last() =~= head + unit.drop_last());
        assert(unit =~= unit.drop_last().push(c));
    }
}

/// Each digit behind the point makes a fraction ten times as fine and adds itself;
/// white space changes nothing in a number or its fraction; a point begins one.
pub proof fn digits_refine_a_fraction(s: Seq<char>, sum: Sum, c: char)
    requires
        tally(s) == Tally::Open(sum),
    ensures
        sum.place is Fraction && '0' <= c <= '9' && sum.scale <= 1_000_000_000_000_000_000 ==> (tally(
            s.push(c),
        ) matches Tally::Open(next) && next.part == sum.part * 10 + (c as nat - 48) && next.scale
            == sum.scale * 10 && next.total == sum.total && next.number == sum.number),
        (sum.place is Number || sum.place is Fraction || sum.place is Gap) && text::white(c) ==> tally(
            s.push(c),
        ) == tally(s),
        sum.place is Number && c == '.' ==> (tally(s.push(c)) matches Tally::Open(next)
            && next.place is Fraction && next.total == sum.total && next.number == sum.number
            && next.part == sum.part && next.scale == sum.scale),
{
    assert(s.push(c).drop_last() =~= s);
}

} // verus!
