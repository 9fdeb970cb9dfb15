//! How the per-reference lifetimes stand in the configuration file: each
//! reference with its lifetime in words.

use vstd::prelude::*;

use crate::config;
use crate::text;
use crate::time::Duration;

verus! {

/// Why a list of overrides is refused.
#[derive(Debug, PartialEq, Eq)]
pub enum OverrideError {
    /// The key is no `op://` reference; what to say about it.
    NotAReference(String),
    /// The lifetime cannot be understood, and why.
    BadLifetime(String),
}

/// Why a list of overrides is refused, by what the strings hold.
pub enum Refusal {
    NotAReference(Seq<char>),
    BadLifetime(Seq<char>),
}

impl View for OverrideError {
    type V = Refusal;

    open spec fn view(&self) -> Refusal {
        match self {
            OverrideError::NotAReference(s) => Refusal::NotAReference(s@),
            OverrideError::BadLifetime(s) => Refusal::BadLifetime(s@),
        }
    }
}

/// What a list of overrides holds.
pub open spec fn override_views(map: Seq<(String, Option<Duration>)>) -> Seq<
    (Seq<char>, Option<Duration>),
> {
    Seq::new(map.len(), |i: int| (map[i].0@, map[i].1))
}

/// Whether a text is a reference to a secret.
pub open spec fn is_reference(s: Seq<char>) -> bool {
    "op://"@.is_prefix_of(s)
}

/// What one line says.
pub open spec fn read_one(key: Seq<char>, value: Seq<char>) -> Result<
    (Seq<char>, Option<Duration>),
    Refusal,
> {
    if !is_reference(key) {
        Err(
            Refusal::NotAReference(
                "override "@ + text::quoted(key) + " should be an op:// reference"@,
            ),
        )
    } else {
        match config::lifetime(value) {
            Ok(d) => Ok((key, d)),
            Err(message) => Err(Refusal::BadLifetime(message)),
        }
    }
}

/// What all the lines say, or what is wrong with the first that is wrong.
pub open spec fn read_all(pairs: Seq<(Seq<char>, Seq<char>)>) -> Result<
    Seq<(Seq<char>, Option<Duration>)>,
    Refusal,
>
    decreases pairs.len(),
{
    if pairs.len() == 0 {
        Ok(Seq::empty())
    } else {
        match read_all(pairs.drop_last()) {
            Err(e) => Err(e),
            Ok(done) => match read_one(pairs.last().0, pairs.last().1) {
                Ok(one) => Ok(done.push(one)),
                Err(e) => Err(e),
            },
        }
    }
}

proof fn read_stops(pairs: Seq<(Seq<char>, Seq<char>)>, n: int)
    requires
        0 <= n <= pairs.len(),
        read_all(pairs.take(n)) is Err,
    ensures
        read_all(pairs) == read_all(pairs.take(n)),
    decreases pairs.len() - n,
{
    if n == pairs.len() {
        assert(pairs.take(n) =~= pairs);
    } else {
        assert(pairs.take(n + 1).drop_last() =~= pairs.take(n));
        read_stops(pairs, n + 1);
    }
}

/// Reads the overrides of a configuration file, given in the order of their keys.
pub fn deserialize(pairs: &Vec<(String, String)>) -> (r: Result<
    Vec<(String, Option<Duration>)>,
    OverrideError,
>)
    ensures
        match r {
            Ok(map) => read_all(text::pair_views(pairs@)) == Ok::<
                Seq<(Seq<char>, Option<Duration>)>,
                Refusal,
            >(override_views(map@)),
            Err(e) => read_all(text::pair_views(pairs@)) == Err::<
                Seq<(Seq<char>, Option<Duration>)>,
                Refusal,
            >(e@),
        },
        r matches Ok(map) ==> map.len() == pairs.len() && forall|i: int|
            0 <= i < map.len() ==> (#[trigger] map@[i]).0@ == pairs@[i].0@ && config::lifetime_wf(
                map@[i].1,
            ),
{
    let ghost all = text::pair_views(pairs@);
    let mut map: Vec<(String, Option<Duration>)> = Vec::new();
    let mut i: usize = 0;
    assert(all.take(0) =~= Seq::<(Seq<char>, Seq<char>)>::empty());
    assert(override_views(map@) =~= Seq::<(Seq<char>, Option<Duration>)>::empty());
    while i < pairs.len()
        invariant
            i <= pairs.len(),
            all == text::pair_views(pairs@),
            map.len() == i,
            read_all(all.take(i as int)) == Ok::<Seq<(Seq<char>, Option<Duration>)>, Refusal>(
                override_views(map@),
            ),
            forall|j: int|
                0 <= j < i ==> (#[trigger] map@[j]).0@ == pairs@[j].0@ && config::lifetime_wf(map@[j].1),
        decreases pairs.len() - i,
    {
        proof {
            assert(all.take(i + 1).drop_last() =~= all.take(i as int));
            assert(all.take(i + 1).last() == (pairs@[i as int].0@, pairs@[i as int].1@));
        }
        let key = pairs[i].0.as_str();
        let value = pairs[i].1.as_str();
        if !text::starts_with(key, "op://") {
            let mut message = "override ".to_owned();
            message.append(text::quote(key).as_str());
            message.append(" should be an op:// reference");
            proof {
                read_stops(all, i + 1);
            }
            return Err(OverrideError::NotAReference(message));
        }
        match config::parse_lifetime(value) {
            Err(message) => {
                proof {
                    read_stops(all, i + 1);
                }
                return Err(OverrideError::BadLifetime(message));
            },
            Ok(d) => {
                let ghost before = map@;
                map.push((key.to_owned(), d));
                assert(override_views(map@) =~= override_views(before).push((key@, d)));
            },
        }
        i = i + 1;
    }
    assert(all.take(all.len() as int) =~= all);
    Ok(map)
}

/// Writes overrides as a configuration file holds them. What is written reads as
/// the same overrides again.
pub fn serialize(map: &Vec<(String, Option<Duration>)>) -> (r: Vec<(String, String)>)
    requires
        forall|i: int| 0 <= i < map.len() ==> config::lifetime_wf((#[trigger] map@[i]).1),
    ensures
        r.len() == map.len(),
        forall|i: int|
            0 <= i < r.len() ==> (#[trigger] r@[i]).0@ == map@[i].0@ && r@[i].1@
                == config::written_lifetime(map@[i].1, "until-exit"@),
        (forall|i: int|
            0 <= i < map.len() ==> is_reference((#[trigger] map@[i]).0@))
            ==> read_all(text::pair_views(r@)) == Ok::<Seq<(Seq<char>, Option<Duration>)>, Refusal>(
            override_views(map@),
        ),
{
    let ghost all = override_views(map@);
    let ghost sound = forall|i: int|
        0 <= i < map.len() ==> is_reference((#[trigger] map@[i]).0@);
    let mut r: Vec<(String, String)> = Vec::new();
    let mut i: usize = 0;
    assert(text::pair_views(r@) =~= Seq::<(Seq<char>, Seq<char>)>::empty());
    assert(all.take(0) =~= Seq::<(Seq<char>, Option<Duration>)>::empty());
    while i < map.len()
        invariant
            i <= map.len(),
            r.len() == i,
            all == override_views(map@),
            forall|j: int| 0 <= j < map.len() ==> config::lifetime_wf((#[trigger] map@[j]).1),
            sound ==> forall|j: int|
                0 <= j < map.len() ==> is_reference((#[trigger] map@[j]).0@),
            forall|j: int|
                0 <= j < i ==> (#[trigger] r@[j]).0@ == map@[j].0@ && r@[j].1@
                    == config::written_lifetime(map@[j].1, "until-exit"@),
            sound ==> read_all(text::pair_views(r@)) == Ok::<Seq<(Seq<char>, Option<Duration>)>, Refusal>(
                all.take(i as int),
            ),
        decreases map.len() - i,
    {
        let ghost before = r@;
        let key = map[i].0.clone();
        let value = config::format_lifetime(map[i].1, "until-exit");
        r.push((key, value));
        proof {
            config::until_exit_reads_as_endless();
            assert(text::pair_views(r@) =~= text::pair_views(before).push((key@, value@)));
            assert(text::pair_views(r@).drop_last() =~= text::pair_views(before));
            assert(all.take(i + 1) =~= all.take(i as int).push((key@, map@[i as int].1)));
        }
        i = i + 1;
    }
    assert(all.take(all.len() as int) =~= all);
    r
}

/// Lines that are read in the order of their keys make a list that a
/// configuration can hold.
pub proof fn read_in_order(
    pairs: Seq<(String, String)>,
    map: Seq<(String, Option<Duration>)>,
)
    requires
        crate::cache::ascending(Seq::new(pairs.len(), |i: int| pairs[i].0@)),
        map.len() == pairs.len(),
        forall|i: int|
            0 <= i < map.len() ==> (#[trigger] map[i]).0@ == pairs[i].0@ && config::lifetime_wf(map[i].1),
    ensures
        config::overrides_wf(map),
{
    assert(config::patterns(map) =~= Seq::new(pairs.len(), |i: int| pairs[i].0@));
}

/// A list of overrides is taken if and only if every key begins with `op://` and
/// every lifetime can be read; one bad pair refuses them all. What is taken has each
/// key in its place, with the lifetime that stands beside it.
pub proof fn one_bad_override_refuses_them_all(pairs: Seq<(Seq<char>, Seq<char>)>)
    ensures
        read_all(pairs) is Ok <==> forall|i: int|
            0 <= i < pairs.len() ==> "op://"@.is_prefix_of((#[trigger] pairs[i]).0)
                && config::lifetime(pairs[i].1) is Ok,
        read_all(pairs) matches Ok(map) ==> map.len() == pairs.len() && forall|i: int|
            0 <= i < pairs.len() ==> (#[trigger] map[i]).0 == pairs[i].0 && config::lifetime(
                pairs[i].1,
            ) == config::lifetime_read(Ok(map[i].1)),
    decreases pairs.len(),
{
    if pairs.len() > 0 {
        let before = pairs.drop_last();
        one_bad_override_refuses_them_all(before);
        assert forall|i: int| 0 <= i < before.len() implies before[i] == pairs[i] by {}
        if read_all(pairs) is Err && read_all(before) is Ok {
            assert(pairs[pairs.len() - 1] == pairs.last());
        }
        if read_all(before) is Err {
            let i = choose|i: int|
                0 <= i < before.len() && !("op://"@.is_prefix_of((#[trigger] before[i]).0)
                    && config::lifetime(before[i].1) is Ok);
            assert(pairs[i] == before[i]);
        }
    }
}

/// A pair is refused for its key first, in words that quote it, and then for its
/// lifetime, in the words for that.
pub proof fn a_bad_override_is_told_of(key: Seq<char>, value: Seq<char>)
    ensures
        !"op://"@.is_prefix_of(key) ==> read_one(key, value) == Err::<
            (Seq<char>, Option<Duration>),
            Refusal,
        >(
            Refusal::NotAReference(
                "override "@ + text::quoted(key) + " should be an op:// reference"@,
            ),
        ),
        "op://"@.is_prefix_of(key) ==> match config::lifetime(value) {
            Ok(d) => read_one(key, value) == Ok::<(Seq<char>, Option<Duration>), Refusal>((key, d)),
            Err(message) => read_one(key, value) == Err::<(Seq<char>, Option<Duration>), Refusal>(
                Refusal::BadLifetime(message),
            ),
        },
{
}

/// The first bad pair is the one that is told of.
pub proof fn the_first_bad_override_is_told_of(pairs: Seq<(Seq<char>, Seq<char>)>, n: int)
    requires
        0 <= n < pairs.len(),
        read_one(pairs[n].0, pairs[n].1) is Err,
        forall|i: int| 0 <= i < n ==> read_one((#[trigger] pairs[i]).0, pairs[i].1) is Ok,
    ensures
        read_all(pairs) is Err,
        read_all(pairs)->Err_0 == read_one(pairs[n].0, pairs[n].1)->Err_0,
{
    let before = pairs.take(n);
    assert forall|i: int| 0 <= i < before.len() implies "op://"@.is_prefix_of((#[trigger] before[i]).0)
        && config::lifetime(before[i].1) is Ok by {
        assert(before[i] == pairs[i]);
    }
    one_bad_override_refuses_them_all(before);
    assert(pairs.take(n + 1).drop_last() =~= before);
    assert(pairs.take(n + 1).last() == pairs[n]);
    read_stops(pairs, n + 1);
}

} // verus!
