//! Counting what the statuses of an operation's attempts say.

use vstd::prelude::*;
use vstd::string::*;

use crate::status::{is_success_status, status_succeeds};
use crate::text::{decimal, decimal_text, digit_char};
use crate::text_map::TextMap;

verus! {

/// How often a status occurs.
pub open spec fn occurrences(statuses: Seq<u16>, status: u16) -> nat
    decreases statuses.len(),
{
    if statuses.len() == 0 {
        0
    } else {
        occurrences(statuses.drop_last(), status) + (if statuses.last() == status {
            1nat
        } else {
            0
        })
    }
}

/// How often a status occurs whose decimal text is `key`.
pub open spec fn tally(statuses: Seq<u16>, key: Seq<char>) -> nat
    decreases statuses.len(),
{
    if statuses.len() == 0 {
        0
    } else {
        tally(statuses.drop_last(), key) + (if decimal(statuses.last() as nat) == key {
            1nat
        } else {
            0
        })
    }
}

/// How often each status occurs, by its decimal text. Statuses that do not occur have no entry.
pub open spec fn histogram(statuses: Seq<u16>) -> Map<Seq<char>, u32> {
    Map::new(
        |key: Seq<char>| tally(statuses, key) > 0,
        |key: Seq<char>| tally(statuses, key) as u32,
    )
}

/// The place of the first status that does not stand for success.
pub open spec fn first_failure(statuses: Seq<u16>) -> Option<int>
    decreases statuses.len(),
{
    if statuses.len() == 0 {
        None
    } else {
        match first_failure(statuses.drop_last()) {
            Some(i) => Some(i),
            None => if is_success_status(statuses.last()) {
                None
            } else {
                Some(statuses.len() - 1)
            },
        }
    }
}

/// No status occurs more often than there are statuses.
proof fn lemma_tally_bounded(statuses: Seq<u16>, key: Seq<char>)
    ensures
        tally(statuses, key) <= statuses.len(),
    decreases statuses.len(),
{
    if statuses.len() > 0 {
        lemma_tally_bounded(statuses.drop_last(), key);
    }
}

/// Two digits with the same character are the same.
proof fn lemma_digit_char_distinct(a: nat, b: nat)
    requires
        a < 10,
        b < 10,
        digit_char(a) == digit_char(b),
    ensures
        a == b,
{
    assert(digit_char(a) as u32 == '0' as u32 + a);
    assert(digit_char(b) as u32 == '0' as u32 + b);
}

/// Numbers with the same decimal text are the same.
pub proof fn law_decimal_text_tells_numbers_apart(a: nat, b: nat)
    requires
        decimal(a) == decimal(b),
    ensures
        a == b,
    decreases a,
{
    let x = decimal(a);
    let y = decimal(b);
    assert(x.len() >= 1 && y.len() >= 1);
    if a < 10 {
        assert(x.len() == 1);
        if b >= 10 {
            lemma_digits_not_empty(b / 10);
            assert(y.len() >= 2);
        }
        assert(x[0] == digit_char(a));
        assert(y[0] == digit_char(b));
        lemma_digit_char_distinct(a, b);
    } else {
        lemma_digits_not_empty(a / 10);
        if b < 10 {
            assert(y.len() == 1);
            assert(x.len() >= 2);
        }
        assert(x.drop_last() =~= decimal(a / 10));
        assert(y.drop_last() =~= decimal(b / 10));
        law_decimal_text_tells_numbers_apart(a / 10, b / 10);
        assert(x.last() == digit_char(a % 10));
        assert(y.last() == digit_char(b % 10));
        lemma_digit_char_distinct(a % 10, b % 10);
    }
}

/// Every number has at least one digit.
proof fn lemma_digits_not_empty(n: nat)
    ensures
        decimal(n).len() >= 1,
{
}

/// The entry of a status in the histogram says how often the status occurs.
pub proof fn law_histogram_entry(statuses: Seq<u16>, status: u16)
    requires
        statuses.len() <= u32::MAX,
    ensures
        tally(statuses, decimal(status as nat)) == occurrences(statuses, status),
        histogram(statuses).contains_key(decimal(status as nat)) <==> statuses.contains(status),
        statuses.contains(status) ==> histogram(statuses)[decimal(status as nat)] == occurrences(
            statuses,
            status,
        ),
    decreases statuses.len(),
{
    lemma_tally_bounded(statuses, decimal(status as nat));
    if statuses.len() > 0 {
        let init = statuses.drop_last();
        law_histogram_entry(init, status);
        if decimal(statuses.last() as nat) == decimal(status as nat) {
            law_decimal_text_tells_numbers_apart(statuses.last() as nat, status as nat);
            assert(statuses[statuses.len() - 1] == status);
        }
        if init.contains(status) {
            let i = choose|i: int| 0 <= i < init.len() && init[i] == status;
            assert(statuses[i] == status);
        }
        if statuses.contains(status) && statuses.last() != status {
            let i = choose|i: int| 0 <= i < statuses.len() && statuses[i] == status;
            assert(init[i] == status);
        }
    }
}

/// How often the first `n` statuses there are occur, together.
pub open spec fn occurrences_below(statuses: Seq<u16>, n: nat) -> nat
    decreases n,
{
    if n == 0 {
        0
    } else {
        occurrences_below(statuses, (n - 1) as nat) + occurrences(statuses, (n - 1) as u16)
    }
}

/// One more status raises the sum by one where it is among those summed.
proof fn lemma_one_more(statuses: Seq<u16>, n: nat)
    requires
        statuses.len() > 0,
        n <= 0x1_0000,
    ensures
        occurrences_below(statuses, n) == occurrences_below(statuses.drop_last(), n) + (if (
        statuses.last() as nat) < n {
            1nat
        } else {
            0
        }),
    decreases n,
{
    if n > 0 {
        lemma_one_more(statuses, (n - 1) as nat);
    }
}

/// The histogram counts every attempt once: the entries of all statuses add up to the number of
/// attempts.
pub proof fn law_histogram_counts_every_attempt(statuses: Seq<u16>)
    ensures
        occurrences_below(statuses, 0x1_0000) == statuses.len(),
    decreases statuses.len(),
{
    if statuses.len() == 0 {
        lemma_nothing_occurs(statuses, 0x1_0000);
    } else {
        lemma_one_more(statuses, 0x1_0000);
        law_histogram_counts_every_attempt(statuses.drop_last());
    }
}

proof fn lemma_nothing_occurs(statuses: Seq<u16>, n: nat)
    requires
        statuses.len() == 0,
    ensures
        occurrences_below(statuses, n) == 0,
    decreases n,
{
    if n > 0 {
        lemma_nothing_occurs(statuses, (n - 1) as nat);
    }
}

/// The first failure is a failure, and everything before it succeeded; where there is none,
/// everything succeeded.
pub proof fn law_first_failure_is_the_first(statuses: Seq<u16>)
    ensures
        match first_failure(statuses) {
            Some(i) => {
                &&& 0 <= i < statuses.len()
                &&& !is_success_status(statuses[i])
                &&& forall|k: int| 0 <= k < i ==> is_success_status(#[trigger] statuses[k])
            },
            None => forall|k: int|
                0 <= k < statuses.len() ==> is_success_status(#[trigger] statuses[k]),
        },
    decreases statuses.len(),
{
    if statuses.len() > 0 {
        let init = statuses.drop_last();
        law_first_failure_is_the_first(init);
        assert forall|k: int| 0 <= k < init.len() implies init[k] == #[trigger] statuses[k] by {}
    }
}

/// What the statuses of an operation's attempts say.
#[derive(Debug)]
pub struct StatusTally {
    /// How often each status occurs, by its decimal text.
    pub counts: TextMap<u32>,
    /// How many attempts were throttled (429).
    pub throttled: u32,
    /// The first attempt that failed.
    pub first_failure: Option<usize>,
}

/// Tallies the statuses of an operation's attempts.
pub fn tally_statuses(statuses: &Vec<u16>) -> (t: StatusTally)
    requires
        statuses@.len() <= u32::MAX,
    ensures
        t.counts@ == histogram(statuses@),
        t.throttled == occurrences(statuses@, 429),
        match t.first_failure {
            Some(i) => first_failure(statuses@) == Some(i as int),
            None => first_failure(statuses@) is None,
        },
{
    let mut counts: TextMap<u32> = TextMap::new();
    let mut throttled: u32 = 0;
    let mut failed: Option<usize> = None;
    let mut i: usize = 0;
    proof {
        assert(counts@ =~= histogram(statuses@.take(0)));
    }
    while i < statuses.len()
        invariant
            i <= statuses.len(),
            statuses@.len() <= u32::MAX,
            counts@ == histogram(statuses@.take(i as int)),
            throttled == occurrences(statuses@.take(i as int), 429),
            throttled <= i,
            match failed {
                Some(k) => first_failure(statuses@.take(i as int)) == Some(k as int),
                None => first_failure(statuses@.take(i as int)) is None,
            },
        decreases statuses.len() - i,
    {
        let ghost done = statuses@.take(i as int);
        let ghost more = statuses@.take(i + 1);
        proof {
            assert(more.drop_last() =~= done);
            assert(more.last() == statuses@[i as int]);
        }
        let status: u16 = statuses[i];
        let key = decimal_text(status as u64);
        let ghost text = key@;
        let before: u32 = match counts.get(key.as_str()) {
            Some(n) => *n,
            None => 0,
        };
        proof {
            lemma_tally_bounded(done, text);
            assert(before == tally(done, text));
        }
        counts.insert(key, before + 1);
        proof {
            lemma_tally_bounded(more, text);
            assert(counts@ =~= histogram(more));
        }
        if status == 429 {
            throttled = throttled + 1;
        }
        if failed.is_none() && !status_succeeds(status) {
            failed = Some(i);
        }
        i = i + 1;
    }
    proof {
        assert(statuses@.take(i as int) =~= statuses@);
    }
    StatusTally { counts, throttled, first_failure: failed }
}

} // verus!
