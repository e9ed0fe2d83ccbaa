//! The reindeer routes: summing strengths, and the candy-eating contest that
//! picks a stable maximum per category and words a sentence about each winner.

use crate::AppError;
use crate::text::{digits_of, push_digits};
use vstd::prelude::*;

verus! {

/// A reindeer as the strength route reads it.
pub struct Reindeer {
    pub name: String,
    pub strength: u32,
}

/// The strength of each reindeer, in order.
pub open spec fn strengths(s: Seq<Reindeer>) -> Seq<u32> {
    s.map_values(|d: Reindeer| d.strength)
}

/// The sum of a sequence of strengths.
pub open spec fn sum_strengths(s: Seq<u32>) -> int
    decreases s.len(),
{
    if s.len() == 0 {
        0
    } else {
        sum_strengths(s.drop_last()) + s.last()
    }
}

/// Sum the strengths of all reindeer and render the sum in decimal; an empty
/// list sums to zero.
pub fn reindeer_cheer(reindeers: &Vec<Reindeer>) -> (r: String)
    ensures
        r@ == digits_of(sum_strengths(strengths(reindeers@)) as nat),
{
    let mut acc: u128 = 0;
    let mut i: usize = 0;
    while i < reindeers.len()
        invariant
            i <= reindeers@.len(),
            acc == sum_strengths(strengths(reindeers@.subrange(0, i as int))),
            acc <= (i as int) * 0xffff_ffff,
        decreases reindeers@.len() - i,
    {
        proof {
            assert(strengths(reindeers@.subrange(0, i + 1 as int)).drop_last() =~= strengths(
                reindeers@.subrange(0, i as int)));
            assert((i as int) * 0xffff_ffff + 0xffff_ffff == (i + 1 as int) * 0xffff_ffff)
                by (nonlinear_arith);
            assert((i + 1 as int) * 0xffff_ffff <= 0xffff_ffff_ffff_ffff_ffff_ffff)
                by (nonlinear_arith)
                requires
                    i + 1 <= 0x1_0000_0000_0000_0000,
            ;
        }
        acc = acc + (reindeers[i].strength as u128);
        i += 1;
    }
    proof {
        assert(reindeers@.subrange(0, reindeers@.len() as int) =~= reindeers@);
    }
    crate::text::u128_to_string(acc)
}

/// A contest entrant. The speed a request carries is a fractional number;
/// the contest only ever reads it multiplied by ten and truncated toward
/// zero, so that integer is what this record holds.
pub struct ReindeerDetails {
    pub name: String,
    pub strength: u32,
    pub speed_tenths: u32,
    pub height: u32,
    pub antler_width: u32,
    pub snow_magic_power: u32,
    pub favorite_food: String,
    pub candies_eaten_yesterday: u32,
}

/// The four sentences describing the contest winners.
pub struct ContestResults {
    pub fastest: String,
    pub tallest: String,
    pub magician: String,
    pub consumer: String,
}

/// The speed key of each entrant, in order.
pub open spec fn speed_keys(s: Seq<ReindeerDetails>) -> Seq<u32> {
    s.map_values(|d: ReindeerDetails| d.speed_tenths)
}

/// The height of each entrant, in order.
pub open spec fn height_keys(s: Seq<ReindeerDetails>) -> Seq<u32> {
    s.map_values(|d: ReindeerDetails| d.height)
}

/// The snow magic power of each entrant, in order.
pub open spec fn magic_keys(s: Seq<ReindeerDetails>) -> Seq<u32> {
    s.map_values(|d: ReindeerDetails| d.snow_magic_power)
}

/// The candy count of each entrant, in order.
pub open spec fn candy_keys(s: Seq<ReindeerDetails>) -> Seq<u32> {
    s.map_values(|d: ReindeerDetails| d.candies_eaten_yesterday)
}

/// The index of the first element that reaches the maximum of `s`: a later
/// element replaces the winner only by strictly exceeding it.
pub open spec fn first_max_index(s: Seq<u32>) -> int
    decreases s.len(),
{
    if s.len() <= 1 {
        0
    } else {
        let p = first_max_index(s.drop_last());
        if s.last() > s[p] {
            s.len() - 1
        } else {
            p
        }
    }
}

/// A stable maximum selects the first element that no other element exceeds:
/// every element is at most the winner, and everything before the winner is
/// strictly below it.
pub proof fn lemma_first_max_is_stable_max(s: Seq<u32>)
    requires
        s.len() > 0,
    ensures
        0 <= first_max_index(s) < s.len(),
        forall|j: int| 0 <= j < s.len() ==> #[trigger] s[j] <= s[first_max_index(s)],
        forall|j: int| 0 <= j < first_max_index(s) ==> #[trigger] s[j] < s[first_max_index(s)],
    decreases s.len(),
{
    if s.len() > 1 {
        lemma_first_max_is_stable_max(s.drop_last());
        assert(forall|j: int| 0 <= j < s.len() - 1 ==> s.drop_last()[j] == #[trigger] s[j]);
    }
}

/// The sentence about the fastest reindeer.
pub open spec fn fastest_sentence(d: ReindeerDetails) -> Seq<char> {
    "Speeding past the finish line with a strength of "@ + digits_of(d.strength as nat) + " is "@
        + d.name@
}

/// The sentence about the tallest reindeer.
pub open spec fn tallest_sentence(d: ReindeerDetails) -> Seq<char> {
    d.name@ + " is standing tall with his "@ + digits_of(d.antler_width as nat)
        + " cm wide antlers"@
}

/// The sentence about the reindeer with the strongest snow magic.
pub open spec fn magician_sentence(d: ReindeerDetails) -> Seq<char> {
    d.name@ + " could blast you away with a snow magic power of "@ + digits_of(
        d.snow_magic_power as nat,
    )
}

/// The sentence about the reindeer that ate the most candies.
pub open spec fn consumer_sentence(d: ReindeerDetails) -> Seq<char> {
    d.name@ + " ate lots of candies, but also some "@ + d.favorite_food@
}

/// Run the candy-eating contest: pick, independently and with stable-maximum
/// semantics, the entrant with the highest speed key, height, snow magic
/// power and candy count, and word one sentence about each. An empty list is
/// an error rather than a crash.
pub fn cursed_candy_eating_contest(reindeers: &Vec<ReindeerDetails>) -> (r: Result<
    ContestResults,
    AppError,
>)
    ensures
        r is Ok <==> reindeers@.len() > 0,
        r is Ok ==> r->Ok_0.fastest@ == fastest_sentence(
            reindeers@[first_max_index(speed_keys(reindeers@))],
        ),
        r is Ok ==> r->Ok_0.tallest@ == tallest_sentence(
            reindeers@[first_max_index(height_keys(reindeers@))],
        ),
        r is Ok ==> r->Ok_0.magician@ == magician_sentence(
            reindeers@[first_max_index(magic_keys(reindeers@))],
        ),
        r is Ok ==> r->Ok_0.consumer@ == consumer_sentence(
            reindeers@[first_max_index(candy_keys(reindeers@))],
        ),
{
    if reindeers.len() == 0 {
        return Result::Err(AppError::new());
    }
    let mut fi: usize = 0;
    let mut ti: usize = 0;
    let mut mi: usize = 0;
    let mut ci: usize = 0;
    let mut i: usize = 1;
    while i < reindeers.len()
        invariant
            1 <= i <= reindeers@.len(),
            fi < i,
            ti < i,
            mi < i,
            ci < i,
            fi == first_max_index(speed_keys(reindeers@.subrange(0, i as int))),
            ti == first_max_index(height_keys(reindeers@.subrange(0, i as int))),
            mi == first_max_index(magic_keys(reindeers@.subrange(0, i as int))),
            ci == first_max_index(candy_keys(reindeers@.subrange(0, i as int))),
        decreases reindeers@.len() - i,
    {
        proof {
            assert(speed_keys(reindeers@.subrange(0, i + 1 as int)).drop_last() =~= speed_keys(
                reindeers@.subrange(0, i as int)));
            assert(height_keys(reindeers@.subrange(0, i + 1 as int)).drop_last() =~= height_keys(
                reindeers@.subrange(0, i as int)));
            assert(magic_keys(reindeers@.subrange(0, i + 1 as int)).drop_last() =~= magic_keys(
                reindeers@.subrange(0, i as int)));
            assert(candy_keys(reindeers@.subrange(0, i + 1 as int)).drop_last() =~= candy_keys(
                reindeers@.subrange(0, i as int)));
        }
        if reindeers[i].speed_tenths > reindeers[fi].speed_tenths {
            fi = i;
        }
        if reindeers[i].height > reindeers[ti].height {
            ti = i;
        }
        if reindeers[i].snow_magic_power > reindeers[mi].snow_magic_power {
            mi = i;
        }
        if reindeers[i].candies_eaten_yesterday > reindeers[ci].candies_eaten_yesterday {
            ci = i;
        }
        i += 1;
    }
    proof {
        assert(reindeers@.subrange(0, reindeers@.len() as int) =~= reindeers@);
    }
    let mut fastest = String::from_str("Speeding past the finish line with a strength of ");
    push_digits(&mut fastest, reindeers[fi].strength as u128);
    fastest.append(" is ");
    fastest.append(reindeers[fi].name.as_str());
    let mut tallest = String::from_str(reindeers[ti].name.as_str());
    tallest.append(" is standing tall with his ");
    push_digits(&mut tallest, reindeers[ti].antler_width as u128);
    tallest.append(" cm wide antlers");
    let mut magician = String::from_str(reindeers[mi].name.as_str());
    magician.append(" could blast you away with a snow magic power of ");
    push_digits(&mut magician, reindeers[mi].snow_magic_power as u128);
    let mut consumer = String::from_str(reindeers[ci].name.as_str());
    consumer.append(" ate lots of candies, but also some ");
    consumer.append(reindeers[ci].favorite_food.as_str());
    proof {
        assert(fastest@ =~= fastest_sentence(reindeers@[fi as int]));
        assert(tallest@ =~= tallest_sentence(reindeers@[ti as int]));
        assert(magician@ =~= magician_sentence(reindeers@[mi as int]));
        assert(consumer@ =~= consumer_sentence(reindeers@[ci as int]));
    }
    Result::Ok(ContestResults { fastest, tallest, magician, consumer })
}

} // verus!
