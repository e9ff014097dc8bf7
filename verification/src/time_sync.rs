//! Clock-offset estimation from a handful of time samples, and the
//! arithmetic that turns raw time readings into epoch milliseconds.
use vstd::prelude::*;
use crate::json::{Json, JsonNumber, JsonV, NumberV};
use crate::text::{concat_str, abs_int, fits_i64, chars_of, contains_char, push_char, find_char, first_index, lemma_first_index, subrange_chars, trim_chars, trim_spec, parse_i64_chars, parse_i64_spec, u64_to_chars, i64_to_chars, decimal_spec, signed_decimal_spec, all_digits, digits_value, is_digit, string_from_chars};

verus! {

/// The NTP server a purchase task synchronises with in the background.
pub const DEFAULT_TIME_SERVER: &'static str = "ntp.aliyun.com";

/// Number of samples taken per synchronisation round.
pub const TIME_SYNC_ATTEMPTS: usize = 3;

/// Leading samples that only warm up DNS/TCP/NTP paths and are discarded.
pub const TIME_SYNC_WARMUP_ATTEMPTS: usize = 1;

/// Fewest successful samples from which a result is built.
pub const MIN_SUCCESSFUL_TIME_SYNC_SAMPLES: usize = 2;

/// Pause between two samples of one round.
pub const TIME_SYNC_SAMPLE_INTERVAL_MS: u64 = 80;

/// One reading of a remote clock, bracketed by two local readings.
#[derive(Clone, Copy, Debug, PartialEq, Eq, Structural)]
pub struct TimeSyncSample {
    pub offset: i64,
    pub server: i64,
    pub local_before: i64,
    pub local_after: i64,
    pub round_trip: i64,
}

/// How far the samples of one round can be trusted.
#[derive(Debug)]
pub struct TimeSyncQuality {
    pub label: &'static str,
    pub trustworthy: bool,
    pub spread: i64,
    pub best_round_trip: i64,
    pub sample_count: usize,
    pub failed_sample_count: usize,
}

/// The offset chosen for one round, together with the samples it came from.
#[derive(Debug)]
pub struct TimeSyncResult {
    pub diff: i64,
    pub server: i64,
    pub local: i64,
    pub round_trip: i64,
    pub spread: i64,
    pub quality: TimeSyncQuality,
    pub samples: Vec<TimeSyncSample>,
}

/// Why no offset could be computed.
#[derive(Clone, Copy, Debug, PartialEq, Eq, Structural)]
pub enum TimeSyncError {
    /// Fewer than `MIN_SUCCESSFUL_TIME_SYNC_SAMPLES` readings succeeded:
    /// `succeeded` of `attempted`.
    TooFewSamples { succeeded: usize, attempted: usize },
}

impl TimeSyncError {
    /// The text reported for this error:
    /// `Too few time samples collected: {succeeded}/{attempted} succeeded`.
    pub fn message(&self) -> (r: String)
        ensures
            match *self {
                TimeSyncError::TooFewSamples { succeeded, attempted } => r@ == "Too few time samples collected: "@
                    + decimal_spec(succeeded as nat) + seq!['/'] + decimal_spec(attempted as nat)
                    + " succeeded"@,
            },
    {
        match *self {
            TimeSyncError::TooFewSamples { succeeded, attempted } => {
                let a = concat_str("Too few time samples collected: ", string_from_chars(&u64_to_chars(succeeded as u64)).as_str());
                let b = concat_str(a.as_str(), "/");
                proof {
                    reveal_strlit("/");
                }
                let c = concat_str(b.as_str(), string_from_chars(&u64_to_chars(attempted as u64)).as_str());
                concat_str(c.as_str(), " succeeded")
            },
        }
    }
}

/// `x` and its absolute value both fit in an `i64`.
pub open spec fn fits_abs(x: int) -> bool {
    i64::MIN < x <= i64::MAX
}

/// Ranking of a sample: its round trip plus its distance from the median offset.
pub open spec fn sample_score(s: TimeSyncSample, median: int) -> int {
    s.round_trip + abs_int(s.offset - median)
}

// ---------------------------------------------------------------------------
// Sorting offsets (by value) and samples (by score), both by insertion.
// ---------------------------------------------------------------------------

/// Index at which `k` is inserted into `s`: before the first element greater than `k`.
pub open spec fn offset_insert_pos(s: Seq<i64>, k: int) -> nat
    decreases s.len(),
{
    if s.len() == 0 {
        0
    } else if s[0] > k {
        0
    } else {
        1 + offset_insert_pos(s.drop_first(), k)
    }
}

pub open spec fn offset_insert(s: Seq<i64>, x: i64) -> Seq<i64> {
    s.insert(offset_insert_pos(s, x as int) as int, x)
}

/// The offsets in ascending order.
pub open spec fn sorted_offsets(s: Seq<i64>) -> Seq<i64>
    decreases s.len(),
{
    if s.len() == 0 {
        s
    } else {
        offset_insert(sorted_offsets(s.drop_last()), s.last())
    }
}

/// Index at which a sample of score `k` is inserted: after all samples of score at most `k`.
pub open spec fn sample_insert_pos(s: Seq<TimeSyncSample>, k: int, median: int) -> nat
    decreases s.len(),
{
    if s.len() == 0 {
        0
    } else if sample_score(s[0], median) > k {
        0
    } else {
        1 + sample_insert_pos(s.drop_first(), k, median)
    }
}

pub open spec fn sample_insert(s: Seq<TimeSyncSample>, x: TimeSyncSample, median: int) -> Seq<
    TimeSyncSample,
> {
    s.insert(sample_insert_pos(s, sample_score(x, median), median) as int, x)
}

/// The samples in ascending score order; samples of equal score keep their order.
pub open spec fn sorted_samples(s: Seq<TimeSyncSample>, median: int) -> Seq<TimeSyncSample>
    decreases s.len(),
{
    if s.len() == 0 {
        s
    } else {
        sample_insert(sorted_samples(s.drop_last(), median), s.last(), median)
    }
}

pub open spec fn offsets_of(s: Seq<TimeSyncSample>) -> Seq<i64> {
    s.map_values(|x: TimeSyncSample| x.offset)
}

pub open spec fn median_offset(s: Seq<TimeSyncSample>) -> i64 {
    sorted_offsets(offsets_of(s))[(s.len() / 2) as int]
}

pub open spec fn spread_of(s: Seq<TimeSyncSample>) -> int {
    let o = sorted_offsets(offsets_of(s));
    o[o.len() - 1] - o[0]
}

/// The arithmetic of one round stays within `i64`.
pub open spec fn time_sync_inputs_in_range(s: Seq<TimeSyncSample>, current_local: i64) -> bool {
    &&& forall|i: int, j: int|
        #![trigger s[i], s[j]]
        0 <= i < s.len() && 0 <= j < s.len() ==> {
            &&& fits_abs(s[i].offset - s[j].offset)
            &&& fits_i64(s[i].round_trip + abs_int(s[i].offset - s[j].offset))
        }
    &&& forall|i: int| 0 <= i < s.len() ==> fits_i64(current_local + #[trigger] s[i].offset)
}

pub open spec fn quality_label(trustworthy: bool, spread: int, best_round_trip: int) -> Seq<char> {
    if trustworthy {
        "good"@
    } else if spread <= 500 && best_round_trip <= 3000 {
        "ok"@
    } else {
        "poor"@
    }
}

// ---------------------------------------------------------------------------
// Lemmas on the two insertion sorts.
// ---------------------------------------------------------------------------

proof fn lemma_offset_insert_pos(s: Seq<i64>, k: int, p: int)
    requires
        0 <= p <= s.len(),
        forall|j: int| 0 <= j < p ==> s[j] <= k,
        p == s.len() || s[p] > k,
    ensures
        offset_insert_pos(s, k) == p,
    decreases p,
{
    if p > 0 {
        lemma_offset_insert_pos(s.drop_first(), k, p - 1);
    }
}

proof fn lemma_sample_insert_pos(s: Seq<TimeSyncSample>, k: int, median: int, p: int)
    requires
        0 <= p <= s.len(),
        forall|j: int| 0 <= j < p ==> sample_score(#[trigger] s[j], median) <= k,
        p == s.len() || sample_score(s[p], median) > k,
    ensures
        sample_insert_pos(s, k, median) == p,
    decreases p,
{
    if p > 0 {
        lemma_sample_insert_pos(s.drop_first(), k, median, p - 1);
    }
}

proof fn lemma_offset_insert_pos_bound(s: Seq<i64>, k: int)
    ensures
        offset_insert_pos(s, k) <= s.len(),
        forall|j: int| 0 <= j < offset_insert_pos(s, k) ==> s[j] <= k,
        offset_insert_pos(s, k) < s.len() ==> s[offset_insert_pos(s, k) as int] > k,
    decreases s.len(),
{
    if s.len() > 0 && s[0] <= k {
        lemma_offset_insert_pos_bound(s.drop_first(), k);
        assert forall|j: int| 0 <= j < offset_insert_pos(s, k) implies s[j] <= k by {
            if j > 0 {
                assert(s[j] == s.drop_first()[j - 1]);
            }
        }
    }
}

proof fn lemma_sample_insert_pos_bound(s: Seq<TimeSyncSample>, k: int, median: int)
    ensures
        sample_insert_pos(s, k, median) <= s.len(),
        forall|j: int|
            0 <= j < sample_insert_pos(s, k, median) ==> sample_score(#[trigger] s[j], median)
                <= k,
        sample_insert_pos(s, k, median) < s.len() ==> sample_score(
            s[sample_insert_pos(s, k, median) as int],
            median,
        ) > k,
    decreases s.len(),
{
    if s.len() > 0 && sample_score(s[0], median) <= k {
        lemma_sample_insert_pos_bound(s.drop_first(), k, median);
        assert forall|j: int| 0 <= j < sample_insert_pos(s, k, median) implies sample_score(
            #[trigger] s[j],
            median,
        ) <= k by {
            if j > 0 {
                assert(s[j] == s.drop_first()[j - 1]);
            }
        }
    }
}

/// Every offset of the sorted sequence comes from the input, and the length is kept.
pub proof fn lemma_sorted_offsets_members(s: Seq<i64>)
    ensures
        sorted_offsets(s).len() == s.len(),
        forall|k: int|
            0 <= k < s.len() ==> exists|j: int| 0 <= j < s.len() && #[trigger] sorted_offsets(s)[k] == s[j],
    decreases s.len(),
{
    if s.len() > 0 {
        let t = sorted_offsets(s.drop_last());
        lemma_sorted_offsets_members(s.drop_last());
        lemma_offset_insert_pos_bound(t, s.last() as int);
        let p = offset_insert_pos(t, s.last() as int) as int;
        let r = sorted_offsets(s);
        assert(r == t.insert(p, s.last()));
        assert forall|k: int| 0 <= k < s.len() implies exists|j: int|
            0 <= j < s.len() && #[trigger] r[k] == s[j] by {
            if k < p {
                assert(r[k] == t[k]);
                let j = choose|j: int| 0 <= j < s.drop_last().len() && t[k] == s.drop_last()[j];
                assert(r[k] == s[j]);
            } else if k == p {
                assert(r[k] == s[s.len() - 1]);
            } else {
                assert(r[k] == t[k - 1]);
                let j = choose|j: int|
                    0 <= j < s.drop_last().len() && t[k - 1] == s.drop_last()[j];
                assert(r[k] == s[j]);
            }
        }
    }
}

/// The offsets a round takes its median and spread from are in ascending
/// order and are exactly the samples' offsets.
pub proof fn law_offsets_sorted_ascending(s: Seq<i64>)
    ensures
        forall|a: int, b: int|
            0 <= a <= b < sorted_offsets(s).len() ==> sorted_offsets(s)[a] <= sorted_offsets(s)[b],
        sorted_offsets(s).to_multiset() =~= s.to_multiset(),
    decreases s.len(),
{
    broadcast use vstd::seq_lib::group_to_multiset_ensures;

    if s.len() > 0 {
        let t = sorted_offsets(s.drop_last());
        law_offsets_sorted_ascending(s.drop_last());
        lemma_sorted_offsets_members(s.drop_last());
        let x = s.last();
        lemma_offset_insert_pos_bound(t, x as int);
        let p = offset_insert_pos(t, x as int) as int;
        let r = sorted_offsets(s);
        assert(r == t.insert(p, x));
        assert forall|a: int, b: int| 0 <= a <= b < r.len() implies r[a] <= r[b] by {
            if a < p && b < p {
            } else if a < p && b == p {
            } else if a < p {
                assert(t[a] <= t[b - 1]);
            } else if a == p && b == p {
            } else if a == p {
                assert(r[b] == t[b - 1]);
                if b - 1 > p {
                    assert(t[p] <= t[b - 1]);
                }
            } else {
                assert(t[a - 1] <= t[b - 1]);
            }
        }
        vstd::seq_lib::to_multiset_insert(t, p, x);
        assert(s == s.drop_last().push(x));
    }
}

/// Every sample of the sorted sequence comes from the input, and the length is kept.
pub proof fn lemma_sorted_samples_members(s: Seq<TimeSyncSample>, median: int)
    ensures
        sorted_samples(s, median).len() == s.len(),
        forall|k: int|
            0 <= k < s.len() ==> exists|j: int|
                0 <= j < s.len() && #[trigger] sorted_samples(s, median)[k] == s[j],
    decreases s.len(),
{
    if s.len() > 0 {
        let t = sorted_samples(s.drop_last(), median);
        lemma_sorted_samples_members(s.drop_last(), median);
        lemma_sample_insert_pos_bound(t, sample_score(s.last(), median), median);
        let p = sample_insert_pos(t, sample_score(s.last(), median), median) as int;
        let r = sorted_samples(s, median);
        assert(r == t.insert(p, s.last()));
        assert forall|k: int| 0 <= k < s.len() implies exists|j: int|
            0 <= j < s.len() && #[trigger] r[k] == s[j] by {
            if k < p {
                assert(r[k] == t[k]);
                let j = choose|j: int| 0 <= j < s.drop_last().len() && t[k] == s.drop_last()[j];
                assert(r[k] == s[j]);
            } else if k == p {
                assert(r[k] == s[s.len() - 1]);
            } else {
                assert(r[k] == t[k - 1]);
                let j = choose|j: int|
                    0 <= j < s.drop_last().len() && t[k - 1] == s.drop_last()[j];
                assert(r[k] == s[j]);
            }
        }
    }
}

/// The sorted samples are in ascending score order and hold the same samples as the input.
pub proof fn lemma_sorted_samples_sorted(s: Seq<TimeSyncSample>, median: int)
    ensures
        forall|a: int, b: int|
            0 <= a <= b < sorted_samples(s, median).len() ==> sample_score(
                #[trigger] sorted_samples(s, median)[a],
                median,
            ) <= sample_score(#[trigger] sorted_samples(s, median)[b], median),
        sorted_samples(s, median).to_multiset() =~= s.to_multiset(),
    decreases s.len(),
{
    broadcast use vstd::seq_lib::group_to_multiset_ensures;

    if s.len() > 0 {
        let t = sorted_samples(s.drop_last(), median);
        lemma_sorted_samples_sorted(s.drop_last(), median);
        lemma_sorted_samples_members(s.drop_last(), median);
        let x = s.last();
        let kx = sample_score(x, median);
        lemma_sample_insert_pos_bound(t, kx, median);
        let p = sample_insert_pos(t, kx, median) as int;
        let r = sorted_samples(s, median);
        assert(r == t.insert(p, x));
        assert forall|a: int, b: int| 0 <= a <= b < r.len() implies sample_score(
            #[trigger] r[a],
            median,
        ) <= sample_score(#[trigger] r[b], median) by {
            if a < p && b < p {
                assert(r[a] == t[a] && r[b] == t[b]);
            } else if a < p && b == p {
                assert(r[a] == t[a]);
            } else if a < p {
                assert(r[a] == t[a] && r[b] == t[b - 1]);
            } else if a == p && b == p {
            } else if a == p {
                assert(r[b] == t[b - 1]);
                if b - 1 > p {
                    assert(sample_score(t[p], median) <= sample_score(t[b - 1], median));
                }
            } else {
                assert(r[a] == t[a - 1] && r[b] == t[b - 1]);
            }
        }
        vstd::seq_lib::to_multiset_insert(t, p, x);
        assert(s == s.drop_last().push(x));
    }
}

/// Whether a sample scores exactly `k` against `median`.
pub open spec fn score_is(median: int, k: int) -> spec_fn(TimeSyncSample) -> bool {
    |x: TimeSyncSample| sample_score(x, median) == k
}

proof fn lemma_filter_none(s: Seq<TimeSyncSample>, pred: spec_fn(TimeSyncSample) -> bool)
    requires
        forall|i: int| 0 <= i < s.len() ==> !pred(#[trigger] s[i]),
    ensures
        s.filter(pred) == Seq::<TimeSyncSample>::empty(),
    decreases s.len(),
{
    reveal(Seq::filter);
    if s.len() > 0 {
        lemma_filter_none(s.drop_last(), pred);
        assert(!pred(s[s.len() - 1]));
    }
    assert(s.filter(pred) =~= Seq::<TimeSyncSample>::empty());
}

/// Sorting the samples by score is stable: for every score, the samples of
/// that score come out in the order in which they were taken.
pub proof fn law_sorted_samples_stable(s: Seq<TimeSyncSample>, median: int, k: int)
    ensures
        sorted_samples(s, median).filter(score_is(median, k)) == s.filter(score_is(median, k)),
    decreases s.len(),
{
    let pred = score_is(median, k);
    if s.len() > 0 {
        let t = s.drop_last();
        let x = s.last();
        law_sorted_samples_stable(t, median, k);
        let tt = sorted_samples(t, median);
        lemma_sorted_samples_sorted(t, median);
        lemma_sorted_samples_members(t, median);
        let kx = sample_score(x, median);
        lemma_sample_insert_pos_bound(tt, kx, median);
        let p = sample_insert_pos(tt, kx, median) as int;
        let a = tt.take(p);
        let b = tt.skip(p);
        assert(sorted_samples(s, median) =~= a + seq![x] + b);
        assert(tt =~= a + b);
        Seq::filter_distributes_over_add(a + seq![x], b, pred);
        Seq::filter_distributes_over_add(a, seq![x], pred);
        Seq::filter_distributes_over_add(a, b, pred);
        reveal_with_fuel(Seq::filter, 2);
        assert(seq![x].drop_last() =~= Seq::<TimeSyncSample>::empty());
        assert(seq![x].last() == x);
        assert(s.drop_last() == t && s.last() == x);
        if kx == k {
            assert forall|i: int| 0 <= i < b.len() implies !pred(#[trigger] b[i]) by {
                assert(b[i] == tt[p + i]);
                assert(sample_score(tt[p], median) <= sample_score(tt[p + i], median));
            }
            lemma_filter_none(b, pred);
            assert(s.filter(pred) == t.filter(pred).push(x));
            assert(sorted_samples(s, median).filter(pred) =~= s.filter(pred));
        } else {
            assert(s.filter(pred) == t.filter(pred));
            assert(seq![x].filter(pred) =~= Seq::<TimeSyncSample>::empty());
            assert(sorted_samples(s, median).filter(pred) =~= s.filter(pred));
        }
    }
}

/// The sample a round settles on scores no worse than any sample taken (its
/// round trip plus its distance from the median offset), and the samples
/// reported are exactly the samples taken, best first.
pub proof fn law_best_sample_scores_lowest(samples: Seq<TimeSyncSample>)
    requires
        samples.len() >= 1,
    ensures
        ({
            let m = median_offset(samples) as int;
            let sorted = sorted_samples(samples, m);
            &&& sorted.to_multiset() == samples.to_multiset()
            &&& samples.contains(sorted[0])
            &&& forall|i: int|
                0 <= i < samples.len() ==> sample_score(sorted[0], m) <= sample_score(
                    #[trigger] samples[i],
                    m,
                )
        }),
{
    broadcast use vstd::seq_lib::group_to_multiset_ensures;

    let m = median_offset(samples) as int;
    let sorted = sorted_samples(samples, m);
    lemma_sorted_samples_sorted(samples, m);
    lemma_sorted_samples_members(samples, m);
    let j = choose|j: int| 0 <= j < samples.len() && sorted[0] == samples[j];
    assert(samples[j] == sorted[0]);
    assert forall|i: int| 0 <= i < samples.len() implies sample_score(sorted[0], m)
        <= sample_score(#[trigger] samples[i], m) by {
        assert(samples.contains(samples[i]));
        assert(samples.to_multiset().count(samples[i]) > 0);
        assert(sorted.to_multiset().count(samples[i]) > 0);
        assert(sorted.contains(samples[i]));
        let k = choose|k: int| 0 <= k < sorted.len() && sorted[k] == samples[i];
        assert(sample_score(sorted[0], m) <= sample_score(sorted[k], m));
    }
}

// ---------------------------------------------------------------------------
// Executable code.
// ---------------------------------------------------------------------------

fn sort_offsets(v: &Vec<i64>) -> (r: Vec<i64>)
    ensures
        r@ == sorted_offsets(v@),
{
    let mut out: Vec<i64> = Vec::new();
    let mut i: usize = 0;
    while i < v.len()
        invariant
            i <= v.len(),
            out@ == sorted_offsets(v@.take(i as int)),
        decreases v.len() - i,
    {
        let x = v[i];
        proof {
            lemma_sorted_offsets_members(v@.take(i as int));
        }
        let mut k: usize = 0;
        while k < out.len() && out[k] <= x
            invariant
                k <= out.len(),
                forall|j: int| 0 <= j < k ==> out@[j] <= x,
            decreases out.len() - k,
        {
            k = k + 1;
        }
        proof {
            lemma_offset_insert_pos(out@, x as int, k as int);
            assert(v@.take(i + 1).drop_last() =~= v@.take(i as int));
            assert(v@.take(i + 1).last() == x);
        }
        out.insert(k, x);
        i = i + 1;
    }
    assert(v@.take(v.len() as int) =~= v@);
    out
}

fn score_time_sample(sample: &TimeSyncSample, median_offset: i64) -> (r: i64)
    requires
        fits_abs(sample.offset - median_offset),
        fits_i64(sample_score(*sample, median_offset as int)),
    ensures
        r == sample_score(*sample, median_offset as int),
{
    let d = sample.offset - median_offset;
    let a = if d < 0 { -d } else { d };
    sample.round_trip + a
}

fn sort_samples(v: Vec<TimeSyncSample>, median: i64) -> (r: Vec<TimeSyncSample>)
    requires
        forall|i: int|
            0 <= i < v@.len() ==> fits_i64(#[trigger] v@[i].offset - median) && fits_abs(
                v@[i].offset - median,
            ) && fits_i64(sample_score(v@[i], median as int)),
    ensures
        r@ == sorted_samples(v@, median as int),
{
    let mut out: Vec<TimeSyncSample> = Vec::new();
    let mut i: usize = 0;
    while i < v.len()
        invariant
            i <= v.len(),
            out@ == sorted_samples(v@.take(i as int), median as int),
            forall|j: int|
                0 <= j < v@.len() ==> fits_i64(#[trigger] v@[j].offset - median) && fits_abs(
                    v@[j].offset - median,
                ) && fits_i64(sample_score(v@[j], median as int)),
        decreases v.len() - i,
    {
        let x = v[i];
        let kx = score_time_sample(&x, median);
        proof {
            lemma_sorted_samples_members(v@.take(i as int), median as int);
        }
        proof {
            assert forall|j: int| 0 <= j < out@.len() implies fits_i64(
                #[trigger] out@[j].offset - median,
            ) && fits_abs(out@[j].offset - median) && fits_i64(
                sample_score(out@[j], median as int),
            ) by {
                let jj = choose|jj: int|
                    0 <= jj < v@.take(i as int).len() && out@[j] == v@.take(i as int)[jj];
                assert(out@[j] == v@[jj]);
            }
        }
        let mut k: usize = 0;
        while k < out.len() && score_time_sample(&out[k], median) <= kx
            invariant
                k <= out.len(),
                forall|j: int|
                    0 <= j < out@.len() ==> fits_i64(#[trigger] out@[j].offset - median)
                        && fits_abs(out@[j].offset - median) && fits_i64(
                        sample_score(out@[j], median as int),
                    ),
                forall|j: int| 0 <= j < k ==> sample_score(#[trigger] out@[j], median as int) <= kx,
            decreases out.len() - k,
        {
            k = k + 1;
        }
        proof {
            lemma_sample_insert_pos(out@, kx as int, median as int, k as int);
            assert(v@.take(i + 1).drop_last() =~= v@.take(i as int));
            assert(v@.take(i + 1).last() == x);
        }
        out.insert(k, x);
        i = i + 1;
    }
    assert(v@.take(v.len() as int) =~= v@);
    out
}

fn collect_offsets(samples: &Vec<TimeSyncSample>) -> (r: Vec<i64>)
    ensures
        r@ == offsets_of(samples@),
{
    let mut out: Vec<i64> = Vec::new();
    let mut i: usize = 0;
    while i < samples.len()
        invariant
            i <= samples.len(),
            out@ == offsets_of(samples@.take(i as int)),
        decreases samples.len() - i,
    {
        out.push(samples[i].offset);
        i = i + 1;
        assert(offsets_of(samples@.take(i as int)) =~= offsets_of(samples@.take(i - 1)).push(
            samples@[i - 1].offset,
        ));
    }
    assert(samples@.take(samples.len() as int) =~= samples@);
    out
}

/// The result of a round of at least two samples: the best-scoring sample's
/// offset and round trip, the spread of the offsets, the quality judged from
/// both, and every sample in score order.
pub open spec fn round_result_spec(
    r: TimeSyncResult,
    samples: Seq<TimeSyncSample>,
    failed_sample_count: usize,
    current_local: i64,
) -> bool {
    let median = median_offset(samples) as int;
    let sorted = sorted_samples(samples, median);
    let best = sorted[0];
    let spread = spread_of(samples);
    let trustworthy = samples.len() >= 2 && spread <= 200 && best.round_trip <= 1500;
    &&& r.samples@ == sorted
    &&& r.diff == best.offset
    &&& r.server == current_local + best.offset
    &&& r.local == current_local
    &&& r.round_trip == best.round_trip
    &&& r.spread == spread
    &&& r.quality.trustworthy == trustworthy
    &&& r.quality.label@ == quality_label(trustworthy, spread, best.round_trip as int)
    &&& r.quality.spread == spread
    &&& r.quality.best_round_trip == best.round_trip
    &&& r.quality.sample_count == samples.len()
    &&& r.quality.failed_sample_count == failed_sample_count
}

/// Whether an offset is below `m`.
pub open spec fn offset_below(m: i64) -> spec_fn(i64) -> bool {
    |x: i64| x < m
}

/// Whether an offset is above `m`.
pub open spec fn offset_above(m: i64) -> spec_fn(i64) -> bool {
    |x: i64| x > m
}

proof fn lemma_filter_none_i64(s: Seq<i64>, pred: spec_fn(i64) -> bool)
    requires
        forall|i: int| 0 <= i < s.len() ==> !pred(#[trigger] s[i]),
    ensures
        s.filter(pred).len() == 0,
    decreases s.len(),
{
    reveal(Seq::filter);
    if s.len() > 0 {
        lemma_filter_none_i64(s.drop_last(), pred);
        assert(!pred(s[s.len() - 1]));
    }
}

proof fn lemma_filter_len_i64(s: Seq<i64>, pred: spec_fn(i64) -> bool)
    ensures
        s.filter(pred).len() <= s.len(),
    decreases s.len(),
{
    reveal(Seq::filter);
    if s.len() > 0 {
        lemma_filter_len_i64(s.drop_last(), pred);
    }
}

/// Sorting the offsets keeps how many of them satisfy any test.
proof fn lemma_sorted_offsets_filter_len(s: Seq<i64>, pred: spec_fn(i64) -> bool)
    ensures
        sorted_offsets(s).filter(pred).len() == s.filter(pred).len(),
    decreases s.len(),
{
    if s.len() > 0 {
        let t = s.drop_last();
        let x = s.last();
        lemma_sorted_offsets_filter_len(t, pred);
        let tt = sorted_offsets(t);
        lemma_offset_insert_pos_bound(tt, x as int);
        let p = offset_insert_pos(tt, x as int) as int;
        let a = tt.take(p);
        let b = tt.skip(p);
        assert(sorted_offsets(s) =~= a + seq![x] + b);
        assert(tt =~= a + b);
        Seq::filter_distributes_over_add(a + seq![x], b, pred);
        Seq::filter_distributes_over_add(a, seq![x], pred);
        Seq::filter_distributes_over_add(a, b, pred);
        reveal_with_fuel(Seq::filter, 2);
        assert(seq![x].drop_last() =~= Seq::<i64>::empty());
        assert(s.drop_last() == t && s.last() == x);
    }
}

/// The median offset of a round is the offset of one of its samples; at most
/// half of the samples (rounded down) have a smaller offset, and at most the
/// others but one have a larger offset.
pub proof fn law_median_offset(samples: Seq<TimeSyncSample>)
    requires
        samples.len() >= 1,
    ensures
        exists|j: int| 0 <= j < samples.len() && (#[trigger] samples[j]).offset == median_offset(samples),
        offsets_of(samples).filter(offset_below(median_offset(samples))).len() <= samples.len() / 2,
        offsets_of(samples).filter(offset_above(median_offset(samples))).len() <= samples.len() - 1
            - samples.len() / 2,
{
    let offsets = offsets_of(samples);
    let o = sorted_offsets(offsets);
    let m = median_offset(samples);
    let h = (samples.len() / 2) as int;
    law_offsets_sorted_ascending(offsets);
    lemma_sorted_offsets_members(offsets);
    assert(o.len() == samples.len());
    assert(o[h] == m);
    let j = choose|j: int| 0 <= j < offsets.len() && o[h] == offsets[j];
    assert(offsets[j] == samples[j].offset);
    // Below the median: only among the first `h` sorted offsets.
    lemma_sorted_offsets_filter_len(offsets, offset_below(m));
    Seq::filter_distributes_over_add(o.take(h), o.skip(h), offset_below(m));
    assert(o =~= o.take(h) + o.skip(h));
    assert forall|i: int| 0 <= i < o.skip(h).len() implies !offset_below(m)(#[trigger] o.skip(h)[i]) by {
        assert(o.skip(h)[i] == o[h + i]);
        assert(o[h] <= o[h + i]);
    }
    lemma_filter_none_i64(o.skip(h), offset_below(m));
    lemma_filter_len_i64(o.take(h), offset_below(m));
    // Above the median: only among the sorted offsets after index `h`.
    lemma_sorted_offsets_filter_len(offsets, offset_above(m));
    Seq::filter_distributes_over_add(o.take(h + 1), o.skip(h + 1), offset_above(m));
    assert(o =~= o.take(h + 1) + o.skip(h + 1));
    assert forall|i: int| 0 <= i < o.take(h + 1).len() implies !offset_above(m)(
        #[trigger] o.take(h + 1)[i],
    ) by {
        assert(o.take(h + 1)[i] == o[i]);
        assert(o[i] <= o[h]);
    }
    lemma_filter_none_i64(o.take(h + 1), offset_above(m));
    lemma_filter_len_i64(o.skip(h + 1), offset_above(m));
}

/// The verdict of a round of at least two samples. The round is trustworthy
/// exactly when its offsets lie within 200 ms of each other and the round trip
/// of its best sample is at most 1500 ms; it then reads "good", else "ok"
/// when the spread is at most 500 ms and that round trip at most 3000 ms, else
/// "poor". The spread is the distance between the largest and the smallest
/// offset, and the offset and round trip reported are those of a sample of
/// the round that scores lowest.
pub proof fn law_round_verdict(
    r: TimeSyncResult,
    samples: Seq<TimeSyncSample>,
    failed_sample_count: usize,
    current_local: i64,
)
    requires
        samples.len() >= 2,
        round_result_spec(r, samples, failed_sample_count, current_local),
    ensures
        r.quality.trustworthy == (r.spread <= 200 && r.round_trip <= 1500),
        r.quality.label@ == (if r.quality.trustworthy {
            "good"@
        } else if r.spread <= 500 && r.round_trip <= 3000 {
            "ok"@
        } else {
            "poor"@
        }),
        r.quality.spread == r.spread,
        r.quality.best_round_trip == r.round_trip,
        r.quality.sample_count == samples.len(),
        r.quality.failed_sample_count == failed_sample_count,
        forall|i: int, j: int|
            0 <= i < samples.len() && 0 <= j < samples.len() ==> #[trigger] samples[i].offset
                - #[trigger] samples[j].offset <= r.spread,
        exists|i: int, j: int|
            0 <= i < samples.len() && 0 <= j < samples.len() && #[trigger] samples[i].offset
                - #[trigger] samples[j].offset == r.spread,
        exists|b: int|
            0 <= b < samples.len() && r.diff == (#[trigger] samples[b]).offset && r.round_trip
                == samples[b].round_trip && r.server == current_local + samples[b].offset && forall|
                i: int,
            |
                0 <= i < samples.len() ==> sample_score(samples[b], median_offset(samples) as int)
                    <= sample_score(#[trigger] samples[i], median_offset(samples) as int),
{
    broadcast use vstd::seq_lib::group_to_multiset_ensures;

    let offsets = offsets_of(samples);
    let o = sorted_offsets(offsets);
    law_offsets_sorted_ascending(offsets);
    lemma_sorted_offsets_members(offsets);
    assert(offsets.len() == samples.len());
    assert forall|i: int| 0 <= i < samples.len() implies o[0] <= #[trigger] samples[i].offset
        <= o[o.len() - 1] by {
        assert(offsets[i] == samples[i].offset);
        assert(offsets.contains(offsets[i]));
        assert(offsets.to_multiset().count(offsets[i]) > 0);
        assert(o.to_multiset().count(offsets[i]) > 0);
        assert(o.contains(offsets[i]));
        let k = choose|k: int| 0 <= k < o.len() && o[k] == offsets[i];
        assert(o[0] <= o[k]);
        assert(o[k] <= o[o.len() - 1]);
    }
    let j1 = choose|j: int| 0 <= j < offsets.len() && o[o.len() - 1] == offsets[j];
    let j2 = choose|j: int| 0 <= j < offsets.len() && o[0] == offsets[j];
    assert(offsets[j1] == samples[j1].offset && offsets[j2] == samples[j2].offset);
    assert(samples[j1].offset - samples[j2].offset == r.spread);
    law_best_sample_scores_lowest(samples);
    let m = median_offset(samples) as int;
    let best = sorted_samples(samples, m)[0];
    let b = choose|b: int| 0 <= b < samples.len() && samples[b] == best;
    assert(samples[b] == best);
}

/// Builds the result of one synchronisation round: the median offset, the
/// spread of the offsets, the samples sorted by score (round trip plus distance
/// from the median; equal scores keep their order), the best of them, and a
/// quality verdict. Fails when fewer than two samples succeeded.
pub fn build_time_sync_result(
    samples: Vec<TimeSyncSample>,
    failed_sample_count: usize,
    current_local: i64,
) -> (res: Result<TimeSyncResult, TimeSyncError>)
    requires
        samples@.len() + failed_sample_count <= usize::MAX,
        time_sync_inputs_in_range(samples@, current_local),
    ensures
        samples@.len() < MIN_SUCCESSFUL_TIME_SYNC_SAMPLES ==> res == Err::<TimeSyncResult, TimeSyncError>(
            TimeSyncError::TooFewSamples {
                succeeded: samples@.len() as usize,
                attempted: (samples@.len() + failed_sample_count) as usize,
            },
        ),
        samples@.len() >= MIN_SUCCESSFUL_TIME_SYNC_SAMPLES ==> (res matches Ok(r) && round_result_spec(
            r,
            samples@,
            failed_sample_count,
            current_local,
        )),
{
    if samples.len() < MIN_SUCCESSFUL_TIME_SYNC_SAMPLES {
        return Err(
            TimeSyncError::TooFewSamples {
                succeeded: samples.len(),
                attempted: samples.len() + failed_sample_count,
            },
        );
    }
    let offsets = collect_offsets(&samples);
    let sorted = sort_offsets(&offsets);
    proof {
        lemma_sorted_offsets_members(offsets@);
    }
    let n = sorted.len();
    let median_offset = sorted[n / 2];
    let min_offset = sorted[0];
    let max_offset = sorted[n - 1];
    proof {
        let j1 = choose|j: int| 0 <= j < offsets@.len() && sorted@[n - 1] == offsets@[j];
        let j2 = choose|j: int| 0 <= j < offsets@.len() && sorted@[0] == offsets@[j];
        assert(samples@[j1].offset == max_offset);
        assert(samples@[j2].offset == min_offset);
        assert(fits_abs(samples@[j1].offset - samples@[j2].offset));
    }
    let spread = max_offset - min_offset;
    proof {
        let jm = choose|j: int| 0 <= j < offsets@.len() && sorted@[(n / 2) as int] == offsets@[j];
        assert(samples@[jm].offset == median_offset);
        assert forall|i: int| 0 <= i < samples@.len() implies fits_i64(
            #[trigger] samples@[i].offset - median_offset,
        ) && fits_abs(samples@[i].offset - median_offset) && fits_i64(
            sample_score(samples@[i], median_offset as int),
        ) by {
            assert(fits_abs(samples@[i].offset - samples@[jm].offset));
            assert(fits_i64(
                samples@[i].round_trip + abs_int(samples@[i].offset - samples@[jm].offset),
            ));
        }
    }
    let ghost input = samples@;
    let sorted_samples_vec = sort_samples(samples, median_offset);
    proof {
        lemma_sorted_samples_members(input, median_offset as int);
    }
    let best = sorted_samples_vec[0];
    proof {
        let jb = choose|j: int| 0 <= j < input.len() && sorted_samples_vec@[0] == input[j];
        assert(fits_i64(current_local + input[jb].offset));
    }
    let trustworthy = sorted_samples_vec.len() >= 2 && spread <= 200 && best.round_trip <= 1500;
    let label: &'static str = if trustworthy {
        "good"
    } else if spread <= 500 && best.round_trip <= 3000 {
        "ok"
    } else {
        "poor"
    };
    let count = sorted_samples_vec.len();
    Ok(
        TimeSyncResult {
            diff: best.offset,
            server: current_local + best.offset,
            local: current_local,
            round_trip: best.round_trip,
            spread,
            quality: TimeSyncQuality {
                label,
                trustworthy,
                spread,
                best_round_trip: best.round_trip,
                sample_count: count,
                failed_sample_count,
            },
            samples: sorted_samples_vec,
        },
    )
}

fn fits_i64_exec(x: i128) -> (b: bool)
    ensures
        b == fits_i64(x as int),
{
    -9_223_372_036_854_775_808i128 <= x && x <= 9_223_372_036_854_775_807i128
}

/// Whether the arithmetic of a round over `samples` stays within `i64` (what
/// `build_time_sync_result` requires).
pub fn time_sync_inputs_ok(samples: &Vec<TimeSyncSample>, current_local: i64) -> (b: bool)
    ensures
        b == time_sync_inputs_in_range(samples@, current_local),
{
    let n = samples.len();
    let mut i: usize = 0;
    while i < n
        invariant
            i <= n == samples@.len(),
            forall|a: int, b: int|
                #![trigger samples@[a], samples@[b]]
                0 <= a < i && 0 <= b < n ==> {
                    &&& fits_abs(samples@[a].offset - samples@[b].offset)
                    &&& fits_i64(samples@[a].round_trip + abs_int(samples@[a].offset - samples@[b].offset))
                },
            forall|a: int| 0 <= a < i ==> fits_i64(current_local + #[trigger] samples@[a].offset),
        decreases n - i,
    {
        let si = samples[i];
        if !fits_i64_exec(current_local as i128 + si.offset as i128) {
            return false;
        }
        let mut j: usize = 0;
        while j < n
            invariant
                i < n == samples@.len(),
                j <= n,
                si == samples@[i as int],
                forall|b: int|
                    #![trigger samples@[b]]
                    0 <= b < j ==> {
                        &&& fits_abs(si.offset - samples@[b].offset)
                        &&& fits_i64(si.round_trip + abs_int(si.offset - samples@[b].offset))
                    },
            decreases n - j,
        {
            let d: i128 = si.offset as i128 - samples[j].offset as i128;
            if !(d > -9_223_372_036_854_775_808i128 && d <= 9_223_372_036_854_775_807i128) {
                return false;
            }
            let ad: i128 = if d < 0 { -d } else { d };
            if !fits_i64_exec(si.round_trip as i128 + ad) {
                return false;
            }
            j = j + 1;
        }
        i = i + 1;
    }
    true
}

// ---------------------------------------------------------------------------
// Reading time values out of server responses.
// ---------------------------------------------------------------------------

/// How `serde_json` prints a number.
pub open spec fn number_text(n: NumberV) -> Seq<char> {
    match n {
        NumberV::PosInt(u) => decimal_spec(u as nat),
        NumberV::NegInt(i) => signed_decimal_spec(i as int),
        NumberV::Float(t) => t,
    }
}

/// The text a time field is read from: a number as printed, a string trimmed.
pub open spec fn time_text(v: JsonV) -> Option<Seq<char>> {
    match v {
        JsonV::Number(n) => Some(number_text(n)),
        JsonV::Str(s) => Some(trim_spec(s)),
        _ => None,
    }
}

fn time_text_exec(v: &Json) -> (r: Option<Vec<char>>)
    ensures
        match time_text(v@) {
            Some(t) => r matches Some(c) && c@ == t,
            None => r is None,
        },
{
    match v {
        Json::Number(JsonNumber::PosInt(u)) => Some(u64_to_chars(*u)),
        Json::Number(JsonNumber::NegInt(i)) => Some(i64_to_chars(*i)),
        Json::Number(JsonNumber::Float(t)) => Some(chars_of(t.as_str())),
        Json::Str(s) => {
            let c = chars_of(s.as_str());
            Some(trim_chars(&c))
        },
        _ => None,
    }
}

/// An epoch time in seconds or milliseconds, told apart by magnitude: values
/// above 10^11 are milliseconds, others seconds (scaled unless that overflows).
pub open spec fn epoch_millis_of_text(t: Seq<char>) -> Option<i64> {
    match parse_i64_spec(t) {
        Some(n) => if n > 100_000_000_000 {
            Some(n)
        } else if fits_i64(n * 1000) {
            Some((n * 1000) as i64)
        } else {
            None
        },
        None => None,
    }
}

pub open spec fn epoch_millis_spec(v: JsonV) -> Option<i64> {
    match time_text(v) {
        Some(t) => epoch_millis_of_text(t),
        None => None,
    }
}

fn epoch_millis_of_chars(t: &Vec<char>) -> (r: Option<i64>)
    ensures
        r == epoch_millis_of_text(t@),
{
    match parse_i64_chars(t) {
        Some(n) => {
            if n > 100_000_000_000 {
                Some(n)
            } else {
                n.checked_mul(1000)
            }
        },
        None => None,
    }
}

/// Reads an epoch time in seconds or milliseconds from a number or a string.
pub fn parse_epoch_millis(value: &Json) -> (r: Option<i64>)
    ensures
        r == epoch_millis_spec(value@),
{
    match time_text_exec(value) {
        Some(t) => epoch_millis_of_chars(&t),
        None => None,
    }
}

pub open spec fn pow10_spec(k: nat) -> int
    decreases k,
{
    if k == 0 {
        1
    } else {
        10 * pow10_spec((k - 1) as nat)
    }
}

/// The milliseconds that the digits after a decimal point denote: the first
/// three digits, padded with zeros; nothing unless all are ASCII digits.
pub open spec fn millis_fraction_spec(f: Seq<char>) -> Option<i64> {
    if f.len() == 0 || !all_digits(f) {
        None
    } else {
        let k: nat = if f.len() < 3 { f.len() } else { 3 };
        Some((digits_value(f.take(k as int)) * pow10_spec((3 - k) as nat)) as i64)
    }
}

/// Reads the digits after a decimal point as milliseconds.
pub fn parse_millis_fraction(fraction: &Vec<char>) -> (r: Option<i64>)
    ensures
        r == millis_fraction_spec(fraction@),
{
    let n = fraction.len();
    if n == 0 {
        return None;
    }
    let mut i: usize = 0;
    while i < n
        invariant
            i <= n == fraction.len(),
            forall|j: int| 0 <= j < i ==> is_digit(#[trigger] fraction@[j]),
        decreases n - i,
    {
        if !('0' <= fraction[i] && fraction[i] <= '9') {
            return None;
        }
        i = i + 1;
    }
    let k: usize = if n < 3 { n } else { 3 };
    let mut millis: i64 = 0;
    let mut j: usize = 0;
    while j < k
        invariant
            j <= k <= 3,
            k <= n == fraction.len(),
            all_digits(fraction@),
            millis == digits_value(fraction@.take(j as int)),
            millis < pow10_spec(j as nat),
        decreases k - j,
    {
        let d = (fraction[j] as u32 - '0' as u32) as i64;
        proof {
            assert(is_digit(fraction@[j as int]));
            assert(fraction@.take(j + 1).drop_last() =~= fraction@.take(j as int));
            assert(pow10_spec((j + 1) as nat) == 10 * pow10_spec(j as nat));
            assert(pow10_spec(3) == 1000) by {
                reveal_with_fuel(pow10_spec, 4);
            }
            assert(pow10_spec(j as nat) <= 100) by {
                reveal_with_fuel(pow10_spec, 4);
            }
        }
        millis = millis * 10 + d;
        j = j + 1;
    }
    proof {
        reveal_with_fuel(pow10_spec, 4);
    }
    let m: i64 = if k == 1 {
        millis * 100
    } else if k == 2 {
        millis * 10
    } else {
        millis
    };
    Some(m)
}


/// A `data.now` value: `seconds.fraction` when the text has a decimal point
/// (split at the first one), else an epoch time read by magnitude.
pub open spec fn data_now_millis_of_text(t: Seq<char>) -> Option<i64> {
    let i = first_index(t, '.');
    if i < t.len() {
        match (parse_i64_spec(t.take(i)), millis_fraction_spec(t.skip(i + 1))) {
            (Some(secs), Some(ms)) => if fits_i64(secs * 1000) && fits_i64(secs * 1000 + ms) {
                Some((secs * 1000 + ms) as i64)
            } else {
                None
            },
            _ => None,
        }
    } else {
        epoch_millis_of_text(t)
    }
}

pub open spec fn data_now_millis_spec(v: JsonV) -> Option<i64> {
    match time_text(v) {
        Some(t) => data_now_millis_of_text(t),
        None => None,
    }
}

/// Reads `data.now`: seconds with a decimal fraction, or an epoch time in
/// seconds or milliseconds.
pub fn parse_data_now_to_millis(value: &Json) -> (r: Option<i64>)
    ensures
        r == data_now_millis_spec(value@),
{
    let t = match time_text_exec(value) {
        Some(t) => t,
        None => return None,
    };
    let i = find_char(&t, '.');
    proof {
        lemma_first_index(t@, '.');
    }
    if i < t.len() {
        let secs_text = subrange_chars(&t, 0, i);
        let frac_text = subrange_chars(&t, i + 1, t.len());
        proof {
            assert(secs_text@ =~= t@.take(i as int));
            assert(frac_text@ =~= t@.skip(i + 1));
        }
        let secs = match parse_i64_chars(&secs_text) {
            Some(s) => s,
            None => return None,
        };
        let ms = match parse_millis_fraction(&frac_text) {
            Some(m) => m,
            None => return None,
        };
        match secs.checked_mul(1000) {
            Some(x) => x.checked_add(ms),
            None => None,
        }
    } else {
        epoch_millis_of_chars(&t)
    }
}

/// Where a time API's reply keeps the time, tried in this order: `data.now`
/// (possibly fractional seconds), then `data.t`, `serverTime`, `server_time`,
/// `time` and `timestamp` (each seconds or milliseconds by magnitude).
pub open spec fn server_time_spec(res: JsonV) -> Option<i64> {
    let data = res.at("data"@);
    if data_now_millis_spec(data.at("now"@)) is Some {
        data_now_millis_spec(data.at("now"@))
    } else if epoch_millis_spec(data.at("t"@)) is Some {
        epoch_millis_spec(data.at("t"@))
    } else if epoch_millis_spec(res.at("serverTime"@)) is Some {
        epoch_millis_spec(res.at("serverTime"@))
    } else if epoch_millis_spec(res.at("server_time"@)) is Some {
        epoch_millis_spec(res.at("server_time"@))
    } else if epoch_millis_spec(res.at("time"@)) is Some {
        epoch_millis_spec(res.at("time"@))
    } else {
        epoch_millis_spec(res.at("timestamp"@))
    }
}

fn epoch_member(res: &Json, key: &str) -> (r: Option<i64>)
    ensures
        r == epoch_millis_spec(res@.at(key@)),
{
    match res.get(key) {
        Some(v) => parse_epoch_millis(v),
        None => None,
    }
}

/// The server time, in epoch milliseconds, that a time API's JSON reply carries;
/// `None` where no known field holds one.
pub fn server_time_from_response(res: &Json) -> (r: Option<i64>)
    ensures
        r == server_time_spec(res@),
{
    match res.get("data") {
        Some(data) => {
            match data.get("now") {
                Some(now) => {
                    let t = parse_data_now_to_millis(now);
                    if t.is_some() {
                        return t;
                    }
                },
                None => {},
            }
            let t = epoch_member(data, "t");
            if t.is_some() {
                return t;
            }
        },
        None => {},
    }
    let t = epoch_member(res, "serverTime");
    if t.is_some() {
        return t;
    }
    let t = epoch_member(res, "server_time");
    if t.is_some() {
        return t;
    }
    let t = epoch_member(res, "time");
    if t.is_some() {
        return t;
    }
    epoch_member(res, "timestamp")
}

// ---------------------------------------------------------------------------
// Raw readings.
// ---------------------------------------------------------------------------

/// Milliseconds since the Unix epoch on the local clock (`SystemTime::now`),
/// 0 if the clock stands before the epoch. Nothing is stated of the value: it
/// is whatever the machine's clock reads.
#[verifier::external_body]
pub fn get_local_time() -> i64 {
    std::time::SystemTime::now().duration_since(std::time::UNIX_EPOCH).unwrap_or_default().as_millis()
        as i64
}

/// Milliseconds of an NTP timestamp: whole seconds times 1000 plus the
/// 32-bit binary fraction scaled to milliseconds (rounded down).
pub open spec fn ntp_millis_spec(seconds: u32, fraction: u32) -> int {
    seconds * 1000 + (fraction * 1000) / 0x1_0000_0000
}

pub fn ntp_millis(seconds: u32, fraction: u32) -> (r: u64)
    ensures
        r == ntp_millis_spec(seconds, fraction),
{
    let f = fraction as u64 * 1000;
    let scaled = f >> 32u64;
    assert(scaled == f / 0x1_0000_0000) by (bit_vector)
        requires
            scaled == f >> 32u64,
    ;
    seconds as u64 * 1000 + scaled
}

/// An NTP server's address: as given where it names a port, else on port 123.
pub open spec fn ntp_address_spec(server: Seq<char>) -> Seq<char> {
    if server.contains(':') {
        server
    } else {
        server + seq![':', '1', '2', '3']
    }
}

pub fn ntp_address(server: &str) -> (r: String)
    ensures
        r@ == ntp_address_spec(server@),
{
    let chars = chars_of(server);
    let mut out = string_from_chars(&chars);
    if !contains_char(server, ':') {
        push_char(&mut out, ':');
        push_char(&mut out, '1');
        push_char(&mut out, '2');
        push_char(&mut out, '3');
        assert(out@ =~= server@ + seq![':', '1', '2', '3']);
    }
    out
}

/// Time sources whose address starts with `http` are JSON time APIs; any
/// other address names an NTP server.
pub fn is_http_time_source(url: &str) -> (b: bool)
    ensures
        b == (url@.len() >= 4 && url@.take(4) == seq!['h', 't', 't', 'p']),
{
    let c = chars_of(url);
    if c.len() < 4 {
        return false;
    }
    let b = c[0] == 'h' && c[1] == 't' && c[2] == 't' && c[3] == 'p';
    proof {
        if b {
            assert(url@.take(4) =~= seq!['h', 't', 't', 'p']);
        } else {
            if url@.take(4) == seq!['h', 't', 't', 'p'] {
                assert(url@.take(4)[0] == 'h');
                assert(url@.take(4)[1] == 't');
                assert(url@.take(4)[2] == 't');
                assert(url@.take(4)[3] == 'p');
            }
        }
    }
    b
}

/// `x` pinned into the range of `i64`, as the saturating operations do.
pub open spec fn saturate_i64(x: int) -> i64 {
    if x > i64::MAX {
        i64::MAX
    } else if x < i64::MIN {
        i64::MIN
    } else {
        x as i64
    }
}

fn saturating_add_i64(a: i64, b: i64) -> (r: i64)
    ensures
        r == saturate_i64(a + b),
{
    match a.checked_add(b) {
        Some(r) => r,
        None => if b > 0 {
            i64::MAX
        } else {
            i64::MIN
        },
    }
}

fn saturating_sub_i64(a: i64, b: i64) -> (r: i64)
    ensures
        r == saturate_i64(a - b),
{
    match a.checked_sub(b) {
        Some(r) => r,
        None => if b < 0 {
            i64::MAX
        } else {
            i64::MIN
        },
    }
}

/// Half of `x`, rounded toward zero as integer division in Rust does.
pub open spec fn half_toward_zero(x: int) -> int {
    if x >= 0 {
        x / 2
    } else {
        -((-x) / 2)
    }
}

fn half_i64(x: i64) -> (r: i64)
    ensures
        r == half_toward_zero(x as int),
{
    if x >= 0 {
        x / 2
    } else if x == i64::MIN {
        -4611686018427387904i64
    } else {
        let p: i64 = -x;
        -(p / 2)
    }
}

/// The sample that one attempt of a round yields: `None` for the warm-up
/// attempts, else the reading with its round trip (`after - before`), the
/// local midpoint (`before + round_trip / 2`) and the offset of the server
/// time from that midpoint, all in saturating arithmetic.
pub open spec fn time_sample_spec(attempt: int, before: i64, after: i64, server: i64) -> Option<TimeSyncSample> {
    if attempt < TIME_SYNC_WARMUP_ATTEMPTS {
        None
    } else {
        let round_trip = saturate_i64(after - before);
        let midpoint = saturate_i64(before + half_toward_zero(round_trip as int));
        Some(TimeSyncSample {
            offset: saturate_i64(server - midpoint),
            server,
            local_before: before,
            local_after: after,
            round_trip,
        })
    }
}

pub fn time_sample(attempt: usize, local_before: i64, local_after: i64, server_time: i64) -> (r: Option<TimeSyncSample>)
    ensures
        r == time_sample_spec(attempt as int, local_before, local_after, server_time),
{
    if attempt < TIME_SYNC_WARMUP_ATTEMPTS {
        return None;
    }
    let round_trip = saturating_sub_i64(local_after, local_before);
    let local_midpoint = saturating_add_i64(local_before, half_i64(round_trip));
    Some(TimeSyncSample {
        offset: saturating_sub_i64(server_time, local_midpoint),
        server: server_time,
        local_before,
        local_after,
        round_trip,
    })
}

/// Whether another attempt follows `attempt` in a round, so that a pause is due.
pub fn pause_after_attempt(attempt: usize) -> (b: bool)
    ensures
        b == (attempt + 1 < TIME_SYNC_ATTEMPTS),
{
    attempt < TIME_SYNC_ATTEMPTS - 1
}

/// One round of time sampling in progress: the samples kept so far, the
/// readings that failed, and how many attempts were made.
pub struct TimeSampling {
    pub samples: Vec<TimeSyncSample>,
    pub failed: usize,
    pub attempt: usize,
}

/// A round has made at most `TIME_SYNC_ATTEMPTS` attempts, each kept as a
/// sample, counted as failed, or dropped as warm-up.
pub open spec fn sampling_ok(s: TimeSampling) -> bool {
    s.samples@.len() + s.failed <= s.attempt <= TIME_SYNC_ATTEMPTS
}

impl TimeSampling {
    /// A round before its first attempt.
    pub fn new() -> (r: Self)
        ensures
            r.samples@ == Seq::<TimeSyncSample>::empty(),
            r.failed == 0,
            r.attempt == 0,
            sampling_ok(r),
    {
        TimeSampling { samples: Vec::new(), failed: 0, attempt: 0 }
    }

    /// Whether every attempt of the round was made.
    pub fn done(&self) -> (b: bool)
        ensures
            b == (self.attempt >= TIME_SYNC_ATTEMPTS),
    {
        self.attempt >= TIME_SYNC_ATTEMPTS
    }

    /// Records one attempt: a reading (local time before, local time after,
    /// server time) yields its sample unless the attempt is a warm-up; a
    /// failed reading is counted.
    pub fn record(&mut self, reading: Option<(i64, i64, i64)>)
        requires
            sampling_ok(*old(self)),
            old(self).attempt < TIME_SYNC_ATTEMPTS,
        ensures
            sampling_ok(*final(self)),
            final(self).attempt == old(self).attempt + 1,
            match reading {
                Some((before, after, server)) => {
                    &&& final(self).failed == old(self).failed
                    &&& final(self).samples@ == match time_sample_spec(
                        old(self).attempt as int,
                        before,
                        after,
                        server,
                    ) {
                        Some(x) => old(self).samples@.push(x),
                        None => old(self).samples@,
                    }
                },
                None => {
                    &&& final(self).failed == old(self).failed + 1
                    &&& final(self).samples@ == old(self).samples@
                },
            },
    {
        match reading {
            Some((before, after, server)) => {
                match time_sample(self.attempt, before, after, server) {
                    Some(x) => self.samples.push(x),
                    None => {},
                }
            },
            None => {
                self.failed = self.failed + 1;
            },
        }
        self.attempt = self.attempt + 1;
    }

    /// Ends the round: the result of `build_time_sync_result` on what was
    /// recorded, at local time `current_local`.
    pub fn finish(self, current_local: i64) -> (res: Result<TimeSyncResult, TimeSyncError>)
        requires
            sampling_ok(self),
            time_sync_inputs_in_range(self.samples@, current_local),
        ensures
            self.samples@.len() < MIN_SUCCESSFUL_TIME_SYNC_SAMPLES ==> res == Err::<TimeSyncResult, TimeSyncError>(
                TimeSyncError::TooFewSamples {
                    succeeded: self.samples@.len() as usize,
                    attempted: (self.samples@.len() + self.failed) as usize,
                },
            ),
            self.samples@.len() >= MIN_SUCCESSFUL_TIME_SYNC_SAMPLES ==> (res matches Ok(r)
                && round_result_spec(r, self.samples@, self.failed, current_local)),
    {
        build_time_sync_result(self.samples, self.failed, current_local)
    }
}

} // verus!
