use crate::hashing::{hmac_sha256, hmac_sha256_tag, HASH_INPUT_LIMIT, HMAC_BLOCK_LEN, SHA256_LEN};
use std::collections::HashMap;
use vstd::prelude::*;

verus! {

broadcast use vstd::std_specs::hash::group_hash_axioms;

/// Number of features that the model reads.
pub const FEATURE_WIDTH: usize = 8;

/// Why a detection step could not deliver a model score.
#[derive(Clone, Copy, Debug, PartialEq, Eq, Structural)]
pub enum DetectError {
    /// The window is empty, or its timings do not match its syscalls.
    InvalidInput,
    /// The feature vector is not as wide as the model's input.
    FeatureShapeMismatch,
    /// The model could not be loaded.
    ModelLoadFailure,
    /// The model did not answer within its deadline.
    InferenceTimeout,
}

/// How often `symbol` occurs in `sequence`.
pub open spec fn occurrences(sequence: Seq<u32>, symbol: u32) -> nat
    decreases sequence.len(),
{
    if sequence.len() == 0 {
        0
    } else {
        occurrences(sequence.drop_last(), symbol) + if sequence.last() == symbol {
            1nat
        } else {
            0nat
        }
    }
}

/// The distinct symbols of `sequence`, in the order of their first occurrence.
pub open spec fn distinct_symbols(sequence: Seq<u32>) -> Seq<u32>
    decreases sequence.len(),
{
    if sequence.len() == 0 {
        Seq::empty()
    } else {
        let earlier = distinct_symbols(sequence.drop_last());
        if earlier.contains(sequence.last()) {
            earlier
        } else {
            earlier.push(sequence.last())
        }
    }
}

/// Each distinct symbol of `sequence` with the number of its occurrences, in
/// the order of first occurrence.
pub open spec fn symbol_histogram(sequence: Seq<u32>) -> Seq<(u32, usize)> {
    Seq::new(
        distinct_symbols(sequence).len(),
        |i: int|
            (
                distinct_symbols(sequence)[i],
                occurrences(sequence, distinct_symbols(sequence)[i]) as usize,
            ),
    )
}

/// The counts of a histogram added up.
pub open spec fn total_count(histogram: Seq<(u32, usize)>) -> nat
    decreases histogram.len(),
{
    if histogram.len() == 0 {
        0
    } else {
        total_count(histogram.drop_last()) + histogram.last().1 as nat
    }
}

/// The values added up.
pub open spec fn sum_of(values: Seq<u64>) -> nat
    decreases values.len(),
{
    if values.len() == 0 {
        0
    } else {
        sum_of(values.drop_last()) + values.last() as nat
    }
}

pub proof fn lemma_occurrences_bounded(sequence: Seq<u32>, symbol: u32)
    ensures
        occurrences(sequence, symbol) <= sequence.len(),
    decreases sequence.len(),
{
    if sequence.len() > 0 {
        lemma_occurrences_bounded(sequence.drop_last(), symbol);
    }
}

/// A symbol is listed among the distinct symbols exactly when it occurs, and
/// no symbol is listed twice.
pub proof fn lemma_distinct_symbols(sequence: Seq<u32>)
    ensures
        forall|symbol: u32| #[trigger]
            distinct_symbols(sequence).contains(symbol) <==> occurrences(sequence, symbol) > 0,
        distinct_symbols(sequence).no_duplicates(),
        distinct_symbols(sequence).len() <= sequence.len(),
    decreases sequence.len(),
{
    if sequence.len() > 0 {
        let earlier = distinct_symbols(sequence.drop_last());
        lemma_distinct_symbols(sequence.drop_last());
        let last = sequence.last();
        if !earlier.contains(last) {
            let now = earlier.push(last);
            assert(now[earlier.len() as int] == last);
            assert forall|symbol: u32| #[trigger] now.contains(symbol) <==> occurrences(
                sequence,
                symbol,
            ) > 0 by {
                if earlier.contains(symbol) {
                    let i = choose|i: int| 0 <= i < earlier.len() && earlier[i] == symbol;
                    assert(now[i] == symbol);
                }
            }
        }
    }
}

/// Counts each distinct symbol of `sequence`. Every count is positive and
/// the counts add up to the length, so the shares of the symbols are
/// positive and add up to one.
pub fn count_symbols(sequence: &[u32]) -> (histogram: Vec<(u32, usize)>)
    ensures
        histogram@ == symbol_histogram(sequence@),
        forall|i: int| 0 <= i < histogram@.len() ==> (#[trigger] histogram@[i]).1 >= 1,
        total_count(histogram@) == sequence@.len(),
        histogram@.len() <= sequence@.len(),
        sequence@.len() > 0 ==> histogram@.len() > 0,
{
    let mut histogram: Vec<(u32, usize)> = Vec::new();
    let mut slot_of: HashMap<u32, usize> = HashMap::new();
    let mut k: usize = 0;
    assert(sequence@.take(0) =~= Seq::<u32>::empty());
    assert(histogram@ =~= symbol_histogram(sequence@.take(0)));
    while k < sequence.len()
        invariant
            k <= sequence.len(),
            histogram@ == symbol_histogram(sequence@.take(k as int)),
            forall|symbol: u32| #[trigger]
                slot_of@.contains_key(symbol) <==> distinct_symbols(
                    sequence@.take(k as int),
                ).contains(symbol),
            forall|symbol: u32| #[trigger]
                slot_of@.contains_key(symbol) ==> slot_of@[symbol] < histogram.len()
                    && histogram@[slot_of@[symbol] as int].0 == symbol,
        decreases sequence.len() - k,
    {
        let symbol = sequence[k];
        let ghost seen = sequence@.take(k as int);
        let ghost next = sequence@.take(k + 1);
        let ghost before = distinct_symbols(seen);
        proof {
            assert(next.drop_last() =~= seen);
            assert(next.last() == symbol);
            lemma_distinct_symbols(seen);
            lemma_distinct_symbols(next);
            lemma_occurrences_bounded(seen, symbol);
        }
        match slot_of.get(&symbol) {
            Some(slot) => {
                let slot = *slot;
                let (listed, count) = histogram[slot];
                histogram.set(slot, (listed, count + 1));
                proof {
                    assert(distinct_symbols(next) == before);
                    assert forall|i: int| 0 <= i < before.len() implies #[trigger] histogram@[i]
                        == symbol_histogram(next)[i] by {
                        lemma_occurrences_bounded(next, before[i]);
                        if i != slot {
                            assert(before[i] != before[slot as int]);
                        }
                    }
                    assert(histogram@ =~= symbol_histogram(next));
                }
            },
            None => {
                slot_of.insert(symbol, histogram.len());
                histogram.push((symbol, 1));
                proof {
                    assert(distinct_symbols(next) == before.push(symbol));
                    assert forall|i: int| 0 <= i < before.len() + 1 implies #[trigger] histogram@[i]
                        == symbol_histogram(next)[i] by {
                        if i < before.len() {
                            assert(before.contains(before[i]));
                        }
                    }
                    assert(histogram@ =~= symbol_histogram(next));
                    assert forall|other: u32| #[trigger]
                        slot_of@.contains_key(other) <==> distinct_symbols(next).contains(
                            other,
                        ) by {
                        if before.contains(other) {
                            let i = choose|i: int| 0 <= i < before.len() && before[i] == other;
                            assert(distinct_symbols(next)[i] == other);
                        }
                        if other == symbol {
                            assert(distinct_symbols(next)[before.len() as int] == symbol);
                        }
                    }
                }
            },
        }
        k = k + 1;
    }
    assert(sequence@.take(k as int) =~= sequence@);
    proof {
        lemma_histogram_total(sequence@);
        lemma_distinct_symbols(sequence@);
        assert forall|i: int| 0 <= i < histogram@.len() implies (#[trigger] histogram@[i]).1
            >= 1 by {
            let symbol = distinct_symbols(sequence@)[i];
            assert(distinct_symbols(sequence@).contains(symbol));
            lemma_occurrences_bounded(sequence@, symbol);
        }
        if sequence@.len() > 0 {
            assert(occurrences(sequence@, sequence@.last()) > 0);
            assert(distinct_symbols(sequence@).contains(sequence@.last()));
        }
    }
    histogram
}

/// Adds up the timings of a window.
pub fn sum_timing(timing: &[u64]) -> (total: u128)
    ensures
        total == sum_of(timing@),
{
    let mut total: u128 = 0;
    let mut k: usize = 0;
    assert(timing@.take(0) =~= Seq::<u64>::empty());
    while k < timing.len()
        invariant
            k <= timing.len(),
            total == sum_of(timing@.take(k as int)),
            total <= k * 0xFFFF_FFFF_FFFF_FFFF,
        decreases timing.len() - k,
    {
        assert(timing@.take(k + 1).drop_last() =~= timing@.take(k as int));
        total = total + timing[k] as u128;
        k = k + 1;
    }
    assert(timing@.take(k as int) =~= timing@);
    total
}

/// The squares of the values added up.
pub open spec fn sum_of_squares(values: Seq<u64>) -> nat
    decreases values.len(),
{
    if values.len() == 0 {
        0
    } else {
        sum_of_squares(values.drop_last()) + (values.last() as nat) * (values.last() as nat)
    }
}

/// The squares of a part of a window add up to no more than those of the
/// whole.
proof fn lemma_squares_grow(values: Seq<u64>, k: int)
    requires
        0 <= k <= values.len(),
    ensures
        sum_of_squares(values.take(k)) <= sum_of_squares(values),
    decreases values.len() - k,
{
    if k == values.len() {
        assert(values.take(k) =~= values);
    } else {
        lemma_squares_grow(values, k + 1);
        assert(values.take(k + 1).drop_last() =~= values.take(k));
    }
}

/// Adds up the squares of the timings of a window, as far as 128 bits hold
/// the sum: with the plain sum it gives the variance by division alone.
pub fn sum_timing_squares(timing: &[u64]) -> (total: Option<u128>)
    ensures
        total matches Some(sum) ==> sum == sum_of_squares(timing@),
        total is None <==> sum_of_squares(timing@) > u128::MAX,
{
    let mut total: u128 = 0;
    let mut k: usize = 0;
    assert(timing@.take(0) =~= Seq::<u64>::empty());
    while k < timing.len()
        invariant
            k <= timing.len(),
            total == sum_of_squares(timing@.take(k as int)),
        decreases timing.len() - k,
    {
        let value = timing[k] as u128;
        assert(value * value <= 0xFFFF_FFFF_FFFF_FFFF * 0xFFFF_FFFF_FFFF_FFFF) by (nonlinear_arith)
            requires
                value <= 0xFFFF_FFFF_FFFF_FFFF,
        ;
        let square = value * value;
        proof {
            assert(timing@.take(k + 1).drop_last() =~= timing@.take(k as int));
            lemma_squares_grow(timing@, k + 1);
        }
        match total.checked_add(square) {
            Some(sum) => {
                total = sum;
            },
            None => {
                return None;
            },
        }
        k = k + 1;
    }
    assert(timing@.take(k as int) =~= timing@);
    Some(total)
}

/// Raising one count of a histogram by one raises its total by one.
proof fn lemma_total_after_increment(histogram: Seq<(u32, usize)>, slot: int, entry: (u32, usize))
    requires
        0 <= slot < histogram.len(),
        entry.1 == histogram[slot].1 + 1,
    ensures
        total_count(histogram.update(slot, entry)) == total_count(histogram) + 1,
    decreases histogram.len(),
{
    let raised = histogram.update(slot, entry);
    if slot == histogram.len() - 1 {
        assert(raised.drop_last() =~= histogram.drop_last());
    } else {
        assert(raised.drop_last() =~= histogram.drop_last().update(slot, entry));
        lemma_total_after_increment(histogram.drop_last(), slot, entry);
    }
}

/// The counts of a window's histogram add up to the length of the window.
pub proof fn lemma_histogram_total(sequence: Seq<u32>)
    requires
        sequence.len() <= usize::MAX,
    ensures
        total_count(symbol_histogram(sequence)) == sequence.len(),
    decreases sequence.len(),
{
    if sequence.len() == 0 {
        assert(symbol_histogram(sequence) =~= Seq::<(u32, usize)>::empty());
    } else {
        let seen = sequence.drop_last();
        let last = sequence.last();
        let before = distinct_symbols(seen);
        let earlier = symbol_histogram(seen);
        let now = symbol_histogram(sequence);
        lemma_histogram_total(seen);
        lemma_distinct_symbols(seen);
        lemma_occurrences_bounded(sequence, last);
        if before.contains(last) {
            let slot = choose|i: int| 0 <= i < before.len() && before[i] == last;
            let entry = (last, occurrences(sequence, last) as usize);
            lemma_occurrences_bounded(seen, last);
            assert forall|i: int| 0 <= i < before.len() implies #[trigger] now[i]
                == earlier.update(slot, entry)[i] by {
                if i != slot {
                    assert(before[i] != before[slot]);
                }
            }
            assert(now =~= earlier.update(slot, entry));
            lemma_total_after_increment(earlier, slot, entry);
        } else {
            assert forall|i: int| 0 <= i < before.len() implies #[trigger] now[i]
                == earlier[i] by {
                assert(before.contains(before[i]));
            }
            assert(now.drop_last() =~= earlier);
        }
    }
}

/// A histogram whose counts all equal `count` totals its length times `count`.
proof fn lemma_total_of_equal_counts(histogram: Seq<(u32, usize)>, count: usize)
    requires
        forall|i: int| 0 <= i < histogram.len() ==> (#[trigger] histogram[i]).1 == count,
    ensures
        total_count(histogram) == histogram.len() * count,
    decreases histogram.len(),
{
    if histogram.len() > 0 {
        lemma_total_of_equal_counts(histogram.drop_last(), count);
        assert((histogram.len() - 1) * count + count == histogram.len() * count)
            by (nonlinear_arith);
    }
}

/// A window that repeats one symbol has a histogram of one entry, which
/// counts the whole window: its empirical distribution is a single point.
pub proof fn lemma_single_symbol_histogram(sequence: Seq<u32>, symbol: u32)
    requires
        0 < sequence.len() <= usize::MAX,
        forall|i: int| 0 <= i < sequence.len() ==> sequence[i] == symbol,
    ensures
        symbol_histogram(sequence) == seq![(symbol, sequence.len() as usize)],
        distinct_symbols(sequence) == seq![symbol],
        occurrences(sequence, symbol) == sequence.len(),
    decreases sequence.len(),
{
    let seen = sequence.drop_last();
    if seen.len() == 0 {
        assert(distinct_symbols(seen) =~= Seq::<u32>::empty());
        assert(occurrences(seen, symbol) == 0);
    } else {
        lemma_single_symbol_histogram(seen, symbol);
        assert(distinct_symbols(seen)[0] == symbol);
    }
    assert(distinct_symbols(sequence) =~= seq![symbol]);
    assert(symbol_histogram(sequence) =~= seq![(symbol, sequence.len() as usize)]);
}

/// In a window whose distinct symbols all occur `count` times, the number of
/// distinct symbols times `count` is the length of the window: each symbol
/// has the same share of it.
pub proof fn lemma_uniform_histogram(sequence: Seq<u32>, count: usize)
    requires
        sequence.len() <= usize::MAX,
        forall|i: int|
            0 <= i < symbol_histogram(sequence).len() ==> (#[trigger] symbol_histogram(
                sequence,
            )[i]).1 == count,
    ensures
        symbol_histogram(sequence).len() * count == sequence.len(),
{
    lemma_histogram_total(sequence);
    lemma_total_of_equal_counts(symbol_histogram(sequence), count);
}

/// The key under which behavioural signatures are transformed.
pub open spec fn similarity_key() -> Seq<u8> {
    seq![
        0x71u8, 0x75u8, 0x61u8, 0x6eu8, 0x74u8, 0x75u8, 0x6du8, 0x5fu8, 0x6bu8,
        0x65u8, 0x72u8, 0x6eu8, 0x65u8, 0x6cu8, 0x5fu8, 0x6bu8, 0x65u8, 0x79u8,
    ]
}

/// The bytes added up.
pub open spec fn byte_sum(bytes: Seq<u8>) -> nat
    decreases bytes.len(),
{
    if bytes.len() == 0 {
        0
    } else {
        byte_sum(bytes.drop_last()) + bytes.last() as nat
    }
}

/// Largest value of a byte, the scale of a similarity.
pub const BYTE_MAX: u32 = 255;

/// A similarity in [0, 1] as an exact fraction: `total / scale`.
#[derive(Clone, Copy, Debug, PartialEq, Eq, Structural)]
pub struct Similarity {
    /// Sum of the transformed bytes.
    pub total: u32,
    /// Number of transformed bytes times 255; never zero.
    pub scale: u32,
}

/// Snapshot of a monitored process, refreshed before each extraction.
#[derive(Clone, Debug, PartialEq, Eq)]
pub struct ProcessMetadata {
    /// 0 = root, 1 = user, 2 = restricted.
    pub privilege_level: u8,
    pub children_count: u32,
    /// CPU and memory use combined, in thousandths.
    pub resource_usage: u32,
    /// Opaque behavioural fingerprint.
    pub signature: Vec<u8>,
    /// Recent syscall ids in order.
    pub syscall_pattern: Vec<u32>,
}

/// The exact, integer part of a window's features. The model's eight inputs
/// follow from it by division and logarithm alone.
#[derive(Clone, Debug, PartialEq, Eq)]
pub struct WindowFeatures {
    pub sequence_length: usize,
    /// Each distinct syscall id with its count; the empirical distribution
    /// whose entropy is the second feature.
    pub symbol_counts: Vec<(u32, usize)>,
    /// Sum of the timings; divided by the length it is the mean.
    pub timing_sum: u128,
    /// Sum of the squared timings, unless it exceeds 128 bits; divided by
    /// the length, less the squared mean, it is the population variance.
    pub timing_square_sum: Option<u128>,
    pub privilege_level: u8,
    pub children_count: u32,
    pub resource_usage: u32,
    pub signature_similarity: Similarity,
}

/// The model's inputs by name, in the order in which the model reads them.
#[derive(Clone, Copy, Debug, PartialEq, Eq, Structural)]
pub enum Feature {
    SequenceLength,
    SequenceEntropy,
    MeanTiming,
    TimingVariance,
    PrivilegeLevel,
    ChildrenCount,
    ResourceUsage,
    SignatureSimilarity,
}

impl Feature {
    /// Position of the feature in the vector.
    pub open spec fn spec_index(self) -> usize {
        match self {
            Feature::SequenceLength => 0,
            Feature::SequenceEntropy => 1,
            Feature::MeanTiming => 2,
            Feature::TimingVariance => 3,
            Feature::PrivilegeLevel => 4,
            Feature::ChildrenCount => 5,
            Feature::ResourceUsage => 6,
            Feature::SignatureSimilarity => 7,
        }
    }

    /// The feature at a position, if the position is within the vector.
    pub open spec fn spec_at(index: usize) -> Option<Feature> {
        if index == 0 {
            Some(Feature::SequenceLength)
        } else if index == 1 {
            Some(Feature::SequenceEntropy)
        } else if index == 2 {
            Some(Feature::MeanTiming)
        } else if index == 3 {
            Some(Feature::TimingVariance)
        } else if index == 4 {
            Some(Feature::PrivilegeLevel)
        } else if index == 5 {
            Some(Feature::ChildrenCount)
        } else if index == 6 {
            Some(Feature::ResourceUsage)
        } else if index == 7 {
            Some(Feature::SignatureSimilarity)
        } else {
            None
        }
    }

    pub fn index(&self) -> (index: usize)
        ensures
            index == self.spec_index(),
            index < FEATURE_WIDTH,
            Feature::spec_at(index) == Some(*self),
    {
        match self {
            Feature::SequenceLength => 0,
            Feature::SequenceEntropy => 1,
            Feature::MeanTiming => 2,
            Feature::TimingVariance => 3,
            Feature::PrivilegeLevel => 4,
            Feature::ChildrenCount => 5,
            Feature::ResourceUsage => 6,
            Feature::SignatureSimilarity => 7,
        }
    }

    pub fn at(index: usize) -> (feature: Option<Feature>)
        ensures
            feature == Feature::spec_at(index),
            feature is Some <==> index < FEATURE_WIDTH,
            feature matches Some(f) ==> f.spec_index() == index,
    {
        if index == 0 {
            Some(Feature::SequenceLength)
        } else if index == 1 {
            Some(Feature::SequenceEntropy)
        } else if index == 2 {
            Some(Feature::MeanTiming)
        } else if index == 3 {
            Some(Feature::TimingVariance)
        } else if index == 4 {
            Some(Feature::PrivilegeLevel)
        } else if index == 5 {
            Some(Feature::ChildrenCount)
        } else if index == 6 {
            Some(Feature::ResourceUsage)
        } else if index == 7 {
            Some(Feature::SignatureSimilarity)
        } else {
            None
        }
    }
}

/// The sum of the squared timings where 128 bits hold it.
pub open spec fn spec_square_sum(timing: Seq<u64>) -> Option<u128> {
    if sum_of_squares(timing) > u128::MAX {
        None
    } else {
        Some(sum_of_squares(timing) as u128)
    }
}

/// Whether `features` are those of the window, field by field.
pub open spec fn features_of(
    features: WindowFeatures,
    syscall_sequence: Seq<u32>,
    timing: Seq<u64>,
    metadata: ProcessMetadata,
) -> bool {
    &&& features.sequence_length == syscall_sequence.len()
    &&& features.symbol_counts@ == symbol_histogram(syscall_sequence)
    &&& features.timing_sum == sum_of(timing)
    &&& features.timing_square_sum == spec_square_sum(timing)
    &&& features.privilege_level == metadata.privilege_level
    &&& features.children_count == metadata.children_count
    &&& features.resource_usage == metadata.resource_usage
    &&& features.signature_similarity == spec_similarity(metadata.signature@)
}

/// The similarity of a signature: the bytes of its keyed transform, averaged
/// over 255.
pub open spec fn spec_similarity(signature: Seq<u8>) -> Similarity {
    Similarity {
        total: byte_sum(hmac_sha256(similarity_key(), signature)) as u32,
        scale: (SHA256_LEN * BYTE_MAX) as u32,
    }
}

/// Scores feature vectors of a fixed width with a loaded model.
pub struct MLAnomalyDetector {
    input_width: usize,
}

impl MLAnomalyDetector {
    /// Width of the vectors that the model accepts.
    pub closed spec fn spec_input_width(&self) -> usize {
        self.input_width
    }

    /// A detector for a model that reads vectors of `input_width` features.
    pub fn new(input_width: usize) -> (detector: MLAnomalyDetector)
        ensures
            detector.spec_input_width() == input_width,
    {
        MLAnomalyDetector { input_width }
    }

    pub fn input_width(&self) -> (width: usize)
        ensures
            width == self.spec_input_width(),
    {
        self.input_width
    }

    /// Refuses a feature vector whose length is not the model's input width.
    pub fn check_feature_shape(&self, features_len: usize) -> (checked: Result<(), DetectError>)
        ensures
            features_len == self.spec_input_width() ==> checked == Ok::<(), DetectError>(()),
            features_len != self.spec_input_width() ==> checked == Err::<(), DetectError>(
                DetectError::FeatureShapeMismatch,
            ),
    {
        if features_len == self.input_width {
            Ok(())
        } else {
            Err(DetectError::FeatureShapeMismatch)
        }
    }

    /// The similarity of a behavioural signature to the known-good ones, as
    /// an exact fraction.
    pub fn calculate_signature_similarity(&self, signature: &[u8]) -> (similarity: Similarity)
        requires
            signature@.len() + HMAC_BLOCK_LEN < HASH_INPUT_LIMIT,
        ensures
            similarity == spec_similarity(signature@),
            similarity.total <= similarity.scale,
            similarity.scale == 8160,
    {
        let key: [u8; 18] = [
            0x71, 0x75, 0x61, 0x6e, 0x74, 0x75, 0x6d, 0x5f, 0x6b,
            0x65, 0x72, 0x6e, 0x65, 0x6c, 0x5f, 0x6b, 0x65, 0x79,
        ];
        assert(key@ =~= similarity_key());
        let tag = hmac_sha256_tag(key.as_slice(), signature);
        let mut total: u32 = 0;
        let mut k: usize = 0;
        assert(tag@.take(0) =~= Seq::<u8>::empty());
        while k < SHA256_LEN
            invariant
                k <= SHA256_LEN,
                total == byte_sum(tag@.take(k as int)),
                total <= k * 255,
            decreases SHA256_LEN - k,
        {
            assert(tag@.take(k + 1).drop_last() =~= tag@.take(k as int));
            total = total + tag[k] as u32;
            k = k + 1;
        }
        assert(tag@.take(k as int) =~= tag@);
        Similarity { total, scale: 32 * BYTE_MAX }
    }

    /// The integer features of a window of syscalls with their timings.
    /// An empty window, or one whose timings do not match, is refused.
    pub fn extract_features(
        &self,
        syscall_sequence: &[u32],
        timing: &[u64],
        process_metadata: &ProcessMetadata,
    ) -> (extracted: Result<WindowFeatures, DetectError>)
        requires
            process_metadata.signature@.len() + HMAC_BLOCK_LEN < HASH_INPUT_LIMIT,
        ensures
            extracted is Err <==> (syscall_sequence@.len() == 0 || timing@.len()
                != syscall_sequence@.len()),
            extracted is Err ==> extracted == Err::<WindowFeatures, DetectError>(
                DetectError::InvalidInput,
            ),
            extracted matches Ok(features) ==> features_of(
                features,
                syscall_sequence@,
                timing@,
                *process_metadata,
            ),
    {
        if syscall_sequence.len() == 0 || timing.len() != syscall_sequence.len() {
            return Err(DetectError::InvalidInput);
        }
        Ok(
            WindowFeatures {
                sequence_length: syscall_sequence.len(),
                symbol_counts: count_symbols(syscall_sequence),
                timing_sum: sum_timing(timing),
                timing_square_sum: sum_timing_squares(timing),
                privilege_level: process_metadata.privilege_level,
                children_count: process_metadata.children_count,
                resource_usage: process_metadata.resource_usage,
                signature_similarity: self.calculate_signature_similarity(
                    process_metadata.signature.as_slice(),
                ),
            },
        )
    }
}

} // verus!
