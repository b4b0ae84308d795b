//! Infrared signals: sampling the receiver into a signal, cutting the
//! recording to the signal's duration, the levels with which a signal is
//! replayed, and the text form of a signal.
use vstd::prelude::*;
use vstd::string::StringExecFns;

verus! {

/// Number of receiver samples taken for one recording.
pub const RECORD_SAMPLES: usize = 1000;

/// Duration of one infrared signal, in milliseconds.
pub const SIGNAL_DURATION_MS: u64 = 60;

/// Time between two samples, in microseconds: half the shortest pulse, so
/// that no pulse falls between two samples.
pub const TICK_MICROS: u64 = 250;

/// The sample that stands for a receiver level: 1 when high, 0 when low.
pub open spec fn sample_of(high: bool) -> u8 {
    if high {
        1
    } else {
        0
    }
}

/// The sample that stands for a receiver level: 1 when high, 0 when low.
pub fn sample_value(high: bool) -> (r: u8)
    ensures
        r == sample_of(high),
{
    if high {
        1
    } else {
        0
    }
}

/// The level at which the sender replays a sample: low for 0, high for any
/// other value.
pub open spec fn level_of(sample: u8) -> bool {
    sample != 0
}

/// The level at which the sender replays a sample: low for 0, high for any
/// other value.
pub fn replay_level(sample: u8) -> (high: bool)
    ensures
        high == level_of(sample),
{
    sample != 0
}

/// The sender levels with which a signal is replayed, one per tick, then a
/// final low level that leaves the sender off.
pub open spec fn replay_plan(signal: Seq<u8>) -> Seq<bool> {
    signal.map_values(|s: u8| level_of(s)).push(false)
}

/// The sender levels with which `signal` is replayed, one per tick, ending
/// with the sender set low.
pub fn replay_levels(signal: &[u8]) -> (levels: Vec<bool>)
    ensures
        levels@ == replay_plan(signal@),
{
    let mut levels: Vec<bool> = Vec::new();
    let n = signal.len();
    for i in 0..n
        invariant
            n == signal@.len(),
            levels@ == signal@.take(i as int).map_values(|s: u8| level_of(s)),
    {
        levels.push(replay_level(signal[i]));
        assert(signal@.take(i + 1).map_values(|s: u8| level_of(s)) =~= signal@.take(
            i as int,
        ).map_values(|s: u8| level_of(s)).push(level_of(signal@[i as int])));
    }
    levels.push(false);
    assert(signal@.take(n as int) =~= signal@);
    levels
}

/// A recording in progress: the samples taken so far.
pub struct Recorder {
    samples: Vec<u8>,
}

impl View for Recorder {
    type V = Seq<u8>;

    closed spec fn view(&self) -> Seq<u8> {
        self.samples@
    }
}

/// The number of samples kept of a recording when a signal lasts
/// `duration_micros` microseconds: one per tick, or `None` where that count
/// does not fit in a `usize`.
pub open spec fn samples_in(duration_micros: u64) -> Option<usize> {
    let n = duration_micros / TICK_MICROS;
    if n <= usize::MAX {
        Some(n as usize)
    } else {
        None
    }
}

/// The number of samples kept of a recording when a signal lasts
/// `duration_micros` microseconds: one per tick, or `None` where that count
/// does not fit in a `usize`.
pub fn samples_kept(duration_micros: u64) -> (r: Option<usize>)
    ensures
        r == samples_in(duration_micros),
{
    let n = duration_micros / TICK_MICROS;
    if n <= usize::MAX as u64 {
        Some(n as usize)
    } else {
        None
    }
}

/// Calls `embassy_time::Duration::from_millis` on `ms` and converts the
/// duration to microseconds with `as_micros`. `from_millis` rounds up to
/// whole ticks and `as_micros` rounds down; the tick rate is fixed when
/// `embassy-time-driver` is built, and in this build it is one million ticks
/// a second (the driver's default, which `esp-hal-embassy` also selects, and
/// two rates cannot both be selected). At that rate a tick is a microsecond,
/// so the result is `ms * 1000`, and the multiplication in `from_millis`
/// overflows exactly beyond `u64::MAX / 1000`.
#[verifier::external_body]
fn millis_as_micros(ms: u64) -> (micros: u64)
    requires
        ms <= u64::MAX / 1000,
    ensures
        micros == ms * 1000,
{
    embassy_time::Duration::from_millis(ms).as_micros()
}

/// The number of samples kept of each recording: as many ticks as fit in
/// the duration of a signal, 60 ms at 250 µs a tick, so 240.
pub fn signal_samples() -> (r: Option<usize>)
    ensures
        r == samples_in((SIGNAL_DURATION_MS * 1000) as u64),
        r == Some(240usize),
{
    samples_kept(millis_as_micros(SIGNAL_DURATION_MS))
}

/// A recording cut to its first `keep` samples (all of it when shorter).
pub open spec fn kept_recording(samples: Seq<u8>, keep: usize) -> Seq<u8> {
    if keep < samples.len() {
        samples.take(keep as int)
    } else {
        samples
    }
}

impl Recorder {
    /// A recording with no samples yet.
    pub fn new() -> (r: Recorder)
        ensures
            r@ == Seq::<u8>::empty(),
    {
        Recorder { samples: Vec::new() }
    }

    /// Whether all samples of the recording have been taken.
    pub fn is_complete(&self) -> (r: bool)
        ensures
            r == (self@.len() >= RECORD_SAMPLES),
    {
        self.samples.len() >= RECORD_SAMPLES
    }

    /// Whether the last sample taken shows a high (idle) receiver, as a
    /// recording must end.
    pub fn ends_high(&self) -> (r: bool)
        ensures
            r == (self@.len() > 0 && self@.last() == 1),
    {
        let n = self.samples.len();
        n > 0 && self.samples[n - 1] == 1
    }

    /// Takes the sample for the receiver level of one tick.
    pub fn sample(&mut self, high: bool)
        requires
            old(self)@.len() < RECORD_SAMPLES,
        ensures
            final(self)@ == old(self)@.push(sample_of(high)),
    {
        self.samples.push(sample_value(high));
    }

    /// The recorded signal: the complete recording, which must end with the
    /// receiver high, cut to its first `keep` samples.
    pub fn finish(self, keep: usize) -> (signal: Vec<u8>)
        requires
            self@.len() == RECORD_SAMPLES,
            self@.last() == 1,
        ensures
            signal@ == kept_recording(self@, keep),
    {
        let mut samples = self.samples;
        samples.truncate(keep);
        samples
    }
}

/// The samples recorded from a sequence of receiver levels, cut to `keep`.
pub open spec fn recording_of(levels: Seq<bool>, keep: usize) -> Seq<u8> {
    kept_recording(levels.map_values(|h: bool| sample_of(h)), keep)
}

/// Replaying a recording drives the sender through the very levels the
/// receiver had at the kept ticks, then leaves it low.
pub proof fn lemma_replay_reproduces_recording(levels: Seq<bool>, keep: usize)
    ensures
        ({
            let kept = if keep < levels.len() { keep as int } else { levels.len() as int };
            &&& replay_plan(recording_of(levels, keep)).len() == kept + 1
            &&& forall|i: int| 0 <= i < kept ==> #[trigger] replay_plan(recording_of(levels, keep))[i] == levels[i]
            &&& replay_plan(recording_of(levels, keep))[kept] == false
        }),
{
}

/// The digit character for a digit value below ten.
pub open spec fn digit_char(d: nat) -> char {
    if d == 0 {
        '0'
    } else if d == 1 {
        '1'
    } else if d == 2 {
        '2'
    } else if d == 3 {
        '3'
    } else if d == 4 {
        '4'
    } else if d == 5 {
        '5'
    } else if d == 6 {
        '6'
    } else if d == 7 {
        '7'
    } else if d == 8 {
        '8'
    } else {
        '9'
    }
}

/// The decimal digits of `n`, most significant first, without leading zeros.
pub open spec fn decimal(n: nat) -> Seq<char>
    decreases n,
{
    if n < 10 {
        seq![digit_char(n)]
    } else {
        decimal(n / 10).push(digit_char(n % 10))
    }
}

/// The text form of a signal: the decimal form of each sample, one after
/// the other, with nothing between them.
pub open spec fn rendered(signal: Seq<u8>) -> Seq<char>
    decreases signal.len(),
{
    if signal.len() == 0 {
        Seq::empty()
    } else {
        rendered(signal.drop_last()) + decimal(signal.last() as nat)
    }
}

/// The one-character text of a digit.
fn digit_text(d: u8) -> (r: &'static str)
    requires
        d < 10,
    ensures
        r@ == seq![digit_char(d as nat)],
{
    if d == 0 {
        proof {
            reveal_strlit("0");
        }
        "0"
    } else if d == 1 {
        proof {
            reveal_strlit("1");
        }
        "1"
    } else if d == 2 {
        proof {
            reveal_strlit("2");
        }
        "2"
    } else if d == 3 {
        proof {
            reveal_strlit("3");
        }
        "3"
    } else if d == 4 {
        proof {
            reveal_strlit("4");
        }
        "4"
    } else if d == 5 {
        proof {
            reveal_strlit("5");
        }
        "5"
    } else if d == 6 {
        proof {
            reveal_strlit("6");
        }
        "6"
    } else if d == 7 {
        proof {
            reveal_strlit("7");
        }
        "7"
    } else if d == 8 {
        proof {
            reveal_strlit("8");
        }
        "8"
    } else {
        proof {
            reveal_strlit("9");
        }
        "9"
    }
}

/// Appends the decimal form of `v` to `out`.
fn push_decimal(out: &mut String, v: u8)
    ensures
        final(out)@ == old(out)@ + decimal(v as nat),
{
    proof {
        reveal_with_fuel(decimal, 3);
    }
    if v >= 100 {
        out.append(digit_text(v / 100));
        out.append(digit_text(v / 10 % 10));
        out.append(digit_text(v % 10));
        assert(decimal(v as nat) =~= seq![
            digit_char((v / 100) as nat),
            digit_char((v / 10 % 10) as nat),
            digit_char((v % 10) as nat),
        ]);
    } else if v >= 10 {
        out.append(digit_text(v / 10));
        out.append(digit_text(v % 10));
        assert(decimal(v as nat) =~= seq![digit_char((v / 10) as nat), digit_char((v % 10) as nat)]);
    } else {
        out.append(digit_text(v));
    }
}

/// The text form of a signal: the decimal form of each sample, one after
/// the other.
pub fn render_signal(signal: &[u8]) -> (text: String)
    ensures
        text@ == rendered(signal@),
{
    let mut text = String::new();
    let n = signal.len();
    for i in 0..n
        invariant
            n == signal@.len(),
            text@ == rendered(signal@.take(i as int)),
    {
        push_decimal(&mut text, signal[i]);
        assert(signal@.take(i + 1).drop_last() =~= signal@.take(i as int));
    }
    assert(signal@.take(n as int) =~= signal@);
    text
}

/// The text of a signal grows by one sample's digits per sample: appending
/// a sample appends its decimal digits.
pub proof fn lemma_rendered_push(signal: Seq<u8>, sample: u8)
    ensures
        rendered(signal.push(sample)) == rendered(signal) + decimal(sample as nat),
{
    assert(signal.push(sample).drop_last() =~= signal);
}

/// The text of two signals one after the other is the text of the first
/// followed by the text of the second.
pub proof fn lemma_rendered_concat(first: Seq<u8>, second: Seq<u8>)
    ensures
        rendered(first + second) == rendered(first) + rendered(second),
    decreases second.len(),
{
    if second.len() == 0 {
        assert(first + second =~= first);
        assert(rendered(first) + rendered(second) =~= rendered(first));
    } else {
        let init = second.drop_last();
        lemma_rendered_concat(first, init);
        assert((first + second).drop_last() =~= first + init);
        assert((first + second).last() == second.last());
        assert(rendered(first) + rendered(second) =~= rendered(first) + rendered(init) + decimal(
            second.last() as nat,
        ));
    }
}

/// A signal of zeros and ones is shown as one digit per sample: the text is
/// as long as the signal and its `i`-th character is the `i`-th sample's
/// digit.
pub proof fn lemma_rendered_binary_signal(signal: Seq<u8>)
    requires
        forall|i: int| 0 <= i < signal.len() ==> #[trigger] signal[i] <= 1,
    ensures
        rendered(signal).len() == signal.len(),
        forall|i: int|
            0 <= i < signal.len() ==> #[trigger] rendered(signal)[i] == if signal[i] == 0 {
                '0'
            } else {
                '1'
            },
    decreases signal.len(),
{
    if signal.len() > 0 {
        let init = signal.drop_last();
        assert forall|i: int| 0 <= i < init.len() implies #[trigger] init[i] <= 1 by {
            assert(init[i] == signal[i]);
        }
        lemma_rendered_binary_signal(init);
        let x = signal.last();
        assert(decimal(x as nat) == seq![digit_char(x as nat)]);
        assert forall|i: int| 0 <= i < signal.len() implies #[trigger] rendered(signal)[i] == if signal[i]
            == 0 {
            '0'
        } else {
            '1'
        } by {
            if i < init.len() {
                assert(rendered(signal)[i] == rendered(init)[i]);
                assert(init[i] == signal[i]);
            }
        }
    }
}

} // verus!
