//! Opt-in timing of the hot paths. Samples wait in a bounded queue until the log is ready.

use vstd::prelude::*;

use crate::text::{
    chars_of, decimal, decimal_text, is_text, lower, lowered, push_text, trim, trimmed,
};

verus! {

/// Largest number of samples that wait for the log.
pub const PENDING_QUEUE_CAPACITY: usize = 256;

/// Largest number of samples that wait for the writer.
pub const METRIC_QUEUE_CAPACITY: usize = 256;

/// A measured stage; the sequence number belongs to a key event.
#[derive(Debug, Clone, Copy, PartialEq, Eq)]
pub struct MetricSample {
    pub stage: &'static str,
    pub elapsed_us: u64,
    pub sequence: Option<u64>,
}

/// Whether the value of the switch asks for measurements.
pub open spec fn asks_for_metrics(value: Option<Seq<char>>) -> bool {
    match value {
        Some(text) => {
            let word = lowered(trimmed(text));
            word == "1"@ || word == "true"@ || word == "yes"@ || word == "on"@
        },
        None => false,
    }
}

/// Whether the value of the switch asks for measurements.
pub fn enabled(value: Option<&str>) -> (r: bool)
    ensures
        r == asks_for_metrics(crate::config_schema::name_view(value)),
{
    match value {
        Some(text) => {
            let chars = chars_of(text);
            let word = trim(chars.as_slice());
            let word = lower(word.as_slice());
            let word = word.as_slice();
            is_text(word, "1") || is_text(word, "true") || is_text(word, "yes") || is_text(
                word,
                "on",
            )
        },
        None => false,
    }
}

/// What happens to a sample.
#[derive(Debug, Clone, Copy, PartialEq, Eq, Structural)]
pub enum SampleFate {
    /// It goes to the writer.
    Write,
    /// It waits for the log, or for the writer.
    Queued,
    /// It is lost.
    Dropped,
    /// It is lost, and the loss is reported.
    DroppedFirst,
}

/// What came of handing a sample to the writer.
#[derive(Debug, Clone, Copy, PartialEq, Eq, Structural)]
pub enum WriterAnswer {
    Taken,
    Full,
    Gone,
}

/// The samples that wait for the log, and how many were lost.
pub struct MetricQueue {
    pub logging_ready: bool,
    pub pending: Vec<MetricSample>,
    pub dropped: u64,
    pub warned: bool,
}

/// The queue as a mathematical value.
#[verifier::ext_equal]
pub struct Metrics {
    pub logging_ready: bool,
    pub pending: Seq<MetricSample>,
    pub dropped: u64,
    pub warned: bool,
}

impl View for MetricQueue {
    type V = Metrics;

    open spec fn view(&self) -> Metrics {
        Metrics {
            logging_ready: self.logging_ready,
            pending: self.pending@,
            dropped: self.dropped,
            warned: self.warned,
        }
    }
}

impl Metrics {
    /// The invariant: the queue is bounded.
    pub open spec fn valid(self) -> bool {
        self.pending.len() <= PENDING_QUEUE_CAPACITY
    }

    /// The state and the outcome after a sample is lost; the first loss is reported.
    pub open spec fn lost(self) -> (Metrics, SampleFate) {
        let first = self.dropped == 0 && !self.warned;
        (
            Metrics {
                dropped: self.dropped.wrapping_add(1),
                warned: self.warned || self.dropped == 0,
                ..self
            },
            if first {
                SampleFate::DroppedFirst
            } else {
                SampleFate::Dropped
            },
        )
    }

    /// The state and the outcome after a sample is measured.
    pub open spec fn measured(self, sample: MetricSample) -> (Metrics, SampleFate) {
        if self.logging_ready {
            (self, SampleFate::Write)
        } else if self.pending.len() < PENDING_QUEUE_CAPACITY {
            (Metrics { pending: self.pending.push(sample), ..self }, SampleFate::Queued)
        } else {
            self.lost()
        }
    }
}

impl MetricQueue {
    pub fn new() -> (r: Self)
        ensures
            r@.valid(),
            r@ == (Metrics { logging_ready: false, pending: seq![], dropped: 0, warned: false }),
    {
        MetricQueue { logging_ready: false, pending: Vec::new(), dropped: 0, warned: false }
    }

    /// Takes note of a lost sample; the first loss is reported.
    pub fn record_metric_drop(&mut self) -> (r: SampleFate)
        requires
            old(self)@.valid(),
        ensures
            final(self)@.valid(),
            (final(self)@, r) == old(self)@.lost(),
    {
        let first = self.dropped == 0;
        self.dropped = self.dropped.wrapping_add(1);
        if first && !self.warned {
            self.warned = true;
            SampleFate::DroppedFirst
        } else {
            SampleFate::Dropped
        }
    }

    /// Handles a sample: it is written when the log is ready, and waits or is lost before.
    pub fn log_sample(&mut self, sample: MetricSample) -> (r: SampleFate)
        requires
            old(self)@.valid(),
        ensures
            final(self)@.valid(),
            (final(self)@, r) == old(self)@.measured(sample),
    {
        if self.logging_ready {
            return SampleFate::Write;
        }
        if self.pending.len() < PENDING_QUEUE_CAPACITY {
            self.pending.push(sample);
            return SampleFate::Queued;
        }
        self.record_metric_drop()
    }

    /// Takes the answer of the writer to a sample.
    pub fn write_sample(&mut self, answer: WriterAnswer) -> (r: SampleFate)
        requires
            old(self)@.valid(),
        ensures
            final(self)@.valid(),
            (final(self)@, r) == (if answer == WriterAnswer::Taken {
                (old(self)@, SampleFate::Queued)
            } else {
                old(self)@.lost()
            }),
    {
        match answer {
            WriterAnswer::Taken => SampleFate::Queued,
            _ => self.record_metric_drop(),
        }
    }

    /// Takes note that the log is ready; returns the samples that waited, in order.
    pub fn mark_logging_ready(&mut self) -> (r: Vec<MetricSample>)
        requires
            old(self)@.valid(),
        ensures
            final(self)@.valid(),
            r@ == old(self)@.pending,
            final(self)@ == (Metrics { logging_ready: true, pending: seq![], ..old(self)@ }),
    {
        self.logging_ready = true;
        let mut waiting: Vec<MetricSample> = Vec::new();
        std::mem::swap(&mut waiting, &mut self.pending);
        assert(self@.pending =~= seq![]);
        waiting
    }
}

/// The sample of a key event; events without a number are not measured.
pub fn record_keyboard_elapsed(
    enabled: bool,
    stage: &'static str,
    sequence: u64,
    elapsed_us: u64,
) -> (r: Option<MetricSample>)
    ensures
        r == (if enabled && sequence != 0 {
            Some(MetricSample { stage, elapsed_us, sequence: Some(sequence) })
        } else {
            None
        }),
{
    if enabled && sequence != 0 {
        Some(MetricSample { stage, elapsed_us, sequence: Some(sequence) })
    } else {
        None
    }
}

/// The line of a sample in the log.
pub fn sample_line(sample: &MetricSample, dropped: u64) -> (r: String)
    ensures
        r@ == "perf stage="@ + sample.stage@ + (match sample.sequence {
            Some(sequence) => " sequence="@ + decimal(sequence as nat),
            None => ""@,
        }) + " elapsed_us="@ + decimal(sample.elapsed_us as nat) + " dropped_metrics="@ + decimal(
            dropped as nat,
        ),
{
    let mut r = "perf stage=".to_owned();
    push_text(&mut r, sample.stage);
    let mut number = "".to_owned();
    if let Some(sequence) = sample.sequence {
        number = " sequence=".to_owned();
        push_text(&mut number, decimal_text(sequence).as_str());
    }
    push_text(&mut r, number.as_str());
    push_text(&mut r, " elapsed_us=");
    push_text(&mut r, decimal_text(sample.elapsed_us).as_str());
    push_text(&mut r, " dropped_metrics=");
    push_text(&mut r, decimal_text(dropped).as_str());
    r
}

/// The state after a number of lost samples.
pub open spec fn lost_often(metrics: Metrics, times: nat) -> Metrics
    decreases times,
{
    if times == 0 {
        metrics
    } else {
        lost_often(metrics, (times - 1) as nat).lost().0
    }
}

/// The loss of samples is reported once: after the first report none follows.
pub proof fn loss_is_reported_once(metrics: Metrics, times: nat)
    requires
        metrics.warned,
    ensures
        lost_often(metrics, times).warned,
        lost_often(metrics, times).lost().1 == SampleFate::Dropped,
    decreases times,
{
    if times > 0 {
        loss_is_reported_once(metrics, (times - 1) as nat);
    }
}

/// The switch asks for measurements with `1`, `true`, `yes` and `on`, in any case and with white
/// space around, and with nothing else.
pub proof fn words_that_ask_for_metrics(text: Seq<char>)
    ensures
        !asks_for_metrics(None),
        asks_for_metrics(Some(text)) <==> {
            let word = lowered(trimmed(text));
            ||| word == seq!['1']
            ||| word == seq!['t', 'r', 'u', 'e']
            ||| word == seq!['y', 'e', 's']
            ||| word == seq!['o', 'n']
        },
{
    reveal_strlit("1");
    reveal_strlit("true");
    reveal_strlit("yes");
    reveal_strlit("on");
    assert("1"@ =~= seq!['1']);
    assert("true"@ =~= seq!['t', 'r', 'u', 'e']);
    assert("yes"@ =~= seq!['y', 'e', 's']);
    assert("on"@ =~= seq!['o', 'n']);
}

/// A sample is written where the log is ready. Before, the first 256 wait in their order, and the
/// others are lost; every lost one is counted and the first is reported.
pub proof fn samples_wait_for_the_log(metrics: Metrics, sample: MetricSample)
    requires
        metrics.valid(),
        metrics.dropped < u64::MAX,
    ensures
        ({
            let (after, fate) = metrics.measured(sample);
            let waits = !metrics.logging_ready && metrics.pending.len() < 256;
            let is_lost = !metrics.logging_ready && metrics.pending.len() == 256;
            &&& fate == SampleFate::Write <==> metrics.logging_ready
            &&& fate == SampleFate::Queued <==> waits
            &&& waits ==> after.pending == metrics.pending.push(sample)
            &&& !waits ==> after.pending == metrics.pending
            &&& after.dropped == metrics.dropped + (if is_lost {
                1int
            } else {
                0
            })
            &&& fate == SampleFate::DroppedFirst <==> is_lost && metrics.dropped == 0
                && !metrics.warned
            &&& after.logging_ready == metrics.logging_ready
            &&& after.warned == (metrics.warned || (is_lost && metrics.dropped == 0))
        }),
        METRIC_QUEUE_CAPACITY == 256,
{
}

}
