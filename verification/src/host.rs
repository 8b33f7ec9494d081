//! What the interpreter asks of its host, and the IEEE-754 facts it
//! decides on bit patterns itself.
use vstd::prelude::*;
use crate::builtins::TorchLayerKind;

verus! {

/// The four arithmetic operations on doubles.
#[derive(Debug, Clone, Copy, PartialEq, Eq, Structural)]
pub enum FloatArith {
    Add,
    Subtract,
    Multiply,
    Divide,
}

/// How two doubles compare; `Unordered` when either is NaN.
#[derive(Debug, Clone, Copy, PartialEq, Eq, Structural)]
pub enum FloatOrder {
    Less,
    Equal,
    Greater,
    Unordered,
}

/// A request of the host's PyTorch side.
pub enum TorchRequest {
    /// Build model number `model` from the layers, in order.
    BuildNetwork { model: usize, layers: Vec<TorchLayerKind> },
    /// Read the MNIST files into memory, downloading those that are
    /// missing; the answer's `failure` says why they could not be read.
    LoadMnistFiles,
    /// Register the MNIST training (`train`) or test set, read before, as
    /// dataset number `dataset`; the answer's `count` is its number of
    /// samples, or its `failure` why it could not be registered.
    LoadMnist { dataset: usize, train: bool },
    /// Build the sample order of loader number `loader` over `count`
    /// samples: `0 .. count` in order, or shuffled.
    BuildLoader { loader: usize, count: i64, shuffle: bool },
    /// Build Adam optimizer number `optimizer` over model `model`'s
    /// parameters; the answer's `failure` says why it could not be built.
    BuildAdam { optimizer: usize, model: usize, learning_rate: u64 },
    /// Clear the gradients that optimizer `optimizer` steps on.
    ZeroGrad { optimizer: usize },
    /// Update the parameters of optimizer `optimizer`.
    OptimizerStep { optimizer: usize },
    /// Run model `model` on tensor `input`, keeping gradients only when
    /// `training`; the answer's `handle` is the output tensor.
    Forward { model: usize, input: usize, training: bool },
    /// The cross-entropy loss of logits against labels, as the answer's `handle`.
    CrossEntropy { logits: usize, labels: usize },
    /// Back-propagate from a tensor.
    Backward { tensor: usize },
    /// The samples `start .. start + count` of loader `loader`'s order in
    /// dataset `dataset`, as the answer's `handle`.
    FetchBatch { loader: usize, dataset: usize, start: i64, count: i64 },
    /// The indices of the largest entries along `dim`, as the answer's `handle`.
    ArgMax { tensor: usize, dim: i64 },
    /// How many entries of two tensors are equal, as the answer's `count`.
    CountEqual { left: usize, right: usize },
}

/// The host's answer to a `TorchRequest`: a tensor or batch handle, a
/// count, or why the request failed; each request reads the parts its
/// description names.
pub struct TorchAnswer {
    pub handle: usize,
    pub count: i64,
    pub failure: Option<String>,
}

/// Every request made of the host's PyTorch side, with the host's answer,
/// in order. Requests reach the host only through `ask`, which hands it
/// the very request it records.
pub struct RequestLog {
    entries: Ghost<Seq<(TorchRequest, TorchAnswer)>>,
}

impl RequestLog {
    /// The requests made so far, each with its answer.
    pub closed spec fn entries(&self) -> Seq<(TorchRequest, TorchAnswer)> {
        self.entries@
    }

    /// A log of no requests.
    pub fn new() -> (r: RequestLog)
        ensures
            r.entries().len() == 0,
    {
        RequestLog { entries: Ghost(Seq::empty()) }
    }

    /// Hands `request` to the host and records it with the answer, which
    /// it gives back.
    pub fn ask<H: Host>(&mut self, host: &mut H, request: TorchRequest) -> (answer: TorchAnswer)
        ensures
            final(self).entries() == old(self).entries().push((request, answer)),
    {
        let answer = host.torch(&request);
        self.entries = Ghost(self.entries@.push((request, answer)));
        answer
    }
}

/// What was streamed to the terminal: a line, and whether writing it
/// succeeded; or a pause.
pub enum StreamEntry {
    Line { text: String, written: bool },
    Pause { seconds: u64 },
}

/// Everything streamed to the terminal, in order. Lines and pauses reach
/// the host only through `line` and `pause`, which hand it what they
/// record.
pub struct StreamLog {
    entries: Ghost<Seq<StreamEntry>>,
}

impl StreamLog {
    /// What was streamed so far.
    pub closed spec fn entries(&self) -> Seq<StreamEntry> {
        self.entries@
    }

    /// A log of nothing streamed.
    pub fn new() -> (r: StreamLog)
        ensures
            r.entries().len() == 0,
    {
        StreamLog { entries: Ghost(Seq::empty()) }
    }

    /// Writes `text` as a line to the terminal and records it with whether
    /// the write succeeded.
    pub fn line<H: Host>(&mut self, host: &mut H, text: &String) -> (r: Result<(), StreamError>)
        ensures
            final(self).entries() == old(self).entries().push(StreamEntry::Line { text: *text, written: r is Ok }),
    {
        let r = host.stream_line(text.as_str());
        self.entries = Ghost(self.entries@.push(StreamEntry::Line { text: *text, written: r is Ok }));
        r
    }

    /// Pauses for `seconds` (double bits) and records it.
    pub fn pause<H: Host>(&mut self, host: &mut H, seconds: u64)
        ensures
            final(self).entries() == old(self).entries().push(StreamEntry::Pause { seconds }),
    {
        host.stream_sleep(seconds);
        self.entries = Ghost(self.entries@.push(StreamEntry::Pause { seconds }));
    }
}

/// A question put to the host's number, text, clock or tensor side.
pub enum HostQuery {
    ParseFloat { text: String },
    FloatArith { op: FloatArith, a: u64, b: u64 },
    IntToFloat { value: i64 },
    FloatToInt { bits: u64 },
    FloatCompare { a: u64, b: u64 },
    RenderFloat { bits: u64 },
    RestartClock,
    ElapsedSeconds,
    BatchPart { batch: usize, labels: bool },
    TensorFirstDim { tensor: usize },
    TensorScalar { tensor: usize },
}

/// The host's reply to a `HostQuery`.
pub enum HostReply {
    Float(u64),
    MaybeFloat(Option<u64>),
    Int(i64),
    Order(FloatOrder),
    Text(String),
    Handle(usize),
    Done,
}

/// Every question put to the host outside its PyTorch requests and the
/// terminal, with the host's reply, in order. Questions reach the host
/// only through the methods here, each of which hands it exactly the
/// question it records.
pub struct QueryLog {
    entries: Ghost<Seq<(HostQuery, HostReply)>>,
}

impl QueryLog {
    /// The questions put so far, each with its reply.
    pub closed spec fn entries(&self) -> Seq<(HostQuery, HostReply)> {
        self.entries@
    }

    /// A log of no questions.
    pub fn new() -> (r: QueryLog)
        ensures
            r.entries().len() == 0,
    {
        QueryLog { entries: Ghost(Seq::empty()) }
    }

    /// Whether `self` is `old` with one more question and its reply.
    pub open spec fn asked(&self, old: &QueryLog, query: HostQuery, reply: HostReply) -> bool {
        self.entries() == old.entries().push((query, reply))
    }

    /// Whether `self` is `old` with questions added after it.
    pub open spec fn extends(&self, old: &QueryLog) -> bool {
        &&& old.entries().len() <= self.entries().len()
        &&& self.entries().subrange(0, old.entries().len() as int) == old.entries()
    }

    /// The questions added since `old`.
    pub open spec fn since(&self, old: &QueryLog) -> Seq<(HostQuery, HostReply)> {
        self.entries().subrange(old.entries().len() as int, self.entries().len() as int)
    }

    /// A log extends itself, with nothing asked since.
    pub proof fn lemma_extends_refl(a: QueryLog)
        ensures
            a.extends(&a),
            a.since(&a).len() == 0,
    {
        assert(a.entries().subrange(0, a.entries().len() as int) =~= a.entries());
    }

    /// One question asked is the one question asked since.
    pub proof fn lemma_asked_since(a: QueryLog, b: QueryLog, query: HostQuery, reply: HostReply)
        requires
            b.asked(&a, query, reply),
        ensures
            b.extends(&a),
            b.since(&a) == seq![(query, reply)],
            b.since(&a).contains((query, reply)),
    {
        assert(b.entries().subrange(0, a.entries().len() as int) =~= a.entries());
        assert(b.since(&a) =~= seq![(query, reply)]);
        assert(b.since(&a)[0] == (query, reply));
    }

    /// Questions asked from `a` to `b` and on to `c` are questions asked from
    /// `a` to `c`.
    pub proof fn lemma_since_grows(a: QueryLog, b: QueryLog, c: QueryLog)
        requires
            b.extends(&a),
            c.extends(&b),
        ensures
            c.extends(&a),
            forall|x: (HostQuery, HostReply)| b.since(&a).contains(x) ==> #[trigger] c.since(&a).contains(x),
            forall|x: (HostQuery, HostReply)| c.since(&b).contains(x) ==> #[trigger] c.since(&a).contains(x),
    {
        let la = a.entries().len() as int;
        let lb = b.entries().len() as int;
        assert(c.entries().subrange(0, la) =~= c.entries().subrange(0, lb).subrange(0, la));
        assert forall|x: (HostQuery, HostReply)| b.since(&a).contains(x) implies #[trigger] c.since(&a).contains(x) by {
            let k = choose|k: int| 0 <= k < b.since(&a).len() && b.since(&a)[k] == x;
            assert(b.entries()[la + k] == c.entries()[la + k]);
            assert(c.since(&a)[k] == x);
        }
        assert forall|x: (HostQuery, HostReply)| c.since(&b).contains(x) implies #[trigger] c.since(&a).contains(x) by {
            let k = choose|k: int| 0 <= k < c.since(&b).len() && c.since(&b)[k] == x;
            assert(c.since(&a)[lb - la + k] == x);
        }
    }

    /// `text.parse::<f64>()`.
    pub fn parse_float<H: Host>(&mut self, host: &mut H, text: &String) -> (r: Option<u64>)
        ensures
            final(self).asked(old(self), HostQuery::ParseFloat { text: *text }, HostReply::MaybeFloat(r)),
    {
        let r = host.parse_float(text.as_str());
        self.entries = Ghost(self.entries@.push((HostQuery::ParseFloat { text: *text }, HostReply::MaybeFloat(r))));
        r
    }

    /// `a op b` on doubles.
    pub fn float_arith<H: Host>(&mut self, host: &mut H, op: FloatArith, a: u64, b: u64) -> (r: u64)
        ensures
            final(self).asked(old(self), HostQuery::FloatArith { op, a, b }, HostReply::Float(r)),
    {
        let r = host.float_arith(op, a, b);
        self.entries = Ghost(self.entries@.push((HostQuery::FloatArith { op, a, b }, HostReply::Float(r))));
        r
    }

    /// `value as f64`.
    pub fn int_to_float<H: Host>(&mut self, host: &mut H, value: i64) -> (r: u64)
        ensures
            final(self).asked(old(self), HostQuery::IntToFloat { value }, HostReply::Float(r)),
    {
        let r = host.int_to_float(value);
        self.entries = Ghost(self.entries@.push((HostQuery::IntToFloat { value }, HostReply::Float(r))));
        r
    }

    /// `x as i64` for the double `bits`.
    pub fn float_to_int<H: Host>(&mut self, host: &mut H, bits: u64) -> (r: i64)
        ensures
            final(self).asked(old(self), HostQuery::FloatToInt { bits }, HostReply::Int(r)),
    {
        let r = host.float_to_int(bits);
        self.entries = Ghost(self.entries@.push((HostQuery::FloatToInt { bits }, HostReply::Int(r))));
        r
    }

    /// How the doubles `a` and `b` compare.
    pub fn float_compare<H: Host>(&mut self, host: &mut H, a: u64, b: u64) -> (r: FloatOrder)
        ensures
            final(self).asked(old(self), HostQuery::FloatCompare { a, b }, HostReply::Order(r)),
    {
        let r = host.float_compare(a, b);
        self.entries = Ghost(self.entries@.push((HostQuery::FloatCompare { a, b }, HostReply::Order(r))));
        r
    }

    /// How the double `bits` prints.
    pub fn render_float<H: Host>(&mut self, host: &mut H, bits: u64) -> (r: String)
        ensures
            final(self).asked(old(self), HostQuery::RenderFloat { bits }, HostReply::Text(r)),
    {
        let r = host.render_float(bits);
        self.entries = Ghost(self.entries@.push((HostQuery::RenderFloat { bits }, HostReply::Text(r))));
        r
    }

    /// Starts the clock.
    pub fn restart_clock<H: Host>(&mut self, host: &mut H)
        ensures
            final(self).asked(old(self), HostQuery::RestartClock, HostReply::Done),
    {
        host.restart_clock();
        self.entries = Ghost(self.entries@.push((HostQuery::RestartClock, HostReply::Done)));
    }

    /// Seconds since the clock started, as double bits.
    pub fn elapsed_seconds<H: Host>(&mut self, host: &mut H) -> (r: u64)
        ensures
            final(self).asked(old(self), HostQuery::ElapsedSeconds, HostReply::Float(r)),
    {
        let r = host.elapsed_seconds();
        self.entries = Ghost(self.entries@.push((HostQuery::ElapsedSeconds, HostReply::Float(r))));
        r
    }

    /// The images (`labels == false`) or labels of a batch.
    pub fn batch_part<H: Host>(&mut self, host: &mut H, batch: usize, labels: bool) -> (r: usize)
        ensures
            final(self).asked(old(self), HostQuery::BatchPart { batch, labels }, HostReply::Handle(r)),
    {
        let r = host.batch_part(batch, labels);
        self.entries = Ghost(self.entries@.push((HostQuery::BatchPart { batch, labels }, HostReply::Handle(r))));
        r
    }

    /// The size of a tensor's first dimension.
    pub fn tensor_first_dim<H: Host>(&mut self, host: &mut H, tensor: usize) -> (r: i64)
        ensures
            final(self).asked(old(self), HostQuery::TensorFirstDim { tensor }, HostReply::Int(r)),
    {
        let r = host.tensor_first_dim(tensor);
        self.entries = Ghost(self.entries@.push((HostQuery::TensorFirstDim { tensor }, HostReply::Int(r))));
        r
    }

    /// The value of a one-element tensor.
    pub fn tensor_scalar<H: Host>(&mut self, host: &mut H, tensor: usize) -> (r: Option<u64>)
        ensures
            final(self).asked(old(self), HostQuery::TensorScalar { tensor }, HostReply::MaybeFloat(r)),
    {
        let r = host.tensor_scalar(tensor);
        self.entries = Ghost(self.entries@.push((HostQuery::TensorScalar { tensor }, HostReply::MaybeFloat(r))));
        r
    }
}

/// Why streaming a line to the terminal failed.
#[derive(Debug)]
pub enum StreamError {
    Write(String),
    Flush(String),
}

/// The machine the interpreter runs on: double-precision arithmetic and
/// text, the clock, the terminal, and the PyTorch objects. Its methods
/// promise nothing; what the interpreter does with each answer is what
/// the interpreter's contracts state.
pub trait Host {
    /// `text.parse::<f64>()`, as bits.
    fn parse_float(&mut self, text: &str) -> Option<u64>;

    /// `a op b` on doubles.
    fn float_arith(&mut self, op: FloatArith, a: u64, b: u64) -> u64;

    /// `v as f64`.
    fn int_to_float(&mut self, v: i64) -> u64;

    /// `x as i64` (truncating and saturating).
    fn float_to_int(&mut self, bits: u64) -> i64;

    /// `a.partial_cmp(&b)`.
    fn float_compare(&mut self, a: u64, b: u64) -> FloatOrder;

    /// How a double prints: one decimal for whole values, the shortest
    /// text that reads back otherwise.
    fn render_float(&mut self, bits: u64) -> String;

    /// Starts the clock that `현재시간초` reads.
    fn restart_clock(&mut self);

    /// Seconds since the clock started, as double bits.
    fn elapsed_seconds(&mut self) -> u64;

    /// Writes and flushes one line to the terminal.
    fn stream_line(&mut self, text: &str) -> Result<(), StreamError>;

    /// Pauses for the given seconds (double bits, finite and not negative).
    fn stream_sleep(&mut self, seconds: u64);

    /// Carries out a request of the PyTorch side (see `TorchRequest`).
    fn torch(&mut self, request: &TorchRequest) -> TorchAnswer;

    /// The images (`labels == false`) or labels of a batch, as a new tensor handle.
    fn batch_part(&mut self, batch: usize, labels: bool) -> usize;

    /// The size of a tensor's first dimension (0 for a scalar).
    fn tensor_first_dim(&mut self, tensor: usize) -> i64;

    /// The value of a one-element tensor, as double bits; `None` otherwise.
    fn tensor_scalar(&mut self, tensor: usize) -> Option<u64>;
}

/// The sign bit of a double.
pub open spec fn float_sign(bits: u64) -> u64 {
    bits >> 63u64
}

/// The biased exponent field of a double.
pub open spec fn float_exponent(bits: u64) -> u64 {
    (bits >> 52u64) & 0x7ffu64
}

/// The fraction field of a double.
pub open spec fn float_fraction(bits: u64) -> u64 {
    bits & 0xf_ffff_ffff_ffffu64
}

/// Finite: neither an infinity nor a NaN.
pub open spec fn spec_float_is_finite(bits: u64) -> bool {
    float_exponent(bits) != 0x7ffu64
}

/// NaN: all exponent bits set and a non-zero fraction.
pub open spec fn spec_float_is_nan(bits: u64) -> bool {
    float_exponent(bits) == 0x7ffu64 && float_fraction(bits) != 0
}

/// Zero of either sign.
pub open spec fn spec_float_is_zero(bits: u64) -> bool {
    bits & 0x7fff_ffff_ffff_ffffu64 == 0
}

/// `-x`: the same bits with the sign flipped.
pub fn float_negate(bits: u64) -> (r: u64)
    ensures
        float_sign(r) != float_sign(bits),
        float_exponent(r) == float_exponent(bits),
        float_fraction(r) == float_fraction(bits),
{
    let r = bits ^ 0x8000_0000_0000_0000u64;
    assert(float_sign(r) != float_sign(bits)) by (bit_vector)
        requires
            r == bits ^ 0x8000_0000_0000_0000u64,
    ;
    assert(float_exponent(r) == float_exponent(bits)) by (bit_vector)
        requires
            r == bits ^ 0x8000_0000_0000_0000u64,
    ;
    assert(float_fraction(r) == float_fraction(bits)) by (bit_vector)
        requires
            r == bits ^ 0x8000_0000_0000_0000u64,
    ;
    r
}

/// `x.is_finite() && x >= 0.0` (negative zero counts as not negative).
pub fn float_is_finite_nonnegative(bits: u64) -> (r: bool)
    ensures
        r == (spec_float_is_finite(bits) && (float_sign(bits) == 0 || spec_float_is_zero(bits))),
{
    let exponent = (bits >> 52u64) & 0x7ffu64;
    let sign = bits >> 63u64;
    let magnitude = bits & 0x7fff_ffff_ffff_ffffu64;
    exponent != 0x7ffu64 && (sign == 0 || magnitude == 0)
}

/// `x <= 0.0`: false for NaN, true for zeros and negative numbers.
pub fn float_at_most_zero(bits: u64) -> (r: bool)
    ensures
        r == (!spec_float_is_nan(bits) && (float_sign(bits) == 1 || spec_float_is_zero(bits))),
{
    let exponent = (bits >> 52u64) & 0x7ffu64;
    let fraction = bits & 0xf_ffff_ffff_ffffu64;
    let sign = bits >> 63u64;
    let magnitude = bits & 0x7fff_ffff_ffff_ffffu64;
    let nan = exponent == 0x7ffu64 && fraction != 0;
    assert(sign == 0 || sign == 1) by (bit_vector)
        requires
            sign == bits >> 63u64,
    ;
    !nan && (sign == 1 || magnitude == 0)
}

} // verus!
