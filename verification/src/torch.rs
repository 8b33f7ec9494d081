//! Bookkeeping of the PyTorch objects a program made: which dataset each
//! loader reads, how many batches it has, which models are training.
use vstd::prelude::*;
use crate::host::{RequestLog, TorchAnswer, TorchRequest};

verus! {

/// A data loader: its dataset, batch size and number of batches.
#[derive(Debug, Clone, Copy)]
pub struct LoaderInfo {
    pub dataset: usize,
    pub batch_size: i64,
    pub len: i64,
}

/// The PyTorch objects, by registration number.
pub struct TorchRegistry {
    /// Number of samples of each dataset.
    pub datasets: Vec<i64>,
    pub loaders: Vec<LoaderInfo>,
    /// Whether each model is in training mode.
    pub models: Vec<bool>,
    /// The model each optimizer updates.
    pub optimizers: Vec<usize>,
    /// Every request made of the host's PyTorch side, with its answer.
    pub log: RequestLog,
    /// Whether the MNIST files have been read into memory.
    pub mnist_loaded: bool,
}

/// One more request was made from `old` to `new`: the requests before it
/// are kept.
pub open spec fn one_more_request(old: TorchRegistry, new: TorchRegistry) -> bool {
    &&& new.log.entries().len() == old.log.entries().len() + 1
    &&& new.log.entries().drop_last() == old.log.entries()
}

/// The request made last.
pub open spec fn last_request(t: TorchRegistry) -> TorchRequest {
    t.log.entries().last().0
}

/// The host's answer to the request made last.
pub open spec fn last_answer(t: TorchRegistry) -> TorchAnswer {
    t.log.entries().last().1
}

/// The registry after the host was asked `req`: the same objects, and
/// `req` added to the requests with the host's answer.
pub open spec fn asked(old: TorchRegistry, new: TorchRegistry, req: TorchRequest) -> bool {
    &&& new.datasets@ == old.datasets@
    &&& new.loaders@ == old.loaders@
    &&& new.models@ == old.models@
    &&& new.optimizers@ == old.optimizers@
    &&& new.mnist_loaded == old.mnist_loaded
    &&& one_more_request(old, new)
    &&& last_request(new) == req
}

/// The requests made from `old` to `new`, the earlier ones kept.
pub open spec fn requests_since(old: TorchRegistry, new: TorchRegistry) -> Seq<(TorchRequest, TorchAnswer)> {
    new.log.entries().subrange(old.log.entries().len() as int, new.log.entries().len() as int)
}

/// Whether `new` keeps every request of `old`.
pub open spec fn keeps_requests(old: TorchRegistry, new: TorchRegistry) -> bool {
    &&& old.log.entries().len() <= new.log.entries().len()
    &&& new.log.entries().subrange(0, old.log.entries().len() as int) == old.log.entries()
}

/// The number of batches of `batch_size` that `count` samples fill: the
/// last one may be short.
pub open spec fn spec_batch_count(count: int, batch_size: int) -> int {
    (count + batch_size - 1) / batch_size
}

/// Where batch `index` starts.
pub open spec fn spec_batch_start(index: int, batch_size: int) -> int {
    index * batch_size
}

/// How many samples batch `index` holds.
pub open spec fn spec_batch_size_at(total: int, index: int, batch_size: int) -> int {
    if total - spec_batch_start(index, batch_size) < batch_size {
        total - spec_batch_start(index, batch_size)
    } else {
        batch_size
    }
}

impl TorchRegistry {
    pub open spec fn wf(&self) -> bool {
        &&& forall|d: int| 0 <= d < self.datasets@.len() ==> #[trigger] self.datasets@[d] >= 0
        &&& forall|o: int| 0 <= o < self.optimizers@.len() ==> #[trigger] self.optimizers@[o] < self.models@.len()
        &&& forall|l: int|
            #![trigger self.loaders@[l]]
            0 <= l < self.loaders@.len() ==> {
                &&& self.loaders@[l].dataset < self.datasets@.len()
                &&& self.loaders@[l].batch_size >= 1
                &&& self.loaders@[l].len == spec_batch_count(
                    self.datasets@[self.loaders@[l].dataset as int] as int,
                    self.loaders@[l].batch_size as int,
                )
            }
    }

    pub fn new() -> (r: TorchRegistry)
        ensures
            r.wf(),
            r.datasets@.len() == 0,
            r.loaders@.len() == 0,
            r.models@.len() == 0,
            r.optimizers@.len() == 0,
            r.log.entries().len() == 0,
            !r.mnist_loaded,
    {
        TorchRegistry {
            datasets: Vec::new(),
            loaders: Vec::new(),
            models: Vec::new(),
            optimizers: Vec::new(),
            log: RequestLog::new(),
            mnist_loaded: false,
        }
    }
}

/// The number of batches of `batch_size` that `count` samples fill.
pub fn batch_count(count: i64, batch_size: i64) -> (r: i64)
    requires
        count >= 0,
        batch_size >= 1,
    ensures
        r == spec_batch_count(count as int, batch_size as int),
        0 <= r <= count,
{
    let total: i128 = count as i128 + batch_size as i128 - 1;
    let r: i128 = total / batch_size as i128;
    proof {
        let c = count as int;
        let b = batch_size as int;
        assert(r == (c + b - 1) / b);
        vstd::arithmetic::div_mod::lemma_div_pos_is_pos(c + b - 1, b);
        if c > 0 {
            assert(c + b - 1 <= c * b) by (nonlinear_arith)
                requires
                    c >= 1,
                    b >= 1,
            ;
            vstd::arithmetic::div_mod::lemma_div_is_ordered(c + b - 1, c * b, b);
            vstd::arithmetic::div_mod::lemma_div_by_multiple(c, b);
        } else {
            vstd::arithmetic::div_mod::lemma_basic_div(c + b - 1, b);
        }
    }
    r as i64
}

/// Where batch `index` starts and how many samples it holds.
pub fn batch_range(total: i64, batch_size: i64, index: i64) -> (r: (i64, i64))
    requires
        total >= 0,
        batch_size >= 1,
        0 <= index < spec_batch_count(total as int, batch_size as int),
    ensures
        r.0 == spec_batch_start(index as int, batch_size as int),
        r.1 == spec_batch_size_at(total as int, index as int, batch_size as int),
        0 <= r.0 < total,
        1 <= r.1 <= batch_size,
        r.0 + r.1 <= total,
{
    proof {
        lemma_batch_start_in_range(total as int, batch_size as int, index as int);
    }
    let start = index * batch_size;
    let rest = total - start;
    let count = if rest < batch_size {
        rest
    } else {
        batch_size
    };
    (start, count)
}

/// Every batch of a loader starts inside the dataset.
pub proof fn lemma_batch_start_in_range(total: int, batch_size: int, index: int)
    requires
        total >= 0,
        batch_size >= 1,
        0 <= index < spec_batch_count(total, batch_size),
    ensures
        0 <= spec_batch_start(index, batch_size) < total,
{
    let n = spec_batch_count(total, batch_size);
    assert(index * batch_size >= 0) by (nonlinear_arith)
        requires
            index >= 0,
            batch_size >= 1,
    ;
    // index + 1 <= n = (total + batch_size - 1) / batch_size, so
    // (index + 1) * batch_size <= total + batch_size - 1
    vstd::arithmetic::div_mod::lemma_fundamental_div_mod(total + batch_size - 1, batch_size);
    let q = (total + batch_size - 1) / batch_size;
    let m = (total + batch_size - 1) % batch_size;
    assert(index * batch_size < total) by (nonlinear_arith)
        requires
            total + batch_size - 1 == batch_size * q + m,
            0 <= m < batch_size,
            index + 1 <= q,
            batch_size >= 1,
    {
        assert((index + 1) * batch_size <= q * batch_size) by (nonlinear_arith)
            requires
                index + 1 <= q,
                batch_size >= 1,
        ;
    }
}

/// The batches of a loader tile the dataset: each starts where the one
/// before it ended, the first at sample 0, and the last ends at the last
/// sample.
pub proof fn lemma_batches_tile_dataset(total: int, batch_size: int, index: int)
    requires
        total >= 0,
        batch_size >= 1,
        0 <= index < spec_batch_count(total, batch_size),
    ensures
        spec_batch_start(0, batch_size) == 0,
        index + 1 < spec_batch_count(total, batch_size) ==> spec_batch_start(index + 1, batch_size)
            == spec_batch_start(index, batch_size) + spec_batch_size_at(total, index, batch_size),
        index + 1 == spec_batch_count(total, batch_size) ==> spec_batch_start(index, batch_size)
            + spec_batch_size_at(total, index, batch_size) == total,
{
    let n = spec_batch_count(total, batch_size);
    assert((index + 1) * batch_size == index * batch_size + batch_size) by (nonlinear_arith);
    assert(0 * batch_size == 0);
    vstd::arithmetic::div_mod::lemma_fundamental_div_mod(total + batch_size - 1, batch_size);
    let q = (total + batch_size - 1) / batch_size;
    let m = (total + batch_size - 1) % batch_size;
    if index + 1 < n {
        lemma_batch_start_in_range(total, batch_size, index + 1);
    }
    if index + 1 == n {
        // the last batch ends at the end: total - index * batch_size <= batch_size
        assert(total - index * batch_size <= batch_size) by (nonlinear_arith)
            requires
                total + batch_size - 1 == batch_size * q + m,
                0 <= m < batch_size,
                index + 1 == q,
        ;
    }
}

} // verus!
