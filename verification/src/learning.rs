//! The PyTorch builtins: what each checks of its arguments, which
//! registration numbers it hands out, and which batch a loader serves.
use vstd::prelude::*;
use vstd::string::*;
use crate::builtins::{HostValue, TorchLayerKind};
use crate::calls::{expect_int, expect_loader_id, expect_model_id, expect_optimizer_id, expect_tensor};
use crate::error::{ErrorKind, ErrorView, RuntimeError};
use crate::fields::{Entries, bool_fault, dataset_fault, field_dataset, field_int, int_fault, bool_field, dataset_field, int_field};
use crate::host::{Host, float_at_most_zero, float_sign, spec_float_is_nan, spec_float_is_zero};
use crate::interp::Interpreter;
use crate::messages::first_fault;
use crate::host::{HostQuery, HostReply, TorchAnswer, TorchRequest};
use crate::torch::{LoaderInfo, TorchRegistry, asked, keeps_requests, requests_since, last_answer, last_request, one_more_request, batch_count, batch_range, spec_batch_count,
    spec_batch_start, spec_batch_size_at};
use crate::value::{Value, ValueView};

verus! {

/// Whether every element is a layer.
pub open spec fn all_layers(items: Seq<ValueView>) -> bool {
    forall|i: int| 0 <= i < items.len() ==> (#[trigger] items[i]) matches ValueView::Host(HostValue::TorchLayer(_))
}

/// The kind of a layer value.
pub open spec fn layer_kind(v: ValueView) -> TorchLayerKind {
    match v {
        ValueView::Host(HostValue::TorchLayer(k)) => k,
        _ => TorchLayerKind::Flatten,
    }
}

/// The kinds of a list of layers, in order.
pub open spec fn layer_kinds(items: Seq<ValueView>) -> Seq<TorchLayerKind> {
    items.map_values(|v: ValueView| layer_kind(v))
}

/// Why a loader configuration is refused, checked in the order it is read.
pub open spec fn loader_fault(e: Entries, datasets: nat) -> Option<ErrorView> {
    first_fault(dataset_fault(e, "데이터셋"@), first_fault(int_fault(e, "배치크기"@),
        if field_int(e, "배치크기"@) <= 0 {
            Some(ErrorView::BatchSizeNotPositive)
        } else {
            first_fault(bool_fault(e, "섞기여부"@), if field_dataset(e, "데이터셋"@) >= datasets {
                Some(ErrorView::InvalidDataset)
            } else {
                None
            })
        }))
}

/// Why a learning rate is refused: it is not a number, or not above zero.
pub open spec fn learning_rate_fault(v: ValueView) -> Option<ErrorView> {
    match v {
        ValueView::Int(i) => if i <= 0 { Some(ErrorView::LearningRateNotPositive) } else { None },
        ValueView::Float(b) => if !spec_float_is_nan(b) && (float_sign(b) == 1 || spec_float_is_zero(b)) {
            Some(ErrorView::LearningRateNotPositive)
        } else {
            None
        },
        _ => Some(ErrorView::ArgumentNotNumber { name: "아담"@ }),
    }
}

/// The model whose parameters an optimizer is built over.
pub open spec fn parameters_model(v: ValueView) -> Option<usize> {
    match v {
        ValueView::Host(HostValue::TorchModelParameters(id)) => Some(id),
        ValueView::Host(HostValue::TorchModel(id)) => Some(id),
        _ => None,
    }
}

/// Which batch a loader serves for an index: the loader, its dataset, the
/// first sample and the number of samples; or why it cannot.
pub open spec fn spec_batch_plan(torch: TorchRegistry, loader: ValueView, index: ValueView) -> Result<(usize, usize, i64, i64), ErrorView> {
    match loader {
        ValueView::Host(HostValue::TorchDataLoader(l)) => match index {
            ValueView::Int(i) => if i < 0 {
                Err(ErrorView::NegativeBatchIndex)
            } else if l >= torch.loaders@.len() {
                Err(ErrorView::InvalidLoader)
            } else if i >= torch.loaders@[l as int].len {
                Err(ErrorView::BatchIndexOutOfRange)
            } else {
                let info = torch.loaders@[l as int];
                let total = torch.datasets@[info.dataset as int];
                Ok((l, info.dataset, spec_batch_start(i as int, info.batch_size as int) as i64,
                    spec_batch_size_at(total as int, i as int, info.batch_size as int) as i64))
            },
            _ => Err(ErrorView::ArgumentNotInt { name: "배치가져오기"@ }),
        },
        _ => Err(ErrorView::NotLoader),
    }
}

/// What `순전파` hands the host: the model, the input tensor, and whether
/// gradients are kept (the model's training mode); or why it cannot run.
pub open spec fn spec_forward_plan(models: Seq<bool>, model: ValueView, input: ValueView) -> Result<(usize, usize, bool), ErrorView> {
    match model {
        ValueView::Host(HostValue::TorchModel(id)) => match input {
            ValueView::Tensor(t) => if id < models.len() {
                Ok((id, t, models[id as int]))
            } else {
                Err(ErrorView::InvalidModel)
            },
            _ => Err(ErrorView::ArgumentNotTensor { name: "순전파"@ }),
        },
        _ => Err(ErrorView::NotModel),
    }
}

/// What `순차신경망` gives and registers.
pub open spec fn network_outcome<H: Host>(old: Interpreter<H>, new: Interpreter<H>, layers: ValueView, r: Result<Value, RuntimeError>) -> bool {
    match layers {
        ValueView::List(id) => if all_layers(old.store.list_view(id as int)) {
            &&& r matches Ok(x) && x@ == ValueView::Host(HostValue::TorchModel(old.torch.models@.len() as usize))
            &&& new.torch.models@ == old.torch.models@.push(true)
            &&& new.torch.datasets@ == old.torch.datasets@
            &&& new.torch.loaders@ == old.torch.loaders@
            &&& new.torch.optimizers@ == old.torch.optimizers@
            &&& new.torch.mnist_loaded == old.torch.mnist_loaded
            &&& one_more_request(old.torch, new.torch)
            &&& last_request(new.torch) matches TorchRequest::BuildNetwork { model, layers }
            &&& model == old.torch.models@.len()
            &&& layers@ == layer_kinds(old.store.list_view(id as int))
        } else {
            r matches Err(e) && e.kind@ == ErrorView::NotLayerList && new == old
        },
        _ => r matches Err(e) && e.kind@ == (ErrorView::ArgumentNotList { name: "순차신경망"@ }) && new == old,
    }
}

/// What registering an MNIST split answered `a` gives: the next dataset
/// number, holding the host's sample count (a negative count read as
/// none), or the host's reason as an error.
pub open spec fn mnist_registered<H: Host>(old: Interpreter<H>, new: Interpreter<H>, a: TorchAnswer, r: Result<Value, RuntimeError>) -> bool {
    match a.failure {
        None => r matches Ok(x) && x@ == ValueView::Host(HostValue::TorchDataset(old.torch.datasets@.len() as usize))
            && new.torch.datasets@ == old.torch.datasets@.push(if a.count < 0 { 0 } else { a.count }),
        Some(detail) => r matches Err(e) && e.kind == (ErrorKind::HostFailure { detail })
            && new.torch.datasets@ == old.torch.datasets@,
    }
}

/// What `숫자손글씨데이터셋` gives and registers. The MNIST files are read
/// once per interpreter: the first call asks the host to read them, and
/// a failure there is the call's error; then the split the record asks for
/// is registered.
pub open spec fn mnist_dataset_outcome<H: Host>(old: Interpreter<H>, new: Interpreter<H>, config: ValueView, r: Result<Value, RuntimeError>) -> bool {
    match config {
        ValueView::Record(rid) => match bool_fault(old.store.record_view(rid as int), "학습용"@) {
            Some(k) => r matches Err(e) && e.kind@ == k && new == old,
            None => {
                let req = TorchRequest::LoadMnist {
                    dataset: old.torch.datasets@.len() as usize,
                    train: crate::fields::field_bool(old.store.record_view(rid as int), "학습용"@),
                };
                let added = requests_since(old.torch, new.torch);
                &&& keeps_requests(old.torch, new.torch)
                &&& new.torch.loaders@ == old.torch.loaders@
                &&& new.torch.models@ == old.torch.models@
                &&& new.torch.optimizers@ == old.torch.optimizers@
                &&& if old.torch.mnist_loaded {
                    &&& added.len() == 1
                    &&& added[0].0 == req
                    &&& new.torch.mnist_loaded
                    &&& mnist_registered(old, new, added[0].1, r)
                } else {
                    &&& added.len() >= 1
                    &&& added[0].0 == TorchRequest::LoadMnistFiles
                    &&& match added[0].1.failure {
                        Some(detail) => {
                            &&& added.len() == 1
                            &&& r matches Err(e) && e.kind == (ErrorKind::HostFailure { detail })
                            &&& new.torch.datasets@ == old.torch.datasets@
                            &&& !new.torch.mnist_loaded
                        },
                        None => {
                            &&& added.len() == 2
                            &&& added[1].0 == req
                            &&& new.torch.mnist_loaded
                            &&& mnist_registered(old, new, added[1].1, r)
                        },
                    }
                }
            },
        },
        _ => r matches Err(e) && e.kind@ == (ErrorView::ArgumentNotRecord { name: "숫자손글씨데이터셋"@ }) && new == old,
    }
}

/// What `데이터로더` gives and registers.
pub open spec fn data_loader_outcome<H: Host>(old: Interpreter<H>, new: Interpreter<H>, config: ValueView, r: Result<Value, RuntimeError>) -> bool {
    match config {
        ValueView::Record(rid) => {
            let e = old.store.record_view(rid as int);
            match loader_fault(e, old.torch.datasets@.len()) {
                Some(k) => r matches Err(err) && err.kind@ == k && new == old,
                None => {
                    let d = field_dataset(e, "데이터셋"@);
                    let b = field_int(e, "배치크기"@);
                    &&& one_more_request(old.torch, new.torch)
                    &&& last_request(new.torch) == (TorchRequest::BuildLoader {
                        loader: old.torch.loaders@.len() as usize,
                        count: old.torch.datasets@[d as int],
                        shuffle: crate::fields::field_bool(e, "섞기여부"@),
                    })
                    &&& r matches Ok(x) && x@ == ValueView::Host(HostValue::TorchDataLoader(old.torch.loaders@.len() as usize))
                    &&& new.torch.loaders@ == old.torch.loaders@.push(LoaderInfo {
                        dataset: d,
                        batch_size: b,
                        len: spec_batch_count(old.torch.datasets@[d as int] as int, b as int) as i64,
                    })
                    &&& new.torch.datasets@ == old.torch.datasets@
                    &&& new.torch.models@ == old.torch.models@
                    &&& new.torch.optimizers@ == old.torch.optimizers@
                    &&& new.torch.mnist_loaded == old.torch.mnist_loaded
                },
            }
        },
        _ => r matches Err(err) && err.kind@ == (ErrorView::ArgumentNotRecord { name: "데이터로더"@ }) && new == old,
    }
}

/// What `아담` gives and registers.
pub open spec fn adam_outcome<H: Host>(old: Interpreter<H>, new: Interpreter<H>, parameters: ValueView, learning_rate: ValueView, r: Result<Value, RuntimeError>) -> bool {
    match parameters_model(parameters) {
        None => r matches Err(e) && e.kind@ == ErrorView::AdamNeedsParameters && new == old,
        Some(m) => match learning_rate_fault(learning_rate) {
            Some(k) => r matches Err(e) && e.kind@ == k && new == old,
            None => if m >= old.torch.models@.len() {
                r matches Err(e) && e.kind@ == ErrorView::InvalidModel && new.torch == old.torch
            } else {
                &&& one_more_request(old.torch, new.torch)
                &&& last_request(new.torch) matches TorchRequest::BuildAdam { optimizer, model, learning_rate: bits }
                &&& optimizer == old.torch.optimizers@.len()
                &&& model == m
                &&& learning_rate matches ValueView::Float(b) ==> bits == b
                &&& learning_rate matches ValueView::Int(i) ==> new.queries.asked(&old.queries, HostQuery::IntToFloat { value: i }, HostReply::Float(bits))
                &&& new.torch.datasets@ == old.torch.datasets@
                &&& new.torch.loaders@ == old.torch.loaders@
                &&& new.torch.mnist_loaded == old.torch.mnist_loaded
                &&& new.torch.models@ == old.torch.models@
                &&& match last_answer(new.torch).failure {
                    None => r matches Ok(x) && x@ == ValueView::Host(HostValue::TorchOptimizer(old.torch.optimizers@.len() as usize))
                        && new.torch.optimizers@ == old.torch.optimizers@.push(m),
                    Some(detail) => r matches Err(e) && e.kind == (ErrorKind::AdamBuildFailed { detail })
                        && new.torch.optimizers@ == old.torch.optimizers@,
                }
            },
        },
    }
}

/// What `기울기초기화` (`step == false`) and `매개변수갱신` give.
pub open spec fn optimizer_action_outcome<H: Host>(old: Interpreter<H>, new: Interpreter<H>, optimizer: ValueView, step: bool, r: Result<Value, RuntimeError>) -> bool {
    match optimizer {
        ValueView::Host(HostValue::TorchOptimizer(id)) => if id < old.torch.optimizers@.len() {
            r matches Ok(x) && x@ == ValueView::Nothing && asked(old.torch, new.torch, if step {
                TorchRequest::OptimizerStep { optimizer: id }
            } else {
                TorchRequest::ZeroGrad { optimizer: id }
            })
        } else {
            r matches Err(e) && e.kind@ == ErrorView::InvalidOptimizer && new == old
        },
        _ => r matches Err(e) && e.kind@ == ErrorView::NotOptimizer && new == old,
    }
}

/// What `순전파` gives.
pub open spec fn forward_outcome<H: Host>(old: Interpreter<H>, new: Interpreter<H>, model: ValueView, input: ValueView, r: Result<Value, RuntimeError>) -> bool {
    match spec_forward_plan(old.torch.models@, model, input) {
        Ok(p) => asked(old.torch, new.torch, TorchRequest::Forward { model: p.0, input: p.1, training: p.2 })
            && (r matches Ok(x) && x@ == ValueView::Tensor(last_answer(new.torch).handle)),
        Err(k) => r matches Err(e) && e.kind@ == k && new == old,
    }
}

/// What `손실계산` gives.
pub open spec fn loss_outcome<H: Host>(old: Interpreter<H>, new: Interpreter<H>, loss_fn: ValueView, logits: ValueView, labels: ValueView, r: Result<Value, RuntimeError>) -> bool {
    match loss_fn {
        ValueView::Host(HostValue::TorchLossFunction(_)) => match (logits, labels) {
            (ValueView::Tensor(a), ValueView::Tensor(b)) => asked(old.torch, new.torch, TorchRequest::CrossEntropy { logits: a, labels: b })
                && (r matches Ok(x) && x@ == ValueView::Tensor(last_answer(new.torch).handle)),
            _ => r matches Err(e) && e.kind@ == (ErrorView::ArgumentNotTensor { name: "손실계산"@ }) && new == old,
        },
        _ => r matches Err(e) && e.kind@ == ErrorView::LossNeedsLossFunction && new == old,
    }
}

/// What `역전파` gives.
pub open spec fn backward_outcome<H: Host>(old: Interpreter<H>, new: Interpreter<H>, loss: ValueView, r: Result<Value, RuntimeError>) -> bool {
    match loss {
        ValueView::Tensor(t) => r matches Ok(x) && x@ == ValueView::Nothing
            && asked(old.torch, new.torch, TorchRequest::Backward { tensor: t }),
        _ => r matches Err(e) && e.kind@ == (ErrorView::ArgumentNotTensor { name: "역전파"@ }) && new == old,
    }
}

/// What `최대인덱스` gives.
pub open spec fn argmax_outcome<H: Host>(old: Interpreter<H>, new: Interpreter<H>, tensor: ValueView, dim: ValueView, r: Result<Value, RuntimeError>) -> bool {
    match (tensor, dim) {
        (ValueView::Tensor(t), ValueView::Int(d)) => asked(old.torch, new.torch, TorchRequest::ArgMax { tensor: t, dim: d })
            && (r matches Ok(x) && x@ == ValueView::Tensor(last_answer(new.torch).handle)),
        (ValueView::Tensor(_), _) => r matches Err(e) && e.kind@ == (ErrorView::ArgumentNotInt { name: "최대인덱스"@ }) && new == old,
        _ => r matches Err(e) && e.kind@ == (ErrorView::ArgumentNotTensor { name: "최대인덱스"@ }) && new == old,
    }
}

/// What `같은값개수` gives.
pub open spec fn count_equal_outcome<H: Host>(old: Interpreter<H>, new: Interpreter<H>, left: ValueView, right: ValueView, r: Result<Value, RuntimeError>) -> bool {
    match (left, right) {
        (ValueView::Tensor(a), ValueView::Tensor(b)) => asked(old.torch, new.torch, TorchRequest::CountEqual { left: a, right: b })
            && (r matches Ok(x) && x@ == ValueView::Int(last_answer(new.torch).count)),
        _ => r matches Err(e) && e.kind@ == (ErrorView::ArgumentNotTensor { name: "같은값개수"@ }) && new == old,
    }
}

/// What `학습모드로바꾸기` (`training == true`) and `평가모드로바꾸기` give and change.
pub open spec fn model_mode_outcome<H: Host>(old: Interpreter<H>, new: Interpreter<H>, model: ValueView, training: bool, r: Result<Value, RuntimeError>) -> bool {
    match model {
        ValueView::Host(HostValue::TorchModel(id)) => if id < old.torch.models@.len() {
            r matches Ok(x) && x@ == ValueView::Nothing
                && new.torch.models@ == old.torch.models@.update(id as int, training)
                && new.torch.datasets@ == old.torch.datasets@ && new.torch.loaders@ == old.torch.loaders@
                && new.torch.optimizers@ == old.torch.optimizers@ && new.torch.mnist_loaded == old.torch.mnist_loaded
                && new.torch.log == old.torch.log
        } else {
            r matches Err(e) && e.kind@ == ErrorView::InvalidModel && new.torch == old.torch
        },
        _ => r matches Err(e) && e.kind@ == ErrorView::NotModel && new.torch == old.torch,
    }
}

/// What `배치가져오기` gives.
pub open spec fn batch_outcome<H: Host>(old: Interpreter<H>, new: Interpreter<H>, loader: ValueView, index: ValueView, r: Result<Value, RuntimeError>) -> bool {
    match spec_batch_plan(old.torch, loader, index) {
        Ok(p) => asked(old.torch, new.torch, TorchRequest::FetchBatch { loader: p.0, dataset: p.1, start: p.2, count: p.3 })
            && (r matches Ok(x) && x@ == ValueView::Batch(last_answer(new.torch).handle)),
        Err(k) => r matches Err(e) && e.kind@ == k && new == old,
    }
}

impl<H: Host> Interpreter<H> {
    /// `순차신경망`: a model from a list of layers, registered under the next model number.
    pub fn build_sequential_network(&mut self, layers: &Value) -> (r: Result<Value, RuntimeError>)
        requires
            old(self).inv(),
            old(self).store.value_ok(layers@),
        ensures
            final(self).inv(),
            final(self).grows_from(old(self)),
            final(self).store == old(self).store,
            final(self).recorder == old(self).recorder,
            final(self).queries == old(self).queries,
            final(self).stream_events == old(self).stream_events,
            final(self).streamed == old(self).streamed,
            network_outcome(*old(self), *final(self), layers@, r),
    {
        proof {
            self.lemma_grows_refl();
        }
        let id = match layers {
            Value::List(id) => *id,
            _ => {
                return Err(RuntimeError::new(ErrorKind::ArgumentNotList { name: String::from_str("순차신경망") }));
            },
        };
        let items = self.store.list_items(id);
        let mut kinds: Vec<TorchLayerKind> = Vec::new();
        let mut i: usize = 0;
        while i < items.len()
            invariant
                *self == *old(self),
                self.inv(),
                layers@ == ValueView::List(id),
                id < self.store.lists@.len(),
                crate::value::values_view(items@) == self.store.list_view(id as int),
                i <= items@.len(),
                forall|k: int| 0 <= k < i ==> (#[trigger] items@[k])@ matches ValueView::Host(HostValue::TorchLayer(_)),
                kinds@.len() == i,
                forall|k: int| 0 <= k < i ==> kinds@[k] == layer_kind((#[trigger] items@[k])@),
            decreases items@.len() - i,
        {
            match &items[i] {
                Value::Host(HostValue::TorchLayer(kind)) => kinds.push(*kind),
                _ => {
                    proof {
                        assert(self.store.list_view(id as int)[i as int] == items@[i as int]@);
                    }
                    return Err(RuntimeError::new(ErrorKind::NotLayerList));
                },
            }
            i = i + 1;
        }
        proof {
            assert forall|k: int| 0 <= k < self.store.list_view(id as int).len() implies
                (#[trigger] self.store.list_view(id as int)[k]) matches ValueView::Host(HostValue::TorchLayer(_)) by {
                assert(self.store.list_view(id as int)[k] == items@[k]@);
            }
        }
        let model = self.torch.models.len();
        proof {
            assert(kinds@ =~= layer_kinds(self.store.list_view(id as int))) by {
                assert forall|k: int| 0 <= k < kinds@.len() implies kinds@[k] == layer_kinds(self.store.list_view(id as int))[k] by {
                    assert(self.store.list_view(id as int)[k] == items@[k]@);
                }
            }
        }
        let _ = self.torch.log.ask(&mut self.host, TorchRequest::BuildNetwork { model, layers: kinds });
        self.torch.models.push(true);
        proof {
            assert(self.torch.log.entries().drop_last() =~= old(self).torch.log.entries());
        }
        Ok(Value::Host(HostValue::TorchModel(model)))
    }

    /// `숫자손글씨데이터셋`: the MNIST training (`학습용: 참`) or test set,
    /// registered under the next dataset number with its sample count.
    pub fn build_mnist_dataset(&mut self, config: &Value) -> (r: Result<Value, RuntimeError>)
        requires
            old(self).inv(),
            old(self).store.value_ok(config@),
        ensures
            final(self).inv(),
            final(self).grows_from(old(self)),
            final(self).store == old(self).store,
            final(self).recorder == old(self).recorder,
            final(self).queries == old(self).queries,
            final(self).stream_events == old(self).stream_events,
            final(self).streamed == old(self).streamed,
            mnist_dataset_outcome(*old(self), *final(self), config@, r),
    {
        proof {
            self.lemma_grows_refl();
        }
        let rid = match config {
            Value::Record(rid) => *rid,
            _ => {
                return Err(RuntimeError::new(ErrorKind::ArgumentNotRecord { name: String::from_str("숫자손글씨데이터셋") }));
            },
        };
        let train = match bool_field(&self.store, rid, "학습용") {
            Ok(b) => b,
            Err(e) => return Err(e),
        };
        if !self.torch.mnist_loaded {
            let files = self.torch.log.ask(&mut self.host, TorchRequest::LoadMnistFiles);
            proof {
                assert(requests_since(old(self).torch, self.torch) =~= seq![(TorchRequest::LoadMnistFiles, files)]);
                assert(self.torch.log.entries().subrange(0, old(self).torch.log.entries().len() as int) =~= old(self).torch.log.entries());
            }
            match files.failure {
                Some(detail) => {
                    proof {
                        self.lemma_grows_refl();
                        old(self).lemma_grows_trans(old(self), self);
                    }
                    return Err(RuntimeError::new(ErrorKind::HostFailure { detail }));
                },
                None => {
                    self.torch.mnist_loaded = true;
                },
            }
        }
        let ghost read = *self;
        let dataset = self.torch.datasets.len();
        let answer = self.torch.log.ask(&mut self.host, TorchRequest::LoadMnist { dataset, train });
        let loaded = match answer.failure {
            None => Ok(answer.count),
            Some(detail) => Err(detail),
        };
        let r = self.register_mnist(loaded);
        proof {
            assert(self.torch.log.entries() =~= read.torch.log.entries().push((TorchRequest::LoadMnist { dataset, train }, answer)));
            assert(self.torch.log.entries().subrange(0, old(self).torch.log.entries().len() as int) =~= old(self).torch.log.entries());
            assert(requests_since(old(self).torch, self.torch) =~= requests_since(old(self).torch, read.torch).push((TorchRequest::LoadMnist { dataset, train }, answer)));
            if r is Ok {
                assert(self.torch.datasets@.drop_last() =~= old(self).torch.datasets@);
            }
        }
        r
    }

    /// Registers what loading an MNIST set gave: its sample count (a
    /// negative count read as none) under the next dataset number, or the
    /// host's reason as an error.
    pub fn register_mnist(&mut self, loaded: Result<i64, String>) -> (r: Result<Value, RuntimeError>)
        requires
            old(self).inv(),
        ensures
            final(self).inv(),
            final(self).grows_from(old(self)),
            final(self).store == old(self).store,
            final(self).recorder == old(self).recorder,
            final(self).queries == old(self).queries,
            final(self).streamed == old(self).streamed,
            final(self).stream_events == old(self).stream_events,
            final(self).torch.loaders@ == old(self).torch.loaders@,
            final(self).torch.models@ == old(self).torch.models@,
            final(self).torch.optimizers@ == old(self).torch.optimizers@,
            final(self).torch.mnist_loaded == old(self).torch.mnist_loaded,
            final(self).torch.log == old(self).torch.log,
            match loaded {
                Ok(count) => r matches Ok(x) && x@ == ValueView::Host(HostValue::TorchDataset(old(self).torch.datasets@.len() as usize))
                    && final(self).torch.datasets@ == old(self).torch.datasets@.push(if count < 0 { 0 } else { count }),
                Err(detail) => r matches Err(e) && e.kind == (ErrorKind::HostFailure { detail })
                    && final(self).torch.datasets@ == old(self).torch.datasets@,
            },
    {
        proof {
            self.lemma_grows_refl();
        }
        let dataset = self.torch.datasets.len();
        match loaded {
            Ok(count) => {
                // a tensor's size is never negative
                let samples = if count < 0 {
                    0
                } else {
                    count
                };
                self.torch.datasets.push(samples);
                Ok(Value::Host(HostValue::TorchDataset(dataset)))
            },
            Err(detail) => Err(RuntimeError::new(ErrorKind::HostFailure { detail })),
        }
    }

    /// `데이터로더`: a loader over a dataset in batches of `배치크기`,
    /// shuffled or not, registered under the next loader number.
    pub fn build_data_loader(&mut self, config: &Value) -> (r: Result<Value, RuntimeError>)
        requires
            old(self).inv(),
            old(self).store.value_ok(config@),
        ensures
            final(self).inv(),
            final(self).grows_from(old(self)),
            final(self).store == old(self).store,
            final(self).recorder == old(self).recorder,
            final(self).queries == old(self).queries,
            final(self).stream_events == old(self).stream_events,
            final(self).streamed == old(self).streamed,
            data_loader_outcome(*old(self), *final(self), config@, r),
    {
        proof {
            self.lemma_grows_refl();
        }
        let rid = match config {
            Value::Record(rid) => *rid,
            _ => {
                return Err(RuntimeError::new(ErrorKind::ArgumentNotRecord { name: String::from_str("데이터로더") }));
            },
        };
        let dataset = match dataset_field(&self.store, rid, "데이터셋") {
            Ok(d) => d,
            Err(e) => return Err(e),
        };
        let batch_size = match int_field(&self.store, rid, "배치크기") {
            Ok(b) => b,
            Err(e) => return Err(e),
        };
        if batch_size <= 0 {
            return Err(RuntimeError::new(ErrorKind::BatchSizeNotPositive));
        }
        let shuffle = match bool_field(&self.store, rid, "섞기여부") {
            Ok(b) => b,
            Err(e) => return Err(e),
        };
        if dataset >= self.torch.datasets.len() {
            return Err(RuntimeError::new(ErrorKind::InvalidDataset));
        }
        let count = self.torch.datasets[dataset];
        let len = batch_count(count, batch_size);
        let loader = self.torch.loaders.len();
        let _ = self.torch.log.ask(&mut self.host, TorchRequest::BuildLoader { loader, count, shuffle });
        proof {
            assert(self.torch.log.entries().drop_last() =~= old(self).torch.log.entries());
        }
        self.torch.loaders.push(LoaderInfo { dataset, batch_size, len });
        Ok(Value::Host(HostValue::TorchDataLoader(loader)))
    }

    /// `아담`: an Adam optimizer over a model's parameters, registered under
    /// the next optimizer number.
    pub fn build_adam_optimizer(&mut self, parameters: &Value, learning_rate: &Value) -> (r: Result<Value, RuntimeError>)
        requires
            old(self).inv(),
        ensures
            final(self).inv(),
            final(self).grows_from(old(self)),
            final(self).store == old(self).store,
            final(self).recorder == old(self).recorder,
            final(self).stream_events == old(self).stream_events,
            final(self).streamed == old(self).streamed,
            adam_outcome(*old(self), *final(self), parameters@, learning_rate@, r),
    {
        proof {
            self.lemma_grows_refl();
        }
        let model = match parameters {
            Value::Host(HostValue::TorchModelParameters(id)) => *id,
            Value::Host(HostValue::TorchModel(id)) => *id,
            _ => {
                return Err(RuntimeError::new(ErrorKind::AdamNeedsParameters));
            },
        };
        let rate = match learning_rate {
            Value::Int(i) => {
                if *i <= 0 {
                    return Err(RuntimeError::new(ErrorKind::LearningRateNotPositive));
                }
                self.queries.int_to_float(&mut self.host, *i)
            },
            Value::Float(b) => {
                if float_at_most_zero(*b) {
                    return Err(RuntimeError::new(ErrorKind::LearningRateNotPositive));
                }
                *b
            },
            _ => {
                return Err(RuntimeError::new(ErrorKind::ArgumentNotNumber { name: String::from_str("아담") }));
            },
        };
        if model >= self.torch.models.len() {
            return Err(RuntimeError::new(ErrorKind::InvalidModel));
        }
        let optimizer = self.torch.optimizers.len();
        let answer = self.torch.log.ask(&mut self.host, TorchRequest::BuildAdam { optimizer, model, learning_rate: rate });
        proof {
            assert(self.torch.log.entries().drop_last() =~= old(self).torch.log.entries());
        }
        match answer.failure {
            None => {
                self.torch.optimizers.push(model);
                Ok(Value::Host(HostValue::TorchOptimizer(optimizer)))
            },
            Some(detail) => Err(RuntimeError::new(ErrorKind::AdamBuildFailed { detail })),
        }
    }

    /// `기울기초기화` (`step == false`) and `매개변수갱신` (`step == true`).
    pub fn optimizer_action(&mut self, optimizer: &Value, step: bool) -> (r: Result<Value, RuntimeError>)
        ensures
            final(self).store == old(self).store,
            final(self).recorder == old(self).recorder,
            final(self).queries == old(self).queries,
            final(self).streamed == old(self).streamed,
            final(self).stream_events == old(self).stream_events,
            optimizer_action_outcome(*old(self), *final(self), optimizer@, step, r),
    {
        let id = match expect_optimizer_id(optimizer) {
            Ok(id) => id,
            Err(e) => return Err(e),
        };
        if id >= self.torch.optimizers.len() {
            return Err(RuntimeError::new(ErrorKind::InvalidOptimizer));
        }
        if step {
            let _ = self.torch.log.ask(&mut self.host, TorchRequest::OptimizerStep { optimizer: id });
        } else {
            let _ = self.torch.log.ask(&mut self.host, TorchRequest::ZeroGrad { optimizer: id });
        }
        proof {
            assert(self.torch.log.entries().drop_last() =~= old(self).torch.log.entries());
        }
        Ok(Value::Nothing)
    }

    /// What `순전파` would hand the host: the model, the input tensor and
    /// whether gradients are kept.
    pub fn forward_plan(&self, model: &Value, input: &Value) -> (r: Result<(usize, usize, bool), RuntimeError>)
        ensures
            match spec_forward_plan(self.torch.models@, model@, input@) {
                Ok(p) => r matches Ok(q) && q == p,
                Err(k) => r matches Err(e) && e.kind@ == k,
            },
    {
        let id = match expect_model_id(model) {
            Ok(id) => id,
            Err(e) => return Err(e),
        };
        let tensor = match expect_tensor("순전파", input) {
            Ok(t) => t,
            Err(e) => return Err(e),
        };
        if id >= self.torch.models.len() {
            return Err(RuntimeError::new(ErrorKind::InvalidModel));
        }
        Ok((id, tensor, self.torch.models[id]))
    }

    /// `순전파`: runs a model on a tensor, with gradients only in training mode.
    pub fn forward_model(&mut self, model: &Value, input: &Value) -> (r: Result<Value, RuntimeError>)
        ensures
            final(self).store == old(self).store,
            final(self).recorder == old(self).recorder,
            final(self).queries == old(self).queries,
            final(self).streamed == old(self).streamed,
            final(self).stream_events == old(self).stream_events,
            forward_outcome(*old(self), *final(self), model@, input@, r),
    {
        let (id, tensor, training) = match self.forward_plan(model, input) {
            Ok(p) => p,
            Err(e) => return Err(e),
        };
        let answer = self.torch.log.ask(&mut self.host, TorchRequest::Forward { model: id, input: tensor, training });
        proof {
            assert(self.torch.log.entries().drop_last() =~= old(self).torch.log.entries());
        }
        Ok(Value::Tensor(answer.handle))
    }

    /// `손실계산`: the loss of logits against labels.
    pub fn compute_loss(&mut self, loss_fn: &Value, logits: &Value, labels: &Value) -> (r: Result<Value, RuntimeError>)
        ensures
            final(self).store == old(self).store,
            final(self).recorder == old(self).recorder,
            final(self).queries == old(self).queries,
            final(self).streamed == old(self).streamed,
            final(self).stream_events == old(self).stream_events,
            loss_outcome(*old(self), *final(self), loss_fn@, logits@, labels@, r),
    {
        match loss_fn {
            Value::Host(HostValue::TorchLossFunction(_)) => {},
            _ => {
                return Err(RuntimeError::new(ErrorKind::LossNeedsLossFunction));
            },
        }
        let a = match expect_tensor("손실계산", logits) {
            Ok(t) => t,
            Err(e) => return Err(e),
        };
        let b = match expect_tensor("손실계산", labels) {
            Ok(t) => t,
            Err(e) => return Err(e),
        };
        let answer = self.torch.log.ask(&mut self.host, TorchRequest::CrossEntropy { logits: a, labels: b });
        proof {
            assert(self.torch.log.entries().drop_last() =~= old(self).torch.log.entries());
        }
        Ok(Value::Tensor(answer.handle))
    }

    /// `역전파`: back-propagates from a loss tensor.
    pub fn backward_tensor(&mut self, loss: &Value) -> (r: Result<Value, RuntimeError>)
        ensures
            final(self).store == old(self).store,
            final(self).recorder == old(self).recorder,
            final(self).queries == old(self).queries,
            final(self).streamed == old(self).streamed,
            final(self).stream_events == old(self).stream_events,
            backward_outcome(*old(self), *final(self), loss@, r),
    {
        let tensor = match expect_tensor("역전파", loss) {
            Ok(t) => t,
            Err(e) => return Err(e),
        };
        let _ = self.torch.log.ask(&mut self.host, TorchRequest::Backward { tensor });
        proof {
            assert(self.torch.log.entries().drop_last() =~= old(self).torch.log.entries());
        }
        Ok(Value::Nothing)
    }

    /// `최대인덱스`: the positions of the largest entries along a dimension.
    pub fn argmax_tensor(&mut self, tensor: &Value, dim: &Value) -> (r: Result<Value, RuntimeError>)
        ensures
            final(self).store == old(self).store,
            final(self).recorder == old(self).recorder,
            final(self).queries == old(self).queries,
            final(self).streamed == old(self).streamed,
            final(self).stream_events == old(self).stream_events,
            argmax_outcome(*old(self), *final(self), tensor@, dim@, r),
    {
        let t = match expect_tensor("최대인덱스", tensor) {
            Ok(t) => t,
            Err(e) => return Err(e),
        };
        let d = match expect_int("최대인덱스", dim) {
            Ok(d) => d,
            Err(e) => return Err(e),
        };
        let answer = self.torch.log.ask(&mut self.host, TorchRequest::ArgMax { tensor: t, dim: d });
        proof {
            assert(self.torch.log.entries().drop_last() =~= old(self).torch.log.entries());
        }
        Ok(Value::Tensor(answer.handle))
    }

    /// `같은값개수`: how many entries of two tensors are equal.
    pub fn count_equal(&mut self, left: &Value, right: &Value) -> (r: Result<Value, RuntimeError>)
        ensures
            final(self).store == old(self).store,
            final(self).recorder == old(self).recorder,
            final(self).queries == old(self).queries,
            final(self).streamed == old(self).streamed,
            final(self).stream_events == old(self).stream_events,
            count_equal_outcome(*old(self), *final(self), left@, right@, r),
    {
        let a = match expect_tensor("같은값개수", left) {
            Ok(t) => t,
            Err(e) => return Err(e),
        };
        let b = match expect_tensor("같은값개수", right) {
            Ok(t) => t,
            Err(e) => return Err(e),
        };
        let answer = self.torch.log.ask(&mut self.host, TorchRequest::CountEqual { left: a, right: b });
        proof {
            assert(self.torch.log.entries().drop_last() =~= old(self).torch.log.entries());
        }
        Ok(Value::Int(answer.count))
    }

    /// `학습모드로바꾸기` (`training == true`) and `평가모드로바꾸기`.
    pub fn set_model_mode(&mut self, model: &Value, training: bool) -> (r: Result<Value, RuntimeError>)
        requires
            old(self).inv(),
        ensures
            final(self).inv(),
            final(self).grows_from(old(self)),
            final(self).store == old(self).store,
            final(self).recorder == old(self).recorder,
            final(self).queries == old(self).queries,
            final(self).stream_events == old(self).stream_events,
            final(self).streamed == old(self).streamed,
            final(self).torch.datasets@ == old(self).torch.datasets@,
            final(self).torch.loaders@ == old(self).torch.loaders@,
            final(self).torch.optimizers@ == old(self).torch.optimizers@,
            final(self).torch.mnist_loaded == old(self).torch.mnist_loaded,
            final(self).torch.log == old(self).torch.log,
            model_mode_outcome(*old(self), *final(self), model@, training, r),
    {
        proof {
            self.lemma_grows_refl();
        }
        let id = match expect_model_id(model) {
            Ok(id) => id,
            Err(e) => return Err(e),
        };
        if id >= self.torch.models.len() {
            return Err(RuntimeError::new(ErrorKind::InvalidModel));
        }
        self.torch.models.set(id, training);
        Ok(Value::Nothing)
    }

    /// Which batch a loader serves for an index: its dataset, first sample
    /// and sample count.
    pub fn batch_plan(&self, loader: &Value, index: &Value) -> (r: Result<(usize, usize, i64, i64), RuntimeError>)
        requires
            self.torch.wf(),
        ensures
            match spec_batch_plan(self.torch, loader@, index@) {
                Ok(p) => r matches Ok(q) && q == p,
                Err(k) => r matches Err(e) && e.kind@ == k,
            },
            r matches Ok(p) ==> p.1 < self.torch.datasets@.len() && 0 <= p.2 && 1 <= p.3
                && p.2 + p.3 <= self.torch.datasets@[p.1 as int],
    {
        let l = match expect_loader_id(loader) {
            Ok(l) => l,
            Err(e) => return Err(e),
        };
        let i = match expect_int("배치가져오기", index) {
            Ok(i) => i,
            Err(e) => return Err(e),
        };
        if i < 0 {
            return Err(RuntimeError::new(ErrorKind::NegativeBatchIndex));
        }
        if l >= self.torch.loaders.len() {
            return Err(RuntimeError::new(ErrorKind::InvalidLoader));
        }
        let info = self.torch.loaders[l];
        if i >= info.len {
            return Err(RuntimeError::new(ErrorKind::BatchIndexOutOfRange));
        }
        let total = self.torch.datasets[info.dataset];
        let (start, count) = batch_range(total, info.batch_size, i);
        Ok((l, info.dataset, start, count))
    }

    /// `배치가져오기`: the batch a loader serves for an index.
    pub fn fetch_batch(&mut self, loader: &Value, index: &Value) -> (r: Result<Value, RuntimeError>)
        requires
            old(self).torch.wf(),
        ensures
            final(self).store == old(self).store,
            final(self).recorder == old(self).recorder,
            final(self).queries == old(self).queries,
            final(self).streamed == old(self).streamed,
            final(self).stream_events == old(self).stream_events,
            batch_outcome(*old(self), *final(self), loader@, index@, r),
    {
        let (l, dataset, start, count) = match self.batch_plan(loader, index) {
            Ok(p) => p,
            Err(e) => return Err(e),
        };
        let answer = self.torch.log.ask(&mut self.host, TorchRequest::FetchBatch { loader: l, dataset, start, count });
        proof {
            assert(self.torch.log.entries().drop_last() =~= old(self).torch.log.entries());
        }
        Ok(Value::Batch(answer.handle))
    }
}

} // verus!
