//! Calling functions: closures, named arguments, and the builtins.
use vstd::prelude::*;
use vstd::string::*;
use crate::builtins::{BuiltinFunction, HostValue, TorchLayerKind, TorchLossKind};
use crate::error::{ErrorKind, ErrorView, RuntimeError};
use crate::host::{Host, HostQuery, HostReply, QueryLog};
use crate::interp::{Interpreter, ExecSignal, MAX_DEPTH};
use crate::store::{assoc_get, has_key};
use crate::syntax::Span;
use crate::text::{parse_i64, spec_parse_i64, str_equal};
use crate::learning::{network_outcome, mnist_dataset_outcome, data_loader_outcome, adam_outcome,
    optimizer_action_outcome, forward_outcome, loss_outcome, backward_outcome, model_mode_outcome, batch_outcome,
    argmax_outcome, count_equal_outcome};
use crate::messages::values_of;
use crate::value::{Value, ValueView, FunctionValue, entries_view};

verus! {

/// The value a call's scope gives `key` when the first `n` parameters are
/// bound to the arguments in order: that of the last parameter with the
/// name, or none.
pub open spec fn param_value(params: Seq<String>, args: Seq<ValueView>, key: Seq<char>, n: int) -> Option<ValueView>
    decreases n,
{
    if n <= 0 {
        None
    } else if params[n - 1]@ == key {
        Some(args[n - 1])
    } else {
        param_value(params, args, key, n - 1)
    }
}

/// A call of program function `id` with arguments `args` from `old`:
/// `entered` is `old` with one new scope, inside the function's own scope,
/// binding each parameter to its argument; the body runs there as a block
/// `depth` levels deep, leaving `ran` with `rb`; the new scope is then
/// released unless something captured it, giving `new`. A `돌려준다` gives
/// its value, the end of the body gives `없음`, and an error is the call's
/// error with this call (the function's name, `call_span`) added to its
/// call stack.
pub open spec fn call_steps<H: Host>(
    old: Interpreter<H>,
    new: Interpreter<H>,
    id: usize,
    args: Seq<ValueView>,
    call_span: Option<Span>,
    depth: nat,
    r: Result<Value, RuntimeError>,
    entered: Interpreter<H>,
    ran: Interpreter<H>,
    rb: Result<ExecSignal, RuntimeError>,
) -> bool
    decreases depth, 3nat, 0nat, 0nat,
{
    let f = old.store.functions@[id as int];
    let frame = old.store.frames@.len();
    &&& entered.store.frames@.len() == frame + 1
    &&& forall|i: int| 0 <= i < frame ==> #[trigger] entered.store.frames@[i] == old.store.frames@[i]
    &&& entered.store.frames@[frame as int].parent == Some(f.env)
    &&& forall|key: Seq<char>| #[trigger] assoc_get(entered.store.frames_view()[frame as int].entries, key)
        == param_value(f.params@, args, key, args.len() as int)
    &&& entered.store.lists@ == old.store.lists@
    &&& entered.store.records@ == old.store.records@
    &&& entered.store.functions@ == old.store.functions@
    &&& entered.recorder == old.recorder
    &&& entered.torch == old.torch
    &&& entered.host == old.host
    &&& entered.stream_events == old.stream_events
    &&& crate::eval::block_run(entered, ran, (*f.body)@, frame as int, depth, rb)
    &&& new.store.lists@ == ran.store.lists@
    &&& new.store.records@ == ran.store.records@
    &&& new.store.functions@ == ran.store.functions@
    &&& new.store.frames@.len() <= ran.store.frames@.len()
    &&& forall|i: int| 0 <= i < new.store.frames@.len() ==> #[trigger] new.store.frames@[i] == ran.store.frames@[i]
    &&& new.recorder == ran.recorder
    &&& new.torch == ran.torch
    &&& new.host == ran.host
    &&& new.stream_events == ran.stream_events
    &&& match rb {
        Ok(ExecSignal::Continue) => r matches Ok(x) && x@ == ValueView::Nothing,
        Ok(ExecSignal::Return(v)) => r matches Ok(x) && x@ == v@,
        Err(e) => r matches Err(e2) && e2.kind == e.kind && e2.span == e.span
            && e2.call_stack@.len() == e.call_stack@.len() + 1
            && e2.call_stack@.drop_last() == e.call_stack@
            && e2.call_stack@.last().name@ == f.name@ && e2.call_stack@.last().span == call_span,
    }
}

/// What calling program function `id` with `args` does (see `call_steps`).
pub open spec fn call_run<H: Host>(
    old: Interpreter<H>,
    new: Interpreter<H>,
    id: usize,
    args: Seq<ValueView>,
    call_span: Option<Span>,
    depth: nat,
    r: Result<Value, RuntimeError>,
) -> bool
    decreases depth, 4nat, 0nat, 0nat,
{
    exists|entered: Interpreter<H>, ran: Interpreter<H>, rb: Result<ExecSignal, RuntimeError>|
        #[trigger] call_witness(entered, ran, rb) && call_steps(old, new, id, args, call_span, depth, r, entered, ran, rb)
}

/// A marker naming the states and signal of a call's body.
pub open spec fn call_witness<H: Host>(entered: Interpreter<H>, ran: Interpreter<H>, rb: Result<ExecSignal, RuntimeError>) -> bool {
    true
}

/// A call's outcome as the expression that made it reports it: the same
/// value, or the same error placed at `span` if it had no place.
pub open spec fn reported(rc: Result<Value, RuntimeError>, span: Option<Span>, r: Result<Value, RuntimeError>) -> bool {
    match rc {
        Ok(x) => r matches Ok(y) && y@ == x@,
        Err(e) => r matches Err(e2) && e2.kind == e.kind && e2.span == (if e.span is Some { e.span } else { span }),
    }
}

/// Calling the value `f` with `args` from `old`, `depth` levels deep, as
/// a call expression at `span` reports it, `rc` being the call's own
/// outcome: a program function with the wrong number of arguments is
/// refused, changing nothing; otherwise it runs (see `call_run`); a
/// builtin with the wrong number of arguments is refused, otherwise does
/// what `builtin_outcome` says; anything else cannot be called; with no
/// depth left the call stops with an error.
pub open spec fn callee_step<H: Host>(
    old: Interpreter<H>,
    new: Interpreter<H>,
    f: ValueView,
    args: Seq<ValueView>,
    span: Option<Span>,
    depth: nat,
    rc: Result<Value, RuntimeError>,
    r: Result<Value, RuntimeError>,
) -> bool
    decreases depth, 5nat, 0nat, 0nat,
{
    match f {
        ValueView::Function(FunctionValue::User(id)) => if old.store.functions@[id as int].params@.len() != args.len() {
            r matches Err(e) && e.kind == (ErrorKind::ArgumentCountMismatch {
                expected: old.store.functions@[id as int].params@.len() as usize,
                actual: args.len() as usize,
            }) && e.span == span && new == old
        } else if depth == 0 {
            r matches Err(e) && e.kind == ErrorKind::DepthExhausted && e.span == span && new == old
        } else {
            call_run(old, new, id, args, span, (depth - 1) as nat, rc) && reported(rc, span, r)
        },
        ValueView::Function(FunctionValue::Builtin(b)) => if depth == 0 {
            r matches Err(e) && e.kind == ErrorKind::DepthExhausted && e.span == span && new == old
        } else if args.len() != spec_arity(b) {
            r matches Err(e) && e.kind@ == (ErrorView::ArityMismatch { name: b.spec_name(), expected: spec_arity(b) as usize, actual: args.len() as usize })
                && new == old
        } else {
            builtin_outcome(old, new, b, args, rc) && reported(rc, span, r)
        },
        _ => r matches Err(e) && e.kind == ErrorKind::NotCallable && e.span == span && new == old,
    }
}

/// Calling the value `f` with `args` (see `callee_step`).
pub open spec fn callee_outcome<H: Host>(
    old: Interpreter<H>,
    new: Interpreter<H>,
    f: ValueView,
    args: Seq<ValueView>,
    span: Option<Span>,
    depth: nat,
    r: Result<Value, RuntimeError>,
) -> bool
    decreases depth, 6nat, 0nat, 0nat,
{
    exists|rc: Result<Value, RuntimeError>| #[trigger] outcome_witness(rc) && callee_step(old, new, f, args, span, depth, rc, r)
}

/// A marker naming a call's own outcome.
pub open spec fn outcome_witness(rc: Result<Value, RuntimeError>) -> bool {
    true
}

pub proof fn lemma_callee_outcome_intro<H: Host>(
    old: Interpreter<H>,
    new: Interpreter<H>,
    f: ValueView,
    args: Seq<ValueView>,
    span: Option<Span>,
    depth: nat,
    rc: Result<Value, RuntimeError>,
    r: Result<Value, RuntimeError>,
)
    requires
        callee_step(old, new, f, args, span, depth, rc, r),
    ensures
        callee_outcome(old, new, f, args, span, depth, r),
{
    assert(outcome_witness(rc));
}

impl<H: Host> Interpreter<H> {
    /// Calls a function value with positional arguments.
    pub fn call_value(&mut self, callee: Value, args: Vec<Value>, call_span: Option<Span>, depth: u64) -> (r: Result<Value, RuntimeError>)
        requires
            old(self).inv(),
            old(self).store.value_ok(callee@),
            forall|k: int| 0 <= k < args@.len() ==> old(self).store.value_ok((#[trigger] args@[k])@),
        ensures
            final(self).inv(),
            final(self).grows_from(old(self)),
            r matches Ok(v) ==> final(self).store.value_ok(v@),
            !(callee@ is Function) ==> (r matches Err(e) && e.kind == ErrorKind::NotCallable && e.span is None && *final(self) == *old(self)),
            callee@ matches ValueView::Function(FunctionValue::User(id)) ==> (
                old(self).store.functions@[id as int].params@.len() != args@.len() ==> (r matches Err(e) && e.span is None
                    && e.kind == (ErrorKind::ArgumentCountMismatch {
                        expected: old(self).store.functions@[id as int].params@.len() as usize,
                        actual: args@.len() as usize,
                    }) && *final(self) == *old(self))),
            callee@ matches ValueView::Function(FunctionValue::User(id)) ==> (old(self).store.functions@[id as int].params@.len() == args@.len()
                && depth > 0 ==> call_run(*old(self), *final(self), id, values_of(args@), call_span, (depth - 1) as nat, r)),
            callee@ is Function && depth == 0 && !(callee@ matches ValueView::Function(FunctionValue::User(id))
                && old(self).store.functions@[id as int].params@.len() != args@.len()) ==> (r matches Err(e)
                && e.kind == ErrorKind::DepthExhausted && e.span is None && *final(self) == *old(self)),
            callee@ matches ValueView::Function(FunctionValue::Builtin(f)) ==> (depth > 0 ==> (if args@.len() != spec_arity(f) {
                r matches Err(e) && e.kind@ == (ErrorView::ArityMismatch { name: f.spec_name(), expected: spec_arity(f) as usize, actual: args@.len() as usize })
                    && e.call_stack@.len() == 1 && e.call_stack@[0].name@ == f.spec_name() && *final(self) == *old(self)
            } else {
                builtin_outcome(*old(self), *final(self), f, values_of(args@), r)
                    && (r matches Err(e) ==> e.call_stack@.last().name@ == f.spec_name() && e.call_stack@.last().span == call_span)
            })),
        decreases depth,
    {
        proof {
            self.lemma_grows_refl();
        }
        match callee {
            Value::Function(FunctionValue::Builtin(function)) => {
                if depth == 0 {
                    return Err(RuntimeError::new(ErrorKind::DepthExhausted));
                }
                match self.call_builtin(function, args, depth - 1) {
                    Ok(v) => Ok(v),
                    Err(e) => Err(e.with_call_frame(String::from_str(function.name()), call_span)),
                }
            },
            Value::Function(FunctionValue::User(id)) => {
                let n_params = self.store.functions[id].params.len();
                if n_params != args.len() {
                    return Err(RuntimeError::new(ErrorKind::ArgumentCountMismatch { expected: n_params, actual: args.len() }));
                }
                if depth == 0 {
                    return Err(RuntimeError::new(ErrorKind::DepthExhausted));
                }
                let ghost start = *self;
                let ghost f = self.store.functions@[id as int];
                let ghost argv = values_of(args@);
                let fenv = self.store.functions[id].env;
                let name = self.store.functions[id].name.clone();
                let params = self.store.functions[id].params.clone();
                let body = self.store.functions[id].body.clone();
                let frame = self.store.new_frame(fenv);
                let mut i: usize = 0;
                while i < params.len()
                    invariant
                        self.inv(),
                        self.grows_from(&start),
                        frame < self.store.frames@.len(),
                        frame == start.store.frames@.len(),
                        params@.len() == args@.len(),
                        i <= params@.len(),
                        forall|k: int| 0 <= k < args@.len() ==> start.store.value_ok((#[trigger] args@[k])@),
                        params@ == f.params@,
                        argv == values_of(args@),
                        self.store.frames@.len() == frame + 1,
                        forall|j: int| 0 <= j < frame ==> #[trigger] self.store.frames@[j] == start.store.frames@[j],
                        self.store.frames@[frame as int].parent == Some(f.env),
                        forall|key: Seq<char>| #[trigger] assoc_get(self.store.frames_view()[frame as int].entries, key)
                            == param_value(f.params@, argv, key, i as int),
                        self.store.lists@ == start.store.lists@,
                        self.store.records@ == start.store.records@,
                        self.store.functions@ == start.store.functions@,
                        self.recorder == start.recorder,
                        self.torch == start.torch,
                        self.host == start.host,
                        self.stream_events == start.stream_events,
                    decreases params@.len() - i,
                {
                    let ghost before = *self;
                    self.store.frame_insert(frame, params[i].as_str(), args[i].copy());
                    proof {
                        self.lemma_grows_refl();
                        start.lemma_grows_trans(&before, self);
                        assert forall|key: Seq<char>| #[trigger] assoc_get(self.store.frames_view()[frame as int].entries, key)
                            == param_value(f.params@, argv, key, i + 1) by {
                            assert(argv[i as int] == args@[i as int]@);
                        }
                    }
                    i = i + 1;
                }
                let ghost mid = *self;
                let result = self.execute_block(&*body, frame, depth - 1);
                let ghost ran = *self;
                let ghost rb = result;
                proof {
                    start.lemma_grows_trans(&mid, self);
                }
                let ghost before_release = *self;
                self.store.release_frame(frame);
                proof {
                    assert(self.store.frames@.len() >= start.store.frames@.len());
                    lemma_release_grows(before_release, *self, start);
                }
                let r = match result {
                    Ok(ExecSignal::Continue) => Ok(Value::Nothing),
                    Ok(ExecSignal::Return(v)) => Ok(v),
                    Err(e) => {
                        let e2 = e.with_call_frame(name, call_span);
                        proof {
                            assert(e2.call_stack@.drop_last() =~= e.call_stack@);
                        }
                        Err(e2)
                    },
                };
                proof {
                    assert(call_steps(*old(self), *self, id, argv, call_span, (depth - 1) as nat, r, mid, ran, rb));
                    assert(call_witness(mid, ran, rb));
                }
                r
            },
            _ => Err(RuntimeError::new(ErrorKind::NotCallable)),
        }
    }
}

/// The arguments a named call hands over, in parameter order: for each
/// parameter the value its name is given.
pub open spec fn named_args(entries: Seq<(Seq<char>, ValueView)>, params: Seq<String>) -> Seq<ValueView> {
    params.map_values(|p: String| assoc_get(entries, p@).unwrap())
}

/// Whether some parameter is named `key`.
pub open spec fn param_named(params: Seq<String>, key: Seq<char>) -> bool {
    exists|j: int| 0 <= j < params.len() && (#[trigger] params[j])@ == key
}

/// Entry `i` is the first named argument the function has no parameter for.
pub open spec fn first_unknown_at(entries: Seq<(Seq<char>, ValueView)>, params: Seq<String>, i: int) -> bool {
    &&& 0 <= i < entries.len()
    &&& !param_named(params, entries[i].0)
    &&& forall|k: int| 0 <= k < i ==> param_named(params, (#[trigger] entries[k]).0)
}

/// Parameter `i` is the first one no named argument gives.
pub open spec fn first_missing_at(entries: Seq<(Seq<char>, ValueView)>, params: Seq<String>, i: int) -> bool {
    &&& 0 <= i < params.len()
    &&& !has_key(entries, params[i]@)
    &&& forall|k: int| 0 <= k < i ==> has_key(entries, (#[trigger] params[k])@)
}

/// What calling `callee` with the arguments named in the record `named`
/// promises, `depth` levels deep from `old`: only a program's function can
/// be called so; every name must be a parameter and every parameter named,
/// else the first offender is refused and nothing changes; otherwise the
/// function is called with the named values in parameter order (see
/// `call_run`).
pub open spec fn named_call_post<H: Host>(
    old: Interpreter<H>,
    new: Interpreter<H>,
    callee: ValueView,
    named: ValueView,
    call_span: Option<Span>,
    depth: nat,
    r: Result<Value, RuntimeError>,
) -> bool
    decreases depth, 5nat, 0nat, 0nat,
{
    &&& new.inv()
    &&& new.grows_from(&old)
    &&& r matches Ok(v) ==> new.store.value_ok(v@)
    &&& !(callee is Function) ==> (r matches Err(e) && e.kind == ErrorKind::NotCallable && new == old)
    &&& callee matches ValueView::Function(FunctionValue::Builtin(f)) ==> (r matches Err(e)
        && e.kind@ == (ErrorView::NamedCallOnBuiltin { name: f.spec_name() }) && new == old)
    &&& callee matches ValueView::Function(FunctionValue::User(id)) ==> match named {
        ValueView::Record(rid) => {
            let entries = old.store.record_view(rid as int);
            let f = old.store.functions@[id as int];
            &&& forall|i: int| first_unknown_at(entries, f.params@, i) ==> (r matches Err(e)
                && e.kind@ == (ErrorView::UnknownNamedArgument { function: f.name@, key: entries[i].0 })
                && new == old)
            &&& forall|i: int| (forall|k: int| 0 <= k < entries.len() ==> param_named(f.params@, (#[trigger] entries[k]).0))
                && first_missing_at(entries, f.params@, i) ==> (r matches Err(e)
                && e.kind@ == (ErrorView::MissingNamedArgument { function: f.name@, param: f.params@[i]@ })
                && new == old)
            &&& (forall|k: int| 0 <= k < entries.len() ==> param_named(f.params@, (#[trigger] entries[k]).0))
                && (forall|k: int| 0 <= k < f.params@.len() ==> has_key(entries, (#[trigger] f.params@[k])@))
                && depth > 1 ==> call_run(old, new, id, named_args(entries, f.params@), call_span, (depth - 2) as nat, r)
        },
        _ => r matches Err(e) && e.kind@ == (ErrorView::ArgumentNotRecord { name: "호출한다"@ }) && new == old,
    }
}

impl<H: Host> Interpreter<H> {
    /// Whether function `id` has a parameter named `key`.
    fn has_param(&self, id: usize, key: &str) -> (r: bool)
        requires
            id < self.store.functions@.len(),
        ensures
            r == param_named(self.store.functions@[id as int].params@, key@),
    {
        let mut i: usize = 0;
        while i < self.store.functions[id].params.len()
            invariant
                id < self.store.functions@.len(),
                i <= self.store.functions@[id as int].params@.len(),
                forall|k: int| 0 <= k < i ==> (#[trigger] self.store.functions@[id as int].params@[k])@ != key@,
            decreases self.store.functions@[id as int].params@.len() - i,
        {
            if str_equal(self.store.functions[id].params[i].as_str(), key) {
                return true;
            }
            i = i + 1;
        }
        false
    }

    /// `f을 호출한다 { a: 1, b: 2 }`: calls a program's function with its
    /// arguments given by parameter name.
    pub fn call_named_value(&mut self, callee: Value, named: Value, call_span: Option<Span>, depth: u64) -> (r: Result<Value, RuntimeError>)
        requires
            old(self).inv(),
            old(self).store.value_ok(callee@),
            old(self).store.value_ok(named@),
        ensures
            named_call_post(*old(self), *final(self), callee@, named@, call_span, depth as nat, r),
        decreases depth,
    {
        proof {
            self.lemma_grows_refl();
        }
        match callee {
            Value::Function(FunctionValue::User(id)) => {
                let rid = match named {
                    Value::Record(rid) => rid,
                    _ => {
                        return Err(RuntimeError::new(ErrorKind::ArgumentNotRecord { name: String::from_str("호출한다") }));
                    },
                };
                let ghost entries = self.store.record_view(rid as int);
                let ghost params = self.store.functions@[id as int].params@;
                let entries_vec = self.store.record_entries(rid);
                let mut i: usize = 0;
                while i < entries_vec.len()
                    invariant
                        *self == *old(self),
                        self.inv(),
                        callee@ == ValueView::Function(FunctionValue::User(id)),
                        named@ == ValueView::Record(rid),
                        id < self.store.functions@.len(),
                        rid < self.store.records@.len(),
                        entries == self.store.record_view(rid as int),
                        params == self.store.functions@[id as int].params@,
                        entries_view(entries_vec@) == entries,
                        i <= entries_vec@.len(),
                        forall|k: int| 0 <= k < i ==> param_named(params, (#[trigger] entries[k]).0),
                    decreases entries_vec@.len() - i,
                {
                    if !self.has_param(id, entries_vec[i].0.as_str()) {
                        proof {
                            assert(entries[i as int].0 == entries_vec@[i as int].0@);
                            assert(first_unknown_at(entries, params, i as int));
                            assert forall|j: int| first_unknown_at(entries, params, j) implies j == i by {
                                if j < i {
                                    assert(param_named(params, entries[j].0));
                                } else if j > i {
                                    assert(param_named(params, entries[i as int].0));
                                }
                            }
                        }
                        return Err(RuntimeError::new(ErrorKind::UnknownNamedArgument {
                            function: self.store.functions[id].name.clone(),
                            key: entries_vec[i].0.clone(),
                        }));
                    }
                    proof {
                        assert(entries[i as int].0 == entries_vec@[i as int].0@);
                    }
                    i = i + 1;
                }
                let mut ordered: Vec<Value> = Vec::new();
                let mut j: usize = 0;
                while j < self.store.functions[id].params.len()
                    invariant
                        *self == *old(self),
                        self.inv(),
                        callee@ == ValueView::Function(FunctionValue::User(id)),
                        named@ == ValueView::Record(rid),
                        id < self.store.functions@.len(),
                        rid < self.store.records@.len(),
                        params == self.store.functions@[id as int].params@,
                        entries == self.store.record_view(rid as int),
                        forall|k: int| 0 <= k < entries.len() ==> param_named(params, (#[trigger] entries[k]).0),
                        j <= params.len(),
                        ordered@.len() == j,
                        forall|k: int| 0 <= k < j ==> has_key(entries, (#[trigger] params[k])@),
                        forall|k: int| 0 <= k < j ==> self.store.value_ok((#[trigger] ordered@[k])@),
                        forall|k: int| 0 <= k < j ==> Some((#[trigger] ordered@[k])@) == assoc_get(entries, params[k]@),
                    decreases params.len() - j,
                {
                    match self.store.record_get(rid, self.store.functions[id].params[j].as_str()) {
                        Some(v) => {
                            ordered.push(v);
                        },
                        None => {
                            proof {
                                assert(first_missing_at(entries, params, j as int));
                                assert forall|m: int| first_missing_at(entries, params, m) implies m == j by {
                                    if m < j {
                                        assert(has_key(entries, params[m]@));
                                    } else if m > j {
                                        assert(has_key(entries, params[j as int]@));
                                    }
                                }
                                assert forall|m: int| #![auto] first_unknown_at(entries, params, m) implies false by {
                                    assert(param_named(params, entries[m].0));
                                }
                            }
                            return Err(RuntimeError::new(ErrorKind::MissingNamedArgument {
                                function: self.store.functions[id].name.clone(),
                                param: self.store.functions[id].params[j].clone(),
                            }));
                        },
                    }
                    j = j + 1;
                }
                proof {
                    assert forall|m: int| #![auto] first_unknown_at(entries, params, m) implies false by {
                        assert(param_named(params, entries[m].0));
                    }
                    assert forall|m: int| #![auto] first_missing_at(entries, params, m) implies false by {
                        assert(has_key(entries, params[m]@));
                    }
                }
                if depth == 0 {
                    return Err(RuntimeError::new(ErrorKind::DepthExhausted));
                }
                proof {
                    assert(values_of(ordered@) =~= named_args(entries, params));
                }
                self.call_value(Value::Function(FunctionValue::User(id)), ordered, call_span, depth - 1)
            },
            Value::Function(FunctionValue::Builtin(f)) => {
                Err(RuntimeError::new(ErrorKind::NamedCallOnBuiltin { name: String::from_str(f.name()) }))
            },
            _ => Err(RuntimeError::new(ErrorKind::NotCallable)),
        }
    }
}

/// How many arguments each builtin takes.
pub open spec fn spec_arity(f: BuiltinFunction) -> nat {
    match f {
        BuiltinFunction::CurrentTimeSeconds | BuiltinFunction::FlattenLayer | BuiltinFunction::ReluLayer
        | BuiltinFunction::CrossEntropyLoss => 0,
        BuiltinFunction::Push | BuiltinFunction::LinearLayer | BuiltinFunction::AdamOptimizer
        | BuiltinFunction::Forward | BuiltinFunction::FetchBatch | BuiltinFunction::ArgMax
        | BuiltinFunction::CountEqual => 2,
        BuiltinFunction::ComputeLoss => 3,
        _ => 1,
    }
}

fn arity(f: BuiltinFunction) -> (r: usize)
    ensures
        r == spec_arity(f),
{
    match f {
        BuiltinFunction::CurrentTimeSeconds | BuiltinFunction::FlattenLayer | BuiltinFunction::ReluLayer
        | BuiltinFunction::CrossEntropyLoss => 0,
        BuiltinFunction::Push | BuiltinFunction::LinearLayer | BuiltinFunction::AdamOptimizer
        | BuiltinFunction::Forward | BuiltinFunction::FetchBatch | BuiltinFunction::ArgMax
        | BuiltinFunction::CountEqual => 2,
        BuiltinFunction::ComputeLoss => 3,
        _ => 1,
    }
}

/// What `길이` gives for a list, a string or a record.
pub open spec fn spec_length(store: crate::store::Store, v: ValueView) -> Option<int> {
    match v {
        ValueView::List(id) => Some(store.list_view(id as int).len() as int),
        ValueView::Str(s) => Some(s.len() as int),
        ValueView::Record(id) => Some(store.record_view(id as int).len() as int),
        _ => None,
    }
}

/// What `정수로` gives without the host: integers stay, strings are parsed.
pub open spec fn spec_to_int(v: ValueView) -> Option<Result<i64, ErrorKind>> {
    match v {
        ValueView::Int(i) => Some(Ok(i)),
        ValueView::Float(_) => None,
        ValueView::Str(s) => Some(match spec_parse_i64(s) {
            Some(i) => Ok(i),
            None => Err(ErrorKind::StringToInt),
        }),
        _ => Some(Err(ErrorKind::ToIntUnsupported)),
    }
}

/// `정수로` of a double and `실수로` of an integer or a string, which the host
/// converts: the one question it was asked, and that its reply is the
/// result (a string that does not read as a double is refused).
pub open spec fn conversion_by_host(oldq: QueryLog, newq: QueryLog, f: BuiltinFunction, a: ValueView, r: Result<Value, RuntimeError>) -> bool {
    match (f, a) {
        (BuiltinFunction::ToInt, ValueView::Float(b)) => r matches Ok(x) && x@ matches ValueView::Int(i)
            && newq.asked(&oldq, HostQuery::FloatToInt { bits: b }, HostReply::Int(i)),
        (BuiltinFunction::ToFloat, ValueView::Int(i)) => r matches Ok(x) && x@ matches ValueView::Float(g)
            && newq.asked(&oldq, HostQuery::IntToFloat { value: i }, HostReply::Float(g)),
        (BuiltinFunction::ToFloat, ValueView::Str(s)) => {
            &&& newq.entries() == oldq.entries().push(newq.entries().last())
            &&& newq.entries().last().0 matches HostQuery::ParseFloat { text } && text@ == s
            &&& match newq.entries().last().1 {
                HostReply::MaybeFloat(Some(g)) => r matches Ok(x) && x@ == ValueView::Float(g),
                HostReply::MaybeFloat(None) => r matches Err(e) && e.kind == ErrorKind::StringToFloat,
                _ => false,
            }
        },
        _ => true,
    }
}

/// The builtins that make or use PyTorch objects.
pub open spec fn uses_torch(f: BuiltinFunction) -> bool {
    match f {
        BuiltinFunction::SequentialNetwork | BuiltinFunction::BuildMnistDataset | BuiltinFunction::BuildDataLoader
        | BuiltinFunction::AdamOptimizer | BuiltinFunction::ZeroGrad | BuiltinFunction::Forward
        | BuiltinFunction::ComputeLoss | BuiltinFunction::Backward | BuiltinFunction::OptimizerStep
        | BuiltinFunction::SetTrainMode | BuiltinFunction::SetEvalMode | BuiltinFunction::FetchBatch
        | BuiltinFunction::ArgMax | BuiltinFunction::CountEqual => true,
        _ => false,
    }
}

/// What no builtin call changes: the record of the run and the terminal;
/// the store, but for `추가` and `마지막꺼내기`; the PyTorch objects, but for
/// the builtins that use them.
pub open spec fn builtin_keeps<H: Host>(old: Interpreter<H>, new: Interpreter<H>, f: BuiltinFunction) -> bool {
    &&& new.recorder == old.recorder
    &&& new.stream_events == old.stream_events
    &&& new.streamed == old.streamed
    &&& (f != BuiltinFunction::Push && f != BuiltinFunction::PopLast) ==> new.store == old.store
    &&& !uses_torch(f) ==> new.torch == old.torch
}

/// What builtin `f` gives for the right number of arguments `a`, and what
/// it changes.
pub open spec fn builtin_outcome<H: Host>(old: Interpreter<H>, new: Interpreter<H>, f: BuiltinFunction, a: Seq<ValueView>, r: Result<Value, RuntimeError>) -> bool {
    match f {
        BuiltinFunction::Length => match spec_length(old.store, a[0]) {
            Some(n) => r matches Ok(x) && x@ == ValueView::Int(n as i64) && new == old,
            None => r matches Err(e) && e.kind == ErrorKind::LengthUnsupported && new == old,
        },
        BuiltinFunction::CurrentTimeSeconds => r matches Ok(x) && x@ matches ValueView::Float(g)
            && new.queries.asked(&old.queries, HostQuery::ElapsedSeconds, HostReply::Float(g)),
        BuiltinFunction::Push => match a[0] {
            ValueView::List(id) => r matches Ok(x) && x@ == ValueView::Nothing
                && new.store.list_view(id as int) == old.store.list_view(id as int).push(a[1])
                && new.store.lists@.len() == old.store.lists@.len()
                && (forall|l: int| 0 <= l < old.store.lists@.len() && l != id ==> #[trigger] new.store.lists@[l] == old.store.lists@[l])
                && new.store.records@ == old.store.records@ && new.store.frames@ == old.store.frames@
                && new.store.functions@ == old.store.functions@ && new.recorder == old.recorder && new.torch == old.torch
                && new.host == old.host && new.stream_events == old.stream_events && new.streamed == old.streamed,
            _ => r matches Err(e) && e.kind == ErrorKind::PushTargetNotList && new == old,
        },
        BuiltinFunction::PopLast => match a[0] {
            ValueView::List(id) => if old.store.list_view(id as int).len() == 0 {
                r matches Err(e) && e.kind == ErrorKind::PopLastFromEmpty && new == old
            } else {
                r matches Ok(x) && x@ == old.store.list_view(id as int).last()
                    && new.store.list_view(id as int) == old.store.list_view(id as int).drop_last()
                    && new.store.lists@.len() == old.store.lists@.len()
                    && (forall|l: int| 0 <= l < old.store.lists@.len() && l != id ==> #[trigger] new.store.lists@[l] == old.store.lists@[l])
                    && new.store.records@ == old.store.records@ && new.store.frames@ == old.store.frames@
                    && new.store.functions@ == old.store.functions@ && new.torch == old.torch
            },
            _ => r matches Err(e) && e.kind == ErrorKind::PopLastNotList && new == old,
        },
        BuiltinFunction::ToString => (r matches Ok(x) && x@ matches ValueView::Str(t) && crate::ops::render_fits(old.store, a[0], MAX_DEPTH as nat, t, new.queries.since(&old.queries)))
            && (a[0] matches ValueView::Float(b) ==> (r matches Ok(Value::Str(s))
                && new.queries.asked(&old.queries, HostQuery::RenderFloat { bits: b }, HostReply::Text(s))))
            && new.only_host_changed(&old) && (crate::ops::spec_render(old.store, a[0], MAX_DEPTH as nat) matches Some(t)
            ==> (r matches Ok(x) && x@ == ValueView::Str(t))),
        BuiltinFunction::ToInt => (r matches Ok(x) ==> x@ is Int) && conversion_by_host(old.queries, new.queries, f, a[0], r) && (spec_to_int(a[0]) matches Some(res) ==> match res {
            Ok(i) => r matches Ok(x) && x@ == ValueView::Int(i),
            Err(k) => r matches Err(e) && e.kind == k,
        }),
        BuiltinFunction::ToFloat => (r matches Ok(x) ==> x@ is Float) && conversion_by_host(old.queries, new.queries, f, a[0], r)
            && (a[0] matches ValueView::Float(b) ==> (r matches Ok(x) && x@ == ValueView::Float(b)))
            && (!(a[0] is Int || a[0] is Float || a[0] is Str) ==> (r matches Err(e) && e.kind == ErrorKind::ToFloatUnsupported)),
        BuiltinFunction::FlattenLayer => r matches Ok(x) && x@ == ValueView::Host(HostValue::TorchLayer(TorchLayerKind::Flatten)),
        BuiltinFunction::LinearLayer => match (a[0], a[1]) {
            (ValueView::Int(i), ValueView::Int(o)) => r matches Ok(x)
                && x@ == ValueView::Host(HostValue::TorchLayer(TorchLayerKind::Linear { in_features: i, out_features: o })),
            _ => r matches Err(e) && e.kind@ == (ErrorView::ArgumentNotInt { name: "선형층"@ }),
        },
        BuiltinFunction::ReluLayer => r matches Ok(x) && x@ == ValueView::Host(HostValue::TorchLayer(TorchLayerKind::Relu)),
        BuiltinFunction::SequentialNetwork => network_outcome(old, new, a[0], r),
        BuiltinFunction::BuildMnistDataset => mnist_dataset_outcome(old, new, a[0], r),
        BuiltinFunction::BuildDataLoader => data_loader_outcome(old, new, a[0], r),
        BuiltinFunction::CrossEntropyLoss => r matches Ok(x) && x@ == ValueView::Host(HostValue::TorchLossFunction(TorchLossKind::CrossEntropy)),
        BuiltinFunction::AdamOptimizer => adam_outcome(old, new, a[0], a[1], r),
        BuiltinFunction::ZeroGrad => optimizer_action_outcome(old, new, a[0], false, r),
        BuiltinFunction::Forward => forward_outcome(old, new, a[0], a[1], r),
        BuiltinFunction::ComputeLoss => loss_outcome(old, new, a[0], a[1], a[2], r),
        BuiltinFunction::Backward => backward_outcome(old, new, a[0], r),
        BuiltinFunction::OptimizerStep => optimizer_action_outcome(old, new, a[0], true, r),
        BuiltinFunction::SetTrainMode => model_mode_outcome(old, new, a[0], true, r),
        BuiltinFunction::SetEvalMode => model_mode_outcome(old, new, a[0], false, r),
        BuiltinFunction::FetchBatch => batch_outcome(old, new, a[0], a[1], r),
        BuiltinFunction::ArgMax => argmax_outcome(old, new, a[0], a[1], r),
        BuiltinFunction::CountEqual => count_equal_outcome(old, new, a[0], a[1], r),
    }
}

impl<H: Host> Interpreter<H> {
    /// Calls a builtin.
    pub fn call_builtin(&mut self, function: BuiltinFunction, args: Vec<Value>, depth: u64) -> (r: Result<Value, RuntimeError>)
        requires
            old(self).inv(),
            forall|k: int| 0 <= k < args@.len() ==> old(self).store.value_ok((#[trigger] args@[k])@),
        ensures
            final(self).inv(),
            final(self).grows_from(old(self)),
            r matches Ok(v) ==> final(self).store.value_ok(v@),
            args@.len() != spec_arity(function) ==> (r matches Err(e) && e.kind matches ErrorKind::ArityMismatch { name, expected, actual }
                && name@ == function.spec_name() && expected == spec_arity(function) && actual == args@.len()
                && e.call_stack@.len() == 0 && *final(self) == *old(self)),
            args@.len() == spec_arity(function) ==> builtin_outcome(*old(self), *final(self), function, values_of(args@), r),
            builtin_keeps(*old(self), *final(self), function),
    {
        proof {
            self.lemma_grows_refl();
        }
        let expected = arity(function);
        if args.len() != expected {
            return Err(RuntimeError::new(ErrorKind::ArityMismatch {
                name: String::from_str(function.name()),
                expected,
                actual: args.len(),
            }));
        }
        match function {
            BuiltinFunction::Length => self.builtin_length(&args[0]),
            BuiltinFunction::CurrentTimeSeconds => {
                let seconds = self.queries.elapsed_seconds(&mut self.host);
                proof {
                    crate::interp::lemma_prefix_push(old(self).queries.entries(), (HostQuery::ElapsedSeconds, HostReply::Float(seconds)));
                }
                Ok(Value::Float(seconds))
            },
            BuiltinFunction::Push => self.builtin_push(&args[0], &args[1]),
            BuiltinFunction::PopLast => self.builtin_pop_last(&args[0]),
            BuiltinFunction::ToString => Ok(Value::Str(self.render(&args[0], MAX_DEPTH))),
            BuiltinFunction::ToInt => self.builtin_to_int(&args[0]),
            BuiltinFunction::ToFloat => self.builtin_to_float(&args[0]),
            BuiltinFunction::FlattenLayer => Ok(Value::Host(HostValue::TorchLayer(TorchLayerKind::Flatten))),
            BuiltinFunction::LinearLayer => {
                let in_features = match expect_int("선형층", &args[0]) {
                    Ok(i) => i,
                    Err(e) => return Err(e),
                };
                let out_features = match expect_int("선형층", &args[1]) {
                    Ok(i) => i,
                    Err(e) => return Err(e),
                };
                Ok(Value::Host(HostValue::TorchLayer(TorchLayerKind::Linear { in_features, out_features })))
            },
            BuiltinFunction::ReluLayer => Ok(Value::Host(HostValue::TorchLayer(TorchLayerKind::Relu))),
            BuiltinFunction::SequentialNetwork => self.build_sequential_network(&args[0]),
            BuiltinFunction::BuildMnistDataset => self.build_mnist_dataset(&args[0]),
            BuiltinFunction::BuildDataLoader => self.build_data_loader(&args[0]),
            BuiltinFunction::CrossEntropyLoss => Ok(Value::Host(HostValue::TorchLossFunction(TorchLossKind::CrossEntropy))),
            BuiltinFunction::AdamOptimizer => self.build_adam_optimizer(&args[0], &args[1]),
            BuiltinFunction::ZeroGrad => self.optimizer_action(&args[0], false),
            BuiltinFunction::Forward => self.forward_model(&args[0], &args[1]),
            BuiltinFunction::ComputeLoss => self.compute_loss(&args[0], &args[1], &args[2]),
            BuiltinFunction::Backward => self.backward_tensor(&args[0]),
            BuiltinFunction::OptimizerStep => self.optimizer_action(&args[0], true),
            BuiltinFunction::SetTrainMode => self.set_model_mode(&args[0], true),
            BuiltinFunction::SetEvalMode => self.set_model_mode(&args[0], false),
            BuiltinFunction::FetchBatch => self.fetch_batch(&args[0], &args[1]),
            BuiltinFunction::ArgMax => self.argmax_tensor(&args[0], &args[1]),
            BuiltinFunction::CountEqual => self.count_equal(&args[0], &args[1]),
        }
    }

    /// `길이`.
    fn builtin_length(&mut self, v: &Value) -> (r: Result<Value, RuntimeError>)
        requires
            old(self).inv(),
            old(self).store.value_ok(v@),
        ensures
            *final(self) == *old(self),
            match spec_length(old(self).store, v@) {
                Some(n) => r matches Ok(x) && x@ == ValueView::Int(n as i64),
                None => r matches Err(e) && e.kind == ErrorKind::LengthUnsupported,
            },
    {
        match v {
            Value::List(id) => Ok(Value::Int(self.store.list_len(*id) as i64)),
            Value::Str(text) => Ok(Value::Int(text.as_str().unicode_len() as i64)),
            Value::Record(id) => Ok(Value::Int(self.store.record_len(*id) as i64)),
            _ => Err(RuntimeError::new(ErrorKind::LengthUnsupported)),
        }
    }

    /// `추가`: appends to a list.
    fn builtin_push(&mut self, list: &Value, v: &Value) -> (r: Result<Value, RuntimeError>)
        requires
            old(self).inv(),
            old(self).store.value_ok(list@),
            old(self).store.value_ok(v@),
        ensures
            final(self).inv(),
            final(self).grows_from(old(self)),
            r matches Ok(x) ==> x@ == ValueView::Nothing,
            match list@ {
                ValueView::List(id) => r is Ok && final(self).store.list_view(id as int) == old(self).store.list_view(id as int).push(v@)
                    && final(self).store.lists@.len() == old(self).store.lists@.len()
                    && (forall|l: int| 0 <= l < old(self).store.lists@.len() && l != id ==> #[trigger] final(self).store.lists@[l] == old(self).store.lists@[l])
                    && final(self).store.records@ == old(self).store.records@ && final(self).store.frames@ == old(self).store.frames@
                    && final(self).store.functions@ == old(self).store.functions@ && final(self).recorder == old(self).recorder
                    && final(self).torch == old(self).torch && final(self).host == old(self).host
                    && final(self).stream_events == old(self).stream_events && final(self).streamed == old(self).streamed,
                _ => r matches Err(e) && e.kind == ErrorKind::PushTargetNotList && *final(self) == *old(self),
            },
    {
        proof {
            self.lemma_grows_refl();
        }
        match list {
            Value::List(id) => {
                self.store.list_push(*id, v.copy());
                proof {
                    self.lemma_grows_refl();
                }
                Ok(Value::Nothing)
            },
            _ => Err(RuntimeError::new(ErrorKind::PushTargetNotList)),
        }
    }

    /// `마지막꺼내기`: removes and gives back a list's last element.
    fn builtin_pop_last(&mut self, list: &Value) -> (r: Result<Value, RuntimeError>)
        requires
            old(self).inv(),
            old(self).store.value_ok(list@),
        ensures
            final(self).inv(),
            final(self).grows_from(old(self)),
            r matches Ok(x) ==> final(self).store.value_ok(x@),
            match list@ {
                ValueView::List(id) => if old(self).store.list_view(id as int).len() == 0 {
                    r matches Err(e) && e.kind == ErrorKind::PopLastFromEmpty && *final(self) == *old(self)
                } else {
                    r matches Ok(x) && x@ == old(self).store.list_view(id as int).last()
                        && final(self).store.list_view(id as int) == old(self).store.list_view(id as int).drop_last()
                        && final(self).store.lists@.len() == old(self).store.lists@.len()
                        && (forall|l: int| 0 <= l < old(self).store.lists@.len() && l != id ==> #[trigger] final(self).store.lists@[l] == old(self).store.lists@[l])
                        && final(self).store.records@ == old(self).store.records@ && final(self).store.frames@ == old(self).store.frames@
                        && final(self).store.functions@ == old(self).store.functions@ && final(self).torch == old(self).torch
                        && final(self).recorder == old(self).recorder && final(self).stream_events == old(self).stream_events
                        && final(self).streamed == old(self).streamed
                },
                _ => r matches Err(e) && e.kind == ErrorKind::PopLastNotList && *final(self) == *old(self),
            },
    {
        proof {
            self.lemma_grows_refl();
        }
        match list {
            Value::List(id) => {
                if self.store.list_len(*id) == 0 {
                    return Err(RuntimeError::new(ErrorKind::PopLastFromEmpty));
                }
                let popped = self.store.list_pop(*id);
                proof {
                    self.lemma_grows_refl();
                }
                match popped {
                    Some(v) => Ok(v),
                    None => Err(RuntimeError::new(ErrorKind::PopLastFromEmpty)),
                }
            },
            _ => Err(RuntimeError::new(ErrorKind::PopLastNotList)),
        }
    }

    /// `정수로`.
    fn builtin_to_int(&mut self, v: &Value) -> (r: Result<Value, RuntimeError>)
        ensures
            final(self).only_host_changed(old(self)),
            r matches Ok(x) ==> x@ is Int,
            conversion_by_host(old(self).queries, final(self).queries, BuiltinFunction::ToInt, v@, r),
            spec_to_int(v@) matches Some(res) ==> (match res {
                Ok(i) => r matches Ok(x) && x@ == ValueView::Int(i),
                Err(k) => r matches Err(e) && e.kind == k,
            }),
    {
        match v {
            Value::Int(i) => Ok(Value::Int(*i)),
            Value::Float(b) => Ok(Value::Int(self.queries.float_to_int(&mut self.host, *b))),
            Value::Str(s) => match parse_i64(s.as_str()) {
                Some(i) => Ok(Value::Int(i)),
                None => Err(RuntimeError::new(ErrorKind::StringToInt)),
            },
            _ => Err(RuntimeError::new(ErrorKind::ToIntUnsupported)),
        }
    }

    /// `실수로`.
    fn builtin_to_float(&mut self, v: &Value) -> (r: Result<Value, RuntimeError>)
        ensures
            final(self).only_host_changed(old(self)),
            r matches Ok(x) ==> x@ is Float,
            conversion_by_host(old(self).queries, final(self).queries, BuiltinFunction::ToFloat, v@, r),
            v@ matches ValueView::Float(b) ==> (r matches Ok(x) && x@ == ValueView::Float(b)),
            !(v@ is Int || v@ is Float || v@ is Str) ==> (r matches Err(e) && e.kind == ErrorKind::ToFloatUnsupported),
    {
        match v {
            Value::Int(i) => Ok(Value::Float(self.queries.int_to_float(&mut self.host, *i))),
            Value::Float(b) => Ok(Value::Float(*b)),
            Value::Str(s) => match self.queries.parse_float(&mut self.host, s) {
                Some(b) => Ok(Value::Float(b)),
                None => Err(RuntimeError::new(ErrorKind::StringToFloat)),
            },
            _ => Err(RuntimeError::new(ErrorKind::ToFloatUnsupported)),
        }
    }
}

/// An integer argument of builtin `name`.
pub fn expect_int(name: &str, v: &Value) -> (r: Result<i64, RuntimeError>)
    ensures
        v@ matches ValueView::Int(i) ==> r == Ok::<i64, RuntimeError>(i),
        !(v@ is Int) ==> (r matches Err(e) && e.kind matches ErrorKind::ArgumentNotInt { name: n } && n@ == name@),
{
    match v {
        Value::Int(i) => Ok(*i),
        _ => Err(RuntimeError::new(ErrorKind::ArgumentNotInt { name: String::from_str(name) })),
    }
}

/// A tensor argument of builtin `name`.
pub fn expect_tensor(name: &str, v: &Value) -> (r: Result<usize, RuntimeError>)
    ensures
        v@ matches ValueView::Tensor(t) ==> r == Ok::<usize, RuntimeError>(t),
        !(v@ is Tensor) ==> (r matches Err(e) && e.kind matches ErrorKind::ArgumentNotTensor { name: n } && n@ == name@),
{
    match v {
        Value::Tensor(t) => Ok(*t),
        _ => Err(RuntimeError::new(ErrorKind::ArgumentNotTensor { name: String::from_str(name) })),
    }
}

/// A model handle.
pub fn expect_model_id(v: &Value) -> (r: Result<usize, RuntimeError>)
    ensures
        v@ matches ValueView::Host(HostValue::TorchModel(id)) ==> r == Ok::<usize, RuntimeError>(id),
        !(v@ matches ValueView::Host(HostValue::TorchModel(_))) ==> (r matches Err(e) && e.kind == ErrorKind::NotModel),
{
    match v {
        Value::Host(HostValue::TorchModel(id)) => Ok(*id),
        _ => Err(RuntimeError::new(ErrorKind::NotModel)),
    }
}

/// An optimizer handle.
pub fn expect_optimizer_id(v: &Value) -> (r: Result<usize, RuntimeError>)
    ensures
        v@ matches ValueView::Host(HostValue::TorchOptimizer(id)) ==> r == Ok::<usize, RuntimeError>(id),
        !(v@ matches ValueView::Host(HostValue::TorchOptimizer(_))) ==> (r matches Err(e) && e.kind == ErrorKind::NotOptimizer),
{
    match v {
        Value::Host(HostValue::TorchOptimizer(id)) => Ok(*id),
        _ => Err(RuntimeError::new(ErrorKind::NotOptimizer)),
    }
}

/// A data loader handle.
pub fn expect_loader_id(v: &Value) -> (r: Result<usize, RuntimeError>)
    ensures
        v@ matches ValueView::Host(HostValue::TorchDataLoader(id)) ==> r == Ok::<usize, RuntimeError>(id),
        !(v@ matches ValueView::Host(HostValue::TorchDataLoader(_))) ==> (r matches Err(e) && e.kind == ErrorKind::NotLoader),
{
    match v {
        Value::Host(HostValue::TorchDataLoader(id)) => Ok(*id),
        _ => Err(RuntimeError::new(ErrorKind::NotLoader)),
    }
}

pub proof fn lemma_release_grows<H: Host>(before: Interpreter<H>, after: Interpreter<H>, start: Interpreter<H>)
    requires
        before.grows_from(&start),
        after.store.frames@.len() >= start.store.frames@.len(),
        after.store.lists@ == before.store.lists@,
        after.store.records@ == before.store.records@,
        after.store.functions@ == before.store.functions@,
        after.recorder == before.recorder,
        after.torch == before.torch,
        after.stream_events == before.stream_events,
        after.queries == before.queries,
        after.streamed == before.streamed,
        0 < after.store.frames@.len() <= before.store.frames@.len(),
        forall|i: int| 0 <= i < after.store.frames@.len() ==> #[trigger] after.store.frames@[i] == before.store.frames@[i],
    ensures
        after.grows_from(&start),
{
    assert(after.store.frames@[0] == before.store.frames@[0]);
    assert(after.store.frames_view()[0] == before.store.frames_view()[0]);
}

} // verus!
