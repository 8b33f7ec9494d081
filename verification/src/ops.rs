//! Operators, equality, indexing and how values print.
use vstd::prelude::*;
use vstd::string::*;
use crate::arith::{int_div, int_rem, spec_checked_div, spec_checked_rem, both_exact, ints_exact_as_floats};
use crate::builtins::{HostValue, TorchLayerKind};
use crate::error::{ErrorKind, RuntimeError};
use crate::host::{Host, FloatArith, FloatOrder, HostQuery, HostReply, QueryLog, float_negate, float_sign, float_exponent, float_fraction};
use crate::interp::Interpreter;
use crate::store::{Store, assoc_get, has_key};
use crate::syntax::{UnaryOp, BinaryOp};
use crate::text::{i64_to_text, int_text, str_equal};
use crate::value::{Value, ValueView, FunctionValue};

verus! {

broadcast use vstd::seq::group_seq_axioms;

/// Items separated by `", "`.
pub open spec fn join(items: Seq<Seq<char>>) -> Seq<char>
    decreases items.len(),
{
    if items.len() == 0 {
        Seq::empty()
    } else if items.len() == 1 {
        items[0]
    } else {
        join(items.drop_last()) + ", "@ + items.last()
    }
}

/// How a value that holds no double prints; `None` for doubles and for
/// lists and records (see `spec_render`).
pub open spec fn spec_render_scalar(v: ValueView) -> Option<Seq<char>> {
    match v {
        ValueView::Int(i) => Some(int_text(i as int)),
        ValueView::Bool(b) => Some(if b { "참"@ } else { "거짓"@ }),
        ValueView::Str(s) => Some(s),
        ValueView::Nothing => Some("없음"@),
        ValueView::Function(FunctionValue::Builtin(f)) => Some(f.spec_display()),
        ValueView::Function(FunctionValue::User(_)) => Some("<함수>"@),
        ValueView::Host(h) => Some(spec_render_host(h)),
        ValueView::Tensor(_) => Some("<텐서>"@),
        ValueView::Batch(_) => Some("<배치>"@),
        _ => None,
    }
}

/// How a host handle prints.
pub open spec fn spec_render_host(h: HostValue) -> Seq<char> {
    match h {
        HostValue::Canvas => "<그림판>"@,
        HostValue::TorchLayer(TorchLayerKind::Flatten) => "<레이어 평탄화>"@,
        HostValue::TorchLayer(TorchLayerKind::Relu) => "<레이어 렐루>"@,
        HostValue::TorchLayer(TorchLayerKind::Linear { .. }) => "<레이어 선형층>"@,
        HostValue::TorchDataset(_) => "<MNIST 데이터셋>"@,
        HostValue::TorchDataLoader(_) => "<데이터로더>"@,
        HostValue::TorchModel(_) => "<신경망 모델>"@,
        HostValue::TorchModelParameters(_) => "<모델 매개변수>"@,
        HostValue::TorchLossFunction(_) => "<손실함수>"@,
        HostValue::TorchOptimizer(_) => "<최적화기>"@,
    }
}

/// How a value prints, seen `depth` levels deep: lists as `[a, b]`,
/// records as `{ k: v, ... }` in key order. `None` when a double occurs
/// (the host prints those) or the depth runs out.
pub open spec fn spec_render(store: Store, v: ValueView, depth: nat) -> Option<Seq<char>>
    decreases depth, 0nat,
{
    match v {
        ValueView::List(id) => if depth == 0 || id >= store.lists@.len() {
            None
        } else {
            match render_seq(store, store.list_view(id as int), (depth - 1) as nat) {
                Some(texts) => Some("["@ + join(texts) + "]"@),
                None => None,
            }
        },
        ValueView::Record(id) => if depth == 0 || id >= store.records@.len() {
            None
        } else {
            match render_entries(store, store.record_view(id as int), (depth - 1) as nat) {
                Some(texts) => Some("{ "@ + join(texts) + " }"@),
                None => None,
            }
        },
        _ => spec_render_scalar(v),
    }
}

/// A marker naming the texts a list's or record's parts print as.
pub open spec fn texts_witness(ts: Seq<Seq<char>>) -> bool {
    true
}

/// Whether entry `e` of a log of host questions asked how the double
/// `bits` prints and was answered `t`.
pub open spec fn printed_as(e: (HostQuery, HostReply), bits: u64, t: Seq<char>) -> bool {
    &&& e.0 == (HostQuery::RenderFloat { bits })
    &&& e.1 matches HostReply::Text(s) && s@ == t
}

/// Whether `t` is how `v` prints, seen `depth` levels deep, where `asked`
/// holds the host's answers about doubles: a double as the host answered
/// when asked how it prints; a list as `[`, its elements' texts joined by
/// `, `, and `]`; a record as `{ `, its `key: text` entries in key order
/// joined by `, `, and ` }`; anything else as `spec_render_scalar` says; a
/// list or record with no depth left prints as nothing.
pub open spec fn render_fits(store: Store, v: ValueView, depth: nat, t: Seq<char>, asked: Seq<(HostQuery, HostReply)>) -> bool
    decreases depth, 1nat,
{
    match v {
        ValueView::Float(b) => exists|k: int| 0 <= k < asked.len() && printed_as(#[trigger] asked[k], b, t),
        ValueView::List(id) => if depth == 0 {
            t == Seq::<char>::empty()
        } else {
            let items = store.list_view(id as int);
            exists|ts: Seq<Seq<char>>| #[trigger] texts_witness(ts) && ts.len() == items.len()
                && (forall|k: int| 0 <= k < items.len() ==> render_fits(store, #[trigger] items[k], (depth - 1) as nat, ts[k], asked))
                && t == "["@ + join(ts) + "]"@
        },
        ValueView::Record(id) => if depth == 0 {
            t == Seq::<char>::empty()
        } else {
            let entries = store.record_view(id as int);
            exists|ts: Seq<Seq<char>>| #[trigger] texts_witness(ts) && ts.len() == entries.len()
                && (forall|k: int| 0 <= k < entries.len() ==> entry_fits(store, #[trigger] entries[k], (depth - 1) as nat, ts[k], asked))
                && t == "{ "@ + join(ts) + " }"@
        },
        _ => spec_render_scalar(v) == Some(t),
    }
}

/// Whether `t` is how a record entry prints: its key, `: `, and a text
/// its value prints as (see `render_fits`).
pub open spec fn entry_fits(store: Store, entry: (Seq<char>, ValueView), depth: nat, t: Seq<char>, asked: Seq<(HostQuery, HostReply)>) -> bool
    decreases depth, 2nat,
{
    exists|u: Seq<char>| #[trigger] text_witness(u) && render_fits(store, entry.1, depth, u, asked) && t == entry.0 + ": "@ + u
}

/// A text a value prints as stays so when the host is asked more.
pub proof fn lemma_render_fits_grows(store: Store, v: ValueView, depth: nat, t: Seq<char>, a: Seq<(HostQuery, HostReply)>, b: Seq<(HostQuery, HostReply)>)
    requires
        render_fits(store, v, depth, t, a),
        forall|x: (HostQuery, HostReply)| a.contains(x) ==> #[trigger] b.contains(x),
    ensures
        render_fits(store, v, depth, t, b),
    decreases depth, 1nat,
{
    match v {
        ValueView::Float(bits) => {
            let k = choose|k: int| 0 <= k < a.len() && printed_as(#[trigger] a[k], bits, t);
            let x = a[k];
            assert(a.contains(x)) by {
                assert(0 <= k < a.len() && a[k] == x);
            }
            assert(b.contains(x));
            let j = choose|j: int| 0 <= j < b.len() && b[j] == x;
            assert(printed_as(b[j], bits, t));
        },
        ValueView::List(id) => if depth > 0 {
            let items = store.list_view(id as int);
            let ts = choose|ts: Seq<Seq<char>>| #[trigger] texts_witness(ts) && ts.len() == items.len()
                && (forall|k: int| 0 <= k < items.len() ==> render_fits(store, #[trigger] items[k], (depth - 1) as nat, ts[k], a))
                && t == "["@ + join(ts) + "]"@;
            assert forall|k: int| 0 <= k < items.len() implies render_fits(store, #[trigger] items[k], (depth - 1) as nat, ts[k], b) by {
                lemma_render_fits_grows(store, items[k], (depth - 1) as nat, ts[k], a, b);
            }
            assert(texts_witness(ts));
        },
        ValueView::Record(id) => if depth > 0 {
            let entries = store.record_view(id as int);
            let ts = choose|ts: Seq<Seq<char>>| #[trigger] texts_witness(ts) && ts.len() == entries.len()
                && (forall|k: int| 0 <= k < entries.len() ==> entry_fits(store, #[trigger] entries[k], (depth - 1) as nat, ts[k], a))
                && t == "{ "@ + join(ts) + " }"@;
            assert forall|k: int| 0 <= k < entries.len() implies entry_fits(store, #[trigger] entries[k], (depth - 1) as nat, ts[k], b) by {
                lemma_entry_fits_grows(store, entries[k], (depth - 1) as nat, ts[k], a, b);
            }
            assert(texts_witness(ts));
        },
        _ => {},
    }
}

/// A text an entry prints as stays so when the host is asked more.
pub proof fn lemma_entry_fits_grows(store: Store, entry: (Seq<char>, ValueView), depth: nat, t: Seq<char>, a: Seq<(HostQuery, HostReply)>, b: Seq<(HostQuery, HostReply)>)
    requires
        entry_fits(store, entry, depth, t, a),
        forall|x: (HostQuery, HostReply)| a.contains(x) ==> #[trigger] b.contains(x),
    ensures
        entry_fits(store, entry, depth, t, b),
    decreases depth, 2nat,
{
    let u = choose|u: Seq<char>| #[trigger] text_witness(u) && render_fits(store, entry.1, depth, u, a) && t == entry.0 + ": "@ + u;
    lemma_render_fits_grows(store, entry.1, depth, u, a, b);
    assert(text_witness(u));
}

/// A marker naming the text a value prints as.
pub open spec fn text_witness(u: Seq<char>) -> bool {
    true
}

/// The texts of list elements.
pub open spec fn render_seq(store: Store, items: Seq<ValueView>, depth: nat) -> Option<Seq<Seq<char>>>
    decreases depth, items.len(),
{
    if items.len() == 0 {
        Some(Seq::empty())
    } else {
        match (render_seq(store, items.drop_last(), depth), spec_render(store, items.last(), depth)) {
            (Some(ts), Some(t)) => Some(ts.push(t)),
            _ => None,
        }
    }
}

/// The `key: value` texts of record entries.
pub open spec fn render_entries(store: Store, entries: Seq<(Seq<char>, ValueView)>, depth: nat) -> Option<Seq<Seq<char>>>
    decreases depth, entries.len(),
{
    if entries.len() == 0 {
        Some(Seq::empty())
    } else {
        match (render_entries(store, entries.drop_last(), depth), spec_render(store, entries.last().1, depth)) {
            (Some(ts), Some(t)) => Some(ts.push(entries.last().0 + ": "@ + t)),
            _ => None,
        }
    }
}

/// Equality of two values, seen `depth` levels deep, where the outcome
/// does not hang on a double: integers, booleans, strings, `없음`, host
/// handles, tensors and batches by identity; lists element by element,
/// records key by key. Functions never equal anything. `None` when the
/// outcome rests on comparing doubles (the host's answer) or the depth
/// runs out.
pub open spec fn spec_equal(store: Store, a: ValueView, b: ValueView, depth: nat) -> Option<bool>
    decreases depth,
{
    match (a, b) {
        (ValueView::Int(x), ValueView::Int(y)) => Some(x == y),
        (ValueView::Float(_), ValueView::Float(_)) => None,
        (ValueView::Int(_), ValueView::Float(_)) => None,
        (ValueView::Float(_), ValueView::Int(_)) => None,
        (ValueView::Bool(x), ValueView::Bool(y)) => Some(x == y),
        (ValueView::Str(x), ValueView::Str(y)) => Some(x == y),
        (ValueView::Nothing, ValueView::Nothing) => Some(true),
        (ValueView::Tensor(x), ValueView::Tensor(y)) => Some(x == y),
        (ValueView::Batch(x), ValueView::Batch(y)) => Some(x == y),
        (ValueView::Host(x), ValueView::Host(y)) => Some(x == y),
        (ValueView::List(x), ValueView::List(y)) => if depth == 0 || x >= store.lists@.len() || y
            >= store.lists@.len() {
            None
        } else {
            let xs = store.list_view(x as int);
            let ys = store.list_view(y as int);
            if xs.len() != ys.len() {
                Some(false)
            } else if exists|i: int| 0 <= i < xs.len() && spec_equal(store, #[trigger] xs[i], ys[i], (depth - 1) as nat) == Some(false) {
                Some(false)
            } else if forall|i: int| 0 <= i < xs.len() ==> spec_equal(store, #[trigger] xs[i], ys[i], (depth - 1) as nat) == Some(true) {
                Some(true)
            } else {
                None
            }
        },
        (ValueView::Record(x), ValueView::Record(y)) => if depth == 0 || x >= store.records@.len()
            || y >= store.records@.len() {
            None
        } else {
            let xs = store.record_view(x as int);
            let ys = store.record_view(y as int);
            if xs.len() != ys.len() {
                Some(false)
            } else if exists|i: int| 0 <= i < xs.len() && (!has_key(ys, (#[trigger] xs[i]).0) || spec_equal(store, xs[i].1, assoc_get(ys, xs[i].0).unwrap(), (depth - 1) as nat) == Some(false)) {
                Some(false)
            } else if forall|i: int| 0 <= i < xs.len() ==> has_key(ys, (#[trigger] xs[i]).0) && spec_equal(store, xs[i].1, assoc_get(ys, xs[i].0).unwrap(), (depth - 1) as nat) == Some(true) {
                Some(true)
            } else {
                None
            }
        },
        _ => Some(false),
    }
}

/// Whether a value is a number (an integer or a double).
pub open spec fn is_number(v: ValueView) -> bool {
    v is Int || v is Float
}

proof fn lemma_entry_fits_intro(store: Store, entry: (Seq<char>, ValueView), depth: nat, t: Seq<char>, u: Seq<char>, asked: Seq<(HostQuery, HostReply)>)
    requires
        render_fits(store, entry.1, depth, u, asked),
        t == entry.0 + ": "@ + u,
    ensures
        entry_fits(store, entry, depth, t, asked),
{
    assert(text_witness(u));
}

impl<H: Host> Interpreter<H> {
    /// The text a value prints as (`출력한다`, `문자열로`).
    pub fn render(&mut self, v: &Value, depth: u64) -> (r: String)
        requires
            old(self).inv(),
            old(self).store.value_ok(v@),
        ensures
            final(self).store == old(self).store,
            final(self).recorder == old(self).recorder,
            final(self).torch == old(self).torch,
            final(self).stream_events == old(self).stream_events,
            final(self).streamed == old(self).streamed,
            spec_render(old(self).store, v@, depth as nat) matches Some(t) ==> r@ == t,
            render_fits(old(self).store, v@, depth as nat, r@, final(self).queries.since(&old(self).queries)),
            v@ matches ValueView::Float(b) ==> final(self).queries.asked(&old(self).queries, HostQuery::RenderFloat { bits: b }, HostReply::Text(r)),
            old(self).queries.entries().is_prefix_of(final(self).queries.entries()),
            final(self).queries.extends(&old(self).queries),
        decreases depth,
    {
        proof {
            crate::interp::lemma_prefix_refl(self.queries.entries());
            QueryLog::lemma_extends_refl(self.queries);
        }
        match v {
            Value::Int(i) => i64_to_text(*i),
            Value::Float(bits) => {
                let t = self.queries.render_float(&mut self.host, *bits);
                proof {
                    crate::interp::lemma_prefix_push(old(self).queries.entries(), (HostQuery::RenderFloat { bits: *bits }, HostReply::Text(t)));
                    QueryLog::lemma_asked_since(old(self).queries, self.queries, HostQuery::RenderFloat { bits: *bits }, HostReply::Text(t));
                    assert(printed_as(self.queries.since(&old(self).queries)[0], *bits, t@));
                }
                t
            },
            Value::Bool(b) => if *b {
                String::from_str("참")
            } else {
                String::from_str("거짓")
            },
            Value::Str(s) => s.clone(),
            Value::Nothing => String::from_str("없음"),
            Value::Function(FunctionValue::Builtin(f)) => f.display_text(),
            Value::Function(FunctionValue::User(_)) => String::from_str("<함수>"),
            Value::Host(h) => render_host(*h),
            Value::Tensor(_) => String::from_str("<텐서>"),
            Value::Batch(_) => String::from_str("<배치>"),
            Value::List(id) => {
                if depth == 0 {
                    return String::new();
                }
                let items = self.store.list_items(*id);
                let ghost store = self.store;
                let ghost views = store.list_view(*id as int);
                let mut out = String::from_str("[");
                let mut i: usize = 0;
                let ghost mut texts: Seq<Seq<char>> = Seq::empty();
                proof {
                    assert(views.take(0) =~= Seq::<ValueView>::empty());
                    assert forall|k: int| 0 <= k < views.len() implies store.value_ok(#[trigger] views[k]) by {
                        assert(store.lists@[*id as int] == store.lists@[*id as int]);
                        assert(views[k] == store.lists@[*id as int]@[k]@);
                    }
                }
                while i < items.len()
                    invariant
                        self.inv(),
                        depth > 0,
                        self.store == store,
                        self.recorder == old(self).recorder,
                        self.torch == old(self).torch,
                        self.stream_events == old(self).stream_events,
                        self.streamed == old(self).streamed,
                        old(self).queries.entries().is_prefix_of(self.queries.entries()),
                        store == old(self).store,
                        *id < store.lists@.len(),
                        views == store.list_view(*id as int),
                        crate::value::values_view(items@) == views,
                        forall|k: int| 0 <= k < views.len() ==> store.value_ok(#[trigger] views[k]),
                        i <= items@.len(),
                        render_seq(store, views.take(i as int), (depth - 1) as nat) matches Some(ts) ==> (ts == texts && out@ == "["@ + join(texts)),
                        texts.len() == i,
                        out@ == "["@ + join(texts),
                        self.queries.extends(&old(self).queries),
                        forall|k: int| 0 <= k < i ==> render_fits(store, #[trigger] views[k], (depth - 1) as nat, texts[k], self.queries.since(&old(self).queries)),
                    decreases items@.len() - i,
                {
                    let ghost prev = out@;
                    if i > 0 {
                        out.append(", ");
                    }
                    assert(views[i as int] == items@[i as int]@);
                    let ghost q_before = self.queries.entries();
                    let ghost log_before = self.queries;
                    let t = self.render(&items[i], depth - 1);
                    proof {
                        crate::interp::lemma_prefix_trans(old(self).queries.entries(), q_before, self.queries.entries());
                        QueryLog::lemma_since_grows(old(self).queries, log_before, self.queries);
                        lemma_render_fits_grows(store, views[i as int], (depth - 1) as nat, t@,
                            self.queries.since(&log_before), self.queries.since(&old(self).queries));
                        assert forall|k: int| 0 <= k < i implies render_fits(store, #[trigger] views[k], (depth - 1) as nat, texts[k], self.queries.since(&old(self).queries)) by {
                            lemma_render_fits_grows(store, views[k], (depth - 1) as nat, texts[k],
                                log_before.since(&old(self).queries), self.queries.since(&old(self).queries));
                        }
                    }
                    out.append(t.as_str());
                    proof {
                        let old_texts = texts;
                        texts = texts.push(t@);
                        if i > 0 {
                            assert(texts.drop_last() =~= old_texts);
                            assert(out@ =~= "["@ + join(texts));
                        } else {
                            assert(texts =~= seq![t@]);
                            assert(out@ =~= "["@ + join(texts));
                        }
                        assert forall|k: int| 0 <= k < i + 1 implies render_fits(store, #[trigger] views[k], (depth - 1) as nat, texts[k], self.queries.since(&old(self).queries)) by {
                            if k < i {
                                assert(texts[k] == old_texts[k]);
                            }
                        }
                        assert(views.take(i + 1).drop_last() =~= views.take(i as int));
                        assert(views.take(i + 1).last() == views[i as int]);
                        if i > 0 {
                            assert(texts.drop_last() =~= old_texts);
                        } else {
                            assert(texts =~= seq![t@]);
                        }
                    }
                    i = i + 1;
                }
                let ghost before = out@;
                out.append("]");
                proof {
                    assert(views.take(views.len() as int) =~= views);
                    assert(texts_witness(texts));
                    assert(out@ =~= "["@ + join(texts) + "]"@);
                }
                out
            },
            Value::Record(id) => {
                if depth == 0 {
                    return String::new();
                }
                let entries = self.store.record_entries(*id);
                let ghost store = self.store;
                let ghost views = store.record_view(*id as int);
                let mut out = String::from_str("{ ");
                let mut i: usize = 0;
                let ghost mut texts: Seq<Seq<char>> = Seq::empty();
                proof {
                    assert(views.take(0) =~= Seq::<(Seq<char>, ValueView)>::empty());
                    assert forall|k: int| 0 <= k < views.len() implies store.value_ok((#[trigger] views[k]).1) by {
                        assert(store.records@[*id as int] == store.records@[*id as int]);
                        assert(views[k].1 == store.records@[*id as int]@[k].1@);
                    }
                }
                while i < entries.len()
                    invariant
                        self.inv(),
                        depth > 0,
                        self.store == store,
                        self.recorder == old(self).recorder,
                        self.torch == old(self).torch,
                        self.stream_events == old(self).stream_events,
                        self.streamed == old(self).streamed,
                        old(self).queries.entries().is_prefix_of(self.queries.entries()),
                        store == old(self).store,
                        *id < store.records@.len(),
                        views == store.record_view(*id as int),
                        crate::value::entries_view(entries@) == views,
                        forall|k: int| 0 <= k < views.len() ==> store.value_ok((#[trigger] views[k]).1),
                        i <= entries@.len(),
                        render_entries(store, views.take(i as int), (depth - 1) as nat) matches Some(ts) ==> (ts == texts && out@ == "{ "@ + join(texts)),
                        texts.len() == i,
                        out@ == "{ "@ + join(texts),
                        self.queries.extends(&old(self).queries),
                        forall|k: int| 0 <= k < i ==> entry_fits(store, #[trigger] views[k], (depth - 1) as nat, texts[k], self.queries.since(&old(self).queries)),
                    decreases entries@.len() - i,
                {
                    if i > 0 {
                        out.append(", ");
                    }
                    assert(views[i as int].1 == entries@[i as int].1@);
                    assert(views[i as int].0 == entries@[i as int].0@);
                    let ghost q_before = self.queries.entries();
                    let ghost log_before = self.queries;
                    let t = self.render(&entries[i].1, depth - 1);
                    proof {
                        crate::interp::lemma_prefix_trans(old(self).queries.entries(), q_before, self.queries.entries());
                        QueryLog::lemma_since_grows(old(self).queries, log_before, self.queries);
                        lemma_render_fits_grows(store, views[i as int].1, (depth - 1) as nat, t@,
                            self.queries.since(&log_before), self.queries.since(&old(self).queries));
                        assert forall|k: int| 0 <= k < i implies entry_fits(store, #[trigger] views[k], (depth - 1) as nat, texts[k], self.queries.since(&old(self).queries)) by {
                            lemma_entry_fits_grows(store, views[k], (depth - 1) as nat, texts[k],
                                log_before.since(&old(self).queries), self.queries.since(&old(self).queries));
                        }
                    }
                    let ghost before = out@;
                    out.append(entries[i].0.as_str());
                    out.append(": ");
                    out.append(t.as_str());
                    proof {
                        let piece = entries@[i as int].0@ + ": "@ + t@;
                        assert(out@ =~= before + piece);
                        let old_texts = texts;
                        texts = texts.push(piece);
                        if i > 0 {
                            assert(texts.drop_last() =~= old_texts);
                            assert(out@ =~= "{ "@ + join(texts));
                        } else {
                            assert(texts =~= seq![piece]);
                            assert(out@ =~= "{ "@ + join(texts));
                        }
                        assert forall|k: int| 0 <= k < i + 1 implies entry_fits(store, #[trigger] views[k], (depth - 1) as nat, texts[k], self.queries.since(&old(self).queries)) by {
                            if k < i {
                                assert(texts[k] == old_texts[k]);
                            } else {
                                lemma_entry_fits_intro(store, views[k], (depth - 1) as nat, texts[k], t@, self.queries.since(&old(self).queries));
                            }
                        }
                        assert(views.take(i + 1).drop_last() =~= views.take(i as int));
                        assert(views.take(i + 1).last() == views[i as int]);
                        if i > 0 {
                            assert(texts.drop_last() =~= old_texts);
                        } else {
                            assert(texts =~= seq![piece]);
                        }
                    }
                    i = i + 1;
                }
                out.append(" }");
                proof {
                    assert(views.take(views.len() as int) =~= views);
                    assert(texts_witness(texts));
                    assert(out@ =~= "{ "@ + join(texts) + " }"@);
                }
                out
            },
        }
    }
}

/// The text a host handle prints as.
pub fn render_host(h: HostValue) -> (r: String)
    ensures
        r@ == spec_render_host(h),
{
    match h {
        HostValue::Canvas => String::from_str("<그림판>"),
        HostValue::TorchLayer(TorchLayerKind::Flatten) => String::from_str("<레이어 평탄화>"),
        HostValue::TorchLayer(TorchLayerKind::Relu) => String::from_str("<레이어 렐루>"),
        HostValue::TorchLayer(TorchLayerKind::Linear { .. }) => String::from_str("<레이어 선형층>"),
        HostValue::TorchDataset(_) => String::from_str("<MNIST 데이터셋>"),
        HostValue::TorchDataLoader(_) => String::from_str("<데이터로더>"),
        HostValue::TorchModel(_) => String::from_str("<신경망 모델>"),
        HostValue::TorchModelParameters(_) => String::from_str("<모델 매개변수>"),
        HostValue::TorchLossFunction(_) => String::from_str("<손실함수>"),
        HostValue::TorchOptimizer(_) => String::from_str("<최적화기>"),
    }
}


/// What a binary operator gives, where that does not hang on the host's
/// double arithmetic: `None` exactly when a double takes part (or, for `==`,
/// when equality rests on one). Integer `+ - *` wrap; `/` and `%` truncate
/// and fail on a zero divisor or overflow; comparisons of integers go
/// through doubles, which is plain integer comparison when both are
/// within 2^53.
pub open spec fn spec_binary(store: Store, a: ValueView, op: BinaryOp, b: ValueView, depth: nat) -> Option<Result<ValueView, ErrorKind>> {
    match op {
        BinaryOp::Add => match (a, b) {
            (ValueView::Int(x), ValueView::Int(y)) => Some(Ok(ValueView::Int(x.wrapping_add(y)))),
            (ValueView::Str(x), ValueView::Str(y)) => Some(Ok(ValueView::Str(x + y))),
            _ => if is_number(a) && is_number(b) { None } else { Some(Err(ErrorKind::AddMismatch)) },
        },
        BinaryOp::Subtract => match (a, b) {
            (ValueView::Int(x), ValueView::Int(y)) => Some(Ok(ValueView::Int(x.wrapping_sub(y)))),
            _ => if is_number(a) && is_number(b) { None } else { Some(Err(ErrorKind::NumericMismatch)) },
        },
        BinaryOp::Multiply => match (a, b) {
            (ValueView::Int(x), ValueView::Int(y)) => Some(Ok(ValueView::Int(x.wrapping_mul(y)))),
            _ => if is_number(a) && is_number(b) { None } else { Some(Err(ErrorKind::NumericMismatch)) },
        },
        BinaryOp::Divide => match (a, b) {
            (ValueView::Int(x), ValueView::Int(y)) => Some(match spec_checked_div(x as int, y as int) {
                Some(q) => Ok(ValueView::Int(q)),
                None => if y == 0 { Err(ErrorKind::DivisionByZero) } else { Err(ErrorKind::IntegerOverflow) },
            }),
            _ => if is_number(a) && is_number(b) { None } else { Some(Err(ErrorKind::NumericMismatch)) },
        },
        BinaryOp::Modulo => match (a, b) {
            (ValueView::Int(x), ValueView::Int(y)) => Some(match spec_checked_rem(x as int, y as int) {
                Some(q) => Ok(ValueView::Int(q)),
                None => if y == 0 { Err(ErrorKind::DivisionByZero) } else { Err(ErrorKind::IntegerOverflow) },
            }),
            _ => Some(Err(ErrorKind::ModuloNonInt)),
        },
        BinaryOp::Equal => match spec_equal(store, a, b, depth) {
            Some(x) => Some(Ok(ValueView::Bool(x))),
            None => None,
        },
        BinaryOp::NotEqual => match spec_equal(store, a, b, depth) {
            Some(x) => Some(Ok(ValueView::Bool(!x))),
            None => None,
        },
        BinaryOp::Less | BinaryOp::LessEqual | BinaryOp::Greater | BinaryOp::GreaterEqual => match (a, b) {
            (ValueView::Int(x), ValueView::Int(y)) => if both_exact(x, y) {
                Some(Ok(ValueView::Bool(spec_compare(op, x as int, y as int))))
            } else {
                None
            },
            _ => if is_number(a) && is_number(b) { None } else { Some(Err(ErrorKind::ComparisonMismatch)) },
        },
        BinaryOp::And => match (a, b) {
            (ValueView::Bool(x), ValueView::Bool(y)) => Some(Ok(ValueView::Bool(x && y))),
            _ => Some(Err(ErrorKind::AndNonBool)),
        },
        BinaryOp::Or => match (a, b) {
            (ValueView::Bool(x), ValueView::Bool(y)) => Some(Ok(ValueView::Bool(x || y))),
            _ => Some(Err(ErrorKind::OrNonBool)),
        },
    }
}

/// An order comparison of two numbers.
pub open spec fn spec_compare(op: BinaryOp, x: int, y: int) -> bool {
    match op {
        BinaryOp::Less => x < y,
        BinaryOp::LessEqual => x <= y,
        BinaryOp::Greater => x > y,
        _ => x >= y,
    }
}

/// What a prefix operator gives: integers negate with wrapping, doubles
/// flip their sign bit, booleans invert.
pub open spec fn spec_unary_ok(op: UnaryOp, v: ValueView, r: ValueView) -> bool {
    match (op, v) {
        (UnaryOp::Negate, ValueView::Int(x)) => r == ValueView::Int(0i64.wrapping_sub(x)),
        (UnaryOp::Negate, ValueView::Float(x)) => r matches ValueView::Float(y) && float_sign(y) != float_sign(x)
            && float_exponent(y) == float_exponent(x) && float_fraction(y) == float_fraction(x),
        (UnaryOp::Not, ValueView::Bool(x)) => r == ValueView::Bool(!x),
        _ => false,
    }
}

/// The error a prefix operator raises on an operand it does not take.
pub open spec fn spec_unary_error(op: UnaryOp, v: ValueView) -> Option<ErrorKind> {
    match (op, v) {
        (UnaryOp::Negate, ValueView::Int(_)) => None,
        (UnaryOp::Negate, ValueView::Float(_)) => None,
        (UnaryOp::Negate, _) => Some(ErrorKind::NegateNonNumber),
        (UnaryOp::Not, ValueView::Bool(_)) => None,
        (UnaryOp::Not, _) => Some(ErrorKind::NotNonBool),
    }
}

/// Whether an order comparison holds for a double ordering.
pub open spec fn order_satisfies(op: BinaryOp, o: FloatOrder) -> bool {
    match op {
        BinaryOp::Less => o == FloatOrder::Less,
        BinaryOp::LessEqual => o == FloatOrder::Less || o == FloatOrder::Equal,
        BinaryOp::Greater => o == FloatOrder::Greater,
        _ => o == FloatOrder::Greater || o == FloatOrder::Equal,
    }
}

/// How many questions turn number `v` into a double: a conversion for an
/// integer, none for a double.
pub open spec fn conversions(v: ValueView) -> int {
    if v is Int { 1 } else { 0 }
}

/// Whether question `k` of `qs` converts `v` to a double, if `v` is an integer.
pub open spec fn converted_at(v: ValueView, qs: Seq<(HostQuery, HostReply)>, k: int) -> bool {
    v matches ValueView::Int(i) ==> (qs[k].0 == (HostQuery::IntToFloat { value: i }) && qs[k].1 is Float)
}

/// The double that number `v` stands for: its own bits, or the host's
/// reply to its conversion, question `k` of `qs`.
pub open spec fn double_of(v: ValueView, qs: Seq<(HostQuery, HostReply)>, k: int) -> u64 {
    match v {
        ValueView::Float(f) => f,
        _ => match qs[k].1 {
            HostReply::Float(x) => x,
            _ => 0,
        },
    }
}

/// Whether `qs` convert the numbers `a` and `b` (in that order) and then
/// put one question on the two doubles.
pub open spec fn operands_asked(a: ValueView, b: ValueView, qs: Seq<(HostQuery, HostReply)>) -> bool {
    &&& qs.len() == conversions(a) + conversions(b) + 1
    &&& converted_at(a, qs, 0)
    &&& converted_at(b, qs, conversions(a))
}

/// `a op b` on doubles, asked of the host: the questions `qs`, whose last
/// reply `g` is the result.
pub open spec fn float_op_asked(a: ValueView, op: FloatArith, b: ValueView, qs: Seq<(HostQuery, HostReply)>, g: u64) -> bool {
    &&& operands_asked(a, b, qs)
    &&& qs.last() == (HostQuery::FloatArith { op, a: double_of(a, qs, 0), b: double_of(b, qs, conversions(a)) }, HostReply::Float(g))
}

/// How the doubles for `a` and `b` compare, asked of the host: the
/// questions `qs`, whose last reply is `o`.
pub open spec fn float_cmp_asked(a: ValueView, b: ValueView, qs: Seq<(HostQuery, HostReply)>, o: FloatOrder) -> bool {
    &&& operands_asked(a, b, qs)
    &&& qs.last() == (HostQuery::FloatCompare { a: double_of(a, qs, 0), b: double_of(b, qs, conversions(a)) }, HostReply::Order(o))
}

/// The double operation an arithmetic operator stands for.
pub open spec fn float_op_of(op: BinaryOp) -> FloatArith {
    match op {
        BinaryOp::Add => FloatArith::Add,
        BinaryOp::Subtract => FloatArith::Subtract,
        BinaryOp::Multiply => FloatArith::Multiply,
        _ => FloatArith::Divide,
    }
}

/// An operator on numbers that the host decides (a double takes part, or
/// integers too large to compare exactly): arithmetic gives the host's
/// double; an order comparison asks how the two doubles compare and
/// answers from that.
pub open spec fn binary_by_host(oldq: QueryLog, newq: QueryLog, a: ValueView, op: BinaryOp, b: ValueView, r: Result<Value, RuntimeError>) -> bool {
    match op {
        BinaryOp::Add | BinaryOp::Subtract | BinaryOp::Multiply | BinaryOp::Divide => {
            &&& newq.extends(&oldq)
            &&& r matches Ok(x) && x@ matches ValueView::Float(g) && float_op_asked(a, float_op_of(op), b, newq.since(&oldq), g)
        },
        BinaryOp::Equal | BinaryOp::NotEqual => number_pair_by_host(a, b) ==> {
            &&& newq.extends(&oldq)
            &&& r matches Ok(x) && x@ matches ValueView::Bool(h) && newq.since(&oldq).last().1 matches HostReply::Order(o)
                && float_cmp_asked(a, b, newq.since(&oldq), o) && h == ((o == FloatOrder::Equal) == (op == BinaryOp::Equal))
        },
        BinaryOp::Less | BinaryOp::LessEqual | BinaryOp::Greater | BinaryOp::GreaterEqual => {
            &&& newq.extends(&oldq)
            &&& r matches Ok(x) && x@ matches ValueView::Bool(h) && newq.since(&oldq).last().1 matches HostReply::Order(o)
                && float_cmp_asked(a, b, newq.since(&oldq), o) && h == order_satisfies(op, o)
        },
        _ => true,
    }
}

/// Two numbers that are not both integers: the host compares them as doubles.
pub open spec fn number_pair_by_host(a: ValueView, b: ValueView) -> bool {
    is_number(a) && is_number(b) && !(a is Int && b is Int)
}

/// `a == b` for such numbers: the host was asked how their doubles
/// compare, and they are equal when it answered `Equal`.
pub open spec fn numbers_equal_by_host(oldq: QueryLog, newq: QueryLog, a: ValueView, b: ValueView, r: bool) -> bool {
    &&& newq.extends(&oldq)
    &&& newq.since(&oldq).last().1 matches HostReply::Order(o) && float_cmp_asked(a, b, newq.since(&oldq), o)
        && r == (o == FloatOrder::Equal)
}

/// Whether number `v` stands for the double `x` among the host's answers
/// `asked`: a double is its own bits, an integer the host's conversion of it.
pub open spec fn double_in(v: ValueView, x: u64, asked: Seq<(HostQuery, HostReply)>) -> bool {
    match v {
        ValueView::Float(f) => x == f,
        ValueView::Int(i) => exists|j: int| 0 <= j < asked.len() && #[trigger] asked[j] == (HostQuery::IntToFloat { value: i }, HostReply::Float(x)),
        _ => false,
    }
}

/// Whether entry `e` of the host's answers `asked` compared the doubles for
/// `a` and `b`, and `r` is whether it answered that they are equal.
pub open spec fn compared_as(e: (HostQuery, HostReply), a: ValueView, b: ValueView, r: bool, asked: Seq<(HostQuery, HostReply)>) -> bool {
    &&& e.0 matches HostQuery::FloatCompare { a: x, b: y } && double_in(a, x, asked) && double_in(b, y, asked)
    &&& e.1 matches HostReply::Order(o) && r == (o == FloatOrder::Equal)
}

/// Whether `r` is how `a == b` comes out, `depth` levels deep, where
/// `asked` holds the host's answers: two numbers that are not both
/// integers as the host compared their doubles; two lists of the same
/// length element by element, in order, unequal at the first unequal pair;
/// two records of the same size entry by entry in key order, unequal at
/// the first key the other lacks or whose values differ; a list or record
/// with no depth left is unequal to anything; the rest as `spec_equal`
/// decides.
pub open spec fn equal_fits(store: Store, a: ValueView, b: ValueView, depth: nat, r: bool, asked: Seq<(HostQuery, HostReply)>) -> bool
    decreases depth, 0nat,
{
    if number_pair_by_host(a, b) {
        exists|k: int| 0 <= k < asked.len() && compared_as(#[trigger] asked[k], a, b, r, asked)
    } else {
        match (a, b) {
            (ValueView::List(x), ValueView::List(y)) => if depth == 0 {
                !r
            } else {
                let xs = store.list_view(x as int);
                let ys = store.list_view(y as int);
                if xs.len() != ys.len() {
                    !r
                } else if r {
                    forall|k: int| 0 <= k < xs.len() ==> equal_fits(store, #[trigger] xs[k], ys[k], (depth - 1) as nat, true, asked)
                } else {
                    exists|k: int| 0 <= k < xs.len()
                        && (forall|j: int| 0 <= j < k ==> equal_fits(store, #[trigger] xs[j], ys[j], (depth - 1) as nat, true, asked))
                        && equal_fits(store, #[trigger] xs[k], ys[k], (depth - 1) as nat, false, asked)
                }
            },
            (ValueView::Record(x), ValueView::Record(y)) => if depth == 0 {
                !r
            } else {
                let xs = store.record_view(x as int);
                let ys = store.record_view(y as int);
                if xs.len() != ys.len() {
                    !r
                } else if r {
                    forall|k: int| 0 <= k < xs.len() ==> entry_equal_fits(store, #[trigger] xs[k], ys, (depth - 1) as nat, true, asked)
                } else {
                    exists|k: int| 0 <= k < xs.len()
                        && (forall|j: int| 0 <= j < k ==> entry_equal_fits(store, #[trigger] xs[j], ys, (depth - 1) as nat, true, asked))
                        && entry_equal_fits(store, #[trigger] xs[k], ys, (depth - 1) as nat, false, asked)
                }
            },
            _ => spec_equal(store, a, b, depth) == Some(r),
        }
    }
}

/// Whether `r` is how an entry of one record compares with the other
/// record `ys`: equal when `ys` has the key with an equal value.
pub open spec fn entry_equal_fits(store: Store, e: (Seq<char>, ValueView), ys: Seq<(Seq<char>, ValueView)>, depth: nat, r: bool, asked: Seq<(HostQuery, HostReply)>) -> bool
    decreases depth, 1nat,
{
    if has_key(ys, e.0) {
        equal_fits(store, e.1, assoc_get(ys, e.0).unwrap(), depth, r, asked)
    } else {
        !r
    }
}

/// A number's double stays known when the host is asked more.
pub proof fn lemma_double_in_grows(v: ValueView, x: u64, a: Seq<(HostQuery, HostReply)>, b: Seq<(HostQuery, HostReply)>)
    requires
        double_in(v, x, a),
        forall|e: (HostQuery, HostReply)| a.contains(e) ==> #[trigger] b.contains(e),
    ensures
        double_in(v, x, b),
{
    if let ValueView::Int(i) = v {
        let j = choose|j: int| 0 <= j < a.len() && #[trigger] a[j] == (HostQuery::IntToFloat { value: i }, HostReply::Float(x));
        let e = a[j];
        assert(a.contains(e)) by {
            assert(0 <= j < a.len() && a[j] == e);
        }
        assert(b.contains(e));
        let m = choose|m: int| 0 <= m < b.len() && b[m] == e;
        assert(b[m] == (HostQuery::IntToFloat { value: i }, HostReply::Float(x)));
    }
}

/// How `a == b` came out stays so when the host is asked more.
pub proof fn lemma_equal_fits_grows(store: Store, a: ValueView, b: ValueView, depth: nat, r: bool, s1: Seq<(HostQuery, HostReply)>, s2: Seq<(HostQuery, HostReply)>)
    requires
        equal_fits(store, a, b, depth, r, s1),
        forall|e: (HostQuery, HostReply)| s1.contains(e) ==> #[trigger] s2.contains(e),
    ensures
        equal_fits(store, a, b, depth, r, s2),
    decreases depth, 0nat,
{
    if number_pair_by_host(a, b) {
        let k = choose|k: int| 0 <= k < s1.len() && compared_as(#[trigger] s1[k], a, b, r, s1);
        let e = s1[k];
        assert(s1.contains(e)) by {
            assert(0 <= k < s1.len() && s1[k] == e);
        }
        assert(s2.contains(e));
        let m = choose|m: int| 0 <= m < s2.len() && s2[m] == e;
        if let HostQuery::FloatCompare { a: x, b: y } = e.0 {
            lemma_double_in_grows(a, x, s1, s2);
            lemma_double_in_grows(b, y, s1, s2);
        }
        assert(compared_as(s2[m], a, b, r, s2));
    } else {
        match (a, b) {
            (ValueView::List(x), ValueView::List(y)) => if depth > 0 {
                let xs = store.list_view(x as int);
                let ys = store.list_view(y as int);
                if xs.len() == ys.len() {
                    if r {
                        assert forall|k: int| 0 <= k < xs.len() implies equal_fits(store, #[trigger] xs[k], ys[k], (depth - 1) as nat, true, s2) by {
                            assert(equal_fits(store, xs[k], ys[k], (depth - 1) as nat, true, s1));
                            lemma_equal_fits_grows(store, xs[k], ys[k], (depth - 1) as nat, true, s1, s2);
                        }
                    } else {
                        let k = choose|k: int| 0 <= k < xs.len()
                            && (forall|j: int| 0 <= j < k ==> equal_fits(store, #[trigger] xs[j], ys[j], (depth - 1) as nat, true, s1))
                            && equal_fits(store, #[trigger] xs[k], ys[k], (depth - 1) as nat, false, s1);
                        assert forall|j: int| 0 <= j < k implies equal_fits(store, #[trigger] xs[j], ys[j], (depth - 1) as nat, true, s2) by {
                            assert(equal_fits(store, xs[j], ys[j], (depth - 1) as nat, true, s1));
                            lemma_equal_fits_grows(store, xs[j], ys[j], (depth - 1) as nat, true, s1, s2);
                        }
                        lemma_equal_fits_grows(store, xs[k], ys[k], (depth - 1) as nat, false, s1, s2);
                    }
                }
            },
            (ValueView::Record(x), ValueView::Record(y)) => if depth > 0 {
                let xs = store.record_view(x as int);
                let ys = store.record_view(y as int);
                if xs.len() == ys.len() {
                    if r {
                        assert forall|k: int| 0 <= k < xs.len() implies entry_equal_fits(store, #[trigger] xs[k], ys, (depth - 1) as nat, true, s2) by {
                            assert(entry_equal_fits(store, xs[k], ys, (depth - 1) as nat, true, s1));
                            lemma_entry_equal_fits_grows(store, xs[k], ys, (depth - 1) as nat, true, s1, s2);
                        }
                    } else {
                        let k = choose|k: int| 0 <= k < xs.len()
                            && (forall|j: int| 0 <= j < k ==> entry_equal_fits(store, #[trigger] xs[j], ys, (depth - 1) as nat, true, s1))
                            && entry_equal_fits(store, #[trigger] xs[k], ys, (depth - 1) as nat, false, s1);
                        assert forall|j: int| 0 <= j < k implies entry_equal_fits(store, #[trigger] xs[j], ys, (depth - 1) as nat, true, s2) by {
                            assert(entry_equal_fits(store, xs[j], ys, (depth - 1) as nat, true, s1));
                            lemma_entry_equal_fits_grows(store, xs[j], ys, (depth - 1) as nat, true, s1, s2);
                        }
                        lemma_entry_equal_fits_grows(store, xs[k], ys, (depth - 1) as nat, false, s1, s2);
                    }
                }
            },
            _ => {},
        }
    }
}

/// How a record entry compared stays so when the host is asked more.
pub proof fn lemma_entry_equal_fits_grows(store: Store, e: (Seq<char>, ValueView), ys: Seq<(Seq<char>, ValueView)>, depth: nat, r: bool, s1: Seq<(HostQuery, HostReply)>, s2: Seq<(HostQuery, HostReply)>)
    requires
        entry_equal_fits(store, e, ys, depth, r, s1),
        forall|x: (HostQuery, HostReply)| s1.contains(x) ==> #[trigger] s2.contains(x),
    ensures
        entry_equal_fits(store, e, ys, depth, r, s2),
    decreases depth, 1nat,
{
    if has_key(ys, e.0) {
        lemma_equal_fits_grows(store, e.1, assoc_get(ys, e.0).unwrap(), depth, r, s1, s2);
    }
}

/// A comparison of two numbers by the host is how `==` came out for them.
pub proof fn lemma_numbers_equal_fits(store: Store, oldq: QueryLog, newq: QueryLog, a: ValueView, b: ValueView, depth: nat, r: bool)
    requires
        number_pair_by_host(a, b),
        numbers_equal_by_host(oldq, newq, a, b, r),
    ensures
        equal_fits(store, a, b, depth, r, newq.since(&oldq)),
{
    let qs = newq.since(&oldq);
    let last = qs.len() - 1;
    assert(qs.last() == qs[last]);
    if let ValueView::Int(i) = a {
        assert(qs[0] == (HostQuery::IntToFloat { value: i }, HostReply::Float(double_of(a, qs, 0))));
    }
    if let ValueView::Int(i) = b {
        assert(qs[conversions(a)] == (HostQuery::IntToFloat { value: i }, HostReply::Float(double_of(b, qs, conversions(a)))));
    }
    assert(double_in(a, double_of(a, qs, 0), qs));
    assert(double_in(b, double_of(b, qs, conversions(a)), qs));
    assert(compared_as(qs[last], a, b, r, qs));
}

/// `==` and `!=` with the host's answers: the result is a boolean `h`, and
/// `==` came out as `h` for `==` and as the opposite of `h` for `!=` (see
/// `equal_fits`).
pub open spec fn equality_asked(store: Store, oldq: QueryLog, newq: QueryLog, a: ValueView, op: BinaryOp, b: ValueView, depth: nat, r: Result<Value, RuntimeError>) -> bool {
    &&& newq.extends(&oldq)
    &&& r matches Ok(x) && x@ matches ValueView::Bool(h)
        && equal_fits(store, a, b, depth, if op == BinaryOp::Equal { h } else { !h }, newq.since(&oldq))
}

/// Whether the host never gave two answers to one question in `asked`.
pub open spec fn answers_consistent(asked: Seq<(HostQuery, HostReply)>) -> bool {
    forall|i: int, j: int| 0 <= i < asked.len() && 0 <= j < asked.len() && (#[trigger] asked[i]).0 == (#[trigger] asked[j]).0
        ==> asked[i].1 == asked[j].1
}

/// With consistent answers a number stands for one double.
pub proof fn lemma_double_in_unique(v: ValueView, x: u64, y: u64, asked: Seq<(HostQuery, HostReply)>)
    requires
        double_in(v, x, asked),
        double_in(v, y, asked),
        answers_consistent(asked),
    ensures
        x == y,
{
    if let ValueView::Int(i) = v {
        let j1 = choose|j: int| 0 <= j < asked.len() && #[trigger] asked[j] == (HostQuery::IntToFloat { value: i }, HostReply::Float(x));
        let j2 = choose|j: int| 0 <= j < asked.len() && #[trigger] asked[j] == (HostQuery::IntToFloat { value: i }, HostReply::Float(y));
        assert(asked[j1].0 == asked[j2].0);
    }
}

/// With consistent answers from the host, `==` comes out one way only.
pub proof fn lemma_equal_fits_unique(store: Store, a: ValueView, b: ValueView, depth: nat, r1: bool, r2: bool, asked: Seq<(HostQuery, HostReply)>)
    requires
        equal_fits(store, a, b, depth, r1, asked),
        equal_fits(store, a, b, depth, r2, asked),
        answers_consistent(asked),
    ensures
        r1 == r2,
    decreases depth, 0nat,
{
    if number_pair_by_host(a, b) {
        let k1 = choose|k: int| 0 <= k < asked.len() && compared_as(#[trigger] asked[k], a, b, r1, asked);
        let k2 = choose|k: int| 0 <= k < asked.len() && compared_as(#[trigger] asked[k], a, b, r2, asked);
        if let HostQuery::FloatCompare { a: x1, b: y1 } = asked[k1].0 {
            if let HostQuery::FloatCompare { a: x2, b: y2 } = asked[k2].0 {
                lemma_double_in_unique(a, x1, x2, asked);
                lemma_double_in_unique(b, y1, y2, asked);
                assert(asked[k1].0 == asked[k2].0);
            }
        }
    } else if r1 != r2 {
        match (a, b) {
            (ValueView::List(x), ValueView::List(y)) => if depth > 0 {
                let xs = store.list_view(x as int);
                let ys = store.list_view(y as int);
                if xs.len() == ys.len() {
                    let k = choose|k: int| 0 <= k < xs.len()
                        && (forall|j: int| 0 <= j < k ==> equal_fits(store, #[trigger] xs[j], ys[j], (depth - 1) as nat, true, asked))
                        && equal_fits(store, #[trigger] xs[k], ys[k], (depth - 1) as nat, false, asked);
                    assert(equal_fits(store, xs[k], ys[k], (depth - 1) as nat, true, asked));
                    lemma_equal_fits_unique(store, xs[k], ys[k], (depth - 1) as nat, true, false, asked);
                }
            },
            (ValueView::Record(x), ValueView::Record(y)) => if depth > 0 {
                let xs = store.record_view(x as int);
                let ys = store.record_view(y as int);
                if xs.len() == ys.len() {
                    let k = choose|k: int| 0 <= k < xs.len()
                        && (forall|j: int| 0 <= j < k ==> entry_equal_fits(store, #[trigger] xs[j], ys, (depth - 1) as nat, true, asked))
                        && entry_equal_fits(store, #[trigger] xs[k], ys, (depth - 1) as nat, false, asked);
                    assert(entry_equal_fits(store, xs[k], ys, (depth - 1) as nat, true, asked));
                    lemma_entry_equal_fits_unique(store, xs[k], ys, (depth - 1) as nat, true, false, asked);
                }
            },
            _ => {},
        }
    }
}

/// With consistent answers, an entry of a record compares one way only.
pub proof fn lemma_entry_equal_fits_unique(store: Store, e: (Seq<char>, ValueView), ys: Seq<(Seq<char>, ValueView)>, depth: nat, r1: bool, r2: bool, asked: Seq<(HostQuery, HostReply)>)
    requires
        entry_equal_fits(store, e, ys, depth, r1, asked),
        entry_equal_fits(store, e, ys, depth, r2, asked),
        answers_consistent(asked),
    ensures
        r1 == r2,
    decreases depth, 1nat,
{
    if has_key(ys, e.0) {
        lemma_equal_fits_unique(store, e.1, assoc_get(ys, e.0).unwrap(), depth, r1, r2, asked);
    }
}

/// Whether the host, asked to compare two doubles both ways round, said
/// "equal" either both times or neither time, in `asked`.
pub open spec fn answers_symmetric(asked: Seq<(HostQuery, HostReply)>) -> bool {
    forall|i: int, j: int| 0 <= i < asked.len() && 0 <= j < asked.len() ==> (
        (#[trigger] asked[i]).0 matches HostQuery::FloatCompare { a: x, b: y }
            ==> ((#[trigger] asked[j]).0 == (HostQuery::FloatCompare { a: y, b: x })
            ==> (asked[i].1 == HostReply::Order(FloatOrder::Equal)) == (asked[j].1 == HostReply::Order(FloatOrder::Equal))))
}

fn order_holds(op: BinaryOp, o: FloatOrder) -> (r: bool)
    ensures
        r == order_satisfies(op, o),
{
    match op {
        BinaryOp::Less => o == FloatOrder::Less,
        BinaryOp::LessEqual => o == FloatOrder::Less || o == FloatOrder::Equal,
        BinaryOp::Greater => o == FloatOrder::Greater,
        _ => o == FloatOrder::Greater || o == FloatOrder::Equal,
    }
}

impl<H: Host> Interpreter<H> {
    /// Only the host changed.
    pub open spec fn only_host_changed(&self, old: &Self) -> bool {
        &&& self.store == old.store
        &&& self.recorder == old.recorder
        &&& self.torch == old.torch
        &&& self.stream_events == old.stream_events
        &&& self.streamed == old.streamed
        &&& old.queries.entries().is_prefix_of(self.queries.entries())
    }

    /// Whether two values are equal (`==`).
    pub fn values_equal(&mut self, a: &Value, b: &Value, depth: u64) -> (r: bool)
        requires
            old(self).inv(),
            old(self).store.value_ok(a@),
            old(self).store.value_ok(b@),
        ensures
            final(self).only_host_changed(old(self)),
            spec_equal(old(self).store, a@, b@, depth as nat) matches Some(x) ==> r == x,
            number_pair_by_host(a@, b@) ==> numbers_equal_by_host(old(self).queries, final(self).queries, a@, b@, r),
            final(self).queries.extends(&old(self).queries),
            equal_fits(old(self).store, a@, b@, depth as nat, r, final(self).queries.since(&old(self).queries)),
        decreases depth,
    {
        proof {
            QueryLog::lemma_extends_refl(self.queries);
        }
        let both_int = match (a, b) {
            (Value::Int(_), Value::Int(_)) => true,
            _ => false,
        };
        if is_num(a) && is_num(b) && !both_int {
            let ghost q0 = self.queries;
            let (x, y) = self.to_doubles(a, b);
            let ghost q1 = self.queries;
            let order = self.queries.float_compare(&mut self.host, x, y);
            proof {
                let qs = self.queries.since(&q0);
                assert(qs =~= q1.since(&q0).push((HostQuery::FloatCompare { a: x, b: y }, HostReply::Order(order))));
                assert(self.queries.entries().subrange(0, q0.entries().len() as int) =~= q0.entries());
                lemma_numbers_equal_fits(old(self).store, q0, self.queries, a@, b@, depth as nat, order == FloatOrder::Equal);
            }
            return order == FloatOrder::Equal;
        }
        match (a, b) {
            (Value::Int(x), Value::Int(y)) => *x == *y,
            (Value::Bool(x), Value::Bool(y)) => *x == *y,
            (Value::Str(x), Value::Str(y)) => str_equal(x.as_str(), y.as_str()),
            (Value::Nothing, Value::Nothing) => true,
            (Value::Tensor(x), Value::Tensor(y)) => *x == *y,
            (Value::Batch(x), Value::Batch(y)) => *x == *y,
            (Value::Host(x), Value::Host(y)) => *x == *y,
            (Value::List(x), Value::List(y)) => {
                if depth == 0 {
                    return false;
                }
                let ghost store = self.store;
                let xs = self.store.list_items(*x);
                let ys = self.store.list_items(*y);
                if xs.len() != ys.len() {
                    return false;
                }
                let ghost xv = store.list_view(*x as int);
                let ghost yv = store.list_view(*y as int);
                proof {
                    assert forall|k: int| 0 <= k < xv.len() implies store.value_ok(#[trigger] xv[k]) by {
                        assert(store.lists@[*x as int] == store.lists@[*x as int]);
                        assert(xv[k] == store.lists@[*x as int]@[k]@);
                    }
                    assert forall|k: int| 0 <= k < yv.len() implies store.value_ok(#[trigger] yv[k]) by {
                        assert(store.lists@[*y as int] == store.lists@[*y as int]);
                        assert(yv[k] == store.lists@[*y as int]@[k]@);
                    }
                }
                let mut i: usize = 0;
                while i < xs.len()
                    invariant
                        self.inv(),
                        depth > 0,
                        self.only_host_changed(old(self)),
                        store == old(self).store,
                        *x < store.lists@.len(),
                        *y < store.lists@.len(),
                        xv == store.list_view(*x as int),
                        yv == store.list_view(*y as int),
                        a@ == ValueView::List(*x),
                        b@ == ValueView::List(*y),
                        crate::value::values_view(xs@) == xv,
                        crate::value::values_view(ys@) == yv,
                        xs@.len() == ys@.len(),
                        forall|k: int| 0 <= k < xv.len() ==> store.value_ok(#[trigger] xv[k]),
                        forall|k: int| 0 <= k < yv.len() ==> store.value_ok(#[trigger] yv[k]),
                        i <= xs@.len(),
                        forall|k: int| 0 <= k < i ==> spec_equal(store, #[trigger] xv[k], yv[k], (depth - 1) as nat) != Some(false),
                        self.queries.extends(&old(self).queries),
                        forall|k: int| 0 <= k < i ==> equal_fits(store, #[trigger] xv[k], yv[k], (depth - 1) as nat, true, self.queries.since(&old(self).queries)),
                    decreases xs@.len() - i,
                {
                    assert(xv[i as int] == xs@[i as int]@);
                    assert(yv[i as int] == ys@[i as int]@);
                    let ghost log_before = self.queries;
                    let same = self.values_equal(&xs[i], &ys[i], depth - 1);
                    proof {
                        QueryLog::lemma_since_grows(old(self).queries, log_before, self.queries);
                        lemma_equal_fits_grows(store, xv[i as int], yv[i as int], (depth - 1) as nat, same,
                            self.queries.since(&log_before), self.queries.since(&old(self).queries));
                        assert forall|k: int| 0 <= k < i implies equal_fits(store, #[trigger] xv[k], yv[k], (depth - 1) as nat, true, self.queries.since(&old(self).queries)) by {
                            lemma_equal_fits_grows(store, xv[k], yv[k], (depth - 1) as nat, true,
                                log_before.since(&old(self).queries), self.queries.since(&old(self).queries));
                        }
                    }
                    if !same {
                        proof {
                            assert(spec_equal(store, xv[i as int], yv[i as int], (depth - 1) as nat) != Some(true));
                            assert(!(forall|k: int| 0 <= k < xv.len() ==> spec_equal(store, #[trigger] xv[k], yv[k], (depth - 1) as nat) == Some(true)));
                            assert(a@ == ValueView::List(*x));
                            assert(b@ == ValueView::List(*y));
                        }
                        return false;
                    }
                    i = i + 1;
                }
                true
            },
            (Value::Record(x), Value::Record(y)) => {
                if depth == 0 {
                    return false;
                }
                let ghost store = self.store;
                let xs = self.store.record_entries(*x);
                if xs.len() != self.store.record_len(*y) {
                    return false;
                }
                let ghost xv = store.record_view(*x as int);
                let ghost yv = store.record_view(*y as int);
                proof {
                    assert forall|k: int| 0 <= k < xv.len() implies store.value_ok((#[trigger] xv[k]).1) by {
                        assert(store.records@[*x as int] == store.records@[*x as int]);
                        assert(xv[k].1 == store.records@[*x as int]@[k].1@);
                    }
                }
                let mut i: usize = 0;
                while i < xs.len()
                    invariant
                        self.inv(),
                        depth > 0,
                        self.only_host_changed(old(self)),
                        store == old(self).store,
                        *x < store.records@.len(),
                        *y < store.records@.len(),
                        xv == store.record_view(*x as int),
                        yv == store.record_view(*y as int),
                        a@ == ValueView::Record(*x),
                        b@ == ValueView::Record(*y),
                        crate::value::entries_view(xs@) == xv,
                        xv.len() == yv.len(),
                        forall|k: int| 0 <= k < xv.len() ==> store.value_ok((#[trigger] xv[k]).1),
                        i <= xs@.len(),
                        forall|k: int| 0 <= k < i ==> has_key(yv, (#[trigger] xv[k]).0) && spec_equal(store, xv[k].1, assoc_get(yv, xv[k].0).unwrap(), (depth - 1) as nat) != Some(false),
                        self.queries.extends(&old(self).queries),
                        forall|k: int| 0 <= k < i ==> entry_equal_fits(store, #[trigger] xv[k], yv, (depth - 1) as nat, true, self.queries.since(&old(self).queries)),
                    decreases xs@.len() - i,
                {
                    assert(xv[i as int] == (xs@[i as int].0@, xs@[i as int].1@));
                    match self.store.record_get(*y, xs[i].0.as_str()) {
                        None => {
                            proof {
                                assert(!has_key(yv, xv[i as int].0));
                                assert(0 <= i < xv.len() && (forall|j: int| 0 <= j < i ==> entry_equal_fits(store, #[trigger] xv[j], yv, (depth - 1) as nat, true, self.queries.since(&old(self).queries)))
                                    && entry_equal_fits(store, xv[i as int], yv, (depth - 1) as nat, false, self.queries.since(&old(self).queries)));
                                assert(exists|k: int| 0 <= k < xv.len() && (!has_key(yv, (#[trigger] xv[k]).0) || spec_equal(store, xv[k].1, assoc_get(yv, xv[k].0).unwrap(), (depth - 1) as nat) == Some(false)));
                                assert(a@ == ValueView::Record(*x));
                                assert(b@ == ValueView::Record(*y));
                            }
                            return false;
                        },
                        Some(other) => {
                            proof {
                                crate::store::lemma_sorted_unique(yv);
                                let j = choose|j: int| 0 <= j < yv.len() && (#[trigger] yv[j]).0 == xv[i as int].0;
                                crate::store::lemma_assoc_get_at(yv, j);
                                assert(store.records@[*y as int] == store.records@[*y as int]);
                                assert(yv[j].1 == store.records@[*y as int]@[j].1@);
                            }
                            let ghost log_before = self.queries;
                            let same = self.values_equal(&xs[i].1, &other, depth - 1);
                            proof {
                                QueryLog::lemma_since_grows(old(self).queries, log_before, self.queries);
                                lemma_entry_equal_fits_grows(store, xv[i as int], yv, (depth - 1) as nat, same,
                                    self.queries.since(&log_before), self.queries.since(&old(self).queries));
                                assert forall|k: int| 0 <= k < i implies entry_equal_fits(store, #[trigger] xv[k], yv, (depth - 1) as nat, true, self.queries.since(&old(self).queries)) by {
                                    lemma_entry_equal_fits_grows(store, xv[k], yv, (depth - 1) as nat, true,
                                        log_before.since(&old(self).queries), self.queries.since(&old(self).queries));
                                }
                            }
                            if !same {
                                proof {
                                    assert(!(forall|k: int| 0 <= k < xv.len() ==> has_key(yv, (#[trigger] xv[k]).0) && spec_equal(store, xv[k].1, assoc_get(yv, xv[k].0).unwrap(), (depth - 1) as nat) == Some(true)));
                                    assert(0 <= i < xv.len() && (forall|j: int| 0 <= j < i ==> entry_equal_fits(store, #[trigger] xv[j], yv, (depth - 1) as nat, true, self.queries.since(&old(self).queries)))
                                    && entry_equal_fits(store, xv[i as int], yv, (depth - 1) as nat, false, self.queries.since(&old(self).queries)));
                                    assert(a@ == ValueView::Record(*x));
                                    assert(b@ == ValueView::Record(*y));
                                }
                                return false;
                            }
                        },
                    }
                    i = i + 1;
                }
                true
            },
            _ => false,
        }
    }

    /// A prefix operator.
    pub fn eval_unary(&mut self, op: UnaryOp, v: Value) -> (r: Result<Value, RuntimeError>)
        ensures
            final(self).only_host_changed(old(self)),
            r matches Ok(x) ==> spec_unary_ok(op, v@, x@),
            r matches Err(e) ==> spec_unary_error(op, v@) == Some(e.kind) && e.span is None && e.call_stack@.len() == 0,
            r is Err <==> spec_unary_error(op, v@) is Some,
    {
        match op {
            UnaryOp::Negate => match v {
                Value::Int(x) => Ok(Value::Int(0i64.wrapping_sub(x))),
                Value::Float(x) => Ok(Value::Float(float_negate(x))),
                _ => Err(RuntimeError::new(ErrorKind::NegateNonNumber)),
            },
            UnaryOp::Not => match v {
                Value::Bool(x) => Ok(Value::Bool(!x)),
                _ => Err(RuntimeError::new(ErrorKind::NotNonBool)),
            },
        }
    }

    /// Number `v` as a double: its bits, or the host's conversion of the integer.
    fn to_double(&mut self, v: &Value) -> (x: u64)
        requires
            is_number(v@),
        ensures
            final(self).only_host_changed(old(self)),
            v@ matches ValueView::Float(f) ==> x == f && final(self).queries == old(self).queries,
            v@ matches ValueView::Int(i) ==> final(self).queries.asked(&old(self).queries, HostQuery::IntToFloat { value: i }, HostReply::Float(x)),
    {
        match v {
            Value::Int(i) => self.queries.int_to_float(&mut self.host, *i),
            Value::Float(f) => *f,
            _ => 0,
        }
    }

    /// The doubles for two numbers, converted in order.
    fn to_doubles(&mut self, a: &Value, b: &Value) -> (r: (u64, u64))
        requires
            is_number(a@) && is_number(b@),
        ensures
            final(self).only_host_changed(old(self)),
            final(self).queries.extends(&old(self).queries),
            final(self).queries.since(&old(self).queries).len() == conversions(a@) + conversions(b@),
            converted_at(a@, final(self).queries.since(&old(self).queries), 0),
            converted_at(b@, final(self).queries.since(&old(self).queries), conversions(a@)),
            r.0 == double_of(a@, final(self).queries.since(&old(self).queries), 0),
            r.1 == double_of(b@, final(self).queries.since(&old(self).queries), conversions(a@)),
    {
        let ghost q0 = self.queries;
        let x = self.to_double(a);
        let ghost q1 = self.queries;
        let y = self.to_double(b);
        proof {
            let qs = self.queries.since(&q0);
            assert(self.queries.entries().subrange(0, q0.entries().len() as int) =~= q0.entries());
            if a@ is Int {
                assert(qs[0] == q1.entries().last());
            }
            if b@ is Int {
                assert(qs[conversions(a@)] == self.queries.entries().last());
            }
        }
        (x, y)
    }

    /// `a op b` for doubles (integers converted by the host first).
    fn float_binary(&mut self, a: &Value, op: FloatArith, b: &Value) -> (r: u64)
        requires
            is_number(a@) && is_number(b@),
        ensures
            final(self).only_host_changed(old(self)),
            final(self).queries.extends(&old(self).queries),
            float_op_asked(a@, op, b@, final(self).queries.since(&old(self).queries), r),
    {
        let ghost q0 = self.queries;
        let (x, y) = self.to_doubles(a, b);
        let ghost q1 = self.queries;
        let r = self.queries.float_arith(&mut self.host, op, x, y);
        proof {
            let qs = self.queries.since(&q0);
            assert(qs =~= q1.since(&q0).push((HostQuery::FloatArith { op, a: x, b: y }, HostReply::Float(r))));
            assert(self.queries.entries().subrange(0, q0.entries().len() as int) =~= q0.entries());
        }
        r
    }

    /// An infix operator. Integer arithmetic wraps where Rust's release
    /// build wraps; dividing by zero or `i64::MIN / -1` is an error.
    pub fn eval_binary(&mut self, left: Value, op: BinaryOp, right: Value, depth: u64) -> (r: Result<Value, RuntimeError>)
        requires
            old(self).inv(),
            old(self).store.value_ok(left@),
            old(self).store.value_ok(right@),
        ensures
            final(self).only_host_changed(old(self)),
            spec_binary(old(self).store, left@, op, right@, depth as nat) matches Some(res) ==> (match res {
                Ok(x) => r matches Ok(y) && y@ == x,
                Err(k) => r matches Err(e) && e.kind == k,
            }),
            r matches Ok(x) ==> old(self).store.value_ok(x@),
            r matches Err(e) ==> e.span is None && e.call_stack@.len() == 0,
            op == BinaryOp::Equal || op == BinaryOp::NotEqual ==> (r matches Ok(x) && x@ is Bool),
            spec_binary(old(self).store, left@, op, right@, depth as nat) is None
                ==> binary_by_host(old(self).queries, final(self).queries, left@, op, right@, r),
            op == BinaryOp::Equal || op == BinaryOp::NotEqual
                ==> equality_asked(old(self).store, old(self).queries, final(self).queries, left@, op, right@, depth as nat, r),
    {
        match op {
            BinaryOp::Add => match (&left, &right) {
                (Value::Int(a), Value::Int(b)) => Ok(Value::Int(a.wrapping_add(*b))),
                (Value::Str(a), Value::Str(b)) => {
                    let mut s = a.clone();
                    s.append(b.as_str());
                    Ok(Value::Str(s))
                },
                _ => {
                    if is_num(&left) && is_num(&right) {
                        Ok(Value::Float(self.float_binary(&left, FloatArith::Add, &right)))
                    } else {
                        Err(RuntimeError::new(ErrorKind::AddMismatch))
                    }
                },
            },
            BinaryOp::Subtract | BinaryOp::Multiply | BinaryOp::Divide => match (&left, &right) {
                (Value::Int(a), Value::Int(b)) => {
                    match op {
                        BinaryOp::Subtract => Ok(Value::Int(a.wrapping_sub(*b))),
                        BinaryOp::Multiply => Ok(Value::Int(a.wrapping_mul(*b))),
                        _ => match int_div(*a, *b) {
                            Some(q) => Ok(Value::Int(q)),
                            None => if *b == 0 {
                                Err(RuntimeError::new(ErrorKind::DivisionByZero))
                            } else {
                                Err(RuntimeError::new(ErrorKind::IntegerOverflow))
                            },
                        },
                    }
                },
                _ => {
                    if is_num(&left) && is_num(&right) {
                        let fop = match op {
                            BinaryOp::Subtract => FloatArith::Subtract,
                            BinaryOp::Multiply => FloatArith::Multiply,
                            _ => FloatArith::Divide,
                        };
                        Ok(Value::Float(self.float_binary(&left, fop, &right)))
                    } else {
                        Err(RuntimeError::new(ErrorKind::NumericMismatch))
                    }
                },
            },
            BinaryOp::Modulo => match (&left, &right) {
                (Value::Int(a), Value::Int(b)) => match int_rem(*a, *b) {
                    Some(q) => Ok(Value::Int(q)),
                    None => if *b == 0 {
                        Err(RuntimeError::new(ErrorKind::DivisionByZero))
                    } else {
                        Err(RuntimeError::new(ErrorKind::IntegerOverflow))
                    },
                },
                _ => Err(RuntimeError::new(ErrorKind::ModuloNonInt)),
            },
            BinaryOp::Equal => Ok(Value::Bool(self.values_equal(&left, &right, depth))),
            BinaryOp::NotEqual => Ok(Value::Bool(!self.values_equal(&left, &right, depth))),
            BinaryOp::Less | BinaryOp::LessEqual | BinaryOp::Greater | BinaryOp::GreaterEqual => {
                match (&left, &right) {
                    (Value::Int(a), Value::Int(b)) => {
                        if ints_exact_as_floats(*a, *b) {
                            let holds = match op {
                                BinaryOp::Less => *a < *b,
                                BinaryOp::LessEqual => *a <= *b,
                                BinaryOp::Greater => *a > *b,
                                _ => *a >= *b,
                            };
                            return Ok(Value::Bool(holds));
                        }
                    },
                    _ => {},
                }
                if is_num(&left) && is_num(&right) {
                    let ghost q0 = self.queries;
                    let (x, y) = self.to_doubles(&left, &right);
                    let ghost q1 = self.queries;
                    let order = self.queries.float_compare(&mut self.host, x, y);
                    proof {
                        let qs = self.queries.since(&q0);
                        assert(qs =~= q1.since(&q0).push((HostQuery::FloatCompare { a: x, b: y }, HostReply::Order(order))));
                        assert(self.queries.entries().subrange(0, q0.entries().len() as int) =~= q0.entries());
                    }
                    Ok(Value::Bool(order_holds(op, order)))
                } else {
                    Err(RuntimeError::new(ErrorKind::ComparisonMismatch))
                }
            },
            BinaryOp::And => match (&left, &right) {
                (Value::Bool(a), Value::Bool(b)) => Ok(Value::Bool(*a && *b)),
                _ => Err(RuntimeError::new(ErrorKind::AndNonBool)),
            },
            BinaryOp::Or => match (&left, &right) {
                (Value::Bool(a), Value::Bool(b)) => Ok(Value::Bool(*a || *b)),
                _ => Err(RuntimeError::new(ErrorKind::OrNonBool)),
            },
        }
    }
}

/// Whether a value is a number.
pub fn is_num(v: &Value) -> (r: bool)
    ensures
        r == is_number(v@),
{
    match v {
        Value::Int(_) => true,
        Value::Float(_) => true,
        _ => false,
    }
}

} // verus!
