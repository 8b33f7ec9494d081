//! What holds across the interpreter's operations.
use vstd::prelude::*;
use vstd::string::*;
use crate::builtins::{BuiltinFunction, lemma_builtin_named_by_own_name};
use crate::interp::{initial_global, lemma_canvas_not_builtin};
use crate::store::{FrameView, Store, assoc_get, assoc_index, env_lookup, env_owner, has_key, lemma_assoc_get_at, unique_keys};
use crate::value::ValueView;
use crate::builtins::HostValue;
use crate::ops::{spec_equal, equality_asked, answers_consistent, answers_symmetric, compared_as, entry_equal_fits, equal_fits,
    lemma_double_in_unique, lemma_equal_fits_grows, lemma_equal_fits_unique, number_pair_by_host};
use crate::host::{HostQuery, HostReply};
use crate::host::QueryLog;
use crate::syntax::BinaryOp;
use crate::value::Value;
use crate::error::RuntimeError;
use crate::text::{text_lt, utf8, lemma_bytes_lt_irreflexive, lemma_bytes_lt_total, lemma_bytes_lt_asymmetric, lemma_bytes_lt_transitive, lemma_utf8_injective};

verus! {

/// Scopes `after` differ from `before` only in the bindings of scope `changed`.
pub open spec fn only_scope_changed(before: Seq<FrameView>, after: Seq<FrameView>, changed: int) -> bool {
    &&& before.len() == after.len()
    &&& 0 <= changed < before.len()
    &&& forall|i: int| 0 <= i < before.len() && i != changed ==> #[trigger] after[i] == before[i]
    &&& after[changed].parent == before[changed].parent
}

/// A name that resolves to scope `o` from `env` resolves, after only
/// scope `o` changed and still binds it, to `o`'s new binding.
proof fn lemma_lookup_through(before: Seq<FrameView>, after: Seq<FrameView>, env: int, name: Seq<char>, o: int)
    requires
        only_scope_changed(before, after, o),
        env_owner(before, env, name) == Some(o),
        has_key(after[o].entries, name),
    ensures
        env_lookup(after, env, name) == assoc_get(after[o].entries, name),
    decreases env,
{
    if env != o {
        let p = before[env].parent.unwrap();
        lemma_lookup_through(before, after, p as int, name, o);
    }
}

/// Lookups of a name whose binding in the changed scope stayed the same
/// give what they gave before.
proof fn lemma_lookup_unchanged(before: Seq<FrameView>, after: Seq<FrameView>, changed: int, name: Seq<char>, env: int)
    requires
        only_scope_changed(before, after, changed),
        has_key(after[changed].entries, name) == has_key(before[changed].entries, name),
        assoc_get(after[changed].entries, name) == assoc_get(before[changed].entries, name),
    ensures
        env_lookup(after, env, name) == env_lookup(before, env, name),
    decreases env,
{
    if 0 <= env < before.len() {
        if let Some(p) = before[env].parent {
            if p < env {
                lemma_lookup_unchanged(before, after, changed, name, p as int);
            }
        }
    }
}

/// Binding a name in a scope (`x는 1이다`, a parameter of a call) makes
/// the name read as the bound value there, and changes what no other
/// name reads as, from any scope.
pub proof fn law_read_after_bind(before: Store, after: Store, env: int, name: Seq<char>, v: ValueView, other: Seq<char>, from: int)
    requires
        before.wf(),
        0 <= env < before.frames@.len(),
        after.same_except_frame(&before, env),
        forall|key: Seq<char>| #[trigger] has_key(after.frames_view()[env].entries, key) <==> (key == name
            || has_key(before.frames_view()[env].entries, key)),
        forall|key: Seq<char>| #[trigger] assoc_get(after.frames_view()[env].entries, key) == (if key == name {
            Some(v)
        } else {
            assoc_get(before.frames_view()[env].entries, key)
        }),
    ensures
        env_lookup(after.frames_view(), env, name) == Some(v),
        other != name ==> env_lookup(after.frames_view(), from, other) == env_lookup(before.frames_view(), from, other),
{
    let b = before.frames_view();
    let a = after.frames_view();
    assert(only_scope_changed(b, a, env));
    assert(has_key(a[env].entries, name));
    assert(assoc_get(a[env].entries, name) == Some(v));
    if other != name {
        assert(has_key(a[env].entries, other) == has_key(b[env].entries, other));
        assert(assoc_get(a[env].entries, other) == assoc_get(b[env].entries, other));
        lemma_lookup_unchanged(b, a, env, other, from);
    }
}

/// Assigning to a name (`x를 2로 바꾼다`) changes the binding it resolves
/// to, wherever that is, so that reading it from the same scope gives the
/// assigned value.
pub proof fn law_read_after_assign(before: Store, after: Store, env: int, name: Seq<char>, v: ValueView)
    requires
        before.wf(),
        0 <= env < before.frames@.len(),
        env_owner(before.frames_view(), env, name) is Some,
        after.same_except_frame(&before, env_owner(before.frames_view(), env, name).unwrap()),
        after.frames_view()[env_owner(before.frames_view(), env, name).unwrap()].entries == before.frames_view()[env_owner(
            before.frames_view(),
            env,
            name,
        ).unwrap()].entries.update(
            assoc_index(before.frames_view()[env_owner(before.frames_view(), env, name).unwrap()].entries, name),
            (name, v),
        ),
    ensures
        env_lookup(after.frames_view(), env, name) == Some(v),
{
    let b = before.frames_view();
    let a = after.frames_view();
    let o = env_owner(b, env, name).unwrap();
    crate::store::lemma_owner_lookup(b, env, name);
    assert(only_scope_changed(b, a, o));
    let s = b[o].entries;
    assert(unique_keys(s)) by {
        assert(before.frames@[o] == before.frames@[o]);
    }
    let idx = assoc_index(s, name);
    assert(0 <= idx < s.len() && s[idx].0 == name);
    let t = a[o].entries;
    assert(t[idx] == (name, v));
    assert(unique_keys(t)) by {
        assert forall|i: int, j: int| 0 <= i < t.len() && 0 <= j < t.len() && i != j implies (#[trigger] t[i]).0 != (#[trigger] t[j]).0 by {
            assert(s[i].0 != s[j].0);
        }
    }
    lemma_assoc_get_at(t, idx);
    assert(has_key(t, name));
    lemma_lookup_through(b, a, env, name, o);
}

/// Taking the last element out of a list right after appending to it
/// (`추가` then `마지막꺼내기`) gives back the appended value and leaves
/// the list as it was.
pub proof fn law_pop_undoes_push(items: Seq<ValueView>, v: ValueView)
    ensures
        items.push(v).len() > 0,
        items.push(v).last() == v,
        items.push(v).drop_last() == items,
{
    assert(items.push(v).drop_last() =~= items);
}

/// A builtin function value prints as `<내장 함수 ` and its name and `>`.
pub proof fn law_builtin_display(f: BuiltinFunction)
    ensures
        f.spec_display() == "<내장 함수 "@ + f.spec_name() + ">"@,
{
    reveal_strlit("<내장 함수 ");
    reveal_strlit(">");
    match f {
        BuiltinFunction::Length => {
            reveal_strlit("<내장 함수 길이>");
            reveal_strlit("길이");
        },
        BuiltinFunction::CurrentTimeSeconds => {
            reveal_strlit("<내장 함수 현재시간초>");
            reveal_strlit("현재시간초");
        },
        BuiltinFunction::Push => {
            reveal_strlit("<내장 함수 추가>");
            reveal_strlit("추가");
        },
        BuiltinFunction::PopLast => {
            reveal_strlit("<내장 함수 마지막꺼내기>");
            reveal_strlit("마지막꺼내기");
        },
        BuiltinFunction::ToString => {
            reveal_strlit("<내장 함수 문자열로>");
            reveal_strlit("문자열로");
        },
        BuiltinFunction::ToInt => {
            reveal_strlit("<내장 함수 정수로>");
            reveal_strlit("정수로");
        },
        BuiltinFunction::ToFloat => {
            reveal_strlit("<내장 함수 실수로>");
            reveal_strlit("실수로");
        },
        BuiltinFunction::FlattenLayer => {
            reveal_strlit("<내장 함수 평탄화>");
            reveal_strlit("평탄화");
        },
        BuiltinFunction::LinearLayer => {
            reveal_strlit("<내장 함수 선형층>");
            reveal_strlit("선형층");
        },
        BuiltinFunction::ReluLayer => {
            reveal_strlit("<내장 함수 렐루>");
            reveal_strlit("렐루");
        },
        BuiltinFunction::SequentialNetwork => {
            reveal_strlit("<내장 함수 순차신경망>");
            reveal_strlit("순차신경망");
        },
        BuiltinFunction::BuildMnistDataset => {
            reveal_strlit("<내장 함수 숫자손글씨데이터셋>");
            reveal_strlit("숫자손글씨데이터셋");
        },
        BuiltinFunction::BuildDataLoader => {
            reveal_strlit("<내장 함수 데이터로더>");
            reveal_strlit("데이터로더");
        },
        BuiltinFunction::CrossEntropyLoss => {
            reveal_strlit("<내장 함수 교차엔트로피손실>");
            reveal_strlit("교차엔트로피손실");
        },
        BuiltinFunction::AdamOptimizer => {
            reveal_strlit("<내장 함수 아담>");
            reveal_strlit("아담");
        },
        BuiltinFunction::ZeroGrad => {
            reveal_strlit("<내장 함수 기울기초기화>");
            reveal_strlit("기울기초기화");
        },
        BuiltinFunction::Forward => {
            reveal_strlit("<내장 함수 순전파>");
            reveal_strlit("순전파");
        },
        BuiltinFunction::ComputeLoss => {
            reveal_strlit("<내장 함수 손실계산>");
            reveal_strlit("손실계산");
        },
        BuiltinFunction::Backward => {
            reveal_strlit("<내장 함수 역전파>");
            reveal_strlit("역전파");
        },
        BuiltinFunction::OptimizerStep => {
            reveal_strlit("<내장 함수 매개변수갱신>");
            reveal_strlit("매개변수갱신");
        },
        BuiltinFunction::SetTrainMode => {
            reveal_strlit("<내장 함수 학습모드로바꾸기>");
            reveal_strlit("학습모드로바꾸기");
        },
        BuiltinFunction::SetEvalMode => {
            reveal_strlit("<내장 함수 평가모드로바꾸기>");
            reveal_strlit("평가모드로바꾸기");
        },
        BuiltinFunction::FetchBatch => {
            reveal_strlit("<내장 함수 배치가져오기>");
            reveal_strlit("배치가져오기");
        },
        BuiltinFunction::ArgMax => {
            reveal_strlit("<내장 함수 최대인덱스>");
            reveal_strlit("최대인덱스");
        },
        BuiltinFunction::CountEqual => {
            reveal_strlit("<내장 함수 같은값개수>");
            reveal_strlit("같은값개수");
        },
    }
    assert(f.spec_display() =~= "<내장 함수 "@ + f.spec_name() + ">"@);
}

/// The older names `숫자손글씨데이터셋만들기`, `데이터로더만들기` and `스텝`
/// start out bound to the same builtins as `숫자손글씨데이터셋`,
/// `데이터로더` and `매개변수갱신`.
pub proof fn law_aliases_bound_like_their_builtins()
    ensures
        initial_global("숫자손글씨데이터셋만들기"@) == initial_global("숫자손글씨데이터셋"@),
        initial_global("데이터로더만들기"@) == initial_global("데이터로더"@),
        initial_global("스텝"@) == initial_global("매개변수갱신"@),
        initial_global("스텝"@) is Some,
{
    reveal_strlit("그림판");
    reveal_strlit("숫자손글씨데이터셋만들기");
    reveal_strlit("데이터로더만들기");
    reveal_strlit("스텝");
    reveal_strlit("숫자손글씨데이터셋");
    reveal_strlit("데이터로더");
    reveal_strlit("매개변수갱신");
    lemma_canvas_not_builtin();
    lemma_builtin_named_by_own_name(BuiltinFunction::BuildMnistDataset);
    lemma_builtin_named_by_own_name(BuiltinFunction::BuildDataLoader);
    lemma_builtin_named_by_own_name(BuiltinFunction::OptimizerStep);
    let c = "그림판"@;
    let a1 = "숫자손글씨데이터셋만들기"@;
    let a2 = "데이터로더만들기"@;
    let a3 = "스텝"@;
    let n1 = "숫자손글씨데이터셋"@;
    let n2 = "데이터로더"@;
    let n3 = "매개변수갱신"@;
    assert(a1 != c && a2 != c && a3 != c) by {
        assert(a1.len() != c.len());
        assert(a2.len() != c.len());
        assert(a3.len() != c.len());
    }
    assert(a2 != a1 && a3 != a1 && a3 != a2) by {
        assert(a2.len() != a1.len());
        assert(a3.len() != a1.len());
        assert(a3.len() != a2.len());
    }
    assert(n1 != c && n2 != c && n3 != c) by {
        assert(n1.len() != c.len());
        assert(n2.len() != c.len());
        assert(n3.len() != c.len());
    }
}

/// After `평가모드로바꾸기(모델)` the model runs forward without gradients,
/// after `학습모드로바꾸기(모델)` with them: the forward pass that follows
/// hands the host the model's mode as whether to keep gradients, and gives
/// the tensor the host answered with.
pub proof fn law_mode_decides_gradients<H: crate::host::Host>(
    a: crate::interp::Interpreter<H>,
    b: crate::interp::Interpreter<H>,
    c: crate::interp::Interpreter<H>,
    id: usize,
    training: bool,
    tensor: usize,
    set: Result<crate::value::Value, crate::error::RuntimeError>,
    r: Result<crate::value::Value, crate::error::RuntimeError>,
)
    requires
        id < a.torch.models@.len(),
        crate::learning::model_mode_outcome(a, b, ValueView::Host(HostValue::TorchModel(id)), training, set),
        crate::learning::forward_outcome(b, c, ValueView::Host(HostValue::TorchModel(id)), ValueView::Tensor(tensor), r),
    ensures
        crate::torch::last_request(c.torch) == (crate::host::TorchRequest::Forward { model: id, input: tensor, training }),
        r matches Ok(x) && x@ == ValueView::Tensor(crate::torch::last_answer(c.torch).handle),
{
    assert(b.torch.models@[id as int] == training);
}

/// A call with named arguments whose names are exactly the function's
/// parameters does what the positional call does with the named values in
/// parameter order (see `call_run`, which `call_value` states for a
/// positional call one level deeper).
pub proof fn law_named_call_is_positional<H: crate::host::Host>(
    old: crate::interp::Interpreter<H>,
    new: crate::interp::Interpreter<H>,
    id: usize,
    rid: usize,
    span: Option<crate::syntax::Span>,
    depth: nat,
    r: Result<crate::value::Value, crate::error::RuntimeError>,
)
    requires
        depth > 1,
        crate::calls::named_call_post(old, new, ValueView::Function(crate::value::FunctionValue::User(id)), ValueView::Record(rid), span, depth, r),
        forall|k: int| 0 <= k < old.store.record_view(rid as int).len() ==> crate::calls::param_named(
            old.store.functions@[id as int].params@,
            (#[trigger] old.store.record_view(rid as int)[k]).0,
        ),
        forall|k: int| 0 <= k < old.store.functions@[id as int].params@.len() ==> has_key(
            old.store.record_view(rid as int),
            (#[trigger] old.store.functions@[id as int].params@[k])@,
        ),
    ensures
        crate::calls::call_run(
            old,
            new,
            id,
            crate::calls::named_args(old.store.record_view(rid as int), old.store.functions@[id as int].params@),
            span,
            (depth - 2) as nat,
            r,
        ),
{
}

/// The keys of entries, in order.
pub open spec fn keys_of(s: Seq<(Seq<char>, ValueView)>) -> Seq<Seq<char>> {
    s.map_values(|e: (Seq<char>, ValueView)| e.0)
}

/// Two entry sequences with unique keys and equal lengths, the keys of
/// the first all among the second's, have the same keys.
proof fn lemma_same_keys(s: Seq<(Seq<char>, ValueView)>, t: Seq<(Seq<char>, ValueView)>)
    requires
        unique_keys(s),
        unique_keys(t),
        s.len() == t.len(),
        forall|i: int| 0 <= i < s.len() ==> has_key(t, (#[trigger] s[i]).0),
    ensures
        forall|j: int| 0 <= j < t.len() ==> has_key(s, (#[trigger] t[j]).0),
{
    broadcast use vstd::seq_lib::seq_to_set_is_finite;
    let ks = keys_of(s);
    let kt = keys_of(t);
    assert(ks.no_duplicates()) by {
        assert forall|i: int, j: int| 0 <= i < ks.len() && 0 <= j < ks.len() && i != j implies ks[i] != ks[j] by {
            assert(s[i].0 != s[j].0);
        }
    }
    assert(kt.no_duplicates()) by {
        assert forall|i: int, j: int| 0 <= i < kt.len() && 0 <= j < kt.len() && i != j implies kt[i] != kt[j] by {
            assert(t[i].0 != t[j].0);
        }
    }
    ks.unique_seq_to_set();
    kt.unique_seq_to_set();
    assert(ks.to_set().subset_of(kt.to_set())) by {
        assert forall|k: Seq<char>| ks.to_set().contains(k) implies kt.to_set().contains(k) by {
            let i = choose|i: int| 0 <= i < ks.len() && ks[i] == k;
            assert(has_key(t, s[i].0));
            let j = choose|j: int| 0 <= j < t.len() && (#[trigger] t[j]).0 == s[i].0;
            assert(kt[j] == k);
        }
    }
    vstd::set_lib::lemma_subset_equality(ks.to_set(), kt.to_set());
    assert forall|j: int| 0 <= j < t.len() implies has_key(s, (#[trigger] t[j]).0) by {
        assert(kt[j] == t[j].0);
        assert(kt.to_set().contains(kt[j]));
        assert(ks.to_set().contains(kt[j]));
        let i = choose|i: int| 0 <= i < ks.len() && ks[i] == kt[j];
        assert(s[i].0 == t[j].0);
    }
}

/// One direction of symmetry: whatever `a == b` decides, `b == a` decides too.
proof fn lemma_equal_flips(store: Store, a: ValueView, b: ValueView, depth: nat)
    requires
        store.wf(),
        spec_equal(store, a, b, depth) is Some,
    ensures
        spec_equal(store, b, a, depth) == spec_equal(store, a, b, depth),
    decreases depth,
{
    match (a, b) {
        (ValueView::List(x), ValueView::List(y)) => {
            if depth > 0 && x < store.lists@.len() && y < store.lists@.len() {
                let xs = store.list_view(x as int);
                let ys = store.list_view(y as int);
                let d = (depth - 1) as nat;
                if xs.len() == ys.len() {
                    assert forall|i: int| 0 <= i < xs.len() && #[trigger] spec_equal(store, xs[i], ys[i], d) is Some implies
                        spec_equal(store, ys[i], xs[i], d) == spec_equal(store, xs[i], ys[i], d) by {
                        lemma_equal_flips(store, xs[i], ys[i], d);
                    }
                    if exists|i: int| 0 <= i < xs.len() && spec_equal(store, #[trigger] xs[i], ys[i], d) == Some(false) {
                        let i = choose|i: int| 0 <= i < xs.len() && spec_equal(store, #[trigger] xs[i], ys[i], d) == Some(false);
                        assert(spec_equal(store, ys[i], xs[i], d) == Some(false));
                    } else {
                        assert forall|i: int| 0 <= i < ys.len() implies spec_equal(store, #[trigger] ys[i], xs[i], d) == Some(true) by {
                            assert(spec_equal(store, xs[i], ys[i], d) == Some(true));
                        }
                    }
                }
            }
        },
        (ValueView::Record(x), ValueView::Record(y)) => {
            if depth > 0 && x < store.records@.len() && y < store.records@.len() {
                let xs = store.record_view(x as int);
                let ys = store.record_view(y as int);
                let d = (depth - 1) as nat;
                crate::store::lemma_sorted_unique(xs);
                crate::store::lemma_sorted_unique(ys);
                if xs.len() == ys.len() {
                    if exists|i: int| 0 <= i < xs.len() && (!has_key(ys, (#[trigger] xs[i]).0) || spec_equal(store, xs[i].1, assoc_get(ys, xs[i].0).unwrap(), d) == Some(false)) {
                        let i = choose|i: int| 0 <= i < xs.len() && (!has_key(ys, (#[trigger] xs[i]).0) || spec_equal(store, xs[i].1, assoc_get(ys, xs[i].0).unwrap(), d) == Some(false));
                        if !has_key(ys, xs[i].0) {
                            if forall|j: int| 0 <= j < ys.len() ==> has_key(xs, (#[trigger] ys[j]).0) {
                                lemma_same_keys(ys, xs);
                                assert(false);
                            }
                            let j = choose|j: int| 0 <= j < ys.len() && !has_key(xs, (#[trigger] ys[j]).0);
                            assert(!has_key(xs, ys[j].0));
                        } else {
                            let j = choose|j: int| 0 <= j < ys.len() && (#[trigger] ys[j]).0 == xs[i].0;
                            lemma_assoc_get_at(ys, j);
                            lemma_assoc_get_at(xs, i);
                            lemma_equal_flips(store, xs[i].1, ys[j].1, d);
                            assert(has_key(xs, ys[j].0));
                            assert(spec_equal(store, ys[j].1, assoc_get(xs, ys[j].0).unwrap(), d) == Some(false));
                        }
                    } else {
                        assert(forall|i: int| 0 <= i < xs.len() ==> has_key(ys, (#[trigger] xs[i]).0));
                        lemma_same_keys(xs, ys);
                        assert forall|j: int| 0 <= j < ys.len() implies has_key(xs, (#[trigger] ys[j]).0)
                            && spec_equal(store, ys[j].1, assoc_get(xs, ys[j].0).unwrap(), d) == Some(true) by {
                            let i = choose|i: int| 0 <= i < xs.len() && (#[trigger] xs[i]).0 == ys[j].0;
                            lemma_assoc_get_at(ys, j);
                            lemma_assoc_get_at(xs, i);
                            assert(has_key(ys, xs[i].0));
                            assert(spec_equal(store, xs[i].1, assoc_get(ys, xs[i].0).unwrap(), d) == Some(true));
                            lemma_equal_flips(store, xs[i].1, ys[j].1, d);
                        }
                    }
                }
            }
        },
        _ => {},
    }
}

/// One direction of symmetry with the host's answers: how `a == b` and
/// `b == a` came out agree when the answers are consistent and symmetric.
proof fn lemma_equal_fits_flips(store: Store, a: ValueView, b: ValueView, depth: nat, r1: bool, r2: bool, asked: Seq<(HostQuery, HostReply)>)
    requires
        store.wf(),
        store.value_ok(a),
        store.value_ok(b),
        equal_fits(store, a, b, depth, r1, asked),
        equal_fits(store, b, a, depth, r2, asked),
        answers_consistent(asked),
        answers_symmetric(asked),
    ensures
        r1 == r2,
    decreases depth, 0nat,
{
    if number_pair_by_host(a, b) {
        let k1 = choose|k: int| 0 <= k < asked.len() && compared_as(#[trigger] asked[k], a, b, r1, asked);
        let k2 = choose|k: int| 0 <= k < asked.len() && compared_as(#[trigger] asked[k], b, a, r2, asked);
        if let HostQuery::FloatCompare { a: x1, b: y1 } = asked[k1].0 {
            if let HostQuery::FloatCompare { a: x2, b: y2 } = asked[k2].0 {
                lemma_double_in_unique(a, x1, y2, asked);
                lemma_double_in_unique(b, y1, x2, asked);
                assert(asked[k2].0 == (HostQuery::FloatCompare { a: y1, b: x1 }));
            }
        }
    } else if r1 != r2 {
        match (a, b) {
            (ValueView::List(x), ValueView::List(y)) => if depth > 0 {
                let xs = store.list_view(x as int);
                let ys = store.list_view(y as int);
                let d = (depth - 1) as nat;
                assert forall|k: int| 0 <= k < xs.len() implies store.value_ok(#[trigger] xs[k]) by {
                    assert(store.lists@[x as int] == store.lists@[x as int]);
                    assert(xs[k] == store.lists@[x as int]@[k]@);
                }
                assert forall|k: int| 0 <= k < ys.len() implies store.value_ok(#[trigger] ys[k]) by {
                    assert(store.lists@[y as int] == store.lists@[y as int]);
                    assert(ys[k] == store.lists@[y as int]@[k]@);
                }
                if xs.len() == ys.len() {
                    if r1 {
                        let k = choose|k: int| 0 <= k < ys.len()
                            && (forall|j: int| 0 <= j < k ==> equal_fits(store, #[trigger] ys[j], xs[j], d, true, asked))
                            && equal_fits(store, #[trigger] ys[k], xs[k], d, false, asked);
                        assert(equal_fits(store, xs[k], ys[k], d, true, asked));
                        lemma_equal_fits_flips(store, xs[k], ys[k], d, true, false, asked);
                    } else {
                        let k = choose|k: int| 0 <= k < xs.len()
                            && (forall|j: int| 0 <= j < k ==> equal_fits(store, #[trigger] xs[j], ys[j], d, true, asked))
                            && equal_fits(store, #[trigger] xs[k], ys[k], d, false, asked);
                        assert(equal_fits(store, ys[k], xs[k], d, true, asked));
                        lemma_equal_fits_flips(store, xs[k], ys[k], d, false, true, asked);
                    }
                }
            },
            (ValueView::Record(x), ValueView::Record(y)) => if depth > 0 {
                let xs = store.record_view(x as int);
                let ys = store.record_view(y as int);
                let d = (depth - 1) as nat;
                crate::store::lemma_sorted_unique(xs);
                crate::store::lemma_sorted_unique(ys);
                assert forall|k: int| 0 <= k < xs.len() implies store.value_ok((#[trigger] xs[k]).1) by {
                    assert(store.records@[x as int] == store.records@[x as int]);
                    assert(xs[k].1 == store.records@[x as int]@[k].1@);
                }
                assert forall|k: int| 0 <= k < ys.len() implies store.value_ok((#[trigger] ys[k]).1) by {
                    assert(store.records@[y as int] == store.records@[y as int]);
                    assert(ys[k].1 == store.records@[y as int]@[k].1@);
                }
                if xs.len() == ys.len() {
                    if r1 {
                        lemma_record_equal_one_way(store, xs, ys, d, asked);
                    } else {
                        lemma_record_equal_one_way(store, ys, xs, d, asked);
                    }
                }
            },
            _ => {
                law_equality_symmetric(store, a, b, depth);
            },
        }
    } else {
    }
}

/// Records `xs` and `ys` of one size cannot compare equal one way round
/// and unequal the other way with consistent, symmetric answers.
proof fn lemma_record_equal_one_way(store: Store, xs: Seq<(Seq<char>, ValueView)>, ys: Seq<(Seq<char>, ValueView)>, d: nat, asked: Seq<(HostQuery, HostReply)>)
    requires
        store.wf(),
        unique_keys(xs),
        unique_keys(ys),
        xs.len() == ys.len(),
        forall|k: int| 0 <= k < xs.len() ==> store.value_ok((#[trigger] xs[k]).1),
        forall|k: int| 0 <= k < ys.len() ==> store.value_ok((#[trigger] ys[k]).1),
        forall|k: int| 0 <= k < xs.len() ==> entry_equal_fits(store, #[trigger] xs[k], ys, d, true, asked),
        answers_consistent(asked),
        answers_symmetric(asked),
    ensures
        forall|k: int| 0 <= k < ys.len() ==> !entry_equal_fits(store, #[trigger] ys[k], xs, d, false, asked),
    decreases d, 1nat,
{
    assert forall|i: int| 0 <= i < xs.len() implies has_key(ys, (#[trigger] xs[i]).0) by {
        assert(entry_equal_fits(store, xs[i], ys, d, true, asked));
    }
    lemma_same_keys(xs, ys);
    assert forall|k: int| 0 <= k < ys.len() implies !entry_equal_fits(store, #[trigger] ys[k], xs, d, false, asked) by {
        if entry_equal_fits(store, ys[k], xs, d, false, asked) {
            assert(has_key(xs, ys[k].0));
            let i = choose|i: int| 0 <= i < xs.len() && (#[trigger] xs[i]).0 == ys[k].0;
            assert(entry_equal_fits(store, xs[i], ys, d, true, asked));
            lemma_assoc_get_at(ys, k);
            lemma_assoc_get_at(xs, i);
            lemma_equal_fits_flips(store, xs[i].1, ys[k].1, d, true, false, asked);
        }
    }
}

/// Equality of values (`==`, `!=`) is symmetric: `a == b` and `b == a`
/// decide alike, on every pair of values of a well-formed store.
pub proof fn law_equality_symmetric(store: Store, a: ValueView, b: ValueView, depth: nat)
    requires
        store.wf(),
    ensures
        spec_equal(store, a, b, depth) == spec_equal(store, b, a, depth),
{
    if spec_equal(store, a, b, depth) is Some {
        lemma_equal_flips(store, a, b, depth);
    } else if spec_equal(store, b, a, depth) is Some {
        lemma_equal_flips(store, b, a, depth);
    }
}

/// `a == b` and `b == a` answer alike, lists and records holding doubles
/// included, so long as the host answers the questions of the two
/// comparisons consistently and compares two doubles alike both ways round.
pub proof fn law_equality_symmetric_with_doubles(
    store: Store,
    a: ValueView,
    b: ValueView,
    depth: nat,
    before_ab: QueryLog,
    after_ab: QueryLog,
    r_ab: Result<Value, RuntimeError>,
    before_ba: QueryLog,
    after_ba: QueryLog,
    r_ba: Result<Value, RuntimeError>,
)
    requires
        store.wf(),
        store.value_ok(a),
        store.value_ok(b),
        equality_asked(store, before_ab, after_ab, a, BinaryOp::Equal, b, depth, r_ab),
        equality_asked(store, before_ba, after_ba, b, BinaryOp::Equal, a, depth, r_ba),
        answers_consistent(after_ab.since(&before_ab) + after_ba.since(&before_ba)),
        answers_symmetric(after_ab.since(&before_ab) + after_ba.since(&before_ba)),
    ensures
        r_ab matches Ok(x) && x@ matches ValueView::Bool(e) && r_ba matches Ok(y) && y@ == ValueView::Bool(e),
{
    let s1 = after_ab.since(&before_ab);
    let s2 = after_ba.since(&before_ba);
    let both = s1 + s2;
    assert forall|e: (HostQuery, HostReply)| s1.contains(e) implies #[trigger] both.contains(e) by {
        let k = choose|k: int| 0 <= k < s1.len() && s1[k] == e;
        assert(both[k] == e);
    }
    assert forall|e: (HostQuery, HostReply)| s2.contains(e) implies #[trigger] both.contains(e) by {
        let k = choose|k: int| 0 <= k < s2.len() && s2[k] == e;
        assert(both[s1.len() + k] == e);
    }
    if let Ok(x) = r_ab {
        if let Ok(y) = r_ba {
            if let ValueView::Bool(e) = x@ {
                if let ValueView::Bool(h) = y@ {
                    lemma_equal_fits_grows(store, a, b, depth, e, s1, both);
                    lemma_equal_fits_grows(store, b, a, depth, h, s2, both);
                    lemma_equal_fits_flips(store, a, b, depth, e, h, both);
                }
            }
        }
    }
}

/// `!=` answers the opposite of `==`, on every pair of values, lists and
/// records holding doubles included, so long as the host answers the
/// questions the two operators ask it consistently (never two answers to
/// one question).
pub proof fn law_not_equal_is_opposite(
    store: Store,
    a: ValueView,
    b: ValueView,
    depth: nat,
    before_eq: QueryLog,
    after_eq: QueryLog,
    r_eq: Result<Value, RuntimeError>,
    before_ne: QueryLog,
    after_ne: QueryLog,
    r_ne: Result<Value, RuntimeError>,
)
    requires
        equality_asked(store, before_eq, after_eq, a, BinaryOp::Equal, b, depth, r_eq),
        equality_asked(store, before_ne, after_ne, a, BinaryOp::NotEqual, b, depth, r_ne),
        answers_consistent(after_eq.since(&before_eq) + after_ne.since(&before_ne)),
    ensures
        r_eq matches Ok(x) && x@ matches ValueView::Bool(e) && r_ne matches Ok(y) && y@ == ValueView::Bool(!e),
{
    let s1 = after_eq.since(&before_eq);
    let s2 = after_ne.since(&before_ne);
    let both = s1 + s2;
    assert forall|e: (HostQuery, HostReply)| s1.contains(e) implies #[trigger] both.contains(e) by {
        let k = choose|k: int| 0 <= k < s1.len() && s1[k] == e;
        assert(both[k] == e);
    }
    assert forall|e: (HostQuery, HostReply)| s2.contains(e) implies #[trigger] both.contains(e) by {
        let k = choose|k: int| 0 <= k < s2.len() && s2[k] == e;
        assert(both[s1.len() + k] == e);
    }
    if let Ok(x) = r_eq {
        if let Ok(y) = r_ne {
            if let ValueView::Bool(e) = x@ {
                if let ValueView::Bool(h) = y@ {
                    lemma_equal_fits_grows(store, a, b, depth, e, s1, both);
                    lemma_equal_fits_grows(store, a, b, depth, !h, s2, both);
                    lemma_equal_fits_unique(store, a, b, depth, e, !h, both);
                }
            }
        }
    }
}

/// Echoing to the terminal does not change what a print records: two
/// successful prints of a value the interpreter renders itself, from the
/// same store and the same record of the run, one echoed and one not (or
/// both alike), leave the same lines, events and open frame.
pub proof fn law_print_records_alike_with_or_without_echo<H: crate::host::Host>(
    before_a: crate::interp::Interpreter<H>,
    after_a: crate::interp::Interpreter<H>,
    before_b: crate::interp::Interpreter<H>,
    after_b: crate::interp::Interpreter<H>,
    v: ValueView,
)
    requires
        crate::eval::line_printed(before_a, after_a, v),
        crate::eval::line_printed(before_b, after_b, v),
        before_a.store == before_b.store,
        before_a.recorder == before_b.recorder,
        crate::ops::spec_render(before_a.store, v, crate::interp::MAX_DEPTH as nat) is Some,
    ensures
        crate::canvas::texts_view(after_a.recorder.output@) == crate::canvas::texts_view(after_b.recorder.output@),
        crate::canvas::events_view(after_a.recorder.events@) == crate::canvas::events_view(after_b.recorder.events@),
        after_a.recorder.current@ == after_b.recorder.current@,
{
}

/// The MNIST files are read once per interpreter: once a dataset was
/// built, building another (with nothing in between that forgets the read)
/// asks the host for its split only, and no second read of the files.
pub proof fn law_mnist_read_once<H: crate::host::Host>(
    first_before: crate::interp::Interpreter<H>,
    first_after: crate::interp::Interpreter<H>,
    first_config: ValueView,
    first: Result<Value, RuntimeError>,
    second_before: crate::interp::Interpreter<H>,
    second_after: crate::interp::Interpreter<H>,
    second_config: ValueView,
    second: Result<Value, RuntimeError>,
)
    requires
        crate::learning::mnist_dataset_outcome(first_before, first_after, first_config, first),
        first is Ok,
        second_before.torch.mnist_loaded == first_after.torch.mnist_loaded,
        crate::learning::mnist_dataset_outcome(second_before, second_after, second_config, second),
        second_config matches ValueView::Record(rid)
            && crate::fields::bool_fault(second_before.store.record_view(rid as int), "학습용"@) is None,
    ensures
        crate::torch::requests_since(second_before.torch, second_after.torch).len() == 1,
        crate::torch::requests_since(second_before.torch, second_after.torch)[0].0 is LoadMnist,
{
}

/// Record keys are kept in a strict total order (the byte order of their
/// UTF-8 text): no key comes before itself, of two different keys one
/// comes first and not both, and the order is transitive.
pub proof fn law_key_order_strict_total(a: Seq<char>, b: Seq<char>, c: Seq<char>)
    ensures
        !text_lt(a, a),
        a != b ==> (text_lt(a, b) || text_lt(b, a)),
        !(text_lt(a, b) && text_lt(b, a)),
        text_lt(a, b) && text_lt(b, c) ==> text_lt(a, c),
{
    lemma_bytes_lt_irreflexive(utf8(a));
    lemma_bytes_lt_total(utf8(a), utf8(b));
    if utf8(a) == utf8(b) {
        lemma_utf8_injective(a, b);
    }
    lemma_bytes_lt_asymmetric(utf8(a), utf8(b));
    if text_lt(a, b) && text_lt(b, c) {
        lemma_bytes_lt_transitive(utf8(a), utf8(b), utf8(c));
    }
}

/// The batches a loader serves tile its dataset: batch 0 starts at the
/// first sample, each next batch starts where the one before it ended,
/// and the last batch ends at the dataset's last sample.
pub proof fn law_batches_tile(torch: crate::torch::TorchRegistry, l: usize, i: i64)
    requires
        torch.wf(),
        l < torch.loaders@.len(),
        0 <= i < torch.loaders@[l as int].len,
    ensures
        crate::learning::spec_batch_plan(torch, ValueView::Host(HostValue::TorchDataLoader(l)), ValueView::Int(0)) matches Ok(p) && p.2 == 0,
        crate::learning::spec_batch_plan(torch, ValueView::Host(HostValue::TorchDataLoader(l)), ValueView::Int(i)) matches Ok(p) && {
            &&& i + 1 < torch.loaders@[l as int].len ==> (crate::learning::spec_batch_plan(torch, ValueView::Host(
                HostValue::TorchDataLoader(l),
            ), ValueView::Int((i + 1) as i64)) matches Ok(q) && q.2 == p.2 + p.3)
            &&& i + 1 == torch.loaders@[l as int].len ==> p.2 + p.3 == torch.datasets@[p.1 as int]
        },
{
    let info = torch.loaders@[l as int];
    let total = torch.datasets@[info.dataset as int] as int;
    let b = info.batch_size as int;
    crate::torch::lemma_batches_tile_dataset(total, b, i as int);
    crate::torch::lemma_batch_start_in_range(total, b, i as int);
    crate::torch::lemma_batch_start_in_range(total, b, 0);
    if i + 1 < info.len {
        crate::torch::lemma_batch_start_in_range(total, b, i + 1);
        crate::torch::lemma_batches_tile_dataset(total, b, i + 1);
    }
}

} // verus!
