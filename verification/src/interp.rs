//! The interpreter's state and its invariant.
use vstd::prelude::*;
use vstd::string::*;
use crate::builtins::{BuiltinFunction, HostValue, builtin_bindings, spec_builtin_named,
    lemma_builtin_named_by_own_name, spec_canvas_name};
use crate::canvas::{Recorder, texts_view, events_view};
use crate::host::{Host, QueryLog, StreamLog};
use crate::store::{Store, has_key, assoc_get, env_lookup, env_owner};
use crate::torch::TorchRegistry;
use crate::value::{Value, ValueView, FunctionValue};

verus! {

/// How deep evaluation may nest before it stops with an error; no real
/// program reaches it (the machine's stack ends first).
pub const MAX_DEPTH: u64 = 18446744073709551615;

/// How a statement finished: normally, or by `돌려준다` with a value.
#[derive(Debug)]
pub enum ExecSignal {
    Continue,
    Return(Value),
}

/// The interpreter: the store, the record of the run, the PyTorch
/// bookkeeping and the host that does floating point and I/O.
pub struct Interpreter<H: Host> {
    pub store: Store,
    pub recorder: Recorder,
    pub stream_events: bool,
    pub torch: TorchRegistry,
    pub host: H,
    /// Everything streamed to the terminal.
    pub streamed: StreamLog,
    /// Every other question put to the host.
    pub queries: QueryLog,
}

/// The value a global name has when a program starts.
pub open spec fn initial_global(key: Seq<char>) -> Option<ValueView> {
    if key == spec_canvas_name() {
        Some(ValueView::Host(HostValue::Canvas))
    } else {
        match spec_builtin_named(key) {
            Some(f) => Some(ValueView::Function(FunctionValue::Builtin(f))),
            None => None,
        }
    }
}

/// No builtin is named like the canvas.
pub proof fn lemma_canvas_not_builtin()
    ensures
        spec_builtin_named(spec_canvas_name()) is None,
{
    reveal_strlit("그림판");
    reveal_strlit("숫자손글씨데이터셋만들기");
    reveal_strlit("데이터로더만들기");
    reveal_strlit("스텝");
    let c = spec_canvas_name();
    assert(c.len() == 3);
    assert forall|f: BuiltinFunction| f.spec_name() != c by {
        crate::builtins::lemma_builtin_names_distinct(f, f);
        reveal_strlit("길이");
        reveal_strlit("현재시간초");
        reveal_strlit("추가");
        reveal_strlit("마지막꺼내기");
        reveal_strlit("문자열로");
        reveal_strlit("정수로");
        reveal_strlit("실수로");
        reveal_strlit("평탄화");
        reveal_strlit("선형층");
        reveal_strlit("렐루");
        reveal_strlit("순차신경망");
        reveal_strlit("숫자손글씨데이터셋");
        reveal_strlit("데이터로더");
        reveal_strlit("교차엔트로피손실");
        reveal_strlit("아담");
        reveal_strlit("기울기초기화");
        reveal_strlit("순전파");
        reveal_strlit("손실계산");
        reveal_strlit("역전파");
        reveal_strlit("매개변수갱신");
        reveal_strlit("학습모드로바꾸기");
        reveal_strlit("평가모드로바꾸기");
        reveal_strlit("배치가져오기");
        reveal_strlit("최대인덱스");
        reveal_strlit("같은값개수");
        if f.spec_name() == c {
            assert(f.spec_name()[0] == c[0]);
            assert(f.spec_name()[f.spec_name().len() - 1] == c[c.len() - 1]);
        }
    }
}

/// Every name bound in the global scope stays bound there.
pub open spec fn globals_kept(old: Store, new: Store) -> bool {
    forall|key: Seq<char>| has_key(old.frames_view()[0].entries, key) ==> #[trigger] has_key(new.frames_view()[0].entries, key)
}

/// Assigning to a name keeps every global binding's name.
pub proof fn lemma_assign_keeps_globals(before: Store, after: Store, env: int, name: Seq<char>, v: ValueView)
    requires
        before.wf(),
        0 <= env < before.frames@.len(),
        env_owner(before.frames_view(), env, name) is Some,
        after.same_except_frame(&before, env_owner(before.frames_view(), env, name).unwrap()),
        after.frames_view()[env_owner(before.frames_view(), env, name).unwrap()].entries == before.frames_view()[env_owner(
            before.frames_view(),
            env,
            name,
        ).unwrap()].entries.update(
            crate::store::assoc_index(before.frames_view()[env_owner(before.frames_view(), env, name).unwrap()].entries, name),
            (name, v),
        ),
    ensures
        globals_kept(before, after),
{
    let o = env_owner(before.frames_view(), env, name).unwrap();
    crate::store::lemma_owner_lookup(before.frames_view(), env, name);
    if o == 0 {
        let s = before.frames_view()[0].entries;
        let idx = crate::store::assoc_index(s, name);
        assert(0 <= idx < s.len() && s[idx].0 == name);
        assert forall|key: Seq<char>| has_key(s, key) implies #[trigger] has_key(after.frames_view()[0].entries, key) by {
            let i = choose|i: int| 0 <= i < s.len() && (#[trigger] s[i]).0 == key;
            assert(after.frames_view()[0].entries[i].0 == key);
        }
    } else {
        assert(after.frames@[0] == before.frames@[0]);
    }
}

impl<H: Host> Interpreter<H> {
    /// The store is well formed, the record keeps its frames and lines in
    /// step with its events, and every loader's bookkeeping adds up.
    pub open spec fn inv(&self) -> bool {
        &&& self.store.wf()
        &&& self.recorder.inv()
        &&& self.torch.wf()
    }

    /// Nothing is ever taken away: the store and the PyTorch registry only
    /// grow (the newest scope aside), printed lines and events are only
    /// appended to.
    pub open spec fn grows_from(&self, old: &Self) -> bool {
        &&& self.store.lists@.len() >= old.store.lists@.len()
        &&& self.store.records@.len() >= old.store.records@.len()
        &&& self.store.functions@.len() >= old.store.functions@.len()
        &&& self.store.frames@.len() >= old.store.frames@.len()
        &&& self.torch.datasets@.len() >= old.torch.datasets@.len()
        &&& self.torch.loaders@.len() >= old.torch.loaders@.len()
        &&& self.torch.models@.len() >= old.torch.models@.len()
        &&& self.torch.optimizers@.len() >= old.torch.optimizers@.len()
        &&& texts_view(old.recorder.output@).is_prefix_of(texts_view(self.recorder.output@))
        &&& events_view(old.recorder.events@).is_prefix_of(events_view(self.recorder.events@))
        &&& self.recorder.run_start == old.recorder.run_start
        &&& self.stream_events == old.stream_events
        &&& globals_kept(old.store, self.store)
        &&& old.queries.entries().is_prefix_of(self.queries.entries())
        &&& old.torch.log.entries().is_prefix_of(self.torch.log.entries())
        &&& old.streamed.entries().is_prefix_of(self.streamed.entries())
    }

    /// A fresh interpreter: the global scope holds every builtin under its
    /// name (and the three older aliases) and the canvas.
    pub fn new(host: H) -> (r: Self)
        ensures
            r.inv(),
            r.store.frames@.len() == 1,
            r.store.frames@[0].parent is None,
            forall|key: Seq<char>| #[trigger] env_lookup(r.store.frames_view(), 0, key) == initial_global(key),
            r.store.frames_view()[0].entries.len() == 29,
            r.store.lists@.len() == 0,
            r.store.records@.len() == 0,
            r.store.functions@.len() == 0,
            r.torch.datasets@.len() == 0,
            r.torch.loaders@.len() == 0,
            r.torch.models@.len() == 0,
            r.torch.optimizers@.len() == 0,
            r.torch.log.entries().len() == 0,
            !r.torch.mnist_loaded,
            r.streamed.entries().len() == 0,
            r.queries.entries().len() == 0,
            r.recorder.output@.len() == 0,
            r.recorder.current@.len() == 0,
            r.recorder.frames@.len() == 0,
            r.recorder.events@.len() == 0,
            r.recorder.run_start == 0,
            !r.stream_events,
    {
        let mut store = Store::new();
        let table = builtin_bindings();
        let mut i: usize = 0;
        while i < table.len()
            invariant
                store.wf(),
                store.frames@.len() == 1,
                store.frames@[0].parent is None,
                store.lists@.len() == 0,
                store.records@.len() == 0,
                store.functions@.len() == 0,
                i <= table@.len(),
                table@.len() == 28,
                forall|k: int| 0 <= k < table@.len() ==> spec_builtin_named((#[trigger] table@[k]).0@) == Some(table@[k].1),
                forall|f: BuiltinFunction| #[trigger] crate::builtins::bound_under_own_name(table@, f),
                forall|key: Seq<char>| #[trigger] has_key(store.frames_view()[0].entries, key) ==> (
                    spec_builtin_named(key) is Some && assoc_get(store.frames_view()[0].entries, key)
                        == Some(ValueView::Function(FunctionValue::Builtin(spec_builtin_named(key).unwrap())))),
                forall|k: int| 0 <= k < i ==> has_key(store.frames_view()[0].entries, (#[trigger] table@[k]).0@),
                forall|j: int, k: int| 0 <= j < k < 28 ==> #[trigger] table@[j].0@ != #[trigger] table@[k].0@,
                store.frames_view()[0].entries.len() == i,
                forall|key: Seq<char>| #[trigger] has_key(store.frames_view()[0].entries, key)
                    ==> exists|k: int| 0 <= k < i && (#[trigger] table@[k]).0@ == key,
            decreases table@.len() - i,
        {
            let (name, f) = table[i];
            let ghost before = store;
            proof {
                if has_key(store.frames_view()[0].entries, name@) {
                    let k = choose|k: int| 0 <= k < i && (#[trigger] table@[k]).0@ == name@;
                    assert(table@[k].0@ != table@[i as int].0@);
                }
            }
            store.frame_insert(0, name, Value::Function(FunctionValue::Builtin(f)));
            proof {
                assert forall|key: Seq<char>| #[trigger] has_key(store.frames_view()[0].entries, key) implies (
                    spec_builtin_named(key) is Some && assoc_get(store.frames_view()[0].entries, key)
                        == Some(ValueView::Function(FunctionValue::Builtin(spec_builtin_named(key).unwrap())))) by {
                    if key != name@ {
                        assert(has_key(before.frames_view()[0].entries, key));
                    }
                }
                assert forall|k: int| 0 <= k < i + 1 implies has_key(store.frames_view()[0].entries, (#[trigger] table@[k]).0@) by {
                    if k < i {
                        assert(has_key(before.frames_view()[0].entries, table@[k].0@));
                    }
                }
                assert forall|key: Seq<char>| #[trigger] has_key(store.frames_view()[0].entries, key)
                    implies exists|k: int| 0 <= k < i + 1 && (#[trigger] table@[k]).0@ == key by {
                    if key == name@ {
                        assert(table@[i as int].0@ == key);
                    } else {
                        assert(has_key(before.frames_view()[0].entries, key));
                    }
                }
            }
            i = i + 1;
        }
        let ghost before = store;
        proof {
            lemma_canvas_not_builtin();
            reveal_strlit("그림판");
            assert(!has_key(store.frames_view()[0].entries, "그림판"@));
        }
        store.frame_insert(0, "그림판", Value::Host(HostValue::Canvas));
        proof {
            lemma_canvas_not_builtin();
            assert forall|key: Seq<char>| #[trigger] env_lookup(store.frames_view(), 0, key) == initial_global(key) by {
                if key == spec_canvas_name() {
                    assert(has_key(store.frames_view()[0].entries, key));
                } else {
                    if has_key(store.frames_view()[0].entries, key) {
                        assert(has_key(before.frames_view()[0].entries, key));
                    } else {
                        if spec_builtin_named(key) is Some {
                            let f = spec_builtin_named(key).unwrap();
                            // every builtin's own name and every alias was inserted
                            if key == f.spec_name() {
                                assert(crate::builtins::bound_under_own_name(table@, f));
                                let k = choose|k: int| 0 <= k < table@.len() && (#[trigger] table@[k]).1 == f && table@[k].0@ == f.spec_name();
                                assert(has_key(before.frames_view()[0].entries, table@[k].0@));
                            } else {
                                reveal_strlit("숫자손글씨데이터셋만들기");
                                reveal_strlit("데이터로더만들기");
                                reveal_strlit("스텝");
                                if exists|g: BuiltinFunction| g.spec_name() == key {
                                    let g = choose|g: BuiltinFunction| g.spec_name() == key;
                                    lemma_builtin_named_by_own_name(g);
                                }
                                assert(table@[25].0@ == "숫자손글씨데이터셋만들기"@);
                                assert(table@[26].0@ == "데이터로더만들기"@);
                                assert(table@[27].0@ == "스텝"@);
                                assert(has_key(before.frames_view()[0].entries, table@[25].0@));
                                assert(has_key(before.frames_view()[0].entries, table@[26].0@));
                                assert(has_key(before.frames_view()[0].entries, table@[27].0@));
                            }
                        }
                    }
                }
            }
        }
        Interpreter {
            store,
            recorder: Recorder::new(),
            stream_events: false,
            torch: TorchRegistry::new(),
            host,
            streamed: StreamLog::new(),
            queries: QueryLog::new(),
        }
    }

    /// Whether to echo printed lines and really sleep while running.
    pub fn set_stream_events(&mut self, enabled: bool)
        ensures
            final(self).stream_events == enabled,
            final(self).store == old(self).store,
            final(self).recorder == old(self).recorder,
            final(self).torch == old(self).torch,
    {
        self.stream_events = enabled;
    }
}


pub proof fn lemma_prefix_refl<A>(a: Seq<A>)
    ensures
        a.is_prefix_of(a),
{
    assert(a =~= a.subrange(0, a.len() as int));
}

pub proof fn lemma_prefix_push<A>(a: Seq<A>, x: A)
    ensures
        a.is_prefix_of(a.push(x)),
{
    assert(a =~= a.push(x).subrange(0, a.len() as int));
}

pub proof fn lemma_prefix_trans<A>(a: Seq<A>, b: Seq<A>, c: Seq<A>)
    requires
        a.is_prefix_of(b),
        b.is_prefix_of(c),
    ensures
        a.is_prefix_of(c),
{
    assert(a =~= c.subrange(0, a.len() as int)) by {
        assert forall|i: int| 0 <= i < a.len() implies a[i] == c.subrange(0, a.len() as int)[i] by {
            assert(a[i] == b.subrange(0, a.len() as int)[i]);
            assert(b[i] == c.subrange(0, b.len() as int)[i]);
        }
    }
}

impl<H: Host> Interpreter<H> {
    pub proof fn lemma_grows_refl(&self)
        ensures
            self.grows_from(self),
    {
        lemma_prefix_refl(texts_view(self.recorder.output@));
        lemma_prefix_refl(events_view(self.recorder.events@));
        lemma_prefix_refl(self.queries.entries());
        lemma_prefix_refl(self.torch.log.entries());
        lemma_prefix_refl(self.streamed.entries());
    }

    pub proof fn lemma_grows_trans(&self, b: &Self, c: &Self)
        requires
            b.grows_from(self),
            c.grows_from(b),
        ensures
            c.grows_from(self),
    {
        lemma_prefix_trans(texts_view(self.recorder.output@), texts_view(b.recorder.output@), texts_view(c.recorder.output@));
        lemma_prefix_trans(events_view(self.recorder.events@), events_view(b.recorder.events@), events_view(c.recorder.events@));
        lemma_prefix_trans(self.queries.entries(), b.queries.entries(), c.queries.entries());
        lemma_prefix_trans(self.torch.log.entries(), b.torch.log.entries(), c.torch.log.entries());
        lemma_prefix_trans(self.streamed.entries(), b.streamed.entries(), c.streamed.entries());
    }
}

} // verus!
