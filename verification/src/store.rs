//! The store: lists, records, closures and scopes, each referred to by number.
use std::rc::Rc;
use vstd::prelude::*;
use vstd::string::*;
use crate::syntax::Stmt;
use crate::text::{str_equal, str_less, text_lt, utf8, lemma_utf8_injective, lemma_bytes_lt_irreflexive, lemma_bytes_lt_total, lemma_bytes_lt_transitive};
use crate::value::{Value, ValueView, FunctionValue, UserFunction, values_view, entries_view};

verus! {

broadcast use vstd::seq::group_seq_axioms;

/// One scope: its bindings, the scope it was opened in, and whether a
/// closure keeps it alive.
#[derive(Debug)]
pub struct Frame {
    pub entries: Vec<(String, Value)>,
    pub parent: Option<usize>,
    pub captured: bool,
}

/// Everything values refer to by number.
#[derive(Debug)]
pub struct Store {
    pub lists: Vec<Vec<Value>>,
    pub records: Vec<Vec<(String, Value)>>,
    pub frames: Vec<Frame>,
    pub functions: Vec<UserFunction>,
}

/// Whether some entry carries `key`.
pub open spec fn has_key(s: Seq<(Seq<char>, ValueView)>, key: Seq<char>) -> bool {
    exists|i: int| 0 <= i < s.len() && (#[trigger] s[i]).0 == key
}

/// No key occurs twice.
pub open spec fn unique_keys(s: Seq<(Seq<char>, ValueView)>) -> bool {
    forall|i: int, j: int| 0 <= i < s.len() && 0 <= j < s.len() && i != j ==> (#[trigger] s[i]).0 != (#[trigger] s[j]).0
}

/// Keys strictly increase in key order (the order a `BTreeMap` walks them in).
pub open spec fn sorted_keys(s: Seq<(Seq<char>, ValueView)>) -> bool {
    forall|i: int, j: int| 0 <= i < j < s.len() ==> text_lt((#[trigger] s[i]).0, (#[trigger] s[j]).0)
}

/// The value stored under `key`, if any.
pub open spec fn assoc_get(s: Seq<(Seq<char>, ValueView)>, key: Seq<char>) -> Option<ValueView> {
    if has_key(s, key) {
        Some(s[choose|i: int| 0 <= i < s.len() && (#[trigger] s[i]).0 == key].1)
    } else {
        None
    }
}

pub proof fn lemma_assoc_get_at(s: Seq<(Seq<char>, ValueView)>, i: int)
    requires
        unique_keys(s),
        0 <= i < s.len(),
    ensures
        assoc_get(s, s[i].0) == Some(s[i].1),
{
    let key = s[i].0;
    assert(has_key(s, key));
    let j = choose|j: int| 0 <= j < s.len() && (#[trigger] s[j]).0 == key;
    if i != j {
        assert(s[i].0 != s[j].0);
    }
}

pub proof fn lemma_sorted_unique(s: Seq<(Seq<char>, ValueView)>)
    requires
        sorted_keys(s),
    ensures
        unique_keys(s),
{
    assert forall|i: int, j: int| 0 <= i < s.len() && 0 <= j < s.len() && i != j implies (#[trigger] s[i]).0 != (#[trigger] s[j]).0 by {
        if i < j {
            assert(text_lt(s[i].0, s[j].0));
        } else {
            assert(text_lt(s[j].0, s[i].0));
        }
        lemma_bytes_lt_irreflexive(utf8(s[i].0));
    }
}

/// The scope view: bindings, enclosing scope, kept alive by a closure.
pub struct FrameView {
    pub entries: Seq<(Seq<char>, ValueView)>,
    pub parent: Option<usize>,
    pub captured: bool,
}

impl View for Frame {
    type V = FrameView;

    open spec fn view(&self) -> FrameView {
        FrameView { entries: entries_view(self.entries@), parent: self.parent, captured: self.captured }
    }
}

/// The scopes, as views.
pub open spec fn frames_view(s: Seq<Frame>) -> Seq<FrameView> {
    s.map_values(|f: Frame| f@)
}

/// The value `name` is bound to, seen from scope `env`: the innermost binding wins.
pub open spec fn env_lookup(frames: Seq<FrameView>, env: int, name: Seq<char>) -> Option<ValueView>
    decreases env,
{
    if env < 0 || env >= frames.len() {
        None
    } else if has_key(frames[env].entries, name) {
        assoc_get(frames[env].entries, name)
    } else {
        match frames[env].parent {
            Some(p) => if p < env {
                env_lookup(frames, p as int, name)
            } else {
                None
            },
            None => None,
        }
    }
}

/// The scope that holds the binding `name` resolves to from `env`.
pub open spec fn env_owner(frames: Seq<FrameView>, env: int, name: Seq<char>) -> Option<int>
    decreases env,
{
    if env < 0 || env >= frames.len() {
        None
    } else if has_key(frames[env].entries, name) {
        Some(env)
    } else {
        match frames[env].parent {
            Some(p) => if p < env {
                env_owner(frames, p as int, name)
            } else {
                None
            },
            None => None,
        }
    }
}

pub proof fn lemma_owner_lookup(frames: Seq<FrameView>, env: int, name: Seq<char>)
    ensures
        env_owner(frames, env, name) is None <==> env_lookup(frames, env, name) is None,
        env_owner(frames, env, name) matches Some(o) ==> 0 <= o <= env && o < frames.len()
            && has_key(frames[o].entries, name) && env_lookup(frames, env, name) == assoc_get(
            frames[o].entries,
            name,
        ),
    decreases env,
{
    if 0 <= env < frames.len() && !has_key(frames[env].entries, name) {
        if let Some(p) = frames[env].parent {
            if p < env {
                lemma_owner_lookup(frames, p as int, name);
            }
        }
    }
}

impl Store {
    /// Whether a value only refers to things in this store.
    pub open spec fn value_ok(&self, v: ValueView) -> bool {
        match v {
            ValueView::List(id) => id < self.lists@.len(),
            ValueView::Record(id) => id < self.records@.len(),
            ValueView::Function(FunctionValue::User(id)) => id < self.functions@.len(),
            _ => true,
        }
    }

    /// The elements of list `id`.
    pub open spec fn list_view(&self, id: int) -> Seq<ValueView> {
        values_view(self.lists@[id]@)
    }

    /// The entries of record `id`, in key order.
    pub open spec fn record_view(&self, id: int) -> Seq<(Seq<char>, ValueView)> {
        entries_view(self.records@[id]@)
    }

    /// The scopes.
    pub open spec fn frames_view(&self) -> Seq<FrameView> {
        frames_view(self.frames@)
    }

    /// Well-formedness: scopes nest towards the global scope 0, closures
    /// and enclosing scopes are kept alive, names and record keys are
    /// unique, records are in key order, and every stored value refers
    /// only to things that exist.
    pub open spec fn wf(&self) -> bool {
        &&& self.frames@.len() > 0
        &&& self.frames@[0].parent is None
        &&& self.frames@[0].captured
        &&& forall|i: int|
            #![trigger self.frames@[i]]
            0 <= i < self.frames@.len() ==> {
                &&& (self.frames@[i].parent matches Some(p) ==> p < i && self.frames@[p as int].captured)
                &&& unique_keys(entries_view(self.frames@[i].entries@))
                &&& forall|k: int|
                    0 <= k < self.frames@[i].entries@.len() ==> self.value_ok(
                        (#[trigger] self.frames@[i].entries@[k]).1@,
                    )
            }
        &&& forall|f: int|
            #![trigger self.functions@[f]]
            0 <= f < self.functions@.len() ==> self.functions@[f].env < self.frames@.len()
                && self.frames@[self.functions@[f].env as int].captured
        &&& forall|l: int|
            #![trigger self.lists@[l]]
            0 <= l < self.lists@.len() ==> forall|k: int|
                0 <= k < self.lists@[l]@.len() ==> self.value_ok((#[trigger] self.lists@[l]@[k])@)
        &&& forall|r: int|
            #![trigger self.records@[r]]
            0 <= r < self.records@.len() ==> {
                &&& sorted_keys(entries_view(self.records@[r]@))
                &&& forall|k: int|
                    0 <= k < self.records@[r]@.len() ==> self.value_ok(
                        (#[trigger] self.records@[r]@[k]).1@,
                    )
            }
    }

    /// The store with only the global scope.
    pub fn new() -> (s: Store)
        ensures
            s.wf(),
            s.lists@.len() == 0,
            s.records@.len() == 0,
            s.functions@.len() == 0,
            s.frames@.len() == 1,
            s.frames@[0].entries@.len() == 0,
            s.frames@[0].parent is None,
    {
        let mut frames: Vec<Frame> = Vec::new();
        frames.push(Frame { entries: Vec::new(), parent: None, captured: true });
        Store { lists: Vec::new(), records: Vec::new(), frames, functions: Vec::new() }
    }

    // ----- lists -----

    /// Stores a new list and returns its number.
    pub fn alloc_list(&mut self, items: Vec<Value>) -> (id: usize)
        requires
            old(self).wf(),
            forall|k: int| 0 <= k < items@.len() ==> old(self).value_ok((#[trigger] items@[k])@),
        ensures
            final(self).wf(),
            id == old(self).lists@.len(),
            final(self).lists@.len() == old(self).lists@.len() + 1,
            final(self).list_view(id as int) == values_view(items@),
            forall|l: int| 0 <= l < old(self).lists@.len() ==> #[trigger] final(self).lists@[l] == old(self).lists@[l],
            final(self).records@ == old(self).records@,
            final(self).frames@ == old(self).frames@,
            final(self).functions@ == old(self).functions@,
    {
        let id = self.lists.len();
        self.lists.push(items);
        proof {
            assert forall|l: int| #![trigger self.lists@[l]] 0 <= l < self.lists@.len() implies forall|k: int|
                0 <= k < self.lists@[l]@.len() ==> self.value_ok((#[trigger] self.lists@[l]@[k])@) by {
                if l < id {
                    assert(old(self).lists@[l] == self.lists@[l]);
                }
            }
        }
        id
    }

    /// The length of list `id`.
    pub fn list_len(&self, id: usize) -> (n: usize)
        requires
            id < self.lists@.len(),
        ensures
            n == self.lists@[id as int]@.len(),
    {
        self.lists[id].len()
    }

    /// A copy of element `i` of list `id`.
    pub fn list_get(&self, id: usize, i: usize) -> (v: Value)
        requires
            id < self.lists@.len(),
            i < self.lists@[id as int]@.len(),
        ensures
            v@ == self.list_view(id as int)[i as int],
    {
        self.lists[id][i].copy()
    }

    /// Copies of all elements of list `id`.
    pub fn list_items(&self, id: usize) -> (r: Vec<Value>)
        requires
            id < self.lists@.len(),
        ensures
            values_view(r@) == self.list_view(id as int),
    {
        let n = self.lists[id].len();
        let mut r: Vec<Value> = Vec::new();
        let mut i: usize = 0;
        while i < n
            invariant
                id < self.lists@.len(),
                n == self.lists@[id as int]@.len(),
                i <= n,
                r@.len() == i,
                forall|k: int| 0 <= k < i ==> (#[trigger] r@[k])@ == self.lists@[id as int]@[k]@,
            decreases n - i,
        {
            r.push(self.lists[id][i].copy());
            i = i + 1;
        }
        assert(values_view(r@) =~= self.list_view(id as int));
        r
    }

    /// Appends a value to list `id`.
    pub fn list_push(&mut self, id: usize, v: Value)
        requires
            old(self).wf(),
            id < old(self).lists@.len(),
            old(self).value_ok(v@),
        ensures
            final(self).wf(),
            final(self).lists@.len() == old(self).lists@.len(),
            final(self).list_view(id as int) == old(self).list_view(id as int).push(v@),
            forall|l: int| 0 <= l < old(self).lists@.len() && l != id ==> #[trigger] final(self).lists@[l] == old(self).lists@[l],
            final(self).records@ == old(self).records@,
            final(self).frames@ == old(self).frames@,
            final(self).functions@ == old(self).functions@,
    {
        self.lists[id].push(v);
        proof {
            assert(self.list_view(id as int) =~= old(self).list_view(id as int).push(v@));
            assert forall|l: int| #![trigger self.lists@[l]] 0 <= l < self.lists@.len() implies forall|k: int|
                0 <= k < self.lists@[l]@.len() ==> self.value_ok((#[trigger] self.lists@[l]@[k])@) by {
                if l != id {
                    assert(old(self).lists@[l] == self.lists@[l]);
                } else {
                    assert forall|k: int| 0 <= k < self.lists@[l]@.len() implies self.value_ok((#[trigger] self.lists@[l]@[k])@) by {
                        if k < old(self).lists@[l]@.len() {
                            assert(self.lists@[l]@[k] == old(self).lists@[l]@[k]);
                        }
                    }
                }
            }
        }
    }

    /// Removes and returns the last element of list `id`, if any.
    pub fn list_pop(&mut self, id: usize) -> (r: Option<Value>)
        requires
            old(self).wf(),
            id < old(self).lists@.len(),
        ensures
            final(self).wf(),
            final(self).lists@.len() == old(self).lists@.len(),
            old(self).list_view(id as int).len() == 0 ==> r is None && final(self).list_view(id as int) == old(self).list_view(id as int),
            old(self).list_view(id as int).len() > 0 ==> (r matches Some(v) && v@ == old(self).list_view(id as int).last()
                && final(self).list_view(id as int) == old(self).list_view(id as int).drop_last()),
            r matches Some(v) ==> final(self).value_ok(v@),
            forall|l: int| 0 <= l < old(self).lists@.len() && l != id ==> #[trigger] final(self).lists@[l] == old(self).lists@[l],
            final(self).records@ == old(self).records@,
            final(self).frames@ == old(self).frames@,
            final(self).functions@ == old(self).functions@,
    {
        proof {
            assert(self.lists@[id as int] == old(self).lists@[id as int]);
        }
        let r = self.lists[id].pop();
        proof {
            assert(self.list_view(id as int) =~= old(self).list_view(id as int).take(self.lists@[id as int]@.len() as int));
            if old(self).lists@[id as int]@.len() > 0 {
                assert(self.list_view(id as int) =~= old(self).list_view(id as int).drop_last());
                let k = old(self).lists@[id as int]@.len() - 1;
                assert(old(self).value_ok(old(self).lists@[id as int]@[k]@));
            }
            assert forall|l: int| #![trigger self.lists@[l]] 0 <= l < self.lists@.len() implies forall|k: int|
                0 <= k < self.lists@[l]@.len() ==> self.value_ok((#[trigger] self.lists@[l]@[k])@) by {
                if l != id {
                    assert(old(self).lists@[l] == self.lists@[l]);
                } else {
                    assert forall|k: int| 0 <= k < self.lists@[l]@.len() implies self.value_ok((#[trigger] self.lists@[l]@[k])@) by {
                        assert(self.lists@[l]@[k] == old(self).lists@[l]@[k]);
                    }
                }
            }
        }
        r
    }

    /// Removes and returns the first element of list `id`, if any.
    pub fn list_pop_front(&mut self, id: usize) -> (r: Option<Value>)
        requires
            old(self).wf(),
            id < old(self).lists@.len(),
        ensures
            final(self).wf(),
            final(self).lists@.len() == old(self).lists@.len(),
            old(self).list_view(id as int).len() == 0 ==> r is None && final(self).list_view(id as int) == old(self).list_view(id as int),
            old(self).list_view(id as int).len() > 0 ==> (r matches Some(v) && v@ == old(self).list_view(id as int)[0]
                && final(self).list_view(id as int) == old(self).list_view(id as int).drop_first()),
            r matches Some(v) ==> final(self).value_ok(v@),
            forall|l: int| 0 <= l < old(self).lists@.len() && l != id ==> #[trigger] final(self).lists@[l] == old(self).lists@[l],
            final(self).records@ == old(self).records@,
            final(self).frames@ == old(self).frames@,
            final(self).functions@ == old(self).functions@,
    {
        if self.lists[id].len() == 0 {
            return None;
        }
        proof {
            assert(old(self).value_ok(old(self).lists@[id as int]@[0]@));
        }
        let v = self.lists[id].remove(0);
        proof {
            assert(self.list_view(id as int) =~= old(self).list_view(id as int).drop_first());
            assert forall|l: int| #![trigger self.lists@[l]] 0 <= l < self.lists@.len() implies forall|k: int|
                0 <= k < self.lists@[l]@.len() ==> self.value_ok((#[trigger] self.lists@[l]@[k])@) by {
                if l != id {
                    assert(old(self).lists@[l] == self.lists@[l]);
                } else {
                    assert forall|k: int| 0 <= k < self.lists@[l]@.len() implies self.value_ok((#[trigger] self.lists@[l]@[k])@) by {
                        assert(self.lists@[l]@[k] == old(self).lists@[l]@[k + 1]);
                    }
                }
            }
        }
        Some(v)
    }

    // ----- records -----

    /// Stores a new, empty record and returns its number.
    pub fn alloc_record(&mut self) -> (id: usize)
        requires
            old(self).wf(),
        ensures
            final(self).wf(),
            id == old(self).records@.len(),
            final(self).records@.len() == old(self).records@.len() + 1,
            final(self).record_view(id as int) == Seq::<(Seq<char>, ValueView)>::empty(),
            forall|r: int| 0 <= r < old(self).records@.len() ==> #[trigger] final(self).records@[r] == old(self).records@[r],
            final(self).lists@ == old(self).lists@,
            final(self).frames@ == old(self).frames@,
            final(self).functions@ == old(self).functions@,
    {
        let id = self.records.len();
        self.records.push(Vec::new());
        proof {
            assert(self.record_view(id as int) =~= Seq::<(Seq<char>, ValueView)>::empty());
            assert forall|r: int| #![trigger self.records@[r]] 0 <= r < self.records@.len() implies {
                &&& sorted_keys(entries_view(self.records@[r]@))
                &&& forall|k: int| 0 <= k < self.records@[r]@.len() ==> self.value_ok((#[trigger] self.records@[r]@[k]).1@)
            } by {
                if r < id {
                    assert(old(self).records@[r] == self.records@[r]);
                } else {
                    assert(entries_view(self.records@[r]@) =~= Seq::<(Seq<char>, ValueView)>::empty());
                }
            }
            assert forall|l: int| #![trigger self.lists@[l]] 0 <= l < self.lists@.len() implies forall|k: int|
                0 <= k < self.lists@[l]@.len() ==> self.value_ok((#[trigger] self.lists@[l]@[k])@) by {
                assert(old(self).lists@[l] == self.lists@[l]);
            }
        }
        id
    }

    /// The number of entries of record `id`.
    pub fn record_len(&self, id: usize) -> (n: usize)
        requires
            id < self.records@.len(),
        ensures
            n == self.record_view(id as int).len(),
    {
        self.records[id].len()
    }

    /// The value under `key` in record `id`, if any.
    pub fn record_get(&self, id: usize, key: &str) -> (r: Option<Value>)
        requires
            self.wf(),
            id < self.records@.len(),
        ensures
            r is Some <==> assoc_get(self.record_view(id as int), key@) is Some,
            r matches Some(v) ==> assoc_get(self.record_view(id as int), key@) == Some(v@),
            r matches Some(v) ==> self.value_ok(v@),
    {
        let n = self.records[id].len();
        let mut i: usize = 0;
        proof {
            lemma_sorted_unique(self.record_view(id as int));
        }
        while i < n
            invariant
                self.wf(),
                id < self.records@.len(),
                n == self.records@[id as int]@.len(),
                i <= n,
                self.wf(),
                unique_keys(self.record_view(id as int)),
                forall|k: int| 0 <= k < i ==> (#[trigger] self.records@[id as int]@[k]).0@ != key@,
            decreases n - i,
        {
            if str_equal(self.records[id][i].0.as_str(), key) {
                proof {
                    lemma_assoc_get_at(self.record_view(id as int), i as int);
                    assert(self.value_ok(self.records@[id as int]@[i as int].1@));
                }
                return Some(self.records[id][i].1.copy());
            }
            i = i + 1;
        }
        proof {
            let s = self.record_view(id as int);
            assert(!has_key(s, key@)) by {
                if has_key(s, key@) {
                    let j = choose|j: int| 0 <= j < s.len() && (#[trigger] s[j]).0 == key@;
                    assert(self.records@[id as int]@[j].0@ == key@);
                }
            }
        }
        None
    }

    /// Copies of the entries of record `id`, in key order.
    pub fn record_entries(&self, id: usize) -> (r: Vec<(String, Value)>)
        requires
            id < self.records@.len(),
        ensures
            entries_view(r@) == self.record_view(id as int),
    {
        let n = self.records[id].len();
        let mut r: Vec<(String, Value)> = Vec::new();
        let mut i: usize = 0;
        while i < n
            invariant
                id < self.records@.len(),
                n == self.records@[id as int]@.len(),
                i <= n,
                r@.len() == i,
                forall|k: int| 0 <= k < i ==> (#[trigger] r@[k]).0@ == self.records@[id as int]@[k].0@
                    && r@[k].1@ == self.records@[id as int]@[k].1@,
            decreases n - i,
        {
            let key = self.records[id][i].0.clone();
            let v = self.records[id][i].1.copy();
            r.push((key, v));
            i = i + 1;
        }
        assert(entries_view(r@) =~= self.record_view(id as int));
        r
    }

    /// Binds `key` to `v` in record `id`, replacing an entry with the same key.
    pub fn record_insert(&mut self, id: usize, key: String, v: Value)
        requires
            old(self).wf(),
            id < old(self).records@.len(),
            old(self).value_ok(v@),
        ensures
            final(self).wf(),
            final(self).records@.len() == old(self).records@.len(),
            forall|k: Seq<char>| #[trigger] assoc_get(final(self).record_view(id as int), k) == (if k == key@ {
                Some(v@)
            } else {
                assoc_get(old(self).record_view(id as int), k)
            }),
            has_key(old(self).record_view(id as int), key@) ==> final(self).record_view(id as int).len() == old(self).record_view(id as int).len(),
            !has_key(old(self).record_view(id as int), key@) ==> final(self).record_view(id as int).len() == old(self).record_view(id as int).len() + 1,
            forall|r: int| 0 <= r < old(self).records@.len() && r != id ==> #[trigger] final(self).records@[r] == old(self).records@[r],
            final(self).lists@ == old(self).lists@,
            final(self).frames@ == old(self).frames@,
            final(self).functions@ == old(self).functions@,
    {
        let n = self.records[id].len();
        let ghost s = old(self).record_view(id as int);
        let mut i: usize = 0;
        while i < n && str_less(self.records[id][i].0.as_str(), key.as_str())
            invariant
                self == old(self),
                id < self.records@.len(),
                n == self.records@[id as int]@.len(),
                s == self.record_view(id as int),
                i <= n,
                forall|k: int| 0 <= k < i ==> text_lt((#[trigger] s[k]).0, key@),
            decreases n - i,
        {
            i = i + 1;
        }
        proof {
            lemma_sorted_unique(s);
        }
        if i < n && str_equal(self.records[id][i].0.as_str(), key.as_str()) {
            // replace the value
            self.records[id].set(i, (key, v));
            proof {
                let t = self.record_view(id as int);
                assert(t =~= s.update(i as int, (key@, v@)));
                assert(sorted_keys(t)) by {
                    assert forall|a: int, b: int| 0 <= a < b < t.len() implies text_lt((#[trigger] t[a]).0, (#[trigger] t[b]).0) by {
                        assert(text_lt(s[a].0, s[b].0));
                    }
                }
                lemma_sorted_unique(t);
                assert forall|k: Seq<char>| #[trigger] assoc_get(t, k) == (if k == key@ { Some(v@) } else { assoc_get(s, k) }) by {
                    if k == key@ {
                        lemma_assoc_get_at(t, i as int);
                    } else if has_key(s, k) {
                        let j = choose|j: int| 0 <= j < s.len() && (#[trigger] s[j]).0 == k;
                        lemma_assoc_get_at(s, j);
                        lemma_assoc_get_at(t, j);
                    } else {
                        if has_key(t, k) {
                            let j = choose|j: int| 0 <= j < t.len() && (#[trigger] t[j]).0 == k;
                            assert(s[j].0 == k);
                        }
                    }
                }
                assert(s[i as int].0 == key@);
                assert(has_key(s, key@));
                self.lemma_records_wf_after_update(*old(self), id as int);
            }
        } else {
            self.records[id].insert(i, (key, v));
            proof {
                let t = self.record_view(id as int);
                assert(t =~= s.insert(i as int, (key@, v@)));
                // every key after position i is larger than `key`
                assert forall|k: int| i <= k < s.len() implies text_lt(key@, (#[trigger] s[k]).0) by {
                    if i < n {
                        // s[i] is not less than key and not equal to it
                        lemma_bytes_lt_total(utf8(s[i as int].0), utf8(key@));
                        if utf8(s[i as int].0) == utf8(key@) {
                            lemma_utf8_injective(s[i as int].0, key@);
                        }
                        if k > i {
                            assert(text_lt(s[i as int].0, s[k].0));
                            lemma_bytes_lt_transitive(utf8(key@), utf8(s[i as int].0), utf8(s[k].0));
                        }
                    }
                }
                assert(sorted_keys(t)) by {
                    assert forall|a: int, b: int| 0 <= a < b < t.len() implies text_lt((#[trigger] t[a]).0, (#[trigger] t[b]).0) by {
                        if b < i {
                            assert(text_lt(s[a].0, s[b].0));
                        } else if b == i {
                            assert(text_lt(s[a].0, key@));
                        } else if a < i {
                            assert(text_lt(s[a].0, key@));
                            assert(text_lt(key@, s[b - 1].0));
                            lemma_bytes_lt_transitive(utf8(s[a].0), utf8(key@), utf8(s[b - 1].0));
                        } else if a == i {
                            assert(text_lt(key@, s[b - 1].0));
                        } else {
                            assert(text_lt(s[a - 1].0, s[b - 1].0));
                        }
                    }
                }
                lemma_sorted_unique(t);
                assert(!has_key(s, key@)) by {
                    if has_key(s, key@) {
                        let j = choose|j: int| 0 <= j < s.len() && (#[trigger] s[j]).0 == key@;
                        if j < i {
                            assert(text_lt(s[j].0, key@));
                            lemma_bytes_lt_irreflexive(utf8(key@));
                        } else {
                            assert(text_lt(key@, s[j].0));
                            lemma_bytes_lt_irreflexive(utf8(key@));
                        }
                    }
                }
                assert forall|k: Seq<char>| #[trigger] assoc_get(t, k) == (if k == key@ { Some(v@) } else { assoc_get(s, k) }) by {
                    if k == key@ {
                        lemma_assoc_get_at(t, i as int);
                    } else if has_key(s, k) {
                        let j = choose|j: int| 0 <= j < s.len() && (#[trigger] s[j]).0 == k;
                        lemma_assoc_get_at(s, j);
                        if j < i {
                            lemma_assoc_get_at(t, j);
                        } else {
                            assert(t[j + 1] == s[j]);
                            lemma_assoc_get_at(t, j + 1);
                        }
                    } else {
                        if has_key(t, k) {
                            let j = choose|j: int| 0 <= j < t.len() && (#[trigger] t[j]).0 == k;
                            if j < i {
                                assert(s[j].0 == k);
                            } else if j > i {
                                assert(s[j - 1].0 == k);
                            }
                        }
                    }
                }
                self.lemma_records_wf_after_update(*old(self), id as int);
            }
        }
    }

    proof fn lemma_records_wf_after_update(&self, old_store: Store, id: int)
        requires
            old_store.wf(),
            0 <= id < old_store.records@.len(),
            self.records@.len() == old_store.records@.len(),
            forall|r: int| 0 <= r < old_store.records@.len() && r != id ==> #[trigger] self.records@[r] == old_store.records@[r],
            self.lists@ == old_store.lists@,
            self.frames@ == old_store.frames@,
            self.functions@ == old_store.functions@,
            sorted_keys(self.record_view(id)),
            forall|k: int| 0 <= k < self.records@[id]@.len() ==> self.value_ok((#[trigger] self.records@[id]@[k]).1@),
        ensures
            self.wf(),
    {
        assert forall|r: int| #![trigger self.records@[r]] 0 <= r < self.records@.len() implies {
            &&& sorted_keys(entries_view(self.records@[r]@))
            &&& forall|k: int| 0 <= k < self.records@[r]@.len() ==> self.value_ok((#[trigger] self.records@[r]@[k]).1@)
        } by {
            if r != id {
                assert(old_store.records@[r] == self.records@[r]);
            }
        }
        assert forall|i: int| #![trigger self.frames@[i]] 0 <= i < self.frames@.len() implies
            forall|k: int| 0 <= k < self.frames@[i].entries@.len() ==> self.value_ok((#[trigger] self.frames@[i].entries@[k]).1@) by {
            assert(old_store.frames@[i] == self.frames@[i]);
        }
        assert forall|l: int| #![trigger self.lists@[l]] 0 <= l < self.lists@.len() implies forall|k: int|
            0 <= k < self.lists@[l]@.len() ==> self.value_ok((#[trigger] self.lists@[l]@[k])@) by {
            assert(old_store.lists@[l] == self.lists@[l]);
        }
    }
}


/// The position of `key` among the entries.
pub open spec fn assoc_index(s: Seq<(Seq<char>, ValueView)>, key: Seq<char>) -> int {
    choose|i: int| 0 <= i < s.len() && (#[trigger] s[i]).0 == key
}

impl Store {
    // ----- scopes -----

    /// Everything but scope `env`'s bindings is unchanged.
    pub open spec fn same_except_frame(&self, other: &Store, env: int) -> bool {
        &&& self.lists@ == other.lists@
        &&& self.records@ == other.records@
        &&& self.functions@ == other.functions@
        &&& self.frames@.len() == other.frames@.len()
        &&& forall|i: int| 0 <= i < self.frames@.len() && i != env ==> #[trigger] self.frames@[i] == other.frames@[i]
        &&& self.frames@[env].parent == other.frames@[env].parent
        &&& self.frames@[env].captured == other.frames@[env].captured
    }

    /// Opens a new scope inside `parent` (the scope of a call).
    pub fn new_frame(&mut self, parent: usize) -> (id: usize)
        requires
            old(self).wf(),
            parent < old(self).frames@.len(),
            old(self).frames@[parent as int].captured,
        ensures
            final(self).wf(),
            id == old(self).frames@.len(),
            final(self).frames@.len() == old(self).frames@.len() + 1,
            forall|i: int| 0 <= i < old(self).frames@.len() ==> #[trigger] final(self).frames@[i] == old(self).frames@[i],
            final(self).frames@[id as int].entries@.len() == 0,
            final(self).frames@[id as int].parent == Some(parent),
            !final(self).frames@[id as int].captured,
            final(self).lists@ == old(self).lists@,
            final(self).records@ == old(self).records@,
            final(self).functions@ == old(self).functions@,
    {
        let id = self.frames.len();
        self.frames.push(Frame { entries: Vec::new(), parent: Some(parent), captured: false });
        proof {
            assert forall|i: int| #![trigger self.frames@[i]] 0 <= i < self.frames@.len() implies {
                &&& (self.frames@[i].parent matches Some(p) ==> p < i && self.frames@[p as int].captured)
                &&& unique_keys(entries_view(self.frames@[i].entries@))
                &&& forall|k: int| 0 <= k < self.frames@[i].entries@.len() ==> self.value_ok((#[trigger] self.frames@[i].entries@[k]).1@)
            } by {
                if i < id {
                    assert(old(self).frames@[i] == self.frames@[i]);
                } else {
                    assert(entries_view(self.frames@[i].entries@) =~= Seq::<(Seq<char>, ValueView)>::empty());
                }
            }
            assert forall|f: int| #![trigger self.functions@[f]] 0 <= f < self.functions@.len() implies
                self.functions@[f].env < self.frames@.len() && self.frames@[self.functions@[f].env as int].captured by {
                assert(old(self).frames@[old(self).functions@[f].env as int] == self.frames@[self.functions@[f].env as int]);
            }
            assert forall|l: int| #![trigger self.lists@[l]] 0 <= l < self.lists@.len() implies forall|k: int|
                0 <= k < self.lists@[l]@.len() ==> self.value_ok((#[trigger] self.lists@[l]@[k])@) by {
                assert(old(self).lists@[l] == self.lists@[l]);
            }
            assert forall|r: int| #![trigger self.records@[r]] 0 <= r < self.records@.len() implies {
                &&& sorted_keys(entries_view(self.records@[r]@))
                &&& forall|k: int| 0 <= k < self.records@[r]@.len() ==> self.value_ok((#[trigger] self.records@[r]@[k]).1@)
            } by {
                assert(old(self).records@[r] == self.records@[r]);
            }
        }
        id
    }

    /// The position of `name` in scope `env`'s own bindings.
    fn frame_find(&self, env: usize, name: &str) -> (r: Option<usize>)
        requires
            self.wf(),
            env < self.frames@.len(),
        ensures
            r is None <==> !has_key(self.frames_view()[env as int].entries, name@),
            r matches Some(k) ==> k < self.frames@[env as int].entries@.len()
                && self.frames@[env as int].entries@[k as int].0@ == name@
                && k == assoc_index(self.frames_view()[env as int].entries, name@)
                && assoc_get(self.frames_view()[env as int].entries, name@) == Some(self.frames@[env as int].entries@[k as int].1@),
    {
        let n = self.frames[env].entries.len();
        let mut i: usize = 0;
        assert(self.frames@[env as int] == self.frames@[env as int]);
        let ghost s = self.frames_view()[env as int].entries;
        assert(unique_keys(s));
        while i < n
            invariant
                env < self.frames@.len(),
                n == self.frames@[env as int].entries@.len(),
                s == entries_view(self.frames@[env as int].entries@),
                unique_keys(s),
                i <= n,
                forall|k: int| 0 <= k < i ==> (#[trigger] self.frames@[env as int].entries@[k]).0@ != name@,
            decreases n - i,
        {
            if str_equal(self.frames[env].entries[i].0.as_str(), name) {
                proof {
                    lemma_assoc_get_at(s, i as int);
                    assert(s[i as int].0 == name@);
                    let j = assoc_index(s, name@);
                    assert(has_key(s, name@));
                    if j != i {
                        assert(s[j].0 != s[i as int].0);
                    }
                }
                return Some(i);
            }
            i = i + 1;
        }
        proof {
            if has_key(s, name@) {
                let j = choose|j: int| 0 <= j < s.len() && (#[trigger] s[j]).0 == name@;
                assert(self.frames@[env as int].entries@[j].0@ == name@);
            }
        }
        None
    }

    /// Whether scope `env` itself binds `name`.
    pub fn frame_contains(&self, env: usize, name: &str) -> (r: bool)
        requires
            self.wf(),
            env < self.frames@.len(),
        ensures
            r == has_key(self.frames_view()[env as int].entries, name@),
    {
        self.frame_find(env, name).is_some()
    }

    /// Binds `name` to `v` in scope `env`, which must not bind it yet.
    pub fn frame_bind(&mut self, env: usize, name: String, v: Value)
        requires
            old(self).wf(),
            env < old(self).frames@.len(),
            !has_key(old(self).frames_view()[env as int].entries, name@),
            old(self).value_ok(v@),
        ensures
            final(self).wf(),
            final(self).same_except_frame(old(self), env as int),
            final(self).frames_view()[env as int].entries == old(self).frames_view()[env as int].entries.push((name@, v@)),
    {
        let ghost s = old(self).frames_view()[env as int].entries;
        self.frames[env].entries.push((name, v));
        proof {
            let t = self.frames_view()[env as int].entries;
            assert(t =~= s.push((name@, v@)));
            assert(unique_keys(t)) by {
                assert forall|a: int, b: int| 0 <= a < t.len() && 0 <= b < t.len() && a != b implies (#[trigger] t[a]).0 != (#[trigger] t[b]).0 by {
                    if a == s.len() {
                        assert(t[b] == s[b]);
                    } else if b == s.len() {
                        assert(t[a] == s[a]);
                    }
                }
            }
            self.lemma_frame_wf_after_update(*old(self), env as int);
        }
    }

    proof fn lemma_frame_wf_after_update(&self, old_store: Store, env: int)
        requires
            old_store.wf(),
            0 <= env < old_store.frames@.len(),
            self.same_except_frame(&old_store, env),
            unique_keys(self.frames_view()[env].entries),
            forall|k: int| 0 <= k < self.frames@[env].entries@.len() ==> self.value_ok((#[trigger] self.frames@[env].entries@[k]).1@),
        ensures
            self.wf(),
    {
        assert forall|i: int| #![trigger self.frames@[i]] 0 <= i < self.frames@.len() implies {
            &&& (self.frames@[i].parent matches Some(p) ==> p < i && self.frames@[p as int].captured)
            &&& unique_keys(entries_view(self.frames@[i].entries@))
            &&& forall|k: int| 0 <= k < self.frames@[i].entries@.len() ==> self.value_ok((#[trigger] self.frames@[i].entries@[k]).1@)
        } by {
            if i != env {
                assert(old_store.frames@[i] == self.frames@[i]);
            }
            if let Some(p) = self.frames@[i].parent {
                if p as int != env {
                    assert(old_store.frames@[p as int] == self.frames@[p as int]);
                }
            }
        }
        assert forall|f: int| #![trigger self.functions@[f]] 0 <= f < self.functions@.len() implies
            self.functions@[f].env < self.frames@.len() && self.frames@[self.functions@[f].env as int].captured by {
            let e = self.functions@[f].env as int;
            assert(old_store.functions@[f] == self.functions@[f]);
            if e != env {
                assert(old_store.frames@[e] == self.frames@[e]);
            }
        }
        assert forall|l: int| #![trigger self.lists@[l]] 0 <= l < self.lists@.len() implies forall|k: int|
            0 <= k < self.lists@[l]@.len() ==> self.value_ok((#[trigger] self.lists@[l]@[k])@) by {
            assert(old_store.lists@[l] == self.lists@[l]);
        }
        assert forall|r: int| #![trigger self.records@[r]] 0 <= r < self.records@.len() implies {
            &&& sorted_keys(entries_view(self.records@[r]@))
            &&& forall|k: int| 0 <= k < self.records@[r]@.len() ==> self.value_ok((#[trigger] self.records@[r]@[k]).1@)
        } by {
            assert(old_store.records@[r] == self.records@[r]);
        }
    }

    /// The value `name` is bound to as seen from scope `env`.
    pub fn lookup(&self, env: usize, name: &str) -> (r: Option<Value>)
        requires
            self.wf(),
            env < self.frames@.len(),
        ensures
            r is Some <==> env_lookup(self.frames_view(), env as int, name@) is Some,
            r matches Some(v) ==> env_lookup(self.frames_view(), env as int, name@) == Some(v@)
                && self.value_ok(v@),
    {
        let mut cur = env;
        loop
            invariant
                self.wf(),
                cur < self.frames@.len(),
                env_lookup(self.frames_view(), env as int, name@) == env_lookup(self.frames_view(), cur as int, name@),
            decreases cur,
        {
            match self.frame_find(cur, name) {
                Some(k) => {
                    proof {
                        assert(self.frames@[cur as int] == self.frames@[cur as int]);
                        assert(self.value_ok(self.frames@[cur as int].entries@[k as int].1@));
                    }
                    return Some(self.frames[cur].entries[k].1.copy());
                },
                None => {
                    match self.frames[cur].parent {
                        Some(p) => {
                            proof {
                                assert(self.frames@[cur as int] == self.frames@[cur as int]);
                            }
                            cur = p;
                        },
                        None => {
                            return None;
                        },
                    }
                },
            }
        }
    }

    /// Rebinds `name` in the scope it resolves to from `env`; false when no scope binds it.
    pub fn assign(&mut self, env: usize, name: &str, v: Value) -> (r: bool)
        requires
            old(self).wf(),
            env < old(self).frames@.len(),
            old(self).value_ok(v@),
        ensures
            final(self).wf(),
            r == env_owner(old(self).frames_view(), env as int, name@) is Some,
            !r ==> *final(self) == *old(self),
            env_owner(old(self).frames_view(), env as int, name@) matches Some(o) ==> {
                &&& final(self).same_except_frame(old(self), o)
                &&& final(self).frames_view()[o].entries == old(self).frames_view()[o].entries.update(
                    assoc_index(old(self).frames_view()[o].entries, name@),
                    (name@, v@),
                )
            },
    {
        let mut cur = env;
        loop
            invariant
                self == old(self),
                self.wf(),
                old(self).value_ok(v@),
                cur < self.frames@.len(),
                env_owner(self.frames_view(), env as int, name@) == env_owner(self.frames_view(), cur as int, name@),
            decreases cur,
        {
            match self.frame_find(cur, name) {
                Some(k) => {
                    let ghost s = self.frames_view()[cur as int].entries;
                    let key = String::from_str(name);
                    self.frames[cur].entries.set(k, (key, v));
                    proof {
                        let t = self.frames_view()[cur as int].entries;
                        assert(t =~= s.update(k as int, (name@, v@)));
                        assert(unique_keys(t)) by {
                            assert forall|a: int, b: int| 0 <= a < t.len() && 0 <= b < t.len() && a != b implies (#[trigger] t[a]).0 != (#[trigger] t[b]).0 by {
                                assert(s[a].0 != s[b].0);
                            }
                        }
                        assert(self.lists@ == old(self).lists@);
                        assert(self.records@ == old(self).records@);
                        assert(self.functions@ == old(self).functions@);
                        assert(self.frames@.len() == old(self).frames@.len());
                        assert(forall|x: ValueView| #[trigger] self.value_ok(x) == old(self).value_ok(x));
                        assert(old(self).value_ok(v@));
                        assert forall|j: int| 0 <= j < self.frames@[cur as int].entries@.len() implies self.value_ok((#[trigger] self.frames@[cur as int].entries@[j]).1@) by {
                            if j != k {
                                assert(old(self).frames@[cur as int].entries@[j] == self.frames@[cur as int].entries@[j]);
                                let fr = old(self).frames@[cur as int];
                                assert(old(self).value_ok(fr.entries@[j].1@));
                            } else {
                                assert(self.frames@[cur as int].entries@[j].1@ == v@);
                            }
                        }
                        self.lemma_frame_wf_after_update(*old(self), cur as int);
                    }
                    return true;
                },
                None => {
                    match self.frames[cur].parent {
                        Some(p) => {
                            proof {
                                assert(self.frames@[cur as int] == self.frames@[cur as int]);
                            }
                            cur = p;
                        },
                        None => {
                            return false;
                        },
                    }
                },
            }
        }
    }

    /// Marks scope `env` as kept alive by a closure.
    pub fn capture(&mut self, env: usize)
        requires
            old(self).wf(),
            env < old(self).frames@.len(),
        ensures
            final(self).wf(),
            final(self).lists@ == old(self).lists@,
            final(self).records@ == old(self).records@,
            final(self).functions@ == old(self).functions@,
            final(self).frames@.len() == old(self).frames@.len(),
            forall|i: int| 0 <= i < final(self).frames@.len() && i != env ==> #[trigger] final(self).frames@[i] == old(self).frames@[i],
            final(self).frames_view()[env as int].entries == old(self).frames_view()[env as int].entries,
            final(self).frames@[env as int].parent == old(self).frames@[env as int].parent,
            final(self).frames@[env as int].captured,
            final(self).frames_view() == old(self).frames_view().update(env as int, FrameView {
                captured: true,
                ..old(self).frames_view()[env as int]
            }),
    {
        self.frames[env].captured = true;
        proof {
            assert(self.frames_view() =~= old(self).frames_view().update(env as int, FrameView {
                captured: true,
                ..old(self).frames_view()[env as int]
            }));
            assert forall|i: int| #![trigger self.frames@[i]] 0 <= i < self.frames@.len() implies {
                &&& (self.frames@[i].parent matches Some(p) ==> p < i && self.frames@[p as int].captured)
                &&& unique_keys(entries_view(self.frames@[i].entries@))
                &&& forall|k: int| 0 <= k < self.frames@[i].entries@.len() ==> self.value_ok((#[trigger] self.frames@[i].entries@[k]).1@)
            } by {
                assert(old(self).frames@[i].entries == self.frames@[i].entries);
                assert(old(self).frames@[i].parent == self.frames@[i].parent);
                if let Some(p) = self.frames@[i].parent {
                    if p as int != env {
                        assert(old(self).frames@[p as int] == self.frames@[p as int]);
                    }
                }
            }
            assert forall|f: int| #![trigger self.functions@[f]] 0 <= f < self.functions@.len() implies
                self.functions@[f].env < self.frames@.len() && self.frames@[self.functions@[f].env as int].captured by {
                let e = self.functions@[f].env as int;
                assert(old(self).functions@[f] == self.functions@[f]);
                if e != env {
                    assert(old(self).frames@[e] == self.frames@[e]);
                }
            }
            assert forall|l: int| #![trigger self.lists@[l]] 0 <= l < self.lists@.len() implies forall|k: int|
                0 <= k < self.lists@[l]@.len() ==> self.value_ok((#[trigger] self.lists@[l]@[k])@) by {
                assert(old(self).lists@[l] == self.lists@[l]);
            }
            assert forall|r: int| #![trigger self.records@[r]] 0 <= r < self.records@.len() implies {
                &&& sorted_keys(entries_view(self.records@[r]@))
                &&& forall|k: int| 0 <= k < self.records@[r]@.len() ==> self.value_ok((#[trigger] self.records@[r]@[k]).1@)
            } by {
                assert(old(self).records@[r] == self.records@[r]);
            }
        }
    }

    /// Closes scope `env` when it is the newest scope and no closure keeps it.
    pub fn release_frame(&mut self, env: usize)
        requires
            old(self).wf(),
        ensures
            final(self).wf(),
            final(self).lists@ == old(self).lists@,
            final(self).records@ == old(self).records@,
            final(self).functions@ == old(self).functions@,
            final(self).frames@.len() <= old(self).frames@.len(),
            forall|i: int| 0 <= i < final(self).frames@.len() ==> #[trigger] final(self).frames@[i] == old(self).frames@[i],
            (env > 0 && env + 1 == old(self).frames@.len() && !old(self).frames@[env as int].captured)
                ==> final(self).frames@.len() == env,
            !(env > 0 && env + 1 == old(self).frames@.len() && !old(self).frames@[env as int].captured)
                ==> *final(self) == *old(self),
    {
        if env > 0 && env < self.frames.len() && env == self.frames.len() - 1 && !self.frames[env].captured {
            self.frames.pop();
            proof {
                assert forall|i: int| #![trigger self.frames@[i]] 0 <= i < self.frames@.len() implies {
                    &&& (self.frames@[i].parent matches Some(p) ==> p < i && self.frames@[p as int].captured)
                    &&& unique_keys(entries_view(self.frames@[i].entries@))
                    &&& forall|k: int| 0 <= k < self.frames@[i].entries@.len() ==> self.value_ok((#[trigger] self.frames@[i].entries@[k]).1@)
                } by {
                    assert(old(self).frames@[i] == self.frames@[i]);
                    if let Some(p) = self.frames@[i].parent {
                        assert(old(self).frames@[p as int] == self.frames@[p as int]);
                    }
                }
                assert forall|f: int| #![trigger self.functions@[f]] 0 <= f < self.functions@.len() implies
                    self.functions@[f].env < self.frames@.len() && self.frames@[self.functions@[f].env as int].captured by {
                    let e = self.functions@[f].env as int;
                    assert(old(self).functions@[f] == self.functions@[f]);
                    assert(old(self).frames@[e].captured);
                    assert(e != env);
                    assert(old(self).frames@[e] == self.frames@[e]);
                }
                assert forall|l: int| #![trigger self.lists@[l]] 0 <= l < self.lists@.len() implies forall|k: int|
                    0 <= k < self.lists@[l]@.len() ==> self.value_ok((#[trigger] self.lists@[l]@[k])@) by {
                    assert(old(self).lists@[l] == self.lists@[l]);
                }
                assert forall|r: int| #![trigger self.records@[r]] 0 <= r < self.records@.len() implies {
                    &&& sorted_keys(entries_view(self.records@[r]@))
                    &&& forall|k: int| 0 <= k < self.records@[r]@.len() ==> self.value_ok((#[trigger] self.records@[r]@[k]).1@)
                } by {
                    assert(old(self).records@[r] == self.records@[r]);
                }
            }
        }
    }

    // ----- closures -----

    /// Stores a closure over scope `env` and returns its number.
    pub fn add_function(&mut self, name: String, params: Vec<String>, body: Rc<Vec<Stmt>>, env: usize) -> (id: usize)
        requires
            old(self).wf(),
            env < old(self).frames@.len(),
            old(self).frames@[env as int].captured,
        ensures
            final(self).wf(),
            id == old(self).functions@.len(),
            final(self).functions@.len() == old(self).functions@.len() + 1,
            final(self).functions@[id as int].name@ == name@,
            final(self).functions@[id as int].params@ == params@,
            final(self).functions@[id as int].env == env,
            forall|f: int| 0 <= f < old(self).functions@.len() ==> #[trigger] final(self).functions@[f] == old(self).functions@[f],
            final(self).lists@ == old(self).lists@,
            final(self).records@ == old(self).records@,
            final(self).frames@ == old(self).frames@,
    {
        let id = self.functions.len();
        self.functions.push(UserFunction { name, params, body, env });
        proof {
            assert forall|f: int| #![trigger self.functions@[f]] 0 <= f < self.functions@.len() implies
                self.functions@[f].env < self.frames@.len() && self.frames@[self.functions@[f].env as int].captured by {
                if f < id {
                    assert(old(self).functions@[f] == self.functions@[f]);
                }
            }
            assert forall|i: int| #![trigger self.frames@[i]] 0 <= i < self.frames@.len() implies
                forall|k: int| 0 <= k < self.frames@[i].entries@.len() ==> self.value_ok((#[trigger] self.frames@[i].entries@[k]).1@) by {
                assert(old(self).frames@[i] == self.frames@[i]);
            }
            assert forall|l: int| #![trigger self.lists@[l]] 0 <= l < self.lists@.len() implies forall|k: int|
                0 <= k < self.lists@[l]@.len() ==> self.value_ok((#[trigger] self.lists@[l]@[k])@) by {
                assert(old(self).lists@[l] == self.lists@[l]);
            }
            assert forall|r: int| #![trigger self.records@[r]] 0 <= r < self.records@.len() implies {
                &&& sorted_keys(entries_view(self.records@[r]@))
                &&& forall|k: int| 0 <= k < self.records@[r]@.len() ==> self.value_ok((#[trigger] self.records@[r]@[k]).1@)
            } by {
                assert(old(self).records@[r] == self.records@[r]);
            }
        }
        id
    }
}


impl Store {
    /// Binds `name` to `v` in scope `env` itself, replacing its own binding
    /// of `name` if it has one (a map insert).
    pub fn frame_insert(&mut self, env: usize, name: &str, v: Value)
        requires
            old(self).wf(),
            env < old(self).frames@.len(),
            old(self).value_ok(v@),
        ensures
            final(self).wf(),
            final(self).same_except_frame(old(self), env as int),
            forall|key: Seq<char>| #[trigger] has_key(final(self).frames_view()[env as int].entries, key) <==> (key == name@
                || has_key(old(self).frames_view()[env as int].entries, key)),
            forall|key: Seq<char>| #[trigger] assoc_get(final(self).frames_view()[env as int].entries, key) == (if key == name@ {
                Some(v@)
            } else {
                assoc_get(old(self).frames_view()[env as int].entries, key)
            }),
            final(self).frames_view()[env as int].entries.len() == old(self).frames_view()[env as int].entries.len()
                + if has_key(old(self).frames_view()[env as int].entries, name@) { 0int } else { 1int },
    {
        let ghost s = old(self).frames_view()[env as int].entries;
        proof {
            assert(old(self).frames@[env as int] == old(self).frames@[env as int]);
        }
        match self.frame_find(env, name) {
            Some(k) => {
                let key = String::from_str(name);
                self.frames[env].entries.set(k, (key, v));
                proof {
                    let t = self.frames_view()[env as int].entries;
                    assert(t =~= s.update(k as int, (name@, v@)));
                    assert(unique_keys(t)) by {
                        assert forall|a: int, b: int| 0 <= a < t.len() && 0 <= b < t.len() && a != b implies (#[trigger] t[a]).0 != (#[trigger] t[b]).0 by {
                            assert(s[a].0 != s[b].0);
                        }
                    }
                    assert(self.lists@ == old(self).lists@);
                    assert(self.records@ == old(self).records@);
                    assert(self.functions@ == old(self).functions@);
                    assert(forall|x: ValueView| #[trigger] self.value_ok(x) == old(self).value_ok(x));
                    assert forall|j: int| 0 <= j < self.frames@[env as int].entries@.len() implies self.value_ok((#[trigger] self.frames@[env as int].entries@[j]).1@) by {
                        if j != k {
                            assert(old(self).frames@[env as int].entries@[j] == self.frames@[env as int].entries@[j]);
                            let fr = old(self).frames@[env as int];
                            assert(old(self).value_ok(fr.entries@[j].1@));
                        } else {
                            assert(self.frames@[env as int].entries@[j].1@ == v@);
                        }
                    }
                    self.lemma_frame_wf_after_update(*old(self), env as int);
                    assert forall|key: Seq<char>| #[trigger] has_key(t, key) <==> (key == name@ || has_key(s, key)) by {
                        if has_key(s, key) {
                            let j = choose|j: int| 0 <= j < s.len() && (#[trigger] s[j]).0 == key;
                            assert(t[j].0 == key);
                        }
                        if has_key(t, key) {
                            let j = choose|j: int| 0 <= j < t.len() && (#[trigger] t[j]).0 == key;
                            assert(s[j].0 == key);
                        }
                    }
                    assert forall|key: Seq<char>| #[trigger] assoc_get(t, key) == (if key == name@ { Some(v@) } else { assoc_get(s, key) }) by {
                        if key == name@ {
                            lemma_assoc_get_at(t, k as int);
                        } else if has_key(s, key) {
                            let j = choose|j: int| 0 <= j < s.len() && (#[trigger] s[j]).0 == key;
                            lemma_assoc_get_at(s, j);
                            lemma_assoc_get_at(t, j);
                        } else {
                            if has_key(t, key) {
                                let j = choose|j: int| 0 <= j < t.len() && (#[trigger] t[j]).0 == key;
                                assert(s[j].0 == key);
                            }
                        }
                    }
                }
            },
            None => {
                self.frame_bind(env, String::from_str(name), v);
                proof {
                    let t = self.frames_view()[env as int].entries;
                    assert(unique_keys(t)) by {
                        assert(self.frames@[env as int] == self.frames@[env as int]);
                    }
                    assert forall|key: Seq<char>| #[trigger] has_key(t, key) <==> (key == name@ || has_key(s, key)) by {
                        if has_key(s, key) {
                            let j = choose|j: int| 0 <= j < s.len() && (#[trigger] s[j]).0 == key;
                            assert(t[j].0 == key);
                        }
                        if key == name@ {
                            assert(t[s.len() as int].0 == key);
                        }
                        if has_key(t, key) {
                            let j = choose|j: int| 0 <= j < t.len() && (#[trigger] t[j]).0 == key;
                            if j < s.len() {
                                assert(s[j].0 == key);
                            }
                        }
                    }
                    assert forall|key: Seq<char>| #[trigger] assoc_get(t, key) == (if key == name@ { Some(v@) } else { assoc_get(s, key) }) by {
                        if key == name@ {
                            lemma_assoc_get_at(t, s.len() as int);
                        } else if has_key(s, key) {
                            let j = choose|j: int| 0 <= j < s.len() && (#[trigger] s[j]).0 == key;
                            lemma_assoc_get_at(s, j);
                            lemma_assoc_get_at(t, j);
                        } else {
                            if has_key(t, key) {
                                let j = choose|j: int| 0 <= j < t.len() && (#[trigger] t[j]).0 == key;
                                if j < s.len() {
                                    assert(s[j].0 == key);
                                }
                            }
                        }
                    }
                }
            },
        }
    }
}

} // verus!
