//! Indexing, properties and message sends (`목록의 길이`, `그림판에 점찍기`).
use vstd::prelude::*;
use vstd::string::*;
use crate::builtins::HostValue;
use crate::canvas::{CanvasCommand, CommandView, commands_view, events_view, texts_view};
use crate::error::{ErrorKind, ErrorView, RuntimeError};
use crate::fields::{Entries, number_fault, optional_number_fault, string_fault, string_fault_either,
    field_text, field_text_either, number_bits_fit, string_field, string_field_either};
use crate::host::{Host, FloatArith, HostQuery, HostReply, QueryLog};
use crate::interp::{Interpreter, MAX_DEPTH};
use crate::ops::{spec_binary, binary_by_host};
use crate::store::{Store, assoc_get, env_lookup, has_key};
use crate::syntax::{KeywordMessage, ResultiveMessage, SendSelector, Span, UnaryMessage, WordMessage,
    spec_unary_message_for_property, unary_message_for_property};
use crate::text::str_equal;
use crate::torch::TorchRegistry;
use crate::value::{Value, ValueView};

verus! {

/// What indexing gives: the element of a list or the character of a
/// string at a non-negative integer position.
pub open spec fn spec_index(store: Store, base: ValueView, index: ValueView) -> Result<ValueView, ErrorView> {
    match index {
        ValueView::Int(i) => if i < 0 {
            Err(ErrorView::NegativeIndex)
        } else {
            match base {
                ValueView::List(id) => if i < store.list_view(id as int).len() {
                    Ok(store.list_view(id as int)[i as int])
                } else {
                    Err(ErrorView::ListIndexOutOfRange)
                },
                ValueView::Str(s) => if i < s.len() {
                    Ok(ValueView::Str(seq![s[i as int]]))
                } else {
                    Err(ErrorView::StringIndexOutOfRange)
                },
                _ => Err(ErrorView::NotIndexable),
            }
        },
        _ => Err(ErrorView::NegativeIndex),
    }
}

/// What a unary message gives; `None` where the host decides (a tensor's
/// length, the square of a double).
pub open spec fn spec_unary_message(store: Store, torch: TorchRegistry, recv: ValueView, sel: UnaryMessage) -> Option<Result<ValueView, ErrorView>> {
    match sel {
        UnaryMessage::Length => match recv {
            ValueView::List(id) => Some(Ok(ValueView::Int(store.list_view(id as int).len() as i64))),
            ValueView::Str(s) => Some(Ok(ValueView::Int(s.len() as i64))),
            ValueView::Record(id) => Some(Ok(ValueView::Int(store.record_view(id as int).len() as i64))),
            ValueView::Host(HostValue::TorchDataLoader(l)) => Some(if l < torch.loaders@.len() {
                Ok(ValueView::Int(torch.loaders@[l as int].len))
            } else {
                Err(ErrorView::InvalidLoader)
            }),
            ValueView::Tensor(_) => None,
            ValueView::Int(_) => Some(Err(ErrorView::IntNoLength)),
            ValueView::Float(_) => Some(Err(ErrorView::FloatNoLength)),
            _ => Some(Err(ErrorView::NoProperty { name: "길이"@ })),
        },
        UnaryMessage::Square => match recv {
            ValueView::Int(v) => Some(Ok(ValueView::Int(v.wrapping_mul(v)))),
            ValueView::Float(_) => None,
            ValueView::List(_) => Some(Err(ErrorView::ListNoSquare)),
            ValueView::Str(_) => Some(Err(ErrorView::StringNoSquare)),
            _ => Some(Err(ErrorView::NoProperty { name: "제곱"@ })),
        },
    }
}

/// What reading property `name` gives; `None` where the host decides.
pub open spec fn spec_property(store: Store, torch: TorchRegistry, base: ValueView, name: Seq<char>) -> Option<Result<ValueView, ErrorView>> {
    match base {
        ValueView::Record(id) => match assoc_get(store.record_view(id as int), name) {
            Some(v) => Some(Ok(v)),
            None => match spec_unary_message_for_property(name) {
                Some(sel) => spec_unary_message(store, torch, base, sel),
                None => Some(Err(ErrorView::NoProperty { name })),
            },
        },
        ValueView::Batch(_) => if name == "이미지들"@ || name == "라벨들"@ {
            None
        } else {
            Some(Err(ErrorView::BatchNoProperty { name }))
        },
        ValueView::Host(HostValue::TorchModel(m)) => if name == "매개변수"@ {
            Some(Ok(ValueView::Host(HostValue::TorchModelParameters(m))))
        } else {
            Some(Err(ErrorView::ModelNoProperty { name }))
        },
        ValueView::Tensor(_) => if name == "길이"@ || name == "값"@ {
            None
        } else {
            Some(Err(ErrorView::TensorNoProperty { name }))
        },
        _ => match spec_unary_message_for_property(name) {
            Some(sel) => spec_unary_message(store, torch, base, sel),
            None => Some(Err(ErrorView::NoProperty { name })),
        },
    }
}

/// What a resultive message takes out of a list: the front element for
/// `맨 앞 값`, the last one otherwise.
pub open spec fn spec_resultive(store: Store, recv: ValueView, sel: ResultiveMessage) -> Result<ValueView, ErrorView> {
    match recv {
        ValueView::List(id) => if store.list_view(id as int).len() == 0 {
            Err(ErrorView::PopFromEmpty { role: sel.spec_role() })
        } else if sel == ResultiveMessage::PopFrontElement {
            Ok(store.list_view(id as int)[0])
        } else {
            Ok(store.list_view(id as int).last())
        },
        _ => Err(ErrorView::ResultiveNotList { role: sel.spec_role() }),
    }
}

/// The list left behind by a resultive message.
pub open spec fn spec_resultive_rest(items: Seq<ValueView>, sel: ResultiveMessage) -> Seq<ValueView> {
    if sel == ResultiveMessage::PopFrontElement {
        items.drop_first()
    } else {
        items.drop_last()
    }
}

/// The first of two faults.
pub open spec fn first_fault(a: Option<ErrorView>, b: Option<ErrorView>) -> Option<ErrorView> {
    if a is Some {
        a
    } else {
        b
    }
}

/// Why a canvas message cannot draw from its record, checked field by
/// field in the order the message reads them.
pub open spec fn canvas_fault(e: Entries, sel: KeywordMessage) -> Option<ErrorView> {
    match sel {
        KeywordMessage::CanvasClear => string_fault_either(e, "배경색"@, "색"@),
        KeywordMessage::CanvasDot => first_fault(number_fault(e, "x"@), first_fault(number_fault(e, "y"@),
            first_fault(string_fault(e, "색"@), optional_number_fault(e, "크기"@)))),
        KeywordMessage::CanvasFillRect => first_fault(number_fault(e, "x"@), first_fault(number_fault(e, "y"@),
            first_fault(number_fault(e, "너비"@), first_fault(number_fault(e, "높이"@), string_fault(e, "색"@))))),
        KeywordMessage::CanvasFillText => first_fault(string_fault(e, "글"@), first_fault(number_fault(e, "x"@),
            first_fault(number_fault(e, "y"@), first_fault(string_fault(e, "색"@), number_fault(e, "크기"@))))),
        KeywordMessage::Push => Some(ErrorView::CanvasNoPush),
    }
}

/// The bits of a dot's default size, 8.0.
pub open spec fn default_dot_size() -> u64 {
    0x4020_0000_0000_0000u64
}

/// Whether a command is what a canvas message draws from a record without
/// faults: texts exactly, double fields exactly, integer fields as the host
/// converted them.
pub open spec fn canvas_command_fits(e: Entries, sel: KeywordMessage, c: CommandView, asked: Seq<(HostQuery, HostReply)>) -> bool {
    match sel {
        KeywordMessage::CanvasClear => c == CommandView::Clear { background: field_text_either(e, "배경색"@, "색"@) },
        KeywordMessage::CanvasDot => match c {
            CommandView::Dot { x, y, color, size } => number_bits_fit(e, "x"@, x, asked) && number_bits_fit(e, "y"@, y, asked)
                && color == field_text(e, "색"@) && number_bits_fit(e, "크기"@, size, asked)
                && (!has_key(e, "크기"@) ==> size == default_dot_size()),
            _ => false,
        },
        KeywordMessage::CanvasFillRect => match c {
            CommandView::FillRect { x, y, width, height, color } => number_bits_fit(e, "x"@, x, asked) && number_bits_fit(e, "y"@, y, asked)
                && number_bits_fit(e, "너비"@, width, asked) && number_bits_fit(e, "높이"@, height, asked) && color == field_text(e, "색"@),
            _ => false,
        },
        KeywordMessage::CanvasFillText => match c {
            CommandView::FillText { text, x, y, color, size } => text == field_text(e, "글"@) && number_bits_fit(e, "x"@, x, asked)
                && number_bits_fit(e, "y"@, y, asked) && color == field_text(e, "색"@) && number_bits_fit(e, "크기"@, size, asked),
            _ => false,
        },
        KeywordMessage::Push => false,
    }
}

/// What sending a message to `recv` with arguments `args` promises, `depth`
/// levels deep from `old`: a property reads the receiver; a transform
/// calls the function its name is bound to on the receiver; a word
/// message applies its operator; a resultive message asks what its
/// selector asks; a keyword message is refused in an expression.
pub open spec fn send_post<H: Host>(
    old: Interpreter<H>,
    new: Interpreter<H>,
    recv: ValueView,
    selector: SendSelector,
    args: Seq<ValueView>,
    env: int,
    span: Option<Span>,
    depth: nat,
    r: Result<Value, RuntimeError>,
) -> bool
    decreases depth, 5nat, 0nat, 0nat,
{
    &&& new.inv()
    &&& new.grows_from(&old)
    &&& r matches Ok(v) ==> new.store.value_ok(v@)
    &&& selector matches SendSelector::Property(name) ==> if args.len() > 0 {
        r matches Err(e) && e.kind@ == ErrorView::PropertyWithArguments && new == old
    } else {
        &&& new.only_host_changed(&old)
        &&& spec_property(old.store, old.torch, recv, name@) matches Some(res) ==> match res {
            Ok(v) => r matches Ok(x) && x@ == v,
            Err(k) => r matches Err(e) && e.kind@ == k,
        }
    }
    &&& selector matches SendSelector::Transform(name) ==> (if args.len() > 0 {
        r matches Err(e) && e.kind@ == ErrorView::TransformWithArguments && new == old
    } else {
        match env_lookup(old.store.frames_view(), env, name@) {
            None => r matches Err(e) && e.kind@ == (ErrorView::Undefined { name: name@ }) && e.span == span && new == old,
            Some(ValueView::Function(crate::value::FunctionValue::User(id))) => {
                &&& old.store.functions@[id as int].params@.len() == 1 && depth > 1
                    ==> crate::calls::call_run(old, new, id, seq![recv], span, (depth - 2) as nat, r)
                &&& old.store.functions@[id as int].params@.len() != 1 && depth > 0 ==> (r matches Err(e)
                    && e.kind == (ErrorKind::ArgumentCountMismatch {
                        expected: old.store.functions@[id as int].params@.len() as usize,
                        actual: 1,
                    }) && new == old)
            },
            Some(ValueView::Function(crate::value::FunctionValue::Builtin(f))) => {
                &&& depth > 1 && crate::calls::spec_arity(f) == 1 ==> crate::calls::builtin_outcome(old, new, f, seq![recv], r)
                &&& depth > 1 && crate::calls::spec_arity(f) != 1 ==> (r matches Err(e)
                    && e.kind@ == (ErrorView::ArityMismatch { name: f.spec_name(), expected: crate::calls::spec_arity(f) as usize, actual: 1 })
                    && new == old)
            },
            Some(_) => depth > 0 ==> (r matches Err(e) && e.kind == ErrorKind::NotCallable && new == old),
        }
    })
    &&& selector matches SendSelector::Word(w) ==> if args.len() != 1 {
        r matches Err(e) && e.kind@ == (ErrorView::ArityMismatch { name: w.spec_name(), expected: 1, actual: args.len() as usize })
            && new == old
    } else {
        &&& spec_binary(old.store, recv, w.spec_binary_op(), args[0], MAX_DEPTH as nat) matches Some(res) ==> match res {
            Ok(v) => r matches Ok(x) && x@ == v,
            Err(k) => r matches Err(e) && e.kind == k,
        }
        &&& spec_binary(old.store, recv, w.spec_binary_op(), args[0], MAX_DEPTH as nat) is None
            ==> binary_by_host(old.queries, new.queries, recv, w.spec_binary_op(), args[0], r)
    }
    &&& selector matches SendSelector::Resultive(sel) ==> if args.len() > 0 {
        r matches Err(e) && e.kind@ == ErrorView::ResultiveWithArguments && new == old
    } else {
        match spec_resultive(old.store, recv, sel) {
            Ok(v) => r matches Ok(x) && x@ == v,
            Err(k) => r matches Err(e) && e.kind@ == k,
        }
    }
    &&& selector is Keyword ==> (r matches Err(e) && e.kind@ == ErrorView::KeywordInExpression && new == old)
}

/// What sending a message in statement position promises: a keyword
/// message pushes onto a list or draws on the canvas (see
/// `keyword_outcome`); a resultive message asks what its selector asks and
/// drops the result; any other message is refused.
pub open spec fn send_stmt_post<H: Host>(
    old: Interpreter<H>,
    new: Interpreter<H>,
    recv: ValueView,
    selector: SendSelector,
    args: Seq<ValueView>,
    r: Result<(), RuntimeError>,
) -> bool {
    &&& new.inv()
    &&& new.grows_from(&old)
    &&& selector matches SendSelector::Keyword(sel) ==> keyword_outcome(old, new, recv, sel, args, r)
    &&& selector matches SendSelector::Resultive(sel) ==> if args.len() > 0 {
        r matches Err(e) && e.kind@ == ErrorView::ResultiveWithArguments && new == old
    } else {
        match spec_resultive(old.store, recv, sel) {
            Ok(_) => r is Ok,
            Err(k) => r matches Err(e) && e.kind@ == k,
        }
    }
    &&& (selector is Property || selector is Transform || selector is Word) ==> (r matches Err(e)
        && e.kind@ == ErrorView::MessageNotStatement && new == old)
}

impl<H: Host> Interpreter<H> {
    /// `목록[i]`, `문자열[i]`.
    pub fn eval_index(&self, base: &Value, index: &Value) -> (r: Result<Value, RuntimeError>)
        requires
            self.store.wf(),
            self.store.value_ok(base@),
        ensures
            match spec_index(self.store, base@, index@) {
                Ok(v) => r matches Ok(x) && x@ == v,
                Err(k) => r matches Err(e) && e.kind@ == k && e.span is None,
            },
            r matches Ok(x) ==> self.store.value_ok(x@),
    {
        let i = match index {
            Value::Int(v) => {
                if *v < 0 {
                    return Err(RuntimeError::new(ErrorKind::NegativeIndex));
                }
                *v as u64
            },
            _ => return Err(RuntimeError::new(ErrorKind::NegativeIndex)),
        };
        match base {
            Value::List(id) => {
                let n = self.store.list_len(*id);
                if i < n as u64 {
                    proof {
                        assert(self.store.lists@[*id as int]@[i as int]@ == self.store.list_view(*id as int)[i as int]);
                    }
                    Ok(self.store.list_get(*id, i as usize))
                } else {
                    Err(RuntimeError::new(ErrorKind::ListIndexOutOfRange))
                }
            },
            Value::Str(text) => {
                let n = text.as_str().unicode_len();
                if i < n as u64 {
                    let piece = text.as_str().substring_char(i as usize, i as usize + 1);
                    proof {
                        assert(piece@ =~= seq![text@[i as int]]);
                    }
                    Ok(Value::Str(String::from_str(piece)))
                } else {
                    Err(RuntimeError::new(ErrorKind::StringIndexOutOfRange))
                }
            },
            _ => Err(RuntimeError::new(ErrorKind::NotIndexable)),
        }
    }

    /// A unary message: `길이` of a list, string, record, loader or tensor;
    /// `제곱` of a number.
    pub fn send_unary_message(&mut self, recv: &Value, sel: UnaryMessage) -> (r: Result<Value, RuntimeError>)
        requires
            old(self).store.value_ok(recv@),
        ensures
            final(self).only_host_changed(old(self)),
            spec_unary_message(old(self).store, old(self).torch, recv@, sel) matches Some(res) ==> match res {
                Ok(v) => r matches Ok(x) && x@ == v,
                Err(k) => r matches Err(e) && e.kind@ == k && e.span is None,
            },
            sel == UnaryMessage::Length ==> (recv@ matches ValueView::Tensor(t) ==> (r matches Ok(x) && x@ matches ValueView::Int(n)
                && final(self).queries.asked(&old(self).queries, HostQuery::TensorFirstDim { tensor: t }, HostReply::Int(n)))),
            sel == UnaryMessage::Square ==> (recv@ matches ValueView::Float(b) ==> (r matches Ok(x) && x@ matches ValueView::Float(g)
                && final(self).queries.asked(&old(self).queries, HostQuery::FloatArith { op: FloatArith::Multiply, a: b, b: b }, HostReply::Float(g)))),
            r matches Ok(x) ==> old(self).store.value_ok(x@),
    {
        match sel {
            UnaryMessage::Length => match recv {
                Value::List(id) => Ok(Value::Int(self.store.list_len(*id) as i64)),
                Value::Str(text) => Ok(Value::Int(text.as_str().unicode_len() as i64)),
                Value::Record(id) => Ok(Value::Int(self.store.record_len(*id) as i64)),
                Value::Host(HostValue::TorchDataLoader(l)) => {
                    if *l < self.torch.loaders.len() {
                        Ok(Value::Int(self.torch.loaders[*l].len))
                    } else {
                        Err(RuntimeError::new(ErrorKind::InvalidLoader))
                    }
                },
                Value::Tensor(t) => Ok(Value::Int(self.queries.tensor_first_dim(&mut self.host, *t))),
                Value::Int(_) => Err(RuntimeError::new(ErrorKind::IntNoLength)),
                Value::Float(_) => Err(RuntimeError::new(ErrorKind::FloatNoLength)),
                _ => Err(RuntimeError::new(ErrorKind::NoProperty { name: String::from_str("길이") })),
            },
            UnaryMessage::Square => match recv {
                Value::Int(v) => Ok(Value::Int(v.wrapping_mul(*v))),
                Value::Float(b) => Ok(Value::Float(self.queries.float_arith(&mut self.host, FloatArith::Multiply, *b, *b))),
                Value::List(_) => Err(RuntimeError::new(ErrorKind::ListNoSquare)),
                Value::Str(_) => Err(RuntimeError::new(ErrorKind::StringNoSquare)),
                _ => Err(RuntimeError::new(ErrorKind::NoProperty { name: String::from_str("제곱") })),
            },
        }
    }

    /// Reads property `name` of a value: a record's field, a batch's images
    /// or labels, a model's parameters, a tensor's length or scalar value,
    /// or a unary message named like a property.
    pub fn eval_property(&mut self, base: &Value, name: &str) -> (r: Result<Value, RuntimeError>)
        requires
            old(self).store.wf(),
            old(self).store.value_ok(base@),
        ensures
            final(self).only_host_changed(old(self)),
            spec_property(old(self).store, old(self).torch, base@, name@) matches Some(res) ==> match res {
                Ok(v) => r matches Ok(x) && x@ == v,
                Err(k) => r matches Err(e) && e.kind@ == k && e.span is None,
            },
            (name@ == "이미지들"@ || name@ == "라벨들"@) ==> (base@ matches ValueView::Batch(b) ==> (r matches Ok(x) && x@ matches ValueView::Tensor(t)
                && final(self).queries.asked(&old(self).queries, HostQuery::BatchPart { batch: b, labels: name@ == "라벨들"@ }, HostReply::Handle(t)))),
            name@ == "길이"@ ==> (base@ matches ValueView::Tensor(t) ==> (r matches Ok(x) && x@ matches ValueView::Int(n)
                && final(self).queries.asked(&old(self).queries, HostQuery::TensorFirstDim { tensor: t }, HostReply::Int(n)))),
            name@ == "값"@ ==> (base@ matches ValueView::Tensor(t) ==> {
                &&& final(self).queries.entries() == old(self).queries.entries().push(final(self).queries.entries().last())
                &&& final(self).queries.entries().last().0 == (HostQuery::TensorScalar { tensor: t })
                &&& match final(self).queries.entries().last().1 {
                    HostReply::MaybeFloat(Some(g)) => r matches Ok(x) && x@ == ValueView::Float(g),
                    HostReply::MaybeFloat(None) => r matches Err(e) && e.kind@ == ErrorView::ScalarValueNeedsScalar,
                    _ => false,
                }
            }),
            r matches Ok(x) ==> old(self).store.value_ok(x@),
    {
        match base {
            Value::Record(id) => {
                match self.store.record_get(*id, name) {
                    Some(v) => {
                        return Ok(v);
                    },
                    None => {},
                }
                match unary_message_for_property(name) {
                    Some(sel) => self.send_unary_message(base, sel),
                    None => Err(RuntimeError::new(ErrorKind::NoProperty { name: String::from_str(name) })),
                }
            },
            Value::Batch(b) => {
                proof {
                    reveal_strlit("이미지들");
                    reveal_strlit("라벨들");
                    assert("이미지들"@.len() == 4);
                    assert("라벨들"@.len() == 3);
                }
                if str_equal(name, "이미지들") {
                    Ok(Value::Tensor(self.queries.batch_part(&mut self.host, *b, false)))
                } else if str_equal(name, "라벨들") {
                    Ok(Value::Tensor(self.queries.batch_part(&mut self.host, *b, true)))
                } else {
                    Err(RuntimeError::new(ErrorKind::BatchNoProperty { name: String::from_str(name) }))
                }
            },
            Value::Host(HostValue::TorchModel(m)) => {
                if str_equal(name, "매개변수") {
                    Ok(Value::Host(HostValue::TorchModelParameters(*m)))
                } else {
                    Err(RuntimeError::new(ErrorKind::ModelNoProperty { name: String::from_str(name) }))
                }
            },
            Value::Tensor(t) => {
                proof {
                    reveal_strlit("길이");
                    reveal_strlit("값");
                    assert("값"@.len() == 1);
                    assert("길이"@.len() == 2);
                    assert("값"@ != "길이"@);
                }
                if str_equal(name, "길이") {
                    Ok(Value::Int(self.queries.tensor_first_dim(&mut self.host, *t)))
                } else if str_equal(name, "값") {
                    match self.queries.tensor_scalar(&mut self.host, *t) {
                        Some(bits) => Ok(Value::Float(bits)),
                        None => Err(RuntimeError::new(ErrorKind::ScalarValueNeedsScalar)),
                    }
                } else {
                    Err(RuntimeError::new(ErrorKind::TensorNoProperty { name: String::from_str(name) }))
                }
            },
            _ => match unary_message_for_property(name) {
                Some(sel) => self.send_unary_message(base, sel),
                None => Err(RuntimeError::new(ErrorKind::NoProperty { name: String::from_str(name) })),
            },
        }
    }

    /// A resultive message: takes the last (or, for `맨 앞 값`, the first)
    /// element out of a list and gives it back.
    pub fn send_resultive_message(&mut self, recv: &Value, sel: ResultiveMessage) -> (r: Result<Value, RuntimeError>)
        requires
            old(self).inv(),
            old(self).store.value_ok(recv@),
        ensures
            final(self).inv(),
            final(self).grows_from(old(self)),
            match spec_resultive(old(self).store, recv@, sel) {
                Ok(v) => r matches Ok(x) && x@ == v,
                Err(k) => r matches Err(e) && e.kind@ == k && e.span is None && *final(self) == *old(self),
            },
            recv@ matches ValueView::List(id) ==> (r is Ok ==> final(self).store.list_view(id as int)
                == spec_resultive_rest(old(self).store.list_view(id as int), sel)),
            r matches Ok(x) ==> final(self).store.value_ok(x@),
    {
        proof {
            self.lemma_grows_refl();
        }
        match recv {
            Value::List(id) => {
                if self.store.list_len(*id) == 0 {
                    return Err(RuntimeError::new(ErrorKind::PopFromEmpty { role: String::from_str(sel.role()) }));
                }
                let popped = if sel == ResultiveMessage::PopFrontElement {
                    self.store.list_pop_front(*id)
                } else {
                    self.store.list_pop(*id)
                };
                proof {
                    self.lemma_grows_refl();
                }
                match popped {
                    Some(v) => Ok(v),
                    None => Err(RuntimeError::new(ErrorKind::PopFromEmpty { role: String::from_str(sel.role()) })),
                }
            },
            _ => Err(RuntimeError::new(ErrorKind::ResultiveNotList { role: String::from_str(sel.role()) })),
        }
    }

    /// A message sent in expression position.
    pub fn eval_send_expr(&mut self, recv: Value, selector: &SendSelector, args: Vec<Value>, env: usize, span: Option<Span>, depth: u64) -> (r: Result<Value, RuntimeError>)
        requires
            old(self).inv(),
            env < old(self).store.frames@.len(),
            old(self).store.value_ok(recv@),
            forall|k: int| 0 <= k < args@.len() ==> old(self).store.value_ok((#[trigger] args@[k])@),
        ensures
            send_post(*old(self), *final(self), recv@, *selector, values_of(args@), env as int, span, depth as nat, r),
        decreases depth,
    {
        proof {
            self.lemma_grows_refl();
        }
        match selector {
            SendSelector::Property(name) => {
                if args.len() > 0 {
                    return Err(RuntimeError::new(ErrorKind::PropertyWithArguments));
                }
                let r = self.eval_property(&recv, name.as_str());
                proof {
                    self.lemma_grows_refl();
                }
                r
            },
            SendSelector::Transform(callee_name) => {
                if args.len() > 0 {
                    return Err(RuntimeError::new(ErrorKind::TransformWithArguments));
                }
                let callee = match self.store.lookup(env, callee_name.as_str()) {
                    Some(v) => v,
                    None => {
                        return Err(RuntimeError::with_span(ErrorKind::Undefined { name: callee_name.clone() }, span));
                    },
                };
                let ghost recv_view = recv@;
                let mut one: Vec<Value> = Vec::new();
                one.push(recv);
                proof {
                    assert(values_of(one@) =~= seq![recv_view]);
                }
                if depth == 0 {
                    return Err(RuntimeError::new(ErrorKind::DepthExhausted));
                }
                self.call_value(callee, one, span, depth - 1)
            },
            SendSelector::Word(w) => self.eval_word_message(recv, *w, args),
            SendSelector::Resultive(sel) => {
                if args.len() > 0 {
                    return Err(RuntimeError::new(ErrorKind::ResultiveWithArguments));
                }
                self.send_resultive_message(&recv, *sel)
            },
            SendSelector::Keyword(_) => Err(RuntimeError::new(ErrorKind::KeywordInExpression)),
        }
    }

    /// An arithmetic word message (`더하기` and the like): one argument.
    pub fn eval_word_message(&mut self, recv: Value, w: WordMessage, args: Vec<Value>) -> (r: Result<Value, RuntimeError>)
        requires
            old(self).inv(),
            old(self).store.value_ok(recv@),
            forall|k: int| 0 <= k < args@.len() ==> old(self).store.value_ok((#[trigger] args@[k])@),
        ensures
            final(self).inv(),
            final(self).grows_from(old(self)),
            r matches Ok(v) ==> final(self).store.value_ok(v@),
            if args@.len() != 1 {
                r matches Err(e) && e.kind@ == (ErrorView::ArityMismatch { name: w.spec_name(), expected: 1, actual: args@.len() as usize })
                    && *final(self) == *old(self)
            } else {
                &&& spec_binary(old(self).store, recv@, w.spec_binary_op(), args@[0]@, MAX_DEPTH as nat) matches Some(res) ==> match res {
                    Ok(v) => r matches Ok(x) && x@ == v,
                    Err(k) => r matches Err(e) && e.kind == k,
                }
                &&& spec_binary(old(self).store, recv@, w.spec_binary_op(), args@[0]@, MAX_DEPTH as nat) is None
                    ==> binary_by_host(old(self).queries, final(self).queries, recv@, w.spec_binary_op(), args@[0]@, r)
            },
    {
        proof {
            self.lemma_grows_refl();
        }
        if args.len() != 1 {
            return Err(RuntimeError::new(ErrorKind::ArityMismatch {
                name: String::from_str(w.name()),
                expected: 1,
                actual: args.len(),
            }));
        }
        let arg = args[0].copy();
        let op = match w {
            WordMessage::Add => crate::syntax::BinaryOp::Add,
            WordMessage::Subtract => crate::syntax::BinaryOp::Subtract,
            WordMessage::Multiply => crate::syntax::BinaryOp::Multiply,
            WordMessage::Divide => crate::syntax::BinaryOp::Divide,
        };
        let r = self.eval_binary(recv, op, arg, MAX_DEPTH);
        proof {
            self.lemma_grows_refl();
        }
        r
    }

    /// A message sent in statement position: `추가` to a list, a drawing
    /// message to the canvas, or a resultive message whose result is dropped.
    pub fn execute_send_stmt(&mut self, recv: Value, selector: &SendSelector, args: Vec<Value>, depth: u64) -> (r: Result<(), RuntimeError>)
        requires
            old(self).inv(),
            old(self).store.value_ok(recv@),
            forall|k: int| 0 <= k < args@.len() ==> old(self).store.value_ok((#[trigger] args@[k])@),
        ensures
            send_stmt_post(*old(self), *final(self), recv@, *selector, values_of(args@), r),
    {
        proof {
            self.lemma_grows_refl();
        }
        match selector {
            SendSelector::Keyword(sel) => self.send_keyword_message(&recv, *sel, args),
            SendSelector::Resultive(sel) => {
                if args.len() > 0 {
                    return Err(RuntimeError::new(ErrorKind::ResultiveWithArguments));
                }
                match self.send_resultive_message(&recv, *sel) {
                    Ok(_) => Ok(()),
                    Err(e) => Err(e),
                }
            },
            _ => Err(RuntimeError::new(ErrorKind::MessageNotStatement)),
        }
    }

    /// A keyword message: `추가` to a list, or a drawing message to the canvas.
    pub fn send_keyword_message(&mut self, recv: &Value, sel: KeywordMessage, args: Vec<Value>) -> (r: Result<(), RuntimeError>)
        requires
            old(self).inv(),
            old(self).store.value_ok(recv@),
            forall|k: int| 0 <= k < args@.len() ==> old(self).store.value_ok((#[trigger] args@[k])@),
        ensures
            final(self).inv(),
            final(self).grows_from(old(self)),
            keyword_outcome(*old(self), *final(self), recv@, sel, values_of(args@), r),
    {
        proof {
            self.lemma_grows_refl();
        }
        match recv {
            Value::List(id) => {
                if sel == KeywordMessage::Push {
                    if args.len() != 1 {
                        return Err(RuntimeError::new(ErrorKind::ArityMismatch {
                            name: String::from_str("추가"),
                            expected: 1,
                            actual: args.len(),
                        }));
                    }
                    self.store.list_push(*id, args[0].copy());
                    proof {
                        self.lemma_grows_refl();
                    }
                    return Ok(());
                }
            },
            Value::Host(HostValue::Canvas) => {
                if args.len() != 1 {
                    return Err(RuntimeError::new(ErrorKind::ArityMismatch {
                        name: String::from_str("그림판 메시지"),
                        expected: 1,
                        actual: args.len(),
                    }));
                }
                return self.execute_canvas_message(sel, &args[0]);
            },
            _ => {},
        }
        if sel == KeywordMessage::Push {
            Err(RuntimeError::new(ErrorKind::PushMessageNotList))
        } else {
            Err(RuntimeError::new(ErrorKind::CanvasOnlyMessage { name: String::from_str(sel.name()) }))
        }
    }

    /// Carries out a drawing message on the canvas: `지우기` closes the open
    /// frame and starts a new one; the others add a command to it.
    pub fn execute_canvas_message(&mut self, sel: KeywordMessage, arg: &Value) -> (r: Result<(), RuntimeError>)
        requires
            old(self).inv(),
            old(self).store.value_ok(arg@),
        ensures
            final(self).inv(),
            final(self).grows_from(old(self)),
            canvas_outcome(*old(self), *final(self), sel, arg@, r),
    {
        proof {
            self.lemma_grows_refl();
        }
        let rid = match arg {
            Value::Record(rid) => *rid,
            _ => {
                return Err(RuntimeError::new(ErrorKind::ArgumentNotRecord { name: String::from_str(sel.name()) }));
            },
        };
        let ghost e = self.store.record_view(rid as int);
        let ghost start = *self;
        proof {
            QueryLog::lemma_extends_refl(start.queries);
        }
        let command = match sel {
            KeywordMessage::CanvasClear => {
                let background = match string_field_either(&self.store, rid, "배경색", "색") {
                    Ok(s) => s,
                    Err(err) => return Err(err),
                };
                CanvasCommand::Clear { background }
            },
            KeywordMessage::CanvasDot => {
                let ghost before_x = self.queries;
                let x = match self.number_field(rid, "x") {
                    Ok(v) => v,
                    Err(err) => return Err(err),
                };
                proof {
                    QueryLog::lemma_since_grows(start.queries, before_x, self.queries);
                }
                let ghost before_y = self.queries;
                let y = match self.number_field(rid, "y") {
                    Ok(v) => v,
                    Err(err) => return Err(err),
                };
                proof {
                    QueryLog::lemma_since_grows(start.queries, before_y, self.queries);
                }
                let color = match string_field(&self.store, rid, "색") {
                    Ok(s) => s,
                    Err(err) => return Err(err),
                };
                let ghost before_size = self.queries;
                let size = match self.number_field_or(rid, "크기", 0x4020_0000_0000_0000u64) {
                    Ok(v) => v,
                    Err(err) => return Err(err),
                };
                proof {
                    QueryLog::lemma_since_grows(start.queries, before_size, self.queries);
                }
                CanvasCommand::Dot { x, y, color, size }
            },
            KeywordMessage::CanvasFillRect => {
                let ghost before_x = self.queries;
                let x = match self.number_field(rid, "x") {
                    Ok(v) => v,
                    Err(err) => return Err(err),
                };
                proof {
                    QueryLog::lemma_since_grows(start.queries, before_x, self.queries);
                }
                let ghost before_y = self.queries;
                let y = match self.number_field(rid, "y") {
                    Ok(v) => v,
                    Err(err) => return Err(err),
                };
                proof {
                    QueryLog::lemma_since_grows(start.queries, before_y, self.queries);
                }
                let ghost before_width = self.queries;
                let width = match self.number_field(rid, "너비") {
                    Ok(v) => v,
                    Err(err) => return Err(err),
                };
                proof {
                    QueryLog::lemma_since_grows(start.queries, before_width, self.queries);
                }
                let ghost before_height = self.queries;
                let height = match self.number_field(rid, "높이") {
                    Ok(v) => v,
                    Err(err) => return Err(err),
                };
                proof {
                    QueryLog::lemma_since_grows(start.queries, before_height, self.queries);
                }
                let color = match string_field(&self.store, rid, "색") {
                    Ok(s) => s,
                    Err(err) => return Err(err),
                };
                CanvasCommand::FillRect { x, y, width, height, color }
            },
            KeywordMessage::CanvasFillText => {
                let text = match string_field(&self.store, rid, "글") {
                    Ok(s) => s,
                    Err(err) => return Err(err),
                };
                let ghost before_x = self.queries;
                let x = match self.number_field(rid, "x") {
                    Ok(v) => v,
                    Err(err) => return Err(err),
                };
                proof {
                    QueryLog::lemma_since_grows(start.queries, before_x, self.queries);
                }
                let ghost before_y = self.queries;
                let y = match self.number_field(rid, "y") {
                    Ok(v) => v,
                    Err(err) => return Err(err),
                };
                proof {
                    QueryLog::lemma_since_grows(start.queries, before_y, self.queries);
                }
                let color = match string_field(&self.store, rid, "색") {
                    Ok(s) => s,
                    Err(err) => return Err(err),
                };
                let ghost before_size = self.queries;
                let size = match self.number_field(rid, "크기") {
                    Ok(v) => v,
                    Err(err) => return Err(err),
                };
                proof {
                    QueryLog::lemma_since_grows(start.queries, before_size, self.queries);
                }
                CanvasCommand::FillText { text, x, y, color, size }
            },
            KeywordMessage::Push => {
                return Err(RuntimeError::new(ErrorKind::CanvasNoPush));
            },
        };
        assert(canvas_command_fits(e, sel, command@, self.queries.since(&start.queries)));
        let ghost mid = *self;
        if sel == KeywordMessage::CanvasClear {
            self.recorder.begin_frame();
        }
        let ghost mid2 = *self;
        self.recorder.draw(command);
        proof {
            assert(commands_view(self.recorder.current@).drop_last() =~= commands_view(mid2.recorder.current@));
            assert(commands_view(self.recorder.current@).last() == command@);
            crate::interp::lemma_prefix_refl(texts_view(self.recorder.output@));
            crate::interp::lemma_prefix_refl(events_view(mid2.recorder.events@));
            assert(mid.grows_from(old(self)));
            assert(mid2.grows_from(&mid));
            assert(self.grows_from(&mid2));
            old(self).lemma_grows_trans(&mid, &mid2);
            old(self).lemma_grows_trans(&mid2, self);
        }
        Ok(())
    }
}

/// The views of a sequence of values.
pub open spec fn values_of(args: Seq<Value>) -> Seq<ValueView> {
    args.map_values(|v: Value| v@)
}

/// What a keyword message does: pushes onto a list, draws on the canvas,
/// or fails with the error its receiver and arguments call for.
pub open spec fn keyword_outcome<H: Host>(old: Interpreter<H>, new: Interpreter<H>, recv: ValueView, sel: KeywordMessage, args: Seq<ValueView>, r: Result<(), RuntimeError>) -> bool {
    match recv {
        ValueView::List(id) => if sel == KeywordMessage::Push {
            if args.len() != 1 {
                r matches Err(e) && e.kind@ == (ErrorView::ArityMismatch { name: "추가"@, expected: 1, actual: args.len() as usize })
                    && new == old
            } else {
                r is Ok && new.store.list_view(id as int) == old.store.list_view(id as int).push(args[0])
                    && new.recorder == old.recorder
            }
        } else {
            r matches Err(e) && e.kind@ == (ErrorView::CanvasOnlyMessage { name: sel.spec_name() }) && new == old
        },
        ValueView::Host(HostValue::Canvas) => if args.len() != 1 {
            r matches Err(e) && e.kind@ == (ErrorView::ArityMismatch { name: "그림판 메시지"@, expected: 1, actual: args.len() as usize })
                && new == old
        } else {
            canvas_outcome(old, new, sel, args[0], r)
        },
        _ => if sel == KeywordMessage::Push {
            r matches Err(e) && e.kind@ == ErrorView::PushMessageNotList && new == old
        } else {
            r matches Err(e) && e.kind@ == (ErrorView::CanvasOnlyMessage { name: sel.spec_name() }) && new == old
        },
    }
}

/// What a drawing message does with its argument: fails on a non-record
/// or on the first unreadable field, and otherwise adds the command it
/// describes (after closing the open frame, for `지우기`).
pub open spec fn canvas_outcome<H: Host>(old: Interpreter<H>, new: Interpreter<H>, sel: KeywordMessage, arg: ValueView, r: Result<(), RuntimeError>) -> bool {
    match arg {
        ValueView::Record(rid) => match canvas_fault(old.store.record_view(rid as int), sel) {
            Some(k) => r matches Err(e) && e.kind@ == k && e.span is None && new.store == old.store
                && new.recorder == old.recorder && new.torch == old.torch
                && new.stream_events == old.stream_events && new.streamed == old.streamed,
            None => {
                &&& r is Ok
                &&& new.store == old.store
                &&& new.torch == old.torch
                &&& new.stream_events == old.stream_events
                &&& new.streamed == old.streamed
                &&& new.recorder.run_start == old.recorder.run_start
                &&& new.recorder.output@ == old.recorder.output@
                &&& commands_view(new.recorder.current@).len() >= 1
                &&& new.queries.extends(&old.queries)
                &&& canvas_command_fits(old.store.record_view(rid as int), sel, commands_view(new.recorder.current@).last(), new.queries.since(&old.queries))
                &&& if sel == KeywordMessage::CanvasClear {
                    &&& commands_view(new.recorder.current@).len() == 1
                    &&& (old.recorder.current@.len() > 0 ==> events_view(new.recorder.events@) == events_view(old.recorder.events@).push(
                        crate::canvas::EventView::Frame(commands_view(old.recorder.current@))))
                    &&& (old.recorder.current@.len() == 0 ==> new.recorder.events@ == old.recorder.events@)
                } else {
                    &&& commands_view(new.recorder.current@).drop_last() == commands_view(old.recorder.current@)
                    &&& new.recorder.events@ == old.recorder.events@
                }
            },
        },
        _ => r matches Err(e) && e.kind@ == (ErrorView::ArgumentNotRecord { name: sel.spec_name() }) && new == old,
    }
}

} // verus!
