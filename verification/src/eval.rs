//! Running statements and evaluating expressions.
use vstd::prelude::*;
use vstd::string::*;
use crate::calls::{builtin_outcome, spec_arity};
use crate::canvas::{commands_view, events_view, frames_view, texts_view, EventView};
use crate::error::{ErrorKind, ErrorView, RuntimeError};
use crate::host::{Host, HostQuery, HostReply, float_is_finite_nonnegative, spec_float_is_finite, float_sign, spec_float_is_zero};
use crate::interp::{Interpreter, ExecSignal, MAX_DEPTH};
use crate::messages::{spec_index, spec_property, values_of};
use crate::ops::{spec_binary, spec_unary_ok, spec_unary_error};
use crate::store::{env_lookup, env_owner, has_key, assoc_get};
use crate::syntax::{BinaryOp, Expr, SendSelector, Stmt, Span, UnaryOp};
use crate::text::{parse_i64, spec_parse_i64};
use crate::value::{Value, ValueView, FunctionValue};

verus! {

/// What `쉬기` takes: a non-negative integer (converted to a double) or a
/// finite, non-negative double.
pub open spec fn spec_sleep_error(v: ValueView) -> Option<ErrorKind> {
    match v {
        ValueView::Int(i) => if i >= 0 { None } else { Some(ErrorKind::SleepNegative) },
        ValueView::Float(b) => if spec_float_is_finite(b) && (float_sign(b) == 0 || spec_float_is_zero(b)) {
            None
        } else {
            Some(ErrorKind::SleepNegative)
        },
        _ => Some(ErrorKind::SleepNotNumber),
    }
}

/// The value of an expression that needs no evaluation step: a name bound
/// as seen from `env`, an integer literal that parses, a string, a
/// boolean or `없음`. Evaluating such an expression changes nothing.
pub open spec fn simple_value(store: crate::store::Store, env: int, e: Expr) -> Option<ValueView> {
    match e {
        Expr::Name { name, .. } => env_lookup(store.frames_view(), env, name@),
        Expr::Int { raw, .. } => match spec_parse_i64(raw@) {
            Some(i) => Some(ValueView::Int(i)),
            None => None,
        },
        Expr::Str { value, .. } => Some(ValueView::Str(value@)),
        Expr::Bool { value, .. } => Some(ValueView::Bool(value)),
        Expr::Nothing { .. } => Some(ValueView::Nothing),
        _ => None,
    }
}

/// What a statement does, `depth` levels deep, when the expression it
/// evaluates is pure (see `pure_eval`): an error of the expression is the
/// statement's error; otherwise binding and assignment make the name read
/// as the value, printing adds the value's text, sleeping records a sleep
/// or refuses a bad duration, returning hands the value back, and a
/// condition that is not a boolean is refused.
pub open spec fn stmt_outcome<H: Host>(old: Interpreter<H>, new: Interpreter<H>, stmt: Stmt, env: int, depth: nat, r: Result<ExecSignal, RuntimeError>) -> bool {
    match stmt {
        Stmt::Bind { name, value, .. } => !has_key(old.store.frames_view()[env].entries, name@) ==> match pure_eval(
            old.store,
            old.torch,
            env,
            value,
            (depth - 1) as nat,
        ) {
            Some(Ok(v)) => r matches Ok(ExecSignal::Continue) && assoc_get(new.store.frames_view()[env].entries, name@) == Some(v)
                && env_lookup(new.store.frames_view(), env, name@) == Some(v),
            Some(Err(k)) => r matches Err(e) && e.kind@ == k,
            None => true,
        },
        Stmt::Assign { name, value, .. } => match pure_eval(old.store, old.torch, env, value, (depth - 1) as nat) {
            Some(Ok(v)) => if env_owner(old.store.frames_view(), env, name@) is Some {
                r matches Ok(ExecSignal::Continue) && env_lookup(new.store.frames_view(), env, name@) == Some(v)
            } else {
                r matches Err(e) && e.kind@ == (ErrorView::AssignUndefined { name: name@ }) && e.span == stmt.spec_span()
            },
            Some(Err(k)) => r matches Err(e) && e.kind@ == k,
            None => true,
        },
        Stmt::Print { value, .. } => match pure_eval(old.store, old.torch, env, value, (depth - 1) as nat) {
            Some(Ok(v)) => (!old.stream_events ==> r is Ok) && (crate::ops::spec_render(old.store, v, MAX_DEPTH as nat) matches Some(t)
                ==> (r is Ok ==> texts_view(new.recorder.output@) == texts_view(old.recorder.output@).push(t))),
            Some(Err(k)) => r matches Err(e) && e.kind@ == k,
            None => true,
        },
        Stmt::Sleep { duration_seconds, .. } => match pure_eval(old.store, old.torch, env, duration_seconds, (depth - 1) as nat) {
            Some(Ok(v)) => match spec_sleep_error(v) {
                Some(k) => r matches Err(e) && e.kind == k && e.span == stmt.spec_span(),
                None => r matches Ok(ExecSignal::Continue) && (v matches ValueView::Float(b) ==> events_view(new.recorder.events@).last()
                    == EventView::Sleep(b)),
            },
            Some(Err(k)) => r matches Err(e) && e.kind@ == k,
            None => true,
        },
        Stmt::Return { value, .. } => match pure_eval(old.store, old.torch, env, value, (depth - 1) as nat) {
            Some(Ok(v)) => r matches Ok(ExecSignal::Return(x)) && x@ == v,
            Some(Err(k)) => r matches Err(e) && e.kind@ == k,
            None => true,
        },
        Stmt::If { condition, .. } => match pure_eval(old.store, old.torch, env, condition, (depth - 1) as nat) {
            Some(Ok(c)) => !(c is Bool) ==> (r matches Err(e) && e.kind == ErrorKind::ConditionNotBool),
            Some(Err(k)) => r matches Err(e) && e.kind@ == k,
            None => true,
        },
        Stmt::While { condition, .. } => depth > 1 ==> match pure_eval(old.store, old.torch, env, condition, (depth - 2) as nat) {
            Some(Ok(c)) => (!(c is Bool) ==> (r matches Err(e) && e.kind == ErrorKind::LoopConditionNotBool))
                && (c == ValueView::Bool(false) ==> (r matches Ok(ExecSignal::Continue) && new.only_host_changed(&old))),
            Some(Err(k)) => r matches Err(e) && e.kind@ == k,
            None => true,
        },
        _ => true,
    }
}

/// What running one statement `depth` levels deep from `old` promises of
/// the state `new` it leaves and the signal `r` it gives: the invariant
/// holds and nothing was taken away; a returned value is stored; binding or
/// defining a name the scope already holds is refused and changes nothing;
/// a bound name is then in the scope and a defined function is the newest
/// one; a print adds a line and a sleep closes the canvas frame with a sleep
/// event; what `stmt_outcome` says of pure statements; and, one level
/// deeper, how the statement runs (see `stmt_run`).
pub open spec fn stmt_post<H: Host>(old: Interpreter<H>, new: Interpreter<H>, stmt: Stmt, env: int, depth: nat, r: Result<ExecSignal, RuntimeError>) -> bool
    decreases depth, 0nat, 0nat, 0nat,
{
    &&& new.inv()
    &&& new.grows_from(&old)
    &&& r matches Ok(ExecSignal::Return(v)) ==> new.store.value_ok(v@)
    &&& stmt matches Stmt::Bind { name, .. } ==> (has_key(old.store.frames_view()[env].entries, name@) ==> (
        r matches Err(e) && e.kind matches ErrorKind::AlreadyDefined { name: n } && n@ == name@
        && e.span == stmt.spec_span() && new == old))
    &&& stmt matches Stmt::Bind { name, .. } ==> (r is Ok ==> has_key(new.store.frames_view()[env].entries, name@))
    &&& stmt matches Stmt::FunctionDef { name, .. } ==> if has_key(old.store.frames_view()[env].entries, name@) {
        r matches Err(e) && e.kind@ == (ErrorView::AlreadyDefined { name: name@ }) && e.span == stmt.spec_span() && new == old
    } else {
        r matches Ok(ExecSignal::Continue) && assoc_get(new.store.frames_view()[env].entries, name@)
            == Some(ValueView::Function(FunctionValue::User(old.store.functions@.len() as usize)))
    }
    &&& stmt matches Stmt::Print { .. } ==> (r is Ok ==> texts_view(new.recorder.output@).len() > texts_view(old.recorder.output@).len())
    &&& stmt matches Stmt::Sleep { .. } ==> (r is Ok ==> events_view(new.recorder.events@).last() is Sleep
        && new.recorder.current@.len() == 0)
    &&& depth > 0 ==> stmt_outcome(old, new, stmt, env, depth, r)
    &&& if depth > 0 {
        stmt_run(old, new, stmt, env, (depth - 1) as nat, r)
    } else {
        true
    }
}

/// The statements that evaluate one expression and then act on its value.
pub open spec fn simple_stmt(stmt: Stmt) -> bool {
    stmt is Bind || stmt is Assign || stmt is Print || stmt is Sleep || stmt is Return || stmt is Expr
}

/// The expression such a statement evaluates.
pub open spec fn stmt_value(stmt: Stmt) -> Expr {
    match stmt {
        Stmt::Bind { value, .. } => value,
        Stmt::Assign { value, .. } => value,
        Stmt::Print { value, .. } => value,
        Stmt::Sleep { duration_seconds, .. } => duration_seconds,
        Stmt::Return { value, .. } => value,
        Stmt::Expr { expr, .. } => expr,
        _ => Expr::Nothing { span: None },
    }
}

/// A binding refused before anything is evaluated: the scope already
/// holds the name.
pub open spec fn stmt_refused<H: Host>(old: Interpreter<H>, stmt: Stmt, env: int) -> bool {
    stmt matches Stmt::Bind { name, .. } && has_key(old.store.frames_view()[env].entries, name@)
}

/// `new` is `mid` with `name` bound to `v` in scope `env`, nothing else
/// changed.
pub open spec fn bound<H: Host>(mid: Interpreter<H>, new: Interpreter<H>, env: int, name: Seq<char>, v: ValueView) -> bool {
    &&& new.store.same_except_frame(&mid.store, env)
    &&& forall|key: Seq<char>| #[trigger] assoc_get(new.store.frames_view()[env].entries, key) == (if key == name {
        Some(v)
    } else {
        assoc_get(mid.store.frames_view()[env].entries, key)
    })
    &&& new.recorder == mid.recorder
    &&& new.torch == mid.torch
    &&& new.host == mid.host
    &&& new.stream_events == mid.stream_events
}

/// `new` is `mid` with the binding of `name` that scope `env` sees (in
/// the scope that owns it) set to `v`, nothing else changed.
pub open spec fn assigned<H: Host>(mid: Interpreter<H>, new: Interpreter<H>, env: int, name: Seq<char>, v: ValueView) -> bool {
    let o = env_owner(mid.store.frames_view(), env, name).unwrap();
    &&& new.store.same_except_frame(&mid.store, o)
    &&& new.store.frames_view()[o].entries == mid.store.frames_view()[o].entries.update(
        crate::store::assoc_index(mid.store.frames_view()[o].entries, name),
        (name, v),
    )
    &&& new.recorder == mid.recorder
    &&& new.torch == mid.torch
    &&& new.host == mid.host
    &&& new.stream_events == mid.stream_events
}

/// One line was printed from `old` to `new`: a text added to the lines
/// and an output event with it, the text being how the value prints
/// (see `render_fits`; exactly `spec_render` where no double occurs).
pub open spec fn line_printed<H: Host>(old: Interpreter<H>, new: Interpreter<H>, v: ValueView) -> bool {
    exists|t: Seq<char>| #[trigger] texts_view(old.recorder.output@).push(t) == texts_view(new.recorder.output@)
        && events_view(new.recorder.events@) == events_view(old.recorder.events@).push(EventView::Output(t))
        && (crate::ops::spec_render(old.store, v, MAX_DEPTH as nat) matches Some(t0) ==> t == t0)
        && crate::ops::render_fits(old.store, v, MAX_DEPTH as nat, t, new.queries.since(&old.queries))
        && new.recorder.current@ == old.recorder.current@
        && new.recorder.frames@ == old.recorder.frames@
        && (v matches ValueView::Float(b) ==> (new.queries.entries().last().1 matches HostReply::Text(s) && s@ == t
            && new.queries.entries().last().0 == (HostQuery::RenderFloat { bits: b })
            && new.queries.entries() == old.queries.entries().push(new.queries.entries().last())))
}

/// What printing `v` streamed from `old` to `new`, `ok` telling whether the
/// print succeeded: when streaming, one line, the text printed (see
/// `render_fits`), written exactly when the print succeeds; otherwise
/// nothing.
pub open spec fn echoed<H: Host>(old: Interpreter<H>, new: Interpreter<H>, v: ValueView, ok: bool) -> bool {
    if old.stream_events {
        &&& new.streamed.entries().len() == old.streamed.entries().len() + 1
        &&& new.streamed.entries().drop_last() == old.streamed.entries()
        &&& new.streamed.entries().last() matches crate::host::StreamEntry::Line { text, written }
        &&& written == ok
        &&& crate::ops::render_fits(old.store, v, MAX_DEPTH as nat, text@, new.queries.since(&old.queries))
        &&& crate::ops::spec_render(old.store, v, MAX_DEPTH as nat) matches Some(t0) ==> text@ == t0
        &&& ok ==> texts_view(new.recorder.output@) == texts_view(old.recorder.output@).push(text@)
    } else {
        new.streamed == old.streamed
    }
}

/// A sleep of `seconds` was recorded from `old` to `new`: an open canvas
/// frame is closed first, then the sleep event added, and when streaming
/// the pause is handed to the terminal; lines, the store and the PyTorch
/// objects stay.
pub open spec fn slept<H: Host>(old: Interpreter<H>, new: Interpreter<H>, seconds: u64) -> bool {
    &&& new.store == old.store
    &&& new.torch == old.torch
    &&& new.stream_events == old.stream_events
    &&& new.recorder.output@ == old.recorder.output@
    &&& new.recorder.run_start == old.recorder.run_start
    &&& new.recorder.current@.len() == 0
    &&& old.stream_events ==> new.streamed.entries() == old.streamed.entries().push(crate::host::StreamEntry::Pause { seconds })
    &&& !old.stream_events ==> new.streamed == old.streamed
    &&& if old.recorder.current@.len() == 0 {
        &&& frames_view(new.recorder.frames@) == frames_view(old.recorder.frames@)
        &&& events_view(new.recorder.events@) == events_view(old.recorder.events@).push(EventView::Sleep(seconds))
    } else {
        &&& frames_view(new.recorder.frames@) == frames_view(old.recorder.frames@).push(commands_view(old.recorder.current@))
        &&& events_view(new.recorder.events@) == events_view(old.recorder.events@).push(
            EventView::Frame(commands_view(old.recorder.current@)),
        ).push(EventView::Sleep(seconds))
    }
}

/// What a statement of `simple_stmt` does after its expression left `mid`
/// with `rv`: the expression's error is the statement's (placed at the
/// statement if it had no place); with a value, a binding binds it, an
/// assignment sets the name's binding or is refused when no scope has
/// the name, a print prints a line (or fails writing to the terminal, when
/// streaming, printing nothing), a sleep sleeps or refuses a bad duration
/// changing nothing but the host, a return hands the value back and an
/// expression statement finishes normally.
pub open spec fn stmt_step<H: Host>(mid: Interpreter<H>, new: Interpreter<H>, stmt: Stmt, env: int, rv: Result<Value, RuntimeError>, r: Result<ExecSignal, RuntimeError>) -> bool {
    match rv {
        Err(e) => r matches Err(e2) && placed(e, stmt.spec_span(), e2) && new == mid,
        Ok(v) => match stmt {
            Stmt::Bind { name, .. } => r matches Ok(ExecSignal::Continue) && bound(mid, new, env, name@, v@),
            Stmt::Assign { name, .. } => if env_owner(mid.store.frames_view(), env, name@) is Some {
                r matches Ok(ExecSignal::Continue) && assigned(mid, new, env, name@, v@)
            } else {
                r matches Err(e) && e.kind@ == (ErrorView::AssignUndefined { name: name@ }) && e.span == stmt.spec_span() && new == mid
            },
            Stmt::Print { .. } => {
                &&& new.store == mid.store
                &&& new.torch == mid.torch
                &&& new.stream_events == mid.stream_events
                &&& !mid.stream_events ==> r is Ok
                &&& r is Ok ==> (r matches Ok(ExecSignal::Continue) && line_printed(mid, new, v@))
                &&& r is Err ==> new.recorder == mid.recorder
                &&& echoed(mid, new, v@, r is Ok)
            },
            Stmt::Sleep { .. } => match spec_sleep_error(v@) {
                Some(k) => r matches Err(e) && e.kind == k && e.span == stmt.spec_span() && new.only_host_changed(&mid),
                None => r matches Ok(ExecSignal::Continue) && exists|s: u64| #[trigger] slept(mid, new, s) && (v@ matches ValueView::Float(b) ==> s == b)
                    && (v@ matches ValueView::Int(i) ==> new.queries.asked(&mid.queries, HostQuery::IntToFloat { value: i }, HostReply::Float(s))),
            },
            Stmt::Return { .. } => r matches Ok(ExecSignal::Return(x)) && x@ == v@ && new == mid,
            Stmt::Expr { .. } => r matches Ok(ExecSignal::Continue) && new == mid,
            _ => true,
        },
    }
}

/// An error met while evaluating part of a statement, as the statement
/// reports it: the same error and call stack, placed at `span` if it had
/// no place yet.
pub open spec fn placed(e: RuntimeError, span: Option<Span>, reported: RuntimeError) -> bool {
    &&& reported.kind == e.kind
    &&& reported.call_stack@ == e.call_stack@
    &&& reported.span == (if e.span is Some { e.span } else { span })
}

/// Where a condition's error is placed: at the condition, or at the
/// statement when the condition has no place.
pub open spec fn condition_place(condition: Expr, stmt_span: Option<Span>) -> Option<Span> {
    if condition.spec_span() is Some {
        condition.spec_span()
    } else {
        stmt_span
    }
}

/// How a statement runs one level below it, `depth` levels deep: `만약`
/// and `동안` (see `if_run`, `loop_run`); a statement that evaluates one
/// expression evaluates it and acts on the outcome (see `stmt_step`).
pub open spec fn stmt_run<H: Host>(old: Interpreter<H>, new: Interpreter<H>, stmt: Stmt, env: int, depth: nat, r: Result<ExecSignal, RuntimeError>) -> bool
    decreases depth, 9nat, 0nat, 0nat,
{
    match stmt {
        Stmt::If { condition, then_block, else_block, span } => if_run(old, new, condition, then_block@, match else_block {
            Some(b) => Some(b@),
            None => None,
        }, condition_place(condition, span), env, depth, r),
        Stmt::While { condition, body, span } => loop_run(old, new, condition, body@, condition_place(condition, span), env, depth, r),
        Stmt::Send { receiver, selector, args, span } => send_stmt_run(old, new, receiver, selector, args@, span, env, depth, r),
        Stmt::NamedCall { callee, named_args, span } => named_stmt_run(old, new, callee, named_args, span, env, depth, r),
        _ => simple_stmt(stmt) && !stmt_refused(old, stmt, env) ==> exists|mid: Interpreter<H>, rv: Result<Value, RuntimeError>|
            #[trigger] eval_witness(mid, rv) && expr_post(old, mid, stmt_value(stmt), env, depth, rv) && stmt_step(mid, new, stmt, env, rv, r),
    }
}

/// `만약`, `depth` levels deep: the condition is evaluated, giving `mid`
/// and `rc` (see `if_step`).
pub open spec fn if_run<H: Host>(
    old: Interpreter<H>,
    new: Interpreter<H>,
    condition: Expr,
    then_block: Seq<Stmt>,
    else_block: Option<Seq<Stmt>>,
    span: Option<Span>,
    env: int,
    depth: nat,
    r: Result<ExecSignal, RuntimeError>,
) -> bool
    decreases depth, 4nat, 0nat, 0nat,
{
    exists|mid: Interpreter<H>, rc: Result<Value, RuntimeError>| #[trigger] eval_witness(mid, rc)
        && expr_post(old, mid, condition, env, depth, rc) && if_step(mid, new, rc, then_block, else_block, span, env, depth, r)
}

/// What `만약` does after its condition left `mid` with `rc`: the
/// condition's error is the statement's; a true condition runs the then
/// block, a false one the else block (or nothing), each from `mid`; any
/// other value is refused at `span` and no block runs.
pub open spec fn if_step<H: Host>(
    mid: Interpreter<H>,
    new: Interpreter<H>,
    rc: Result<Value, RuntimeError>,
    then_block: Seq<Stmt>,
    else_block: Option<Seq<Stmt>>,
    span: Option<Span>,
    env: int,
    depth: nat,
    r: Result<ExecSignal, RuntimeError>,
) -> bool
    decreases depth, 3nat, 0nat, 0nat,
{
    match rc {
        Err(e) => r matches Err(e2) && placed(e, span, e2) && new == mid,
        Ok(c) => if c@ == ValueView::Bool(true) {
            block_run(mid, new, then_block, env, depth, r)
        } else if c@ == ValueView::Bool(false) {
            match else_block {
                Some(b) => block_run(mid, new, b, env, depth, r),
                None => r matches Ok(ExecSignal::Continue) && new == mid,
            }
        } else {
            r matches Err(e) && e.kind == ErrorKind::ConditionNotBool && e.span == span && new == mid
        },
    }
}

/// `동안`, `depth` levels deep: with no depth left it stops with an error
/// and changes nothing; otherwise it runs for at most `MAX_DEPTH` rounds
/// (see `while_run`).
pub open spec fn loop_run<H: Host>(
    old: Interpreter<H>,
    new: Interpreter<H>,
    condition: Expr,
    body: Seq<Stmt>,
    span: Option<Span>,
    env: int,
    depth: nat,
    r: Result<ExecSignal, RuntimeError>,
) -> bool
    decreases depth, 8nat, 0nat, 0nat,
{
    if depth == 0 {
        r matches Err(e) && e.kind == ErrorKind::DepthExhausted && new == old
    } else {
        while_run(old, new, condition, body, span, env, depth, MAX_DEPTH as nat, r)
    }
}

/// A loop with `rounds` rounds left, `depth` levels deep: out of rounds it
/// stops with an error and changes nothing; otherwise the condition is
/// evaluated one level deeper, giving `mid` and `rc` (see `while_step`).
pub open spec fn while_run<H: Host>(
    old: Interpreter<H>,
    new: Interpreter<H>,
    condition: Expr,
    body: Seq<Stmt>,
    span: Option<Span>,
    env: int,
    depth: nat,
    rounds: nat,
    r: Result<ExecSignal, RuntimeError>,
) -> bool
    decreases depth, 7nat, rounds, 1nat,
{
    if rounds == 0 || depth == 0 {
        r matches Err(e) && e.kind == ErrorKind::DepthExhausted && new == old
    } else {
        exists|mid: Interpreter<H>, rc: Result<Value, RuntimeError>| #[trigger] eval_witness(mid, rc)
            && expr_post(old, mid, condition, env, (depth - 1) as nat, rc) && while_step(mid, new, rc, condition, body, span, env, depth, rounds, r)
    }
}

/// A marker naming the state and outcome an expression's evaluation left.
pub open spec fn eval_witness<H: Host>(mid: Interpreter<H>, rv: Result<Value, RuntimeError>) -> bool {
    true
}

/// A marker naming a block's end state and signal.
pub open spec fn run_witness<H: Host>(after: Interpreter<H>, rb: Result<ExecSignal, RuntimeError>) -> bool {
    true
}

/// What a loop round does after its condition left `mid` with `rc`: the
/// condition's error is the loop's; false ends the loop normally; a value
/// that is not a boolean is refused at `span`; true runs the body one
/// level deeper from `mid`, and the loop goes on with one round less from
/// where the body left off unless the body returned or failed, which ends
/// the loop with that signal.
pub open spec fn while_step<H: Host>(
    mid: Interpreter<H>,
    new: Interpreter<H>,
    rc: Result<Value, RuntimeError>,
    condition: Expr,
    body: Seq<Stmt>,
    span: Option<Span>,
    env: int,
    depth: nat,
    rounds: nat,
    r: Result<ExecSignal, RuntimeError>,
) -> bool
    decreases depth, 7nat, rounds, 0nat,
{
    if rounds == 0 || depth == 0 {
        false
    } else {
        match rc {
            Err(e) => r matches Err(e2) && placed(e, span, e2) && new == mid,
            Ok(c) => if c@ == ValueView::Bool(true) {
                exists|after: Interpreter<H>, rb: Result<ExecSignal, RuntimeError>| #[trigger] run_witness(after, rb)
                    && block_run(mid, after, body, env, (depth - 1) as nat, rb) && if rb matches Ok(ExecSignal::Continue) {
                    while_run(after, new, condition, body, span, env, depth, (rounds - 1) as nat, r)
                } else {
                    r == rb && new == after
                }
            } else if c@ == ValueView::Bool(false) {
                r matches Ok(ExecSignal::Continue) && new == mid
            } else {
                r matches Err(e) && e.kind == ErrorKind::LoopConditionNotBool && e.span == span && new == mid
            },
        }
    }
}

proof fn lemma_stmt_run_plain<H: Host>(stmt: Stmt, env: int, depth: nat)
    requires
        !(stmt is If || stmt is While || stmt is Send || stmt is NamedCall || simple_stmt(stmt)),
    ensures
        forall|old: Interpreter<H>, new: Interpreter<H>, r: Result<ExecSignal, RuntimeError>| #[trigger] stmt_run(old, new, stmt, env, depth, r),
{
}

proof fn lemma_stmt_run_refused<H: Host>(old: Interpreter<H>, new: Interpreter<H>, stmt: Stmt, env: int, depth: nat, r: Result<ExecSignal, RuntimeError>)
    requires
        stmt_refused(old, stmt, env),
    ensures
        stmt_run(old, new, stmt, env, depth, r),
{
}

proof fn lemma_stmt_run_simple<H: Host>(
    old: Interpreter<H>,
    new: Interpreter<H>,
    stmt: Stmt,
    env: int,
    depth: nat,
    r: Result<ExecSignal, RuntimeError>,
    mid: Interpreter<H>,
    rv: Result<Value, RuntimeError>,
)
    requires
        simple_stmt(stmt),
        expr_post(old, mid, stmt_value(stmt), env, depth, rv),
        stmt_step(mid, new, stmt, env, rv, r),
    ensures
        stmt_run(old, new, stmt, env, depth, r),
{
    assert(eval_witness(mid, rv));
}

proof fn lemma_stmt_run_if<H: Host>(old: Interpreter<H>, new: Interpreter<H>, stmt: Stmt, env: int, depth: nat, r: Result<ExecSignal, RuntimeError>)
    requires
        stmt matches Stmt::If { condition, then_block, else_block, span } && if_run(old, new, condition, then_block@, match else_block {
            Some(b) => Some(b@),
            None => None,
        }, condition_place(condition, span), env, depth, r),
    ensures
        stmt_run(old, new, stmt, env, depth, r),
{
}

proof fn lemma_stmt_run_while<H: Host>(old: Interpreter<H>, new: Interpreter<H>, stmt: Stmt, env: int, depth: nat, r: Result<ExecSignal, RuntimeError>)
    requires
        stmt matches Stmt::While { condition, body, span } && loop_run(old, new, condition, body@, condition_place(condition, span), env, depth, r),
    ensures
        stmt_run(old, new, stmt, env, depth, r),
{
}

proof fn lemma_loop_run_intro<H: Host>(
    old: Interpreter<H>,
    new: Interpreter<H>,
    condition: Expr,
    body: Seq<Stmt>,
    span: Option<Span>,
    env: int,
    depth: nat,
    r: Result<ExecSignal, RuntimeError>,
)
    requires
        depth > 0,
        while_run(old, new, condition, body, span, env, depth, MAX_DEPTH as nat, r),
    ensures
        loop_run(old, new, condition, body, span, env, depth, r),
{
}

proof fn lemma_if_run_intro<H: Host>(
    old: Interpreter<H>,
    new: Interpreter<H>,
    condition: Expr,
    then_block: Seq<Stmt>,
    else_block: Option<Seq<Stmt>>,
    span: Option<Span>,
    env: int,
    depth: nat,
    r: Result<ExecSignal, RuntimeError>,
    mid: Interpreter<H>,
    rc: Result<Value, RuntimeError>,
)
    requires
        expr_post(old, mid, condition, env, depth, rc),
        if_step(mid, new, rc, then_block, else_block, span, env, depth, r),
    ensures
        if_run(old, new, condition, then_block, else_block, span, env, depth, r),
{
    assert(eval_witness(mid, rc));
}

proof fn lemma_while_run_intro<H: Host>(
    old: Interpreter<H>,
    new: Interpreter<H>,
    condition: Expr,
    body: Seq<Stmt>,
    span: Option<Span>,
    env: int,
    depth: nat,
    rounds: nat,
    r: Result<ExecSignal, RuntimeError>,
    mid: Interpreter<H>,
    rc: Result<Value, RuntimeError>,
)
    requires
        rounds > 0,
        depth > 0,
        expr_post(old, mid, condition, env, (depth - 1) as nat, rc),
        while_step(mid, new, rc, condition, body, span, env, depth, rounds, r),
    ensures
        while_run(old, new, condition, body, span, env, depth, rounds, r),
{
    assert(eval_witness(mid, rc));
}

proof fn lemma_while_step_body<H: Host>(
    mid: Interpreter<H>,
    new: Interpreter<H>,
    rc: Result<Value, RuntimeError>,
    condition: Expr,
    body: Seq<Stmt>,
    span: Option<Span>,
    env: int,
    depth: nat,
    rounds: nat,
    r: Result<ExecSignal, RuntimeError>,
    after: Interpreter<H>,
    rb: Result<ExecSignal, RuntimeError>,
)
    requires
        rounds > 0,
        depth > 0,
        rc matches Ok(c) && c@ == ValueView::Bool(true),
        block_run(mid, after, body, env, (depth - 1) as nat, rb),
        if rb matches Ok(ExecSignal::Continue) {
            while_run(after, new, condition, body, span, env, depth, (rounds - 1) as nat, r)
        } else {
            r == rb && new == after
        },
    ensures
        while_step(mid, new, rc, condition, body, span, env, depth, rounds, r),
{
    assert(run_witness(after, rb));
}

/// Running statements one after another: `mids[j]` is the state before
/// statement `j`; each of the first `n` finished normally from the state
/// before it, and either all statements ran and the block finishes
/// normally in the state after the last, or statement `n` returned or
/// failed and its signal and state are the block's.
pub open spec fn block_steps<H: Host>(
    old: Interpreter<H>,
    new: Interpreter<H>,
    stmts: Seq<Stmt>,
    env: int,
    depth: nat,
    r: Result<ExecSignal, RuntimeError>,
    n: int,
    mids: Seq<Interpreter<H>>,
) -> bool
    decreases depth, 1nat, 0nat, 0nat,
{
    &&& 0 <= n <= stmts.len()
    &&& mids.len() == n + 1
    &&& mids[0] == old
    &&& forall|j: int| #![trigger stmts[j]] 0 <= j < n ==> stmt_post(mids[j], mids[j + 1], stmts[j], env, depth, Ok(ExecSignal::Continue))
    &&& if n == stmts.len() {
        r matches Ok(ExecSignal::Continue) && new == mids[n]
    } else {
        !(r matches Ok(ExecSignal::Continue)) && stmt_post(mids[n], new, stmts[n], env, depth, r)
    }
}

/// What running a block `depth` levels deep does: with no depth left a
/// non-empty block stops with an error and changes nothing (an empty one
/// finishes normally); otherwise its
/// statements run in order one level deeper (see `block_steps`).
pub open spec fn block_run<H: Host>(
    old: Interpreter<H>,
    new: Interpreter<H>,
    stmts: Seq<Stmt>,
    env: int,
    depth: nat,
    r: Result<ExecSignal, RuntimeError>,
) -> bool
    decreases depth, 2nat, 0nat, 0nat,
{
    if depth == 0 {
        if stmts.len() > 0 {
            r matches Err(e) && e.kind == ErrorKind::DepthExhausted && new == old
        } else {
            r matches Ok(ExecSignal::Continue) && new == old
        }
    } else {
        exists|n: int, mids: Seq<Interpreter<H>>| #[trigger] steps_witness(n, mids) && block_steps(old, new, stmts, env, (depth - 1) as nat, r, n, mids)
    }
}

/// What evaluating an expression `depth` levels deep from `old` promises
/// of the state `new` it leaves and its result `r`: the invariant holds,
/// nothing was taken away and a value is stored; names and literals give
/// their values or errors (a bad integer literal at its own place); a
/// list literal evaluates its items in order into a new list (see
/// `list_run`); a record literal builds a new record; a call evaluates its
/// callee and arguments in order and calls (see `call_expr_run`); prefix
/// operators over simple operands, pure expressions (see `pure_eval`) and
/// builtin calls on simple arguments give what their specifications say.
pub open spec fn expr_post<H: Host>(old: Interpreter<H>, new: Interpreter<H>, expr: Expr, env: int, depth: nat, r: Result<Value, RuntimeError>) -> bool
    decreases depth, 0nat, 0nat, 0nat,
{
    &&& new.inv()
    &&& new.grows_from(&old)
    &&& r matches Ok(v) ==> new.store.value_ok(v@)
    &&& expr matches Expr::Name { name, .. } ==> (match env_lookup(old.store.frames_view(), env, name@) {
        Some(v) => r matches Ok(x) && x@ == v,
        None => r matches Err(e) && e.kind matches ErrorKind::Undefined { name: n } && n@ == name@,
    })
    &&& expr matches Expr::Int { raw, .. } ==> (match spec_parse_i64(raw@) {
        Some(i) => r matches Ok(x) && x@ == ValueView::Int(i),
        None => r matches Err(e) && e.kind matches ErrorKind::InvalidIntLiteral { raw: t } && t@ == raw@,
    })
    &&& expr matches Expr::Str { value, .. } ==> (r matches Ok(x) && x@ == ValueView::Str(value@))
    &&& expr matches Expr::Bool { value, .. } ==> (r matches Ok(x) && x@ == ValueView::Bool(value))
    &&& expr matches Expr::Nothing { .. } ==> (r matches Ok(x) && x@ == ValueView::Nothing)
    &&& expr matches Expr::Float { raw, .. } ==> {
        &&& new.queries.entries() == old.queries.entries().push(new.queries.entries().last())
        &&& new.queries.entries().last().0 == (HostQuery::ParseFloat { text: raw })
        &&& match new.queries.entries().last().1 {
            HostReply::MaybeFloat(Some(g)) => r matches Ok(x) && x@ == ValueView::Float(g),
            HostReply::MaybeFloat(None) => r matches Err(e) && e.kind@ == (ErrorView::InvalidFloatLiteral { raw: raw@ }),
            _ => false,
        }
    }
    &&& expr matches Expr::List { items, .. } ==> (r matches Ok(x) ==> (x@ matches ValueView::List(id)
        && id < new.store.lists@.len() && new.store.list_view(id as int).len() == items@.len()))
    &&& expr matches Expr::List { items, .. } ==> (depth > 1 && all_simple(old.store, env, items@) ==> (r matches Ok(x)
        && x@ matches ValueView::List(id) && id == old.store.lists@.len()
        && new.store.list_view(id as int) == simple_values(old.store, env, items@)))
    &&& expr matches Expr::Record { entries, .. } ==> (r matches Ok(x) ==> record_keys_fit(new.store, x@, entries@))
    &&& simple_value(old.store, env, expr) matches Some(v) ==> (r matches Ok(x) && x@ == v && new == old)
    &&& expr matches Expr::Unary { op, expr: e, .. } ==> (depth > 0 ==> (simple_value(old.store, env, *e) matches Some(v) ==> {
        &&& r matches Ok(x) ==> spec_unary_ok(op, v, x@)
        &&& r is Err <==> spec_unary_error(op, v) is Some
    }))
    &&& pure_eval(old.store, old.torch, env, expr, depth) matches Some(res) ==> (new.only_host_changed(&old)
        && match res {
        Ok(v) => r matches Ok(x) && x@ == v,
        Err(k) => r matches Err(e) && e.kind@ == k,
    })
    &&& expr matches Expr::Call { callee, args, .. } ==> (depth > 1 ==> (all_simple(old.store, env, args@)
        ==> (simple_value(old.store, env, *callee) matches Some(ValueView::Function(FunctionValue::Builtin(f)))
        ==> (args@.len() == spec_arity(f) ==> builtin_outcome(old, new, f, simple_values(old.store, env, args@), r)))))
    &&& expr matches Expr::Int { raw, .. } ==> (spec_parse_i64(raw@) is None ==> (r matches Err(e) && e.span == expr.spec_span()))
    &&& expr matches Expr::List { items, span } ==> if depth == 0 {
        r matches Err(e) && e.kind == ErrorKind::DepthExhausted && new == old
    } else {
        list_run(old, new, items@, env, (depth - 1) as nat, span, r)
    }
    &&& expr matches Expr::Call { callee, args, span } ==> if depth == 0 {
        r matches Err(e) && e.kind == ErrorKind::DepthExhausted && new == old
    } else {
        call_expr_run(old, new, *callee, args@, span, env, (depth - 1) as nat, r)
    }
    &&& expr matches Expr::Send { receiver, selector, args, span } ==> if depth == 0 {
        r matches Err(e) && e.kind == ErrorKind::DepthExhausted && new == old
    } else {
        send_expr_run(old, new, *receiver, selector, args@, span, env, (depth - 1) as nat, r)
    }
    &&& expr matches Expr::Record { entries, span } ==> if depth == 0 {
        r matches Err(e) && e.kind == ErrorKind::DepthExhausted && new == old
    } else {
        record_run(old, new, entries@, env, (depth - 1) as nat, span, r)
    }
    &&& expr matches Expr::Unary { op, expr: operand, span } ==> if depth == 0 {
        r matches Err(e) && e.kind == ErrorKind::DepthExhausted && new == old
    } else {
        unary_run(old, new, op, *operand, span, env, (depth - 1) as nat, r)
    }
    &&& expr matches Expr::Binary { left, right, span, .. } ==> if depth == 0 {
        r matches Err(e) && e.kind == ErrorKind::DepthExhausted && new == old
    } else {
        pair_run(old, new, expr, *left, *right, span, env, (depth - 1) as nat, r)
    }
    &&& expr matches Expr::Index { base, index, span } ==> if depth == 0 {
        r matches Err(e) && e.kind == ErrorKind::DepthExhausted && new == old
    } else {
        pair_run(old, new, expr, *base, *index, span, env, (depth - 1) as nat, r)
    }
}

/// A message send at `span` whose parts are evaluated `depth` levels
/// deep: the receiver, then the arguments in order, each error being the
/// send's; then the message is sent to the receiver's value with the
/// arguments' values (see `send_post`), its outcome `rs` reported at `span`.
pub open spec fn send_expr_run<H: Host>(
    old: Interpreter<H>,
    new: Interpreter<H>,
    receiver: Expr,
    selector: SendSelector,
    args: Seq<Expr>,
    span: Option<Span>,
    env: int,
    depth: nat,
    r: Result<Value, RuntimeError>,
) -> bool
    decreases depth, 7nat, 0nat, 0nat,
{
    exists|mid: Interpreter<H>, rv: Result<Value, RuntimeError>, mid2: Interpreter<H>, ra: Result<Seq<ValueView>, RuntimeError>,
        rs: Result<Value, RuntimeError>|
        #[trigger] send_parts_witness(mid, rv, mid2, ra, rs) && expr_post(old, mid, receiver, env, depth, rv) && match rv {
            Err(e) => r matches Err(e2) && placed(e, span, e2) && new == mid,
            Ok(x) => args_run(mid, mid2, args, env, depth, span, ra) && match ra {
                Err(e) => r == Err::<Value, RuntimeError>(e) && new == mid2,
                Ok(vs) => crate::messages::send_post(mid2, new, x@, selector, vs, env, span, depth, rs) && crate::calls::reported(rs, span, r),
            },
        }
}

/// A message send statement at `span` whose parts are evaluated `depth`
/// levels deep: the receiver, then the arguments in order, each error
/// being the statement's; then the message is sent (see `send_stmt_post`),
/// its error placed at `span`.
pub open spec fn send_stmt_run<H: Host>(
    old: Interpreter<H>,
    new: Interpreter<H>,
    receiver: Expr,
    selector: SendSelector,
    args: Seq<Expr>,
    span: Option<Span>,
    env: int,
    depth: nat,
    r: Result<ExecSignal, RuntimeError>,
) -> bool
    decreases depth, 7nat, 0nat, 0nat,
{
    exists|mid: Interpreter<H>, rv: Result<Value, RuntimeError>, mid2: Interpreter<H>, ra: Result<Seq<ValueView>, RuntimeError>,
        rs: Result<(), RuntimeError>|
        #[trigger] send_stmt_witness(mid, rv, mid2, ra, rs) && expr_post(old, mid, receiver, env, depth, rv) && match rv {
            Err(e) => r matches Err(e2) && placed(e, span, e2) && new == mid,
            Ok(x) => args_run(mid, mid2, args, env, depth, span, ra) && match ra {
                Err(e) => r == Err::<ExecSignal, RuntimeError>(e) && new == mid2,
                Ok(vs) => crate::messages::send_stmt_post(mid2, new, x@, selector, vs, rs) && match rs {
                    Ok(()) => r matches Ok(ExecSignal::Continue),
                    Err(e) => r matches Err(e2) && placed(e, span, e2),
                },
            },
        }
}

/// A named call statement at `span` whose parts are evaluated `depth`
/// levels deep: the callee, then the record of named arguments, each
/// error placed at `span` being the statement's; then the call (see
/// `named_call_post`), whose error is the statement's and whose value is
/// dropped.
pub open spec fn named_stmt_run<H: Host>(
    old: Interpreter<H>,
    new: Interpreter<H>,
    callee: Expr,
    named_args: Expr,
    span: Option<Span>,
    env: int,
    depth: nat,
    r: Result<ExecSignal, RuntimeError>,
) -> bool
    decreases depth, 7nat, 0nat, 0nat,
{
    exists|mid: Interpreter<H>, rf: Result<Value, RuntimeError>, mid2: Interpreter<H>, rn: Result<Value, RuntimeError>,
        rc: Result<Value, RuntimeError>|
        #[trigger] named_parts_witness(mid, rf, mid2, rn, rc) && expr_post(old, mid, callee, env, depth, rf) && match rf {
            Err(e) => r matches Err(e2) && placed(e, span, e2) && new == mid,
            Ok(f) => expr_post(mid, mid2, named_args, env, depth, rn) && match rn {
                Err(e) => r matches Err(e2) && placed(e, span, e2) && new == mid2,
                Ok(n) => crate::calls::named_call_post(mid2, new, f@, n@, span, depth, rc) && match rc {
                    Ok(_) => r matches Ok(ExecSignal::Continue),
                    Err(e) => r == Err::<ExecSignal, RuntimeError>(e),
                },
            },
        }
}

/// A marker naming the states and outcomes a named call statement's parts left.
pub open spec fn named_parts_witness<H: Host>(
    mid: Interpreter<H>,
    rf: Result<Value, RuntimeError>,
    mid2: Interpreter<H>,
    rn: Result<Value, RuntimeError>,
    rc: Result<Value, RuntimeError>,
) -> bool {
    true
}

proof fn lemma_named_stmt_run_intro<H: Host>(
    old: Interpreter<H>,
    new: Interpreter<H>,
    stmt: Stmt,
    env: int,
    depth: nat,
    r: Result<ExecSignal, RuntimeError>,
    mid: Interpreter<H>,
    rf: Result<Value, RuntimeError>,
    mid2: Interpreter<H>,
    rn: Result<Value, RuntimeError>,
    rc: Result<Value, RuntimeError>,
)
    requires
        stmt matches Stmt::NamedCall { callee, named_args, span } && expr_post(old, mid, callee, env, depth, rf) && match rf {
            Err(e) => r matches Err(e2) && placed(e, span, e2) && new == mid,
            Ok(f) => expr_post(mid, mid2, named_args, env, depth, rn) && match rn {
                Err(e) => r matches Err(e2) && placed(e, span, e2) && new == mid2,
                Ok(n) => crate::calls::named_call_post(mid2, new, f@, n@, span, depth, rc) && match rc {
                    Ok(_) => r matches Ok(ExecSignal::Continue),
                    Err(e) => r == Err::<ExecSignal, RuntimeError>(e),
                },
            },
        },
    ensures
        stmt_run(old, new, stmt, env, depth, r),
{
    assert(named_parts_witness(mid, rf, mid2, rn, rc));
}

/// A marker naming the states and outcomes a message send statement's parts left.
pub open spec fn send_stmt_witness<H: Host>(
    mid: Interpreter<H>,
    rv: Result<Value, RuntimeError>,
    mid2: Interpreter<H>,
    ra: Result<Seq<ValueView>, RuntimeError>,
    rs: Result<(), RuntimeError>,
) -> bool {
    true
}

proof fn lemma_send_stmt_run_intro<H: Host>(
    old: Interpreter<H>,
    new: Interpreter<H>,
    stmt: Stmt,
    env: int,
    depth: nat,
    r: Result<ExecSignal, RuntimeError>,
    mid: Interpreter<H>,
    rv: Result<Value, RuntimeError>,
    mid2: Interpreter<H>,
    ra: Result<Seq<ValueView>, RuntimeError>,
    rs: Result<(), RuntimeError>,
)
    requires
        stmt matches Stmt::Send { receiver, selector, args, span } && expr_post(old, mid, receiver, env, depth, rv) && match rv {
            Err(e) => r matches Err(e2) && placed(e, span, e2) && new == mid,
            Ok(x) => args_run(mid, mid2, args@, env, depth, span, ra) && match ra {
                Err(e) => r == Err::<ExecSignal, RuntimeError>(e) && new == mid2,
                Ok(vs) => crate::messages::send_stmt_post(mid2, new, x@, selector, vs, rs) && match rs {
                    Ok(()) => r matches Ok(ExecSignal::Continue),
                    Err(e) => r matches Err(e2) && placed(e, span, e2),
                },
            },
        },
    ensures
        stmt_run(old, new, stmt, env, depth, r),
{
    assert(send_stmt_witness(mid, rv, mid2, ra, rs));
}

/// A marker naming the states and outcomes a message send's parts left.
pub open spec fn send_parts_witness<H: Host>(
    mid: Interpreter<H>,
    rv: Result<Value, RuntimeError>,
    mid2: Interpreter<H>,
    ra: Result<Seq<ValueView>, RuntimeError>,
    rs: Result<Value, RuntimeError>,
) -> bool {
    true
}

proof fn lemma_send_expr_run_intro<H: Host>(
    old: Interpreter<H>,
    new: Interpreter<H>,
    receiver: Expr,
    selector: SendSelector,
    args: Seq<Expr>,
    span: Option<Span>,
    env: int,
    depth: nat,
    r: Result<Value, RuntimeError>,
    mid: Interpreter<H>,
    rv: Result<Value, RuntimeError>,
    mid2: Interpreter<H>,
    ra: Result<Seq<ValueView>, RuntimeError>,
    rs: Result<Value, RuntimeError>,
)
    requires
        expr_post(old, mid, receiver, env, depth, rv),
        match rv {
            Err(e) => r matches Err(e2) && placed(e, span, e2) && new == mid,
            Ok(x) => args_run(mid, mid2, args, env, depth, span, ra) && match ra {
                Err(e) => r == Err::<Value, RuntimeError>(e) && new == mid2,
                Ok(vs) => crate::messages::send_post(mid2, new, x@, selector, vs, env, span, depth, rs) && crate::calls::reported(rs, span, r),
            },
        },
    ensures
        send_expr_run(old, new, receiver, selector, args, span, env, depth, r),
{
    assert(send_parts_witness(mid, rv, mid2, ra, rs));
}

/// The expressions of a record literal's entries, in order.
pub open spec fn entry_values(entries: Seq<crate::syntax::RecordEntry>) -> Seq<Expr> {
    entries.map_values(|e: crate::syntax::RecordEntry| e.value)
}

/// A record literal whose entries are evaluated `depth` levels deep: the
/// entries' values are evaluated in order (see `args_run`), leaving `mid`
/// and `ra` (see `record_built`).
pub open spec fn record_run<H: Host>(
    old: Interpreter<H>,
    new: Interpreter<H>,
    entries: Seq<crate::syntax::RecordEntry>,
    env: int,
    depth: nat,
    span: Option<Span>,
    r: Result<Value, RuntimeError>,
) -> bool
    decreases depth, 3nat, 0nat, 0nat,
{
    exists|mid: Interpreter<H>, ra: Result<Seq<ValueView>, RuntimeError>| #[trigger] list_witness(mid, ra)
        && args_run(old, mid, entry_values(entries), env, depth, span, ra) && record_built(mid, new, entries, ra, r)
}

/// What a record literal gives once its entries' values left `mid` with
/// `ra`: a new record, numbered after the existing ones, giving each key
/// the value of the last entry with that key, nothing else changed; or
/// the entries' error.
pub open spec fn record_built<H: Host>(
    mid: Interpreter<H>,
    new: Interpreter<H>,
    entries: Seq<crate::syntax::RecordEntry>,
    ra: Result<Seq<ValueView>, RuntimeError>,
    r: Result<Value, RuntimeError>,
) -> bool {
    match ra {
        Ok(vs) => {
            let id = mid.store.records@.len();
            &&& r matches Ok(x) && x@ == ValueView::Record(id as usize)
            &&& new.store.records@.len() == id + 1
            &&& forall|key: Seq<char>| #[trigger] assoc_get(new.store.record_view(id as int), key) == (if last_entry_with(
                entries,
                key,
                entries.len() as int,
            ) >= 0 {
                Some(vs[last_entry_with(entries, key, entries.len() as int)])
            } else {
                None
            })
            &&& forall|k: int| 0 <= k < id ==> #[trigger] new.store.records@[k] == mid.store.records@[k]
            &&& new.store.lists@ == mid.store.lists@
            &&& new.store.frames@ == mid.store.frames@
            &&& new.store.functions@ == mid.store.functions@
            &&& new.recorder == mid.recorder
            &&& new.torch == mid.torch
            &&& new.host == mid.host
            &&& new.stream_events == mid.stream_events
        },
        Err(e) => r == Err::<Value, RuntimeError>(e) && new == mid,
    }
}

proof fn lemma_record_run_intro<H: Host>(
    old: Interpreter<H>,
    new: Interpreter<H>,
    entries: Seq<crate::syntax::RecordEntry>,
    env: int,
    depth: nat,
    span: Option<Span>,
    r: Result<Value, RuntimeError>,
    mid: Interpreter<H>,
    ra: Result<Seq<ValueView>, RuntimeError>,
)
    requires
        args_run(old, mid, entry_values(entries), env, depth, span, ra),
        record_built(mid, new, entries, ra, r),
    ensures
        record_run(old, new, entries, env, depth, span, r),
{
    assert(list_witness(mid, ra));
}

/// A prefix operator at `span` whose operand is evaluated `depth` levels
/// deep: the operand's error is the expression's (placed at `span`);
/// otherwise the operator applies to its value (see `spec_unary_ok`,
/// `spec_unary_error`), changing nothing but the host.
pub open spec fn unary_run<H: Host>(
    old: Interpreter<H>,
    new: Interpreter<H>,
    op: UnaryOp,
    operand: Expr,
    span: Option<Span>,
    env: int,
    depth: nat,
    r: Result<Value, RuntimeError>,
) -> bool
    decreases depth, 3nat, 0nat, 0nat,
{
    exists|mid: Interpreter<H>, rv: Result<Value, RuntimeError>| #[trigger] eval_witness(mid, rv) && expr_post(old, mid, operand, env, depth, rv)
        && match rv {
        Err(e) => r matches Err(e2) && placed(e, span, e2) && new == mid,
        Ok(v) => {
            &&& new.only_host_changed(&mid)
            &&& r matches Ok(x) ==> spec_unary_ok(op, v@, x@)
            &&& r matches Err(e) ==> spec_unary_error(op, v@) == Some(e.kind) && e.span == span
            &&& r is Err <==> spec_unary_error(op, v@) is Some
        },
    }
}

/// What an infix operator or an index expression `expr` at `span` does
/// with its operands' values `a` and `b` from `mid`: the operator's result
/// (see `spec_binary`; the host's where a double decides), changing
/// nothing but the host; or the element or property the index selects
/// (see `spec_index`), changing nothing; errors placed at `span`.
pub open spec fn pair_step<H: Host>(mid: Interpreter<H>, new: Interpreter<H>, expr: Expr, a: ValueView, b: ValueView, span: Option<Span>, r: Result<Value, RuntimeError>) -> bool {
    match expr {
        Expr::Binary { op, .. } => {
            &&& new.only_host_changed(&mid)
            &&& op == BinaryOp::Equal || op == BinaryOp::NotEqual ==> (r matches Ok(x) && x@ is Bool)
            &&& spec_binary(mid.store, a, op, b, MAX_DEPTH as nat) matches Some(res) ==> match res {
                Ok(v) => r matches Ok(x) && x@ == v,
                Err(k) => r matches Err(e) && e.kind == k && e.span == span,
            }
            &&& spec_binary(mid.store, a, op, b, MAX_DEPTH as nat) is None
                ==> crate::ops::binary_by_host(mid.queries, new.queries, a, op, b, r)
            &&& op == BinaryOp::Equal || op == BinaryOp::NotEqual
                ==> crate::ops::equality_asked(mid.store, mid.queries, new.queries, a, op, b, MAX_DEPTH as nat, r)
        },
        Expr::Index { .. } => new == mid && match spec_index(mid.store, a, b) {
            Ok(v) => r matches Ok(x) && x@ == v,
            Err(k) => r matches Err(e) && e.kind@ == k && e.span == span,
        },
        _ => true,
    }
}

/// An expression with two operands, `left` then `right`, evaluated
/// `depth` levels deep: the first operand's error is the expression's;
/// otherwise the second is evaluated from where the first left off, and
/// its error is the expression's; otherwise see `pair_step`.
pub open spec fn pair_run<H: Host>(
    old: Interpreter<H>,
    new: Interpreter<H>,
    expr: Expr,
    left: Expr,
    right: Expr,
    span: Option<Span>,
    env: int,
    depth: nat,
    r: Result<Value, RuntimeError>,
) -> bool
    decreases depth, 3nat, 0nat, 0nat,
{
    exists|mid: Interpreter<H>, ra: Result<Value, RuntimeError>, mid2: Interpreter<H>, rb: Result<Value, RuntimeError>|
        #[trigger] pair_witness(mid, ra, mid2, rb) && expr_post(old, mid, left, env, depth, ra) && match ra {
            Err(e) => r matches Err(e2) && placed(e, span, e2) && new == mid,
            Ok(a) => expr_post(mid, mid2, right, env, depth, rb) && match rb {
                Err(e) => r matches Err(e2) && placed(e, span, e2) && new == mid2,
                Ok(b) => pair_step(mid2, new, expr, a@, b@, span, r),
            },
        }
}

/// A marker naming the states and outcomes an expression's two operands left.
pub open spec fn pair_witness<H: Host>(
    mid: Interpreter<H>,
    ra: Result<Value, RuntimeError>,
    mid2: Interpreter<H>,
    rb: Result<Value, RuntimeError>,
) -> bool {
    true
}

proof fn lemma_unary_run_intro<H: Host>(
    old: Interpreter<H>,
    new: Interpreter<H>,
    op: UnaryOp,
    operand: Expr,
    span: Option<Span>,
    env: int,
    depth: nat,
    r: Result<Value, RuntimeError>,
    mid: Interpreter<H>,
    rv: Result<Value, RuntimeError>,
)
    requires
        expr_post(old, mid, operand, env, depth, rv),
        match rv {
            Err(e) => r matches Err(e2) && placed(e, span, e2) && new == mid,
            Ok(v) => {
                &&& new.only_host_changed(&mid)
                &&& r matches Ok(x) ==> spec_unary_ok(op, v@, x@)
                &&& r matches Err(e) ==> spec_unary_error(op, v@) == Some(e.kind) && e.span == span
                &&& r is Err <==> spec_unary_error(op, v@) is Some
            },
        },
    ensures
        unary_run(old, new, op, operand, span, env, depth, r),
{
    assert(eval_witness(mid, rv));
}

proof fn lemma_pair_run_intro<H: Host>(
    old: Interpreter<H>,
    new: Interpreter<H>,
    expr: Expr,
    left: Expr,
    right: Expr,
    span: Option<Span>,
    env: int,
    depth: nat,
    r: Result<Value, RuntimeError>,
    mid: Interpreter<H>,
    ra: Result<Value, RuntimeError>,
    mid2: Interpreter<H>,
    rb: Result<Value, RuntimeError>,
)
    requires
        expr_post(old, mid, left, env, depth, ra),
        match ra {
            Err(e) => r matches Err(e2) && placed(e, span, e2) && new == mid,
            Ok(a) => expr_post(mid, mid2, right, env, depth, rb) && match rb {
                Err(e) => r matches Err(e2) && placed(e, span, e2) && new == mid2,
                Ok(b) => pair_step(mid2, new, expr, a@, b@, span, r),
            },
        },
    ensures
        pair_run(old, new, expr, left, right, span, env, depth, r),
{
    assert(pair_witness(mid, ra, mid2, rb));
}

/// A call expression at `span` whose parts are evaluated `depth` levels
/// deep: the callee is evaluated, leaving `mid` with `rf`, and its error
/// is the call's (placed at `span`); then the arguments, in order, leaving
/// `mid2` with `ra`, whose error is the call's; then the callee's value is
/// called with the arguments' values (see `callee_outcome`).
pub open spec fn call_expr_run<H: Host>(
    old: Interpreter<H>,
    new: Interpreter<H>,
    callee: Expr,
    args: Seq<Expr>,
    span: Option<Span>,
    env: int,
    depth: nat,
    r: Result<Value, RuntimeError>,
) -> bool
    decreases depth, 7nat, 0nat, 0nat,
{
    exists|mid: Interpreter<H>, rf: Result<Value, RuntimeError>, mid2: Interpreter<H>, ra: Result<Seq<ValueView>, RuntimeError>|
        #[trigger] call_parts_witness(mid, rf, mid2, ra) && expr_post(old, mid, callee, env, depth, rf) && match rf {
            Err(e) => r matches Err(e2) && placed(e, span, e2) && new == mid,
            Ok(f) => args_run(mid, mid2, args, env, depth, span, ra) && match ra {
                Err(e) => r == Err::<Value, RuntimeError>(e) && new == mid2,
                Ok(vs) => crate::calls::callee_outcome(mid2, new, f@, vs, span, depth, r),
            },
        }
}

/// A marker naming the states and outcomes a call expression's parts left.
pub open spec fn call_parts_witness<H: Host>(
    mid: Interpreter<H>,
    rf: Result<Value, RuntimeError>,
    mid2: Interpreter<H>,
    ra: Result<Seq<ValueView>, RuntimeError>,
) -> bool {
    true
}

proof fn lemma_call_expr_run_intro<H: Host>(
    old: Interpreter<H>,
    new: Interpreter<H>,
    callee: Expr,
    args: Seq<Expr>,
    span: Option<Span>,
    env: int,
    depth: nat,
    r: Result<Value, RuntimeError>,
    mid: Interpreter<H>,
    rf: Result<Value, RuntimeError>,
    mid2: Interpreter<H>,
    ra: Result<Seq<ValueView>, RuntimeError>,
)
    requires
        expr_post(old, mid, callee, env, depth, rf),
        match rf {
            Err(e) => r matches Err(e2) && placed(e, span, e2) && new == mid,
            Ok(f) => args_run(mid, mid2, args, env, depth, span, ra) && match ra {
                Err(e) => r == Err::<Value, RuntimeError>(e) && new == mid2,
                Ok(vs) => crate::calls::callee_outcome(mid2, new, f@, vs, span, depth, r),
            },
        },
    ensures
        call_expr_run(old, new, callee, args, span, env, depth, r),
{
    assert(call_parts_witness(mid, rf, mid2, ra));
}

/// A list literal whose items are evaluated `depth` levels deep: the
/// items are evaluated in order (see `args_run`), leaving `mid` and `ra`
/// (see `list_built`).
pub open spec fn list_run<H: Host>(
    old: Interpreter<H>,
    new: Interpreter<H>,
    items: Seq<Expr>,
    env: int,
    depth: nat,
    span: Option<Span>,
    r: Result<Value, RuntimeError>,
) -> bool
    decreases depth, 3nat, 0nat, 0nat,
{
    exists|mid: Interpreter<H>, ra: Result<Seq<ValueView>, RuntimeError>| #[trigger] list_witness(mid, ra)
        && args_run(old, mid, items, env, depth, span, ra) && list_built(mid, new, ra, r)
}

proof fn lemma_list_run_intro<H: Host>(
    old: Interpreter<H>,
    new: Interpreter<H>,
    items: Seq<Expr>,
    env: int,
    depth: nat,
    span: Option<Span>,
    r: Result<Value, RuntimeError>,
    mid: Interpreter<H>,
    ra: Result<Seq<ValueView>, RuntimeError>,
)
    requires
        args_run(old, mid, items, env, depth, span, ra),
        list_built(mid, new, ra, r),
    ensures
        list_run(old, new, items, env, depth, span, r),
{
    assert(list_witness(mid, ra));
}

proof fn lemma_args_run_intro<H: Host>(
    old: Interpreter<H>,
    new: Interpreter<H>,
    args: Seq<Expr>,
    env: int,
    depth: nat,
    span: Option<Span>,
    r: Result<Seq<ValueView>, RuntimeError>,
    n: int,
    mids: Seq<Interpreter<H>>,
    vals: Seq<Value>,
)
    requires
        depth > 0,
        args_steps(old, new, args, env, depth, span, r, n, mids, vals),
    ensures
        args_run(old, new, args, env, depth, span, r),
{
    assert(args_witness(n, mids, vals));
}

proof fn lemma_args_failed<H: Host>(mid: Interpreter<H>, new: Interpreter<H>, arg: Expr, env: int, depth: nat, e: RuntimeError)
    requires
        expr_post(mid, new, arg, env, depth, Err(e)),
    ensures
        exists|err: RuntimeError| #[trigger] error_witness(err) && expr_post(mid, new, arg, env, depth, Err(err)) && err == e,
{
    assert(error_witness(e));
}

/// The values, or the error, that evaluating expressions gave.
pub open spec fn args_outcome(r: Result<Vec<Value>, RuntimeError>) -> Result<Seq<ValueView>, RuntimeError> {
    match r {
        Ok(vs) => Ok(values_of(vs@)),
        Err(e) => Err(e),
    }
}

/// A marker naming the state and outcome of evaluating expressions.
pub open spec fn list_witness<H: Host>(mid: Interpreter<H>, ra: Result<Seq<ValueView>, RuntimeError>) -> bool {
    true
}

/// What a list literal gives once its items left `mid` with `ra`: a new
/// list, numbered after the existing ones, holding the items' values in
/// order, nothing else changed; or the items' error.
pub open spec fn list_built<H: Host>(mid: Interpreter<H>, new: Interpreter<H>, ra: Result<Seq<ValueView>, RuntimeError>, r: Result<Value, RuntimeError>) -> bool {
    match ra {
        Ok(vs) => {
            &&& r matches Ok(x) && x@ == ValueView::List(mid.store.lists@.len() as usize)
            &&& new.store.lists@.len() == mid.store.lists@.len() + 1
            &&& new.store.list_view(mid.store.lists@.len() as int) == vs
            &&& forall|l: int| 0 <= l < mid.store.lists@.len() ==> #[trigger] new.store.lists@[l] == mid.store.lists@[l]
            &&& new.store.records@ == mid.store.records@
            &&& new.store.frames@ == mid.store.frames@
            &&& new.store.functions@ == mid.store.functions@
            &&& new.recorder == mid.recorder
            &&& new.torch == mid.torch
            &&& new.host == mid.host
            &&& new.stream_events == mid.stream_events
        },
        Err(e) => r == Err::<Value, RuntimeError>(e) && new == mid,
    }
}

/// Evaluating expressions left to right, `depth` levels deep: with no
/// depth left a non-empty list stops with an error and changes nothing;
/// otherwise each is evaluated one level deeper from where the one before
/// left off (see `args_steps`).
pub open spec fn args_run<H: Host>(
    old: Interpreter<H>,
    new: Interpreter<H>,
    args: Seq<Expr>,
    env: int,
    depth: nat,
    span: Option<Span>,
    r: Result<Seq<ValueView>, RuntimeError>,
) -> bool
    decreases depth, 2nat, 0nat, 0nat,
{
    if depth == 0 {
        if args.len() > 0 {
            r matches Err(e) && e.kind == ErrorKind::DepthExhausted && new == old
        } else {
            r == Ok::<Seq<ValueView>, RuntimeError>(Seq::empty()) && new == old
        }
    } else {
        exists|n: int, mids: Seq<Interpreter<H>>, vals: Seq<Value>| #[trigger] args_witness(n, mids, vals)
            && args_steps(old, new, args, env, depth, span, r, n, mids, vals)
    }
}

/// A marker naming an error met evaluating an expression.
pub open spec fn error_witness(e: RuntimeError) -> bool {
    true
}

/// A marker naming the intermediate states and values of evaluating expressions.
pub open spec fn args_witness<H: Host>(n: int, mids: Seq<Interpreter<H>>, vals: Seq<Value>) -> bool {
    true
}

/// Expressions evaluated in order: `mids[k]` is the state before
/// expression `k`; each of the first `n` gave `vals[k]` one level deeper,
/// and either all gave values and those are the result, in order, or
/// expression `n` failed and its error, placed at `span` if it had no
/// place, is the result; later expressions are not evaluated.
pub open spec fn args_steps<H: Host>(
    old: Interpreter<H>,
    new: Interpreter<H>,
    args: Seq<Expr>,
    env: int,
    depth: nat,
    span: Option<Span>,
    r: Result<Seq<ValueView>, RuntimeError>,
    n: int,
    mids: Seq<Interpreter<H>>,
    vals: Seq<Value>,
) -> bool
    decreases depth, 1nat, 0nat, 0nat,
{
    if depth == 0 {
        false
    } else {
        &&& 0 <= n <= args.len()
        &&& mids.len() == n + 1
        &&& vals.len() == n
        &&& mids[0] == old
        &&& forall|k: int| #![trigger args[k]] 0 <= k < n ==> expr_post(mids[k], mids[k + 1], args[k], env, (depth - 1) as nat, Ok(vals[k]))
        &&& if n == args.len() {
            r == Ok::<Seq<ValueView>, RuntimeError>(values_of(vals)) && new == mids[n]
        } else {
            exists|e: RuntimeError| #[trigger] error_witness(e) && expr_post(mids[n], new, args[n], env, (depth - 1) as nat, Err(e))
                && (r matches Err(e2) && placed(e, span, e2))
        }
    }
}

/// A marker naming the intermediate states of a run.
pub open spec fn steps_witness<H: Host>(n: int, mids: Seq<Interpreter<H>>) -> bool {
    true
}

proof fn lemma_block_run_intro<H: Host>(old: Interpreter<H>, new: Interpreter<H>, stmts: Seq<Stmt>, env: int, depth: nat, r: Result<ExecSignal, RuntimeError>, n: int, mids: Seq<Interpreter<H>>)
    requires
        depth > 0,
        block_steps(old, new, stmts, env, (depth - 1) as nat, r, n, mids),
    ensures
        block_run(old, new, stmts, env, depth, r),
{
    assert(steps_witness(n, mids));
}

/// What evaluating an expression gives when it changes nothing and needs
/// nothing of the host, `depth` levels deep: names, integer literals,
/// strings, booleans, `없음`, and prefix and infix operators, indexing and
/// properties over such expressions, errors included; `None` for anything
/// else (calls, list and record literals, doubles, tensors).
pub open spec fn pure_eval(store: crate::store::Store, torch: crate::torch::TorchRegistry, env: int, e: Expr, depth: nat) -> Option<Result<ValueView, ErrorView>>
    decreases e,
{
    match e {
        Expr::Name { name, .. } => match env_lookup(store.frames_view(), env, name@) {
            Some(v) => Some(Ok(v)),
            None => Some(Err(ErrorView::Undefined { name: name@ })),
        },
        Expr::Int { raw, .. } => match spec_parse_i64(raw@) {
            Some(i) => Some(Ok(ValueView::Int(i))),
            None => Some(Err(ErrorView::InvalidIntLiteral { raw: raw@ })),
        },
        Expr::Str { value, .. } => Some(Ok(ValueView::Str(value@))),
        Expr::Bool { value, .. } => Some(Ok(ValueView::Bool(value))),
        Expr::Nothing { .. } => Some(Ok(ValueView::Nothing)),
        Expr::Unary { op, expr: inner, .. } => if depth == 0 {
            Some(Err(ErrorView::DepthExhausted))
        } else {
            match pure_eval(store, torch, env, *inner, (depth - 1) as nat) {
                Some(Ok(v)) => match (op, v) {
                    (UnaryOp::Negate, ValueView::Int(x)) => Some(Ok(ValueView::Int(0i64.wrapping_sub(x)))),
                    (UnaryOp::Negate, ValueView::Float(_)) => None,
                    (UnaryOp::Not, ValueView::Bool(b)) => Some(Ok(ValueView::Bool(!b))),
                    _ => match spec_unary_error(op, v) {
                        Some(k) => Some(Err(k@)),
                        None => None,
                    },
                },
                other => other,
            }
        },
        Expr::Binary { left, op, right, .. } => if depth == 0 {
            Some(Err(ErrorView::DepthExhausted))
        } else {
            match pure_eval(store, torch, env, *left, (depth - 1) as nat) {
                Some(Ok(a)) => match pure_eval(store, torch, env, *right, (depth - 1) as nat) {
                    Some(Ok(b)) => match spec_binary(store, a, op, b, MAX_DEPTH as nat) {
                        Some(Ok(v)) => Some(Ok(v)),
                        Some(Err(k)) => Some(Err(k@)),
                        None => None,
                    },
                    other => other,
                },
                other => other,
            }
        },
        Expr::Index { base, index, .. } => if depth == 0 {
            Some(Err(ErrorView::DepthExhausted))
        } else {
            match pure_eval(store, torch, env, *base, (depth - 1) as nat) {
                Some(Ok(a)) => match pure_eval(store, torch, env, *index, (depth - 1) as nat) {
                    Some(Ok(b)) => Some(spec_index(store, a, b)),
                    other => other,
                },
                other => other,
            }
        },
        Expr::Send { receiver, selector: SendSelector::Property(p), args, .. } => if depth == 0 {
            Some(Err(ErrorView::DepthExhausted))
        } else if args.len() == 0 {
            match pure_eval(store, torch, env, *receiver, (depth - 1) as nat) {
                Some(Ok(v)) => spec_property(store, torch, v, p@),
                other => other,
            }
        } else {
            None
        },
        _ => None,
    }
}

/// Every expression is simple.
pub open spec fn all_simple(store: crate::store::Store, env: int, es: Seq<Expr>) -> bool {
    forall|k: int| 0 <= k < es.len() ==> (#[trigger] simple_value(store, env, es[k])) is Some
}

/// The values of simple expressions.
pub open spec fn simple_values(store: crate::store::Store, env: int, es: Seq<Expr>) -> Seq<ValueView> {
    es.map_values(|e: Expr| simple_value(store, env, e).unwrap())
}

/// The position of the last of the first `n` entries whose key is `key`;
/// -1 when there is none.
pub open spec fn last_entry_with(entries: Seq<crate::syntax::RecordEntry>, key: Seq<char>, n: int) -> int
    decreases n,
{
    if n <= 0 {
        -1
    } else if entries[n - 1].key@ == key {
        n - 1
    } else {
        last_entry_with(entries, key, n - 1)
    }
}

/// A record literal's value: a record holding exactly the literal's keys,
/// each with the value of the last entry that gives it (`vals` being what
/// the entries evaluated to, in order).
pub open spec fn record_keys_fit(store: crate::store::Store, v: ValueView, entries: Seq<crate::syntax::RecordEntry>) -> bool {
    &&& v matches ValueView::Record(id) && id < store.records@.len()
    &&& forall|key: Seq<char>| #[trigger] has_key(store.record_view(v->Record_0 as int), key)
        <==> exists|m: int| 0 <= m < entries.len() && (#[trigger] entries[m]).key@ == key
    &&& exists|vals: Seq<ValueView>| vals.len() == entries.len() && forall|key: Seq<char>| #[trigger] assoc_get(store.record_view(v->Record_0 as int), key)
        == (if last_entry_with(entries, key, entries.len() as int) >= 0 {
            Some(vals[last_entry_with(entries, key, entries.len() as int)])
        } else {
            None
        })
}

/// Each of the first `n` entries of a record literal has a pure value
/// that evaluates without error, `depth` levels deep.
pub open spec fn entries_ok(
    store: crate::store::Store,
    torch: crate::torch::TorchRegistry,
    env: int,
    entries: Seq<crate::syntax::RecordEntry>,
    n: int,
    depth: nat,
) -> bool {
    forall|k: int| 0 <= k < n ==> (#[trigger] pure_eval(store, torch, env, entries[k].value, depth)) matches Some(Ok(_))
}

/// What a record literal whose entries are all pure gives `key`: the value
/// of the last entry with that key, or nothing when no entry has it.
pub open spec fn record_literal_get(
    store: crate::store::Store,
    torch: crate::torch::TorchRegistry,
    env: int,
    entries: Seq<crate::syntax::RecordEntry>,
    depth: nat,
    key: Seq<char>,
) -> Option<ValueView> {
    let m = last_entry_with(entries, key, entries.len() as int);
    if m >= 0 {
        match pure_eval(store, torch, env, entries[m].value, depth) {
            Some(Ok(v)) => Some(v),
            _ => None,
        }
    } else {
        None
    }
}

proof fn lemma_last_entry_in_range(entries: Seq<crate::syntax::RecordEntry>, key: Seq<char>, n: int)
    requires
        0 <= n <= entries.len(),
    ensures
        -1 <= last_entry_with(entries, key, n) < n,
    decreases n,
{
    if n > 0 {
        lemma_last_entry_in_range(entries, key, n - 1);
    }
}

impl<H: Host> Interpreter<H> {
    /// The seconds a `쉬기` statement sleeps, as double bits.
    pub fn expect_sleep_seconds(&mut self, v: &Value) -> (r: Result<u64, RuntimeError>)
        ensures
            final(self).only_host_changed(old(self)),
            r is Err <==> spec_sleep_error(v@) is Some,
            r matches Err(e) ==> spec_sleep_error(v@) == Some(e.kind) && e.span is None,
            v@ matches ValueView::Float(b) ==> (r is Ok ==> r == Ok::<u64, RuntimeError>(b)),
            v@ matches ValueView::Int(i) ==> (i >= 0 ==> (r matches Ok(x)
                && final(self).queries.asked(&old(self).queries, HostQuery::IntToFloat { value: i }, HostReply::Float(x)))),
    {
        match v {
            Value::Int(i) => {
                if *i >= 0 {
                    Ok(self.queries.int_to_float(&mut self.host, *i))
                } else {
                    Err(RuntimeError::new(ErrorKind::SleepNegative))
                }
            },
            Value::Float(b) => {
                if float_is_finite_nonnegative(*b) {
                    Ok(*b)
                } else {
                    Err(RuntimeError::new(ErrorKind::SleepNegative))
                }
            },
            _ => Err(RuntimeError::new(ErrorKind::SleepNotNumber)),
        }
    }

    /// Runs statements in order until one returns.
    pub fn execute_block(&mut self, statements: &Vec<Stmt>, env: usize, depth: u64) -> (r: Result<ExecSignal, RuntimeError>)
        requires
            old(self).inv(),
            env < old(self).store.frames@.len(),
        ensures
            final(self).inv(),
            final(self).grows_from(old(self)),
            r matches Ok(ExecSignal::Return(v)) ==> final(self).store.value_ok(v@),
            statements@.len() == 0 ==> (r matches Ok(ExecSignal::Continue) && *final(self) == *old(self)),
            block_run(*old(self), *final(self), statements@, env as int, depth as nat, r),
        decreases depth,
    {
        proof {
            self.lemma_grows_refl();
        }
        let ghost mut mids: Seq<Interpreter<H>> = seq![*self];
        let mut i: usize = 0;
        while i < statements.len()
            invariant
                self.inv(),
                self.grows_from(old(self)),
                env < self.store.frames@.len(),
                i <= statements@.len(),
                statements@.len() == 0 ==> *self == *old(self),
                i > 0 ==> depth > 0,
                mids.len() == i + 1,
                mids[0] == *old(self),
                mids[i as int] == *self,
                forall|j: int| #![trigger statements@[j]] 0 <= j < i ==> stmt_post(mids[j], mids[j + 1], statements@[j], env as int, (depth - 1) as nat,
                    Ok(ExecSignal::Continue)),
            decreases statements@.len() - i,
        {
            if depth == 0 {
                return Err(RuntimeError::new(ErrorKind::DepthExhausted));
            }
            let ghost before = *self;
            let signal = self.execute_stmt(&statements[i], env, depth - 1);
            proof {
                old(self).lemma_grows_trans(&before, self);
            }
            match signal {
                Ok(ExecSignal::Continue) => {},
                Ok(ExecSignal::Return(v)) => {
                    proof {
                        assert(block_steps(*old(self), *self, statements@, env as int, (depth - 1) as nat, signal, i as int, mids));
                        lemma_block_run_intro(*old(self), *self, statements@, env as int, depth as nat, signal, i as int, mids);
                    }
                    return Ok(ExecSignal::Return(v));
                },
                Err(e) => {
                    proof {
                        assert(block_steps(*old(self), *self, statements@, env as int, (depth - 1) as nat, signal, i as int, mids));
                        lemma_block_run_intro(*old(self), *self, statements@, env as int, depth as nat, signal, i as int, mids);
                    }
                    return Err(e);
                },
            }
            proof {
                let ghost prev = mids;
                mids = mids.push(*self);
                assert forall|j: int| #![trigger statements@[j]] 0 <= j < i + 1 implies stmt_post(mids[j], mids[j + 1], statements@[j], env as int,
                    (depth - 1) as nat, Ok(ExecSignal::Continue)) by {
                    if j < i {
                        assert(mids[j] == prev[j] && mids[j + 1] == prev[j + 1]);
                    }
                }
            }
            i = i + 1;
        }
        proof {
            if depth > 0 {
                assert(block_steps(*old(self), *self, statements@, env as int, (depth - 1) as nat, Ok(ExecSignal::Continue), i as int, mids));
                lemma_block_run_intro(*old(self), *self, statements@, env as int, depth as nat, Ok(ExecSignal::Continue), i as int, mids);
            }
        }
        Ok(ExecSignal::Continue)
    }

    /// Runs one statement.
    #[verifier::rlimit(100)]
    #[verifier::spinoff_prover]
    pub fn execute_stmt(&mut self, stmt: &Stmt, env: usize, depth: u64) -> (r: Result<ExecSignal, RuntimeError>)
        requires
            old(self).inv(),
            env < old(self).store.frames@.len(),
        ensures
            stmt_post(*old(self), *final(self), *stmt, env as int, depth as nat, r),
        decreases depth,
    {
        proof {
            self.lemma_grows_refl();
            if depth > 0 && !(stmt is If || stmt is While || stmt is Send || stmt is NamedCall || simple_stmt(*stmt)) {
                lemma_stmt_run_plain::<H>(*stmt, env as int, (depth - 1) as nat);
            }
        }
        let stmt_span = stmt.span();
        match stmt {
            Stmt::Bind { name, value, .. } => {
                if self.store.frame_contains(env, name.as_str()) {
                    let e = RuntimeError::with_span(ErrorKind::AlreadyDefined { name: name.clone() }, stmt_span);
                    proof {
                        if depth > 0 {
                            lemma_stmt_run_refused(*old(self), *self, *stmt, env as int, (depth - 1) as nat, Err(e));
                        }
                    }
                    return Err(e);
                }
                if depth == 0 {
                    return Err(RuntimeError::new(ErrorKind::DepthExhausted));
                }
                let rv = self.eval_expr(value, env, depth - 1);
                let ghost mid = *self;
                let ghost grv = rv;
                let v = match rv {
                    Ok(v) => v,
                    Err(e) => {
                        let reported = e.with_fallback_span(stmt_span);
                        proof {
                            lemma_stmt_run_simple(*old(self), *self, *stmt, env as int, (depth - 1) as nat, Err(reported), mid, grv);
                        }
                        return Err(reported);
                    },
                };
                let ghost value_view = v@;
                self.store.frame_insert(env, name.as_str(), v);
                proof {
                    old(self).lemma_grows_trans(&mid, self);
                    assert(bound(mid, *self, env as int, name@, value_view));
                    lemma_stmt_run_simple(*old(self), *self, *stmt, env as int, (depth - 1) as nat, Ok(ExecSignal::Continue), mid, grv);
                }
                Ok(ExecSignal::Continue)
            },
            Stmt::Assign { name, value, .. } => {
                if depth == 0 {
                    return Err(RuntimeError::new(ErrorKind::DepthExhausted));
                }
                let rv = self.eval_expr(value, env, depth - 1);
                let ghost mid = *self;
                let ghost grv = rv;
                let v = match rv {
                    Ok(v) => v,
                    Err(e) => {
                        let reported = e.with_fallback_span(stmt_span);
                        proof {
                            lemma_stmt_run_simple(*old(self), *self, *stmt, env as int, (depth - 1) as nat, Err(reported), mid, grv);
                        }
                        return Err(reported);
                    },
                };
                let ghost value = v@;
                if self.store.assign(env, name.as_str(), v) {
                    proof {
                        crate::interp::lemma_assign_keeps_globals(mid.store, self.store, env as int, name@, value);
                        crate::laws::law_read_after_assign(mid.store, self.store, env as int, name@, value);
                        old(self).lemma_grows_trans(&mid, self);
                        assert(assigned(mid, *self, env as int, name@, value));
                        lemma_stmt_run_simple(*old(self), *self, *stmt, env as int, (depth - 1) as nat, Ok(ExecSignal::Continue), mid, grv);
                    }
                    Ok(ExecSignal::Continue)
                } else {
                    let e = RuntimeError::with_span(ErrorKind::AssignUndefined { name: name.clone() }, stmt_span);
                    proof {
                        lemma_stmt_run_simple(*old(self), *self, *stmt, env as int, (depth - 1) as nat, Err(e), mid, grv);
                    }
                    Err(e)
                }
            },
            Stmt::Print { value, .. } => {
                if depth == 0 {
                    return Err(RuntimeError::new(ErrorKind::DepthExhausted));
                }
                let rv = self.eval_expr(value, env, depth - 1);
                let ghost mid = *self;
                let ghost grv = rv;
                let v = match rv {
                    Ok(v) => v,
                    Err(e) => {
                        let reported = e.with_fallback_span(stmt_span);
                        proof {
                            lemma_stmt_run_simple(*old(self), *self, *stmt, env as int, (depth - 1) as nat, Err(reported), mid, grv);
                        }
                        return Err(reported);
                    },
                };
                let printed = self.print_value(&v);
                proof {
                    old(self).lemma_grows_trans(&mid, self);
                }
                match printed {
                    Ok(()) => {
                        proof {
                            lemma_stmt_run_simple(*old(self), *self, *stmt, env as int, (depth - 1) as nat, Ok(ExecSignal::Continue), mid, grv);
                        }
                        Ok(ExecSignal::Continue)
                    },
                    Err(e) => {
                        proof {
                            lemma_stmt_run_simple(*old(self), *self, *stmt, env as int, (depth - 1) as nat, Err(e), mid, grv);
                        }
                        Err(e)
                    },
                }
            },
            Stmt::Sleep { duration_seconds, .. } => {
                if depth == 0 {
                    return Err(RuntimeError::new(ErrorKind::DepthExhausted));
                }
                let rv = self.eval_expr(duration_seconds, env, depth - 1);
                let ghost mid = *self;
                let ghost grv = rv;
                let v = match rv {
                    Ok(v) => v,
                    Err(e) => {
                        let reported = e.with_fallback_span(stmt_span);
                        proof {
                            lemma_stmt_run_simple(*old(self), *self, *stmt, env as int, (depth - 1) as nat, Err(reported), mid, grv);
                        }
                        return Err(reported);
                    },
                };
                let seconds = match self.expect_sleep_seconds(&v) {
                    Ok(s) => s,
                    Err(e) => {
                        proof {
                            old(self).lemma_grows_trans(&mid, self);
                        }
                        let reported = e.with_fallback_span(stmt_span);
                        proof {
                            lemma_stmt_run_simple(*old(self), *self, *stmt, env as int, (depth - 1) as nat, Err(reported), mid, grv);
                        }
                        return Err(reported);
                    },
                };
                self.record_sleep(seconds);
                proof {
                    old(self).lemma_grows_trans(&mid, self);
                    assert(slept(mid, *self, seconds));
                    lemma_stmt_run_simple(*old(self), *self, *stmt, env as int, (depth - 1) as nat, Ok(ExecSignal::Continue), mid, grv);
                }
                Ok(ExecSignal::Continue)
            },
            Stmt::Return { value, .. } => {
                if depth == 0 {
                    return Err(RuntimeError::new(ErrorKind::DepthExhausted));
                }
                let rv = self.eval_expr(value, env, depth - 1);
                let ghost mid = *self;
                let ghost grv = rv;
                match rv {
                    Ok(v) => {
                        let r = Ok(ExecSignal::Return(v));
                        proof {
                            lemma_stmt_run_simple(*old(self), *self, *stmt, env as int, (depth - 1) as nat, r, mid, grv);
                        }
                        r
                    },
                    Err(e) => {
                        let reported = e.with_fallback_span(stmt_span);
                        proof {
                            lemma_stmt_run_simple(*old(self), *self, *stmt, env as int, (depth - 1) as nat, Err(reported), mid, grv);
                        }
                        Err(reported)
                    },
                }
            },
            Stmt::If { condition, then_block, else_block, .. } => {
                if depth == 0 {
                    return Err(RuntimeError::new(ErrorKind::DepthExhausted));
                }
                let condition_span = match condition.span() {
                    Some(s) => Some(s),
                    None => stmt_span,
                };
                assert(condition_span == condition_place(*condition, stmt_span));
                let ghost else_view: Option<Seq<Stmt>> = match else_block {
                    Some(b) => Some(b@),
                    None => None,
                };
                let rc = self.eval_expr(condition, env, depth - 1);
                let ghost mid = *self;
                let ghost grc = rc;
                let c = match rc {
                    Ok(v) => v,
                    Err(e) => {
                        let reported = e.with_fallback_span(condition_span);
                        proof {
                            lemma_if_run_intro(*old(self), *self, *condition, then_block@, else_view, condition_span, env as int,
                                (depth - 1) as nat, Err(reported), mid, grc);
                            lemma_stmt_run_if(*old(self), *self, *stmt, env as int, (depth - 1) as nat, Err(reported));
                        }
                        return Err(reported);
                    },
                };
                let r = match c {
                    Value::Bool(true) => self.execute_block(then_block, env, depth - 1),
                    Value::Bool(false) => match else_block {
                        Some(block) => self.execute_block(block, env, depth - 1),
                        None => Ok(ExecSignal::Continue),
                    },
                    _ => Err(RuntimeError::with_span(ErrorKind::ConditionNotBool, condition_span)),
                };
                proof {
                    old(self).lemma_grows_trans(&mid, self);
                    assert(if_step(mid, *self, grc, then_block@, else_view, condition_span, env as int, (depth - 1) as nat, r));
                    lemma_if_run_intro(*old(self), *self, *condition, then_block@, else_view, condition_span, env as int,
                        (depth - 1) as nat, r, mid, grc);
                    lemma_stmt_run_if(*old(self), *self, *stmt, env as int, (depth - 1) as nat, r);
                }
                r
            },
            Stmt::While { condition, body, .. } => {
                if depth == 0 {
                    return Err(RuntimeError::new(ErrorKind::DepthExhausted));
                }
                let r = self.execute_while(condition, body, stmt_span, env, depth - 1);
                proof {
                    lemma_stmt_run_while(*old(self), *self, *stmt, env as int, (depth - 1) as nat, r);
                }
                r
            },
            Stmt::FunctionDef { name, params, body, .. } => {
                if self.store.frame_contains(env, name.as_str()) {
                    return Err(RuntimeError::with_span(ErrorKind::AlreadyDefined { name: name.clone() }, stmt_span));
                }
                let ghost mid = *self;
                self.store.capture(env);
                let id = self.store.add_function(name.clone(), params.clone(), body.clone(), env);
                self.store.frame_insert(env, name.as_str(), Value::Function(FunctionValue::User(id)));
                proof {
                    old(self).lemma_grows_trans(&mid, self);
                }
                Ok(ExecSignal::Continue)
            },
            Stmt::Send { receiver, selector, args, .. } => {
                if depth == 0 {
                    return Err(RuntimeError::new(ErrorKind::DepthExhausted));
                }
                let rv = self.eval_expr(receiver, env, depth - 1);
                let ghost mid = *self;
                let ghost grv = rv;
                let recv = match rv {
                    Ok(v) => v,
                    Err(e) => {
                        let reported = e.with_fallback_span(stmt_span);
                        proof {
                            lemma_send_stmt_run_intro(*old(self), *self, *stmt, env as int, (depth - 1) as nat, Err(reported), mid, grv, mid,
                                Err::<Seq<ValueView>, RuntimeError>(reported), Err(reported));
                        }
                        return Err(reported);
                    },
                };
                let ra = self.eval_args(args, env, stmt_span, depth - 1);
                let ghost mid2 = *self;
                let ghost gra = ra;
                let arg_values = match ra {
                    Ok(a) => a,
                    Err(e) => {
                        proof {
                            old(self).lemma_grows_trans(&mid, self);
                            lemma_send_stmt_run_intro(*old(self), *self, *stmt, env as int, (depth - 1) as nat, Err(e), mid, grv, mid2, args_outcome(gra),
                                Err(e));
                        }
                        return Err(e);
                    },
                };
                let r = self.execute_send_stmt(recv, selector, arg_values, depth - 1);
                let ghost rs = r;
                proof {
                    old(self).lemma_grows_trans(&mid, &mid2);
                    old(self).lemma_grows_trans(&mid2, self);
                }
                let out = match r {
                    Ok(()) => Ok(ExecSignal::Continue),
                    Err(e) => Err(e.with_fallback_span(stmt_span)),
                };
                proof {
                    lemma_send_stmt_run_intro(*old(self), *self, *stmt, env as int, (depth - 1) as nat, out, mid, grv, mid2, args_outcome(gra), rs);
                }
                out
            },
            Stmt::NamedCall { callee, named_args, .. } => {
                if depth == 0 {
                    return Err(RuntimeError::new(ErrorKind::DepthExhausted));
                }
                let rf = self.eval_expr(callee, env, depth - 1);
                let ghost mid = *self;
                let ghost grf = rf;
                let f = match rf {
                    Ok(v) => v,
                    Err(e) => {
                        let reported = e.with_fallback_span(stmt_span);
                        proof {
                            lemma_named_stmt_run_intro(*old(self), *self, *stmt, env as int, (depth - 1) as nat, Err(reported), mid, grf, mid, grf, grf);
                        }
                        return Err(reported);
                    },
                };
                let rn = self.eval_expr(named_args, env, depth - 1);
                let ghost mid2 = *self;
                let ghost grn = rn;
                let named = match rn {
                    Ok(v) => v,
                    Err(e) => {
                        proof {
                            old(self).lemma_grows_trans(&mid, self);
                        }
                        let reported = e.with_fallback_span(stmt_span);
                        proof {
                            lemma_named_stmt_run_intro(*old(self), *self, *stmt, env as int, (depth - 1) as nat, Err(reported), mid, grf, mid2, grn, grn);
                        }
                        return Err(reported);
                    },
                };
                let r = self.call_named_value(f, named, stmt_span, depth - 1);
                let ghost rc = r;
                proof {
                    old(self).lemma_grows_trans(&mid, &mid2);
                    old(self).lemma_grows_trans(&mid2, self);
                }
                let out = match r {
                    Ok(_) => Ok(ExecSignal::Continue),
                    Err(e) => Err(e),
                };
                proof {
                    lemma_named_stmt_run_intro(*old(self), *self, *stmt, env as int, (depth - 1) as nat, out, mid, grf, mid2, grn, rc);
                }
                out
            },
            Stmt::Expr { expr, .. } => {
                if depth == 0 {
                    return Err(RuntimeError::new(ErrorKind::DepthExhausted));
                }
                let rv = self.eval_expr(expr, env, depth - 1);
                let ghost mid = *self;
                let ghost grv = rv;
                match rv {
                    Ok(_) => {
                        proof {
                            lemma_stmt_run_simple(*old(self), *self, *stmt, env as int, (depth - 1) as nat, Ok(ExecSignal::Continue), mid, grv);
                        }
                        Ok(ExecSignal::Continue)
                    },
                    Err(e) => {
                        let reported = e.with_fallback_span(stmt_span);
                        proof {
                            lemma_stmt_run_simple(*old(self), *self, *stmt, env as int, (depth - 1) as nat, Err(reported), mid, grv);
                        }
                        Err(reported)
                    },
                }
            },
        }
    }

    /// Records a sleep (closing the open canvas frame) and, when streaming, sleeps.
    pub fn record_sleep(&mut self, seconds: u64)
        requires
            old(self).inv(),
        ensures
            final(self).inv(),
            final(self).grows_from(old(self)),
            final(self).store == old(self).store,
            events_view(final(self).recorder.events@).last() == EventView::Sleep(seconds),
            final(self).recorder.current@.len() == 0,
            slept(*old(self), *final(self), seconds),
            final(self).queries == old(self).queries,
    {
        let ghost mid = *self;
        self.recorder.sleep(seconds);
        if self.stream_events {
            self.streamed.pause(&mut self.host, seconds);
        }
        proof {
            crate::interp::lemma_prefix_refl(crate::canvas::texts_view(self.recorder.output@));
        }
    }

    /// `동안` loops: evaluates the condition, runs the body while it is true.
    #[verifier::rlimit(100)]
    #[verifier::spinoff_prover]
    pub fn execute_while(&mut self, condition: &Expr, body: &Vec<Stmt>, stmt_span: Option<Span>, env: usize, depth: u64) -> (r: Result<ExecSignal, RuntimeError>)
        requires
            old(self).inv(),
            env < old(self).store.frames@.len(),
        ensures
            final(self).inv(),
            final(self).grows_from(old(self)),
            r matches Ok(ExecSignal::Return(v)) ==> final(self).store.value_ok(v@),
            depth > 0 ==> (pure_eval(old(self).store, old(self).torch, env as int, *condition, (depth - 1) as nat) matches Some(res) ==> match res {
                Ok(c) => {
                    &&& !(c is Bool) ==> (r matches Err(e) && e.kind == ErrorKind::LoopConditionNotBool && final(self).only_host_changed(old(self)))
                    &&& c == ValueView::Bool(false) ==> (r matches Ok(ExecSignal::Continue) && final(self).only_host_changed(old(self)))
                },
                Err(k) => r matches Err(e) && e.kind@ == k,
            }),
            loop_run(*old(self), *final(self), *condition, body@, condition_place(*condition, stmt_span), env as int, depth as nat, r),
        decreases depth,
    {
        proof {
            self.lemma_grows_refl();
        }
        if depth == 0 {
            return Err(RuntimeError::new(ErrorKind::DepthExhausted));
        }
        let condition_span = match condition.span() {
            Some(s) => Some(s),
            None => stmt_span,
        };
        let ghost cspan = condition_place(*condition, stmt_span);
        assert(condition_span == cspan);
        let mut rounds: u64 = MAX_DEPTH;
        loop
            invariant
                self.inv(),
                self.grows_from(old(self)),
                env < self.store.frames@.len(),
                depth > 0,
                condition_span == cspan,
                cspan == condition_place(*condition, stmt_span),
                rounds == MAX_DEPTH ==> *self == *old(self),
                rounds != MAX_DEPTH ==> (pure_eval(old(self).store, old(self).torch, env as int, *condition, (depth - 1) as nat) matches Some(res)
                    ==> res == Ok::<ValueView, ErrorView>(ValueView::Bool(true))),
                forall|n: Interpreter<H>, rr: Result<ExecSignal, RuntimeError>|
                    #[trigger] while_run(*self, n, *condition, body@, cspan, env as int, depth as nat, rounds as nat, rr)
                    ==> while_run(*old(self), n, *condition, body@, cspan, env as int, depth as nat, MAX_DEPTH as nat, rr),
            decreases rounds,
        {
            let ghost start = *self;
            if rounds == 0 {
                let e = RuntimeError::new(ErrorKind::DepthExhausted);
                proof {
                    assert(while_run(start, *self, *condition, body@, cspan, env as int, depth as nat, rounds as nat, Err(e)));
                    assert(while_run(*old(self), *self, *condition, body@, cspan, env as int, depth as nat, MAX_DEPTH as nat, Err(e)));
                    lemma_loop_run_intro(*old(self), *self, *condition, body@, cspan, env as int, depth as nat, Err(e));
                }
                return Err(e);
            }
            let ghost first = rounds == MAX_DEPTH;
            let ghost k = rounds as nat;
            rounds = rounds - 1;
            let ghost before = *self;
            let rc = self.eval_expr(condition, env, depth - 1);
            let ghost mid = *self;
            let ghost grc = rc;
            proof {
                old(self).lemma_grows_trans(&before, self);
            }
            let c = match rc {
                Ok(v) => v,
                Err(e) => {
                    let reported = e.with_fallback_span(condition_span);
                    proof {
                        assert(while_step(mid, *self, grc, *condition, body@, cspan, env as int, depth as nat, k, Err(reported)));
                        lemma_while_run_intro(start, *self, *condition, body@, cspan, env as int, depth as nat, k, Err(reported), mid, grc);
                        assert(while_run(*old(self), *self, *condition, body@, cspan, env as int, depth as nat, MAX_DEPTH as nat, Err(reported)));
                        lemma_loop_run_intro(*old(self), *self, *condition, body@, cspan, env as int, depth as nat, Err(reported));
                    }
                    return Err(reported);
                },
            };
            match c {
                Value::Bool(true) => {
                    let r = self.execute_block(body, env, depth - 1);
                    let ghost after = *self;
                    let ghost rb = r;
                    proof {
                        old(self).lemma_grows_trans(&mid, self);
                    }
                    match r {
                        Ok(ExecSignal::Continue) => {
                            proof {
                                assert forall|n: Interpreter<H>, rr: Result<ExecSignal, RuntimeError>|
                                    #[trigger] while_run(after, n, *condition, body@, cspan, env as int, depth as nat, (k - 1) as nat, rr)
                                    implies while_run(*old(self), n, *condition, body@, cspan, env as int, depth as nat, MAX_DEPTH as nat, rr) by {
                                    lemma_while_step_body(mid, n, grc, *condition, body@, cspan, env as int, depth as nat, k, rr, after, rb);
                                    lemma_while_run_intro(start, n, *condition, body@, cspan, env as int, depth as nat, k, rr, mid, grc);
                                }
                                assert(rounds as nat == (k - 1) as nat);
                                assert(*self == after);
                            }
                        },
                        Ok(ExecSignal::Return(v)) => {
                            proof {
                                lemma_while_step_body(mid, *self, grc, *condition, body@, cspan, env as int, depth as nat, k, rb, after, rb);
                                lemma_while_run_intro(start, *self, *condition, body@, cspan, env as int, depth as nat, k, rb, mid, grc);
                                assert(while_run(*old(self), *self, *condition, body@, cspan, env as int, depth as nat, MAX_DEPTH as nat, rb));
                                lemma_loop_run_intro(*old(self), *self, *condition, body@, cspan, env as int, depth as nat, rb);
                            }
                            return Ok(ExecSignal::Return(v));
                        },
                        Err(e) => {
                            proof {
                                lemma_while_step_body(mid, *self, grc, *condition, body@, cspan, env as int, depth as nat, k, rb, after, rb);
                                lemma_while_run_intro(start, *self, *condition, body@, cspan, env as int, depth as nat, k, rb, mid, grc);
                                assert(while_run(*old(self), *self, *condition, body@, cspan, env as int, depth as nat, MAX_DEPTH as nat, rb));
                                lemma_loop_run_intro(*old(self), *self, *condition, body@, cspan, env as int, depth as nat, rb);
                            }
                            return Err(e);
                        },
                    }
                },
                Value::Bool(false) => {
                    proof {
                        assert(while_step(mid, *self, grc, *condition, body@, cspan, env as int, depth as nat, k, Ok(ExecSignal::Continue)));
                        lemma_while_run_intro(start, *self, *condition, body@, cspan, env as int, depth as nat, k, Ok(ExecSignal::Continue), mid, grc);
                        assert(while_run(*old(self), *self, *condition, body@, cspan, env as int, depth as nat, MAX_DEPTH as nat, Ok(ExecSignal::Continue)));
                        lemma_loop_run_intro(*old(self), *self, *condition, body@, cspan, env as int, depth as nat, Ok(ExecSignal::Continue));
                    }
                    return Ok(ExecSignal::Continue);
                },
                _ => {
                    let e = RuntimeError::with_span(ErrorKind::LoopConditionNotBool, condition_span);
                    proof {
                        assert(while_step(mid, *self, grc, *condition, body@, cspan, env as int, depth as nat, k, Err(e)));
                        lemma_while_run_intro(start, *self, *condition, body@, cspan, env as int, depth as nat, k, Err(e), mid, grc);
                        assert(while_run(*old(self), *self, *condition, body@, cspan, env as int, depth as nat, MAX_DEPTH as nat, Err(e)));
                        lemma_loop_run_intro(*old(self), *self, *condition, body@, cspan, env as int, depth as nat, Err(e));
                    }
                    return Err(e);
                },
            }
        }
    }

    /// Prints a value: echoes it when streaming, then records it.
    pub fn print_value(&mut self, v: &Value) -> (r: Result<(), RuntimeError>)
        requires
            old(self).inv(),
            old(self).store.value_ok(v@),
        ensures
            final(self).inv(),
            final(self).grows_from(old(self)),
            final(self).store == old(self).store,
            !old(self).stream_events ==> r is Ok,
            r is Ok ==> crate::canvas::texts_view(final(self).recorder.output@).len() == crate::canvas::texts_view(old(self).recorder.output@).len() + 1,
            crate::ops::spec_render(old(self).store, v@, MAX_DEPTH as nat) matches Some(t)
                ==> (r is Ok ==> crate::canvas::texts_view(final(self).recorder.output@) == crate::canvas::texts_view(old(self).recorder.output@).push(t)),
            final(self).torch == old(self).torch,
            r is Ok ==> line_printed(*old(self), *final(self), v@),
            r is Err ==> final(self).recorder == old(self).recorder,
            echoed(*old(self), *final(self), v@, r is Ok),
    {
        let rendered = self.render(v, MAX_DEPTH);
        let ghost before_stream = *self;
        if self.stream_events {
            let written = self.streamed.line(&mut self.host, &rendered);
            proof {
                assert(self.streamed.entries().drop_last() =~= before_stream.streamed.entries());
            }
            match written {
                Ok(()) => {},
                Err(crate::host::StreamError::Write(detail)) => {
                    proof {
                        self.lemma_grows_refl();
                    }
                    return Err(RuntimeError::new(ErrorKind::OutputWrite { detail }));
                },
                Err(crate::host::StreamError::Flush(detail)) => {
                    proof {
                        self.lemma_grows_refl();
                    }
                    return Err(RuntimeError::new(ErrorKind::OutputFlush { detail }));
                },
            }
        }
        let ghost mid = *self;
        self.recorder.print(rendered);
        proof {
            let a = crate::canvas::texts_view(mid.recorder.output@);
            let b = crate::canvas::texts_view(self.recorder.output@);
            assert(a =~= b.subrange(0, a.len() as int));
            let ea = crate::canvas::events_view(mid.recorder.events@);
            let eb = crate::canvas::events_view(self.recorder.events@);
            assert(ea =~= eb.subrange(0, ea.len() as int));
        }
        Ok(())
    }

    /// Evaluates an expression.
    pub fn eval_expr(&mut self, expr: &Expr, env: usize, depth: u64) -> (r: Result<Value, RuntimeError>)
        requires
            old(self).inv(),
            env < old(self).store.frames@.len(),
        ensures
            expr_post(*old(self), *final(self), *expr, env as int, depth as nat, r),
        decreases depth, 0nat,
    {
        proof {
            self.lemma_grows_refl();
        }
        let expr_span = expr.span();
        match expr {
            Expr::Name { name, .. } => match self.store.lookup(env, name.as_str()) {
                Some(v) => Ok(v),
                None => Err(RuntimeError::with_span(ErrorKind::Undefined { name: name.clone() }, expr_span)),
            },
            Expr::Int { raw, .. } => match parse_i64(raw.as_str()) {
                Some(i) => Ok(Value::Int(i)),
                None => Err(RuntimeError::with_span(ErrorKind::InvalidIntLiteral { raw: raw.clone() }, expr_span)),
            },
            Expr::Str { value, .. } => Ok(Value::Str(value.clone())),
            Expr::Bool { value, .. } => Ok(Value::Bool(*value)),
            Expr::Nothing { .. } => Ok(Value::Nothing),
            Expr::Float { raw, .. } => match self.queries.parse_float(&mut self.host, raw) {
                Some(bits) => Ok(Value::Float(bits)),
                None => Err(RuntimeError::with_span(ErrorKind::InvalidFloatLiteral { raw: raw.clone() }, expr_span)),
            },
            Expr::List { items, .. } => {
                if depth == 0 {
                    return Err(RuntimeError::new(ErrorKind::DepthExhausted));
                }
                let ra = self.eval_args(items, env, expr_span, depth - 1);
                let ghost mid2 = *self;
                let ghost gra = ra;
                let values = match ra {
                    Ok(v) => v,
                    Err(e) => {
                        proof {
                            lemma_list_run_intro(*old(self), *self, items@, env as int, (depth - 1) as nat, expr_span, Err(e), mid2, args_outcome(gra));
                        }
                        return Err(e);
                    },
                };
                let id = self.store.alloc_list(values);
                proof {
                    mid2.lemma_grows_refl();
                    old(self).lemma_grows_trans(&mid2, self);
                    lemma_list_run_intro(*old(self), *self, items@, env as int, (depth - 1) as nat, expr_span, Ok(Value::List(id)), mid2, args_outcome(gra));
                }
                Ok(Value::List(id))
            },
            Expr::Record { entries, .. } => {
                if depth == 0 {
                    return Err(RuntimeError::new(ErrorKind::DepthExhausted));
                }
                self.eval_record(entries, env, expr_span, depth - 1)
            },
            Expr::Unary { op, expr: operand, .. } => {
                if depth == 0 {
                    return Err(RuntimeError::new(ErrorKind::DepthExhausted));
                }
                let rv = self.eval_expr(operand, env, depth - 1);
                let ghost mid = *self;
                let ghost grv = rv;
                let v = match rv {
                    Ok(v) => v,
                    Err(e) => {
                        let reported = e.with_fallback_span(expr_span);
                        proof {
                            lemma_unary_run_intro(*old(self), *self, *op, **operand, expr_span, env as int, (depth - 1) as nat, Err(reported), mid, grv);
                        }
                        return Err(reported);
                    },
                };
                let r = self.eval_unary(*op, v);
                proof {
                    mid.lemma_grows_refl();
                    old(self).lemma_grows_trans(&mid, self);
                }
                let out = match r {
                    Ok(x) => Ok(x),
                    Err(e) => Err(e.with_fallback_span(expr_span)),
                };
                proof {
                    lemma_unary_run_intro(*old(self), *self, *op, **operand, expr_span, env as int, (depth - 1) as nat, out, mid, grv);
                }
                out
            },
            Expr::Binary { left, op, right, .. } => {
                if depth == 0 {
                    return Err(RuntimeError::new(ErrorKind::DepthExhausted));
                }
                let ra = self.eval_expr(left, env, depth - 1);
                let ghost mid = *self;
                let ghost gra = ra;
                let a = match ra {
                    Ok(v) => v,
                    Err(e) => {
                        let reported = e.with_fallback_span(expr_span);
                        proof {
                            lemma_pair_run_intro(*old(self), *self, *expr, **left, **right, expr_span, env as int, (depth - 1) as nat, Err(reported), mid, gra, mid, gra);
                        }
                        return Err(reported);
                    },
                };
                let rb = self.eval_expr(right, env, depth - 1);
                let ghost mid2 = *self;
                let ghost grb = rb;
                let b = match rb {
                    Ok(v) => v,
                    Err(e) => {
                        proof {
                            old(self).lemma_grows_trans(&mid, self);
                        }
                        let reported = e.with_fallback_span(expr_span);
                        proof {
                            lemma_pair_run_intro(*old(self), *self, *expr, **left, **right, expr_span, env as int, (depth - 1) as nat, Err(reported), mid, gra, mid2, grb);
                        }
                        return Err(reported);
                    },
                };
                let r = self.eval_binary(a, *op, b, MAX_DEPTH);
                proof {
                    old(self).lemma_grows_trans(&mid, &mid2);
                    mid2.lemma_grows_refl();
                    old(self).lemma_grows_trans(&mid2, self);
                }
                let out = match r {
                    Ok(x) => Ok(x),
                    Err(e) => Err(e.with_fallback_span(expr_span)),
                };
                proof {
                    lemma_pair_run_intro(*old(self), *self, *expr, **left, **right, expr_span, env as int, (depth - 1) as nat, out, mid, gra, mid2, grb);
                }
                out
            },
            Expr::Call { callee, args, .. } => {
                if depth == 0 {
                    return Err(RuntimeError::new(ErrorKind::DepthExhausted));
                }
                let rf = self.eval_expr(callee, env, depth - 1);
                let ghost mid = *self;
                let ghost grf = rf;
                let f = match rf {
                    Ok(v) => v,
                    Err(e) => {
                        let reported = e.with_fallback_span(expr_span);
                        proof {
                            lemma_call_expr_run_intro(*old(self), *self, **callee, args@, expr_span, env as int, (depth - 1) as nat, Err(reported),
                                mid, grf, mid, Err::<Seq<ValueView>, RuntimeError>(reported));
                        }
                        return Err(reported);
                    },
                };
                let ghost fv = f@;
                let ra = self.eval_args(args, env, expr_span, depth - 1);
                let ghost mid2 = *self;
                let ghost gra = ra;
                let arg_values = match ra {
                    Ok(a) => a,
                    Err(e) => {
                        proof {
                            old(self).lemma_grows_trans(&mid, self);
                            lemma_call_expr_run_intro(*old(self), *self, **callee, args@, expr_span, env as int, (depth - 1) as nat, Err(e),
                                mid, grf, mid2, args_outcome(gra));
                        }
                        return Err(e);
                    },
                };
                let ghost argv = values_of(arg_values@);
                let r = self.call_value(f, arg_values, expr_span, depth - 1);
                let ghost rc = r;
                proof {
                    old(self).lemma_grows_trans(&mid, &mid2);
                    old(self).lemma_grows_trans(&mid2, self);
                }
                let out = match r {
                    Ok(x) => Ok(x),
                    Err(e) => Err(e.with_fallback_span(expr_span)),
                };
                proof {
                    assert(crate::calls::callee_step(mid2, *self, fv, argv, expr_span, (depth - 1) as nat, rc, out));
                    crate::calls::lemma_callee_outcome_intro(mid2, *self, fv, argv, expr_span, (depth - 1) as nat, rc, out);
                    lemma_call_expr_run_intro(*old(self), *self, **callee, args@, expr_span, env as int, (depth - 1) as nat, out,
                        mid, grf, mid2, args_outcome(gra));
                }
                out
            },
            Expr::Send { receiver, selector, args, .. } => {
                if depth == 0 {
                    return Err(RuntimeError::new(ErrorKind::DepthExhausted));
                }
                let rv = self.eval_expr(receiver, env, depth - 1);
                let ghost mid = *self;
                let ghost grv = rv;
                let recv = match rv {
                    Ok(v) => v,
                    Err(e) => {
                        let reported = e.with_fallback_span(expr_span);
                        proof {
                            lemma_send_expr_run_intro(*old(self), *self, **receiver, *selector, args@, expr_span, env as int, (depth - 1) as nat, Err(reported),
                                mid, grv, mid, Err::<Seq<ValueView>, RuntimeError>(reported), Err(reported));
                        }
                        return Err(reported);
                    },
                };
                let ghost rview = recv@;
                let ra = self.eval_args(args, env, expr_span, depth - 1);
                let ghost mid2 = *self;
                let ghost gra = ra;
                let arg_values = match ra {
                    Ok(a) => a,
                    Err(e) => {
                        proof {
                            old(self).lemma_grows_trans(&mid, self);
                            lemma_send_expr_run_intro(*old(self), *self, **receiver, *selector, args@, expr_span, env as int, (depth - 1) as nat, Err(e),
                                mid, grv, mid2, args_outcome(gra), Err(e));
                        }
                        return Err(e);
                    },
                };
                let r = self.eval_send_expr(recv, selector, arg_values, env, expr_span, depth - 1);
                let ghost rs = r;
                proof {
                    old(self).lemma_grows_trans(&mid, &mid2);
                    old(self).lemma_grows_trans(&mid2, self);
                }
                let out = match r {
                    Ok(x) => Ok(x),
                    Err(e) => Err(e.with_fallback_span(expr_span)),
                };
                proof {
                    lemma_send_expr_run_intro(*old(self), *self, **receiver, *selector, args@, expr_span, env as int, (depth - 1) as nat, out,
                        mid, grv, mid2, args_outcome(gra), rs);
                }
                out
            },
            Expr::Index { base, index, .. } => {
                if depth == 0 {
                    return Err(RuntimeError::new(ErrorKind::DepthExhausted));
                }
                let ra = self.eval_expr(base, env, depth - 1);
                let ghost mid = *self;
                let ghost gra = ra;
                let b = match ra {
                    Ok(v) => v,
                    Err(e) => {
                        let reported = e.with_fallback_span(expr_span);
                        proof {
                            lemma_pair_run_intro(*old(self), *self, *expr, **base, **index, expr_span, env as int, (depth - 1) as nat, Err(reported), mid, gra, mid, gra);
                        }
                        return Err(reported);
                    },
                };
                let rb = self.eval_expr(index, env, depth - 1);
                let ghost mid2 = *self;
                let ghost grb = rb;
                let i = match rb {
                    Ok(v) => v,
                    Err(e) => {
                        proof {
                            old(self).lemma_grows_trans(&mid, self);
                        }
                        let reported = e.with_fallback_span(expr_span);
                        proof {
                            lemma_pair_run_intro(*old(self), *self, *expr, **base, **index, expr_span, env as int, (depth - 1) as nat, Err(reported), mid, gra, mid2, grb);
                        }
                        return Err(reported);
                    },
                };
                proof {
                    old(self).lemma_grows_trans(&mid, self);
                }
                let out = match self.eval_index(&b, &i) {
                    Ok(x) => Ok(x),
                    Err(e) => Err(e.with_fallback_span(expr_span)),
                };
                proof {
                    lemma_pair_run_intro(*old(self), *self, *expr, **base, **index, expr_span, env as int, (depth - 1) as nat, out, mid, gra, mid2, grb);
                }
                out
            },
        }
    }

    /// Evaluates expressions left to right; the first error stops it.
    pub fn eval_args(&mut self, args: &Vec<Expr>, env: usize, span: Option<Span>, depth: u64) -> (r: Result<Vec<Value>, RuntimeError>)
        requires
            old(self).inv(),
            env < old(self).store.frames@.len(),
        ensures
            final(self).inv(),
            final(self).grows_from(old(self)),
            r matches Ok(vs) ==> vs@.len() == args@.len() && forall|k: int| 0 <= k < vs@.len() ==> final(self).store.value_ok((#[trigger] vs@[k])@),
            args@.len() == 0 ==> (r matches Ok(vs) && vs@.len() == 0 && *final(self) == *old(self)),
            depth > 0 && all_simple(old(self).store, env as int, args@) ==> (r matches Ok(vs)
                && values_of(vs@) == simple_values(old(self).store, env as int, args@) && *final(self) == *old(self)),
            args_run(*old(self), *final(self), args@, env as int, depth as nat, span, args_outcome(r)),
        decreases depth,
    {
        proof {
            self.lemma_grows_refl();
        }
        let ghost mut mids: Seq<Interpreter<H>> = seq![*self];
        let mut values: Vec<Value> = Vec::new();
        let mut i: usize = 0;
        while i < args.len()
            invariant
                self.inv(),
                self.grows_from(old(self)),
                env < self.store.frames@.len(),
                i <= args@.len(),
                values@.len() == i,
                forall|k: int| 0 <= k < values@.len() ==> self.store.value_ok((#[trigger] values@[k])@),
                args@.len() == 0 ==> *self == *old(self),
                depth > 0 && all_simple(old(self).store, env as int, args@) ==> (*self == *old(self) && forall|k: int| 0 <= k < i
                    ==> (#[trigger] values@[k])@ == simple_value(old(self).store, env as int, args@[k]).unwrap()),
                i > 0 ==> depth > 0,
                mids.len() == i + 1,
                mids[0] == *old(self),
                mids[i as int] == *self,
                forall|k: int| #![trigger args@[k]] 0 <= k < i ==> expr_post(mids[k], mids[k + 1], args@[k], env as int, (depth - 1) as nat,
                    Ok(values@[k])),
            decreases args@.len() - i,
        {
            if depth == 0 {
                return Err(RuntimeError::new(ErrorKind::DepthExhausted));
            }
            let ghost before = *self;
            let rv = self.eval_expr(&args[i], env, depth - 1);
            let ghost grv = rv;
            let v = match rv {
                Ok(v) => v,
                Err(e) => {
                    let reported = e.with_fallback_span(span);
                    proof {
                        old(self).lemma_grows_trans(&before, self);
                        lemma_args_failed(before, *self, args@[i as int], env as int, (depth - 1) as nat, e);
                        lemma_args_run_intro(*old(self), *self, args@, env as int, depth as nat, span, Err::<Seq<ValueView>, RuntimeError>(reported), i as int, mids, values@);
                    }
                    return Err(reported);
                },
            };
            proof {
                old(self).lemma_grows_trans(&before, self);
            }
            let ghost prev_values = values@;
            values.push(v);
            proof {
                let prev = mids;
                mids = mids.push(*self);
                assert forall|k: int| #![trigger args@[k]] 0 <= k < i + 1 implies expr_post(mids[k], mids[k + 1], args@[k], env as int,
                    (depth - 1) as nat, Ok(values@[k])) by {
                    if k < i {
                        assert(mids[k] == prev[k] && mids[k + 1] == prev[k + 1]);
                        assert(values@[k] == prev_values[k]);
                    }
                }
            }
            i = i + 1;
        }
        proof {
            if depth > 0 {
                lemma_args_run_intro(*old(self), *self, args@, env as int, depth as nat, span, args_outcome(Ok(values)), i as int, mids, values@);
            } else {
                assert(values_of(values@) =~= Seq::<ValueView>::empty());
            }
        }
        proof {
            if depth > 0 && all_simple(old(self).store, env as int, args@) {
                assert(values_of(values@) =~= simple_values(old(self).store, env as int, args@));
            }
        }
        Ok(values)
    }

    /// Evaluates a record literal: entries in order, a later key replacing an earlier one.
    #[verifier::rlimit(100)]
    #[verifier::spinoff_prover]
    pub fn eval_record(&mut self, entries: &Vec<crate::syntax::RecordEntry>, env: usize, span: Option<Span>, depth: u64) -> (r: Result<Value, RuntimeError>)
        requires
            old(self).inv(),
            env < old(self).store.frames@.len(),
        ensures
            final(self).inv(),
            final(self).grows_from(old(self)),
            r matches Ok(v) ==> final(self).store.value_ok(v@),
            r matches Ok(v) ==> record_keys_fit(final(self).store, v@, entries@),
            depth == 0 && entries@.len() > 0 ==> (r matches Err(e) && e.kind == ErrorKind::DepthExhausted),
            (depth > 0 || entries@.len() == 0) && entries_ok(old(self).store, old(self).torch, env as int, entries@, entries@.len() as int, (depth - 1) as nat)
                ==> (r matches Ok(x) && x@ == ValueView::Record(old(self).store.records@.len() as usize)
                && forall|key: Seq<char>| #[trigger] assoc_get(final(self).store.record_view(old(self).store.records@.len() as int), key)
                    == record_literal_get(old(self).store, old(self).torch, env as int, entries@, (depth - 1) as nat, key)),
            depth > 0 ==> forall|k: int| #![trigger entries@[k]] 0 <= k < entries@.len()
                && entries_ok(old(self).store, old(self).torch, env as int, entries@, k, (depth - 1) as nat)
                ==> (pure_eval(old(self).store, old(self).torch, env as int, entries@[k].value, (depth - 1) as nat) matches Some(Err(kind))
                ==> (r matches Err(e) && e.kind@ == kind)),
            record_run(*old(self), *final(self), entries@, env as int, depth as nat, span, r),
        decreases depth,
    {
        proof {
            self.lemma_grows_refl();
        }
        let ghost d: nat = (depth - 1) as nat;
        let ghost exprs = entry_values(entries@);
        let ghost mut mids: Seq<Interpreter<H>> = seq![*self];
        let ghost mut vals_seq: Seq<Value> = Seq::empty();
        let mut values: Vec<(String, Value)> = Vec::new();
        let mut i: usize = 0;
        while i < entries.len()
            invariant
                self.inv(),
                self.grows_from(old(self)),
                env < self.store.frames@.len(),
                i <= entries@.len(),
                values@.len() == i,
                forall|k: int| 0 <= k < values@.len() ==> self.store.value_ok((#[trigger] values@[k]).1@),
                forall|k: int| 0 <= k < values@.len() ==> (#[trigger] values@[k]).0@ == entries@[k].key@,
                d == (depth - 1) as nat,
                i > 0 ==> depth > 0,
                entries_ok(old(self).store, old(self).torch, env as int, entries@, i as int, d) ==> (self.only_host_changed(old(self))
                    && forall|k: int| 0 <= k < i ==> Some(Ok::<ValueView, ErrorView>((#[trigger] values@[k]).1@))
                        == pure_eval(old(self).store, old(self).torch, env as int, entries@[k].value, d)),
                forall|k: int| #![trigger entries@[k]] 0 <= k < i && entries_ok(old(self).store, old(self).torch, env as int, entries@, k, d)
                    ==> !(pure_eval(old(self).store, old(self).torch, env as int, entries@[k].value, d) matches Some(Err(_))),
                exprs == entry_values(entries@),
                mids.len() == i + 1,
                vals_seq.len() == i,
                mids[0] == *old(self),
                mids[i as int] == *self,
                forall|k: int| 0 <= k < i ==> (#[trigger] vals_seq[k])@ == values@[k].1@,
                forall|k: int| #![trigger exprs[k]] 0 <= k < i ==> expr_post(mids[k], mids[k + 1], exprs[k], env as int, d, Ok(vals_seq[k])),
            decreases entries@.len() - i,
        {
            if depth == 0 {
                let e = RuntimeError::new(ErrorKind::DepthExhausted);
                proof {
                    lemma_record_run_intro(*old(self), *self, entries@, env as int, depth as nat, span, Err(e), *self,
                        Err::<Seq<ValueView>, RuntimeError>(e));
                }
                return Err(e);
            }
            let ghost before = *self;
            let ghost prefix_ok = entries_ok(old(self).store, old(self).torch, env as int, entries@, i as int, d);
            let rv = self.eval_expr(&entries[i].value, env, depth - 1);
            let ghost grv = rv;
            let v = match rv {
                Ok(v) => v,
                Err(e) => {
                    let reported = e.with_fallback_span(span);
                    proof {
                        assert(exprs[i as int] == entries@[i as int].value);
                        lemma_args_failed(before, *self, exprs[i as int], env as int, d, e);
                        lemma_args_run_intro(*old(self), *self, exprs, env as int, depth as nat, span, Err::<Seq<ValueView>, RuntimeError>(reported),
                            i as int, mids, vals_seq);
                        lemma_record_run_intro(*old(self), *self, entries@, env as int, depth as nat, span, Err(reported), *self,
                            Err::<Seq<ValueView>, RuntimeError>(reported));
                    }
                    proof {
                        old(self).lemma_grows_trans(&before, self);
                        assert forall|k: int| #![trigger entries@[k]] 0 <= k < entries@.len()
                            && entries_ok(old(self).store, old(self).torch, env as int, entries@, k, d)
                            implies (pure_eval(old(self).store, old(self).torch, env as int, entries@[k].value, d) matches Some(Err(kind))
                            ==> e.kind@ == kind) by {
                            if k > i {
                                assert(pure_eval(old(self).store, old(self).torch, env as int, entries@[i as int].value, d) matches Some(Ok(_)));
                            }
                        }
                    }
                    return Err(reported);
                },
            };
            proof {
                old(self).lemma_grows_trans(&before, self);
                let prev = mids;
                let prev_vals = vals_seq;
                mids = mids.push(*self);
                vals_seq = vals_seq.push(v);
                assert(exprs[i as int] == entries@[i as int].value);
                assert forall|k: int| #![trigger exprs[k]] 0 <= k < i + 1 implies expr_post(mids[k], mids[k + 1], exprs[k], env as int, d, Ok(vals_seq[k])) by {
                    if k < i {
                        assert(mids[k] == prev[k] && mids[k + 1] == prev[k + 1] && vals_seq[k] == prev_vals[k]);
                    }
                }
                let ghost p = pure_eval(old(self).store, old(self).torch, env as int, entries@[i as int].value, d);
                if prefix_ok {
                    assert(p == pure_eval(before.store, before.torch, env as int, entries@[i as int].value, d));
                }
            }
            values.push((entries[i].key.clone(), v));
            proof {
                assert forall|k: int| #![trigger entries@[k]] 0 <= k < i + 1 && entries_ok(old(self).store, old(self).torch, env as int, entries@, k, d)
                    implies !(pure_eval(old(self).store, old(self).torch, env as int, entries@[k].value, d) matches Some(Err(_))) by {
                    if k == i {
                        assert(entries_ok(old(self).store, old(self).torch, env as int, entries@, i as int, d));
                    }
                }
                if entries_ok(old(self).store, old(self).torch, env as int, entries@, i + 1, d) {
                    assert(entries_ok(old(self).store, old(self).torch, env as int, entries@, i as int, d));
                    assert(pure_eval(old(self).store, old(self).torch, env as int, entries@[i as int].value, d) matches Some(Ok(_)));
                }
            }
            proof {
                assert forall|k: int| 0 <= k < i + 1 implies (#[trigger] vals_seq[k])@ == values@[k].1@ by {
                }
            }
            i = i + 1;
        }
        let ghost mid = *self;
        let id = self.store.alloc_record();
        let mut j: usize = 0;
        while j < values.len()
            invariant
                self.inv(),
                mid.inv(),
                self.grows_from(&mid),
                mid.grows_from(old(self)),
                id < self.store.records@.len(),
                j <= values@.len(),
                forall|k: int| 0 <= k < values@.len() ==> mid.store.value_ok((#[trigger] values@[k]).1@),
                values@.len() == entries@.len(),
                id == mid.store.records@.len(),
                self.store.records@.len() == mid.store.records@.len() + 1,
                forall|k: int| 0 <= k < mid.store.records@.len() ==> #[trigger] self.store.records@[k] == mid.store.records@[k],
                self.store.lists@ == mid.store.lists@,
                self.store.frames@ == mid.store.frames@,
                self.store.functions@ == mid.store.functions@,
                self.recorder == mid.recorder,
                self.torch == mid.torch,
                self.host == mid.host,
                self.stream_events == mid.stream_events,
                forall|k: int| 0 <= k < values@.len() ==> (#[trigger] values@[k]).0@ == entries@[k].key@,
                forall|key: Seq<char>| #[trigger] has_key(self.store.record_view(id as int), key) <==> exists|m: int|
                    0 <= m < j && (#[trigger] entries@[m]).key@ == key,
                forall|key: Seq<char>| #[trigger] assoc_get(self.store.record_view(id as int), key)
                    == (if last_entry_with(entries@, key, j as int) >= 0 {
                        Some(values@[last_entry_with(entries@, key, j as int)].1@)
                    } else {
                        None
                    }),
            decreases values@.len() - j,
        {
            let ghost before = *self;
            let key = values[j].0.clone();
            let v = values[j].1.copy();
            let ghost inserted = key@;
            self.store.record_insert(id, key, v);
            proof {
                mid.lemma_grows_trans(&before, self);
                assert(inserted == entries@[j as int].key@);
                assert forall|k: Seq<char>| #[trigger] has_key(self.store.record_view(id as int), k) <==> exists|m: int|
                    0 <= m < j + 1 && (#[trigger] entries@[m]).key@ == k by {
                    assert(has_key(self.store.record_view(id as int), k) == (assoc_get(self.store.record_view(id as int), k) is Some));
                    assert(has_key(before.store.record_view(id as int), k) == (assoc_get(before.store.record_view(id as int), k) is Some));
                    if k == inserted {
                        assert(entries@[j as int].key@ == k);
                    }
                    if exists|m: int| 0 <= m < j + 1 && (#[trigger] entries@[m]).key@ == k {
                        let m = choose|m: int| 0 <= m < j + 1 && (#[trigger] entries@[m]).key@ == k;
                        if m < j {
                            assert(has_key(before.store.record_view(id as int), k));
                        }
                    }
                }
                assert forall|k: Seq<char>| #[trigger] assoc_get(self.store.record_view(id as int), k)
                    == (if last_entry_with(entries@, k, j + 1) >= 0 {
                        Some(values@[last_entry_with(entries@, k, j + 1)].1@)
                    } else {
                        None
                    }) by {
                    assert(last_entry_with(entries@, k, j + 1) == if entries@[j as int].key@ == k {
                        j as int
                    } else {
                        last_entry_with(entries@, k, j as int)
                    });
                }
            }
            j = j + 1;
        }
        proof {
            old(self).lemma_grows_trans(&mid, self);
            let vals = values@.map_values(|e: (String, Value)| e.1@);
            assert forall|key: Seq<char>| #[trigger] assoc_get(self.store.record_view(id as int), key)
                == (if last_entry_with(entries@, key, entries@.len() as int) >= 0 {
                    Some(vals[last_entry_with(entries@, key, entries@.len() as int)])
                } else {
                    None
                }) by {
                lemma_last_entry_in_range(entries@, key, entries@.len() as int);
            }
            assert(vals.len() == entries@.len());
            assert(record_keys_fit(self.store, ValueView::Record(id), entries@));
            let ghost ra = Ok::<Seq<ValueView>, RuntimeError>(values_of(vals_seq));
            if depth > 0 {
                lemma_args_run_intro(*old(self), mid, exprs, env as int, depth as nat, span, ra, entries@.len() as int, mids, vals_seq);
            } else {
                assert(values_of(vals_seq) =~= Seq::<ValueView>::empty());
            }
            assert(values_of(vals_seq) =~= vals);
            assert(record_built(mid, *self, entries@, ra, Ok(Value::Record(id))));
            lemma_record_run_intro(*old(self), *self, entries@, env as int, depth as nat, span, Ok(Value::Record(id)), mid, ra);
            if (depth > 0 || entries@.len() == 0) && entries_ok(old(self).store, old(self).torch, env as int, entries@, entries@.len() as int, d) {
                assert forall|key: Seq<char>| #[trigger] assoc_get(self.store.record_view(id as int), key)
                    == record_literal_get(old(self).store, old(self).torch, env as int, entries@, d, key) by {
                    lemma_last_entry_in_range(entries@, key, entries@.len() as int);
                    let m = last_entry_with(entries@, key, entries@.len() as int);
                    if m >= 0 {
                        assert(Some(Ok::<ValueView, ErrorView>(values@[m].1@)) == pure_eval(old(self).store, old(self).torch, env as int, entries@[m].value, d));
                    }
                }
            }
        }
        Ok(Value::Record(id))
    }
}

} // verus!
