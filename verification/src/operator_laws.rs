//! What the operators, equality, indexing and the resultive messages do,
//! stated in terms of their operands.
use vstd::prelude::*;
use vstd::string::*;
use crate::error::{ErrorKind, ErrorView};
use crate::messages::{keyword_outcome, spec_index, spec_property, spec_resultive, spec_resultive_rest};
use crate::calls::builtin_outcome;
use crate::builtins::BuiltinFunction;
use crate::host::Host;
use crate::interp::Interpreter;
use crate::store::assoc_get;
use crate::syntax::KeywordMessage;
use crate::ops::{spec_binary, spec_unary_ok, spec_unary_error};
use crate::messages::spec_unary_message;
use crate::syntax::{UnaryOp, UnaryMessage};
use crate::torch::TorchRegistry;
use crate::calls::spec_length;
use crate::text::{all_digits, digit_char, digits_value, int_text, nat_text, spec_parse_i64};
use crate::ops::spec_render_scalar;
use vstd::arithmetic::div_mod::{lemma_fundamental_div_mod, lemma_mod_bound};
use crate::ops::spec_equal;
use crate::store::Store;
use crate::syntax::{BinaryOp, ResultiveMessage};
use crate::value::ValueView;

verus! {

/// An answer of the interpreter's own: the boolean `b`.
pub open spec fn gives_bool(r: Option<Result<ValueView, ErrorKind>>, b: bool) -> bool {
    r == Some(Ok::<ValueView, ErrorKind>(ValueView::Bool(b)))
}

/// Integers that doubles hold exactly (at most 2^53 from zero) compare as
/// mathematical integers: `<`, `<=`, `>` and `>=` hold exactly when they
/// hold of the numbers. So no integer is greater or less than itself,
/// `x > y` is `y < x`, and `x >= y` is `y <= x`.
pub proof fn law_integer_comparisons(store: Store, x: i64, y: i64, depth: nat)
    requires
        -0x20000000000000 <= x <= 0x20000000000000,
        -0x20000000000000 <= y <= 0x20000000000000,
    ensures
        gives_bool(spec_binary(store, ValueView::Int(x), BinaryOp::Less, ValueView::Int(y), depth), x < y),
        gives_bool(spec_binary(store, ValueView::Int(x), BinaryOp::LessEqual, ValueView::Int(y), depth), x <= y),
        gives_bool(spec_binary(store, ValueView::Int(x), BinaryOp::Greater, ValueView::Int(y), depth), x > y),
        gives_bool(spec_binary(store, ValueView::Int(x), BinaryOp::GreaterEqual, ValueView::Int(y), depth), x >= y),
        gives_bool(spec_binary(store, ValueView::Int(x), BinaryOp::Greater, ValueView::Int(x), depth), false),
        gives_bool(spec_binary(store, ValueView::Int(x), BinaryOp::Less, ValueView::Int(x), depth), false),
        gives_bool(spec_binary(store, ValueView::Int(x), BinaryOp::GreaterEqual, ValueView::Int(x), depth), true),
        gives_bool(spec_binary(store, ValueView::Int(x), BinaryOp::LessEqual, ValueView::Int(x), depth), true),
        spec_binary(store, ValueView::Int(x), BinaryOp::Greater, ValueView::Int(y), depth)
            == spec_binary(store, ValueView::Int(y), BinaryOp::Less, ValueView::Int(x), depth),
        spec_binary(store, ValueView::Int(x), BinaryOp::GreaterEqual, ValueView::Int(y), depth)
            == spec_binary(store, ValueView::Int(y), BinaryOp::LessEqual, ValueView::Int(x), depth),
{
}

/// `그리고` is true exactly when both operands are, `또는` exactly when
/// either is; on anything but two booleans each is an error.
pub proof fn law_boolean_connectives(store: Store, a: bool, b: bool, v: ValueView, depth: nat)
    ensures
        gives_bool(spec_binary(store, ValueView::Bool(a), BinaryOp::And, ValueView::Bool(b), depth), a && b),
        gives_bool(spec_binary(store, ValueView::Bool(a), BinaryOp::Or, ValueView::Bool(b), depth), a || b),
        gives_bool(spec_binary(store, ValueView::Bool(true), BinaryOp::Or, ValueView::Bool(b), depth), true),
        gives_bool(spec_binary(store, ValueView::Bool(false), BinaryOp::And, ValueView::Bool(b), depth), false),
        !(v is Bool) ==> spec_binary(store, ValueView::Bool(a), BinaryOp::And, v, depth) == Some(Err::<ValueView, ErrorKind>(ErrorKind::AndNonBool)),
        !(v is Bool) ==> spec_binary(store, ValueView::Bool(a), BinaryOp::Or, v, depth) == Some(Err::<ValueView, ErrorKind>(ErrorKind::OrNonBool)),
{
}

/// Values of one kind that the interpreter compares itself (integers,
/// booleans, strings, nothing, tensor and batch handles, PyTorch objects)
/// are equal exactly when they are the same value; `==` answers that and
/// `!=` the opposite.
pub proof fn law_scalar_equality(store: Store, v: ValueView, w: ValueView, depth: nat)
    requires
        (v is Int && w is Int) || (v is Bool && w is Bool) || (v is Str && w is Str) || (v is Nothing && w is Nothing)
            || (v is Tensor && w is Tensor) || (v is Batch && w is Batch) || (v is Host && w is Host),
    ensures
        spec_equal(store, v, w, depth) == Some(v == w),
        gives_bool(spec_binary(store, v, BinaryOp::Equal, w, depth), v == w),
        gives_bool(spec_binary(store, v, BinaryOp::NotEqual, w, depth), v != w),
{
}

/// Two booleans are equal exactly when they are the same truth value.
pub proof fn law_boolean_equality(store: Store, a: bool, b: bool, depth: nat)
    ensures
        gives_bool(spec_binary(store, ValueView::Bool(a), BinaryOp::Equal, ValueView::Bool(b), depth), a == b),
        gives_bool(spec_binary(store, ValueView::Bool(a), BinaryOp::NotEqual, ValueView::Bool(b), depth), a != b),
        gives_bool(spec_binary(store, ValueView::Bool(true), BinaryOp::Equal, ValueView::Bool(false), depth), false),
{
    law_scalar_equality(store, ValueView::Bool(a), ValueView::Bool(b), depth);
}

/// Values of different kinds are never equal, but for an integer and a
/// double, which the host compares.
pub proof fn law_different_kinds_unequal(store: Store, v: ValueView, w: ValueView, depth: nat)
    requires
        !((v is Int || v is Float) && (w is Int || w is Float)),
        !(v is Bool && w is Bool),
        !(v is Str && w is Str),
        !(v is Nothing && w is Nothing),
        !(v is Tensor && w is Tensor),
        !(v is Batch && w is Batch),
        !(v is Host && w is Host),
        !(v is List && w is List),
        !(v is Record && w is Record),
    ensures
        spec_equal(store, v, w, depth) == Some(false),
{
}

/// `맨 위 값` and `맨 뒤 값` take a non-empty list's last element and leave
/// the elements before it in order; `맨 앞 값` takes its first element and
/// leaves the ones after it in order.
pub proof fn law_resultive_takes(store: Store, id: usize, sel: ResultiveMessage)
    requires
        store.list_view(id as int).len() > 0,
    ensures
        ({
            let items = store.list_view(id as int);
            let n = items.len();
            let rest = spec_resultive_rest(items, sel);
            &&& rest.len() == n - 1
            &&& (sel == ResultiveMessage::PopTopElement || sel == ResultiveMessage::PopBackElement) ==> {
                &&& spec_resultive(store, ValueView::List(id), sel) == Ok::<ValueView, ErrorView>(items[n - 1])
                &&& forall|i: int| 0 <= i < n - 1 ==> rest[i] == items[i]
            }
            &&& sel == ResultiveMessage::PopFrontElement ==> {
                &&& spec_resultive(store, ValueView::List(id), sel) == Ok::<ValueView, ErrorView>(items[0])
                &&& forall|i: int| 0 <= i < n - 1 ==> rest[i] == items[i + 1]
            }
        }),
{
}

/// What a resultive message takes, put back where it came from, gives the
/// list again: the last element after the rest for `맨 위 값` and `맨 뒤 값`,
/// the first element before it for `맨 앞 값`.
pub proof fn law_resultive_put_back(store: Store, id: usize, sel: ResultiveMessage)
    requires
        store.list_view(id as int).len() > 0,
    ensures
        ({
            let items = store.list_view(id as int);
            let rest = spec_resultive_rest(items, sel);
            match spec_resultive(store, ValueView::List(id), sel) {
                Ok(v) => if sel == ResultiveMessage::PopFrontElement {
                    seq![v] + rest == items
                } else {
                    rest.push(v) == items
                },
                Err(_) => false,
            }
        }),
{
    let items = store.list_view(id as int);
    if sel == ResultiveMessage::PopFrontElement {
        assert(seq![items[0]] + items.drop_first() =~= items);
    } else {
        assert(items.drop_last().push(items.last()) =~= items);
    }
}

/// Indexing a list at `0 <= i < len` gives its element `i`; indexing a
/// string there gives the one-character string of its character `i`; a
/// negative index, or one past the end, is an error.
pub proof fn law_index(store: Store, base: ValueView, i: i64)
    ensures
        i < 0 ==> spec_index(store, base, ValueView::Int(i)) == Err::<ValueView, ErrorView>(ErrorView::NegativeIndex),
        base matches ValueView::List(id) ==> (0 <= i < store.list_view(id as int).len()
            ==> spec_index(store, base, ValueView::Int(i)) == Ok::<ValueView, ErrorView>(store.list_view(id as int)[i as int])),
        base matches ValueView::List(id) ==> (i >= store.list_view(id as int).len()
            ==> spec_index(store, base, ValueView::Int(i)) is Err),
        base matches ValueView::Str(s) ==> (0 <= i < s.len() ==> (spec_index(store, base, ValueView::Int(i)) matches Ok(ValueView::Str(t))
            && t.len() == 1 && t[0] == s[i as int])),
        base matches ValueView::Str(s) ==> (i >= s.len() ==> spec_index(store, base, ValueView::Int(i)) is Err),
{
}

/// An answer of the interpreter's own: the integer `n`.
pub open spec fn gives_int(r: Option<Result<ValueView, ErrorKind>>, n: int) -> bool {
    r matches Some(Ok(ValueView::Int(m))) && m == n
}

/// Integer `+`, `-` and `*` give the mathematical sum, difference and
/// product when it fits in 64 bits; `+` and `-` wrap around by 2^64 when
/// it does not.
pub proof fn law_integer_arithmetic(store: Store, x: i64, y: i64, depth: nat)
    ensures
        i64::MIN <= x + y <= i64::MAX ==> gives_int(spec_binary(store, ValueView::Int(x), BinaryOp::Add, ValueView::Int(y), depth), x + y),
        x + y > i64::MAX ==> gives_int(spec_binary(store, ValueView::Int(x), BinaryOp::Add, ValueView::Int(y), depth), x + y - 0x10000000000000000),
        x + y < i64::MIN ==> gives_int(spec_binary(store, ValueView::Int(x), BinaryOp::Add, ValueView::Int(y), depth), x + y + 0x10000000000000000),
        i64::MIN <= x - y <= i64::MAX ==> gives_int(spec_binary(store, ValueView::Int(x), BinaryOp::Subtract, ValueView::Int(y), depth), x - y),
        x - y > i64::MAX ==> gives_int(spec_binary(store, ValueView::Int(x), BinaryOp::Subtract, ValueView::Int(y), depth), x - y - 0x10000000000000000),
        x - y < i64::MIN ==> gives_int(spec_binary(store, ValueView::Int(x), BinaryOp::Subtract, ValueView::Int(y), depth), x - y + 0x10000000000000000),
        i64::MIN <= x * y <= i64::MAX ==> gives_int(spec_binary(store, ValueView::Int(x), BinaryOp::Multiply, ValueView::Int(y), depth), x * y),
{
    if i64::MIN <= x * y <= i64::MAX {
        let p = x * y;
        if p >= 0 {
            assert(p % 0x10000000000000000int == p) by {
                vstd::arithmetic::div_mod::lemma_small_mod(p as nat, 0x10000000000000000nat);
            }
        } else {
            assert(p % 0x10000000000000000int == p + 0x10000000000000000int) by {
                vstd::arithmetic::div_mod::lemma_mod_add_multiples_vanish(p, 0x10000000000000000int);
                vstd::arithmetic::div_mod::lemma_small_mod((p + 0x10000000000000000int) as nat, 0x10000000000000000nat);
            }
        }
    }
}

/// Division of integers truncates toward zero: the remainder it leaves,
/// `x - q * y`, is smaller than the divisor in size and has the dividend's
/// sign (or is zero). Dividing by zero, and `i64::MIN / -1`, are errors.
pub proof fn law_integer_division(store: Store, x: i64, y: i64, depth: nat)
    ensures
        y == 0 ==> spec_binary(store, ValueView::Int(x), BinaryOp::Divide, ValueView::Int(y), depth)
            == Some(Err::<ValueView, ErrorKind>(ErrorKind::DivisionByZero)),
        x == i64::MIN && y == -1 ==> spec_binary(store, ValueView::Int(x), BinaryOp::Divide, ValueView::Int(y), depth)
            == Some(Err::<ValueView, ErrorKind>(ErrorKind::IntegerOverflow)),
        y != 0 && !(x == i64::MIN && y == -1) ==> (spec_binary(store, ValueView::Int(x), BinaryOp::Divide, ValueView::Int(y), depth)
            matches Some(Ok(ValueView::Int(q))) && {
                let r = x - q * y;
                &&& (if r >= 0 { r } else { -r }) < (if y >= 0 { y as int } else { -y })
                &&& (r == 0 || (r > 0) == (x > 0))
            }),
{
    if y != 0 && !(x == i64::MIN && y == -1) {
        lemma_truncating_division(x as int, y as int);
    }
}

/// `%` on integers leaves what division leaves: `x % y` is `x - (x / y) * y`.
/// A zero divisor, and `i64::MIN % -1`, are errors.
pub proof fn law_integer_remainder(store: Store, x: i64, y: i64, depth: nat)
    ensures
        y == 0 ==> spec_binary(store, ValueView::Int(x), BinaryOp::Modulo, ValueView::Int(y), depth)
            == Some(Err::<ValueView, ErrorKind>(ErrorKind::DivisionByZero)),
        x == i64::MIN && y == -1 ==> spec_binary(store, ValueView::Int(x), BinaryOp::Modulo, ValueView::Int(y), depth)
            == Some(Err::<ValueView, ErrorKind>(ErrorKind::IntegerOverflow)),
        y != 0 && !(x == i64::MIN && y == -1) ==> (spec_binary(store, ValueView::Int(x), BinaryOp::Divide, ValueView::Int(y), depth)
            matches Some(Ok(ValueView::Int(q)))
            && gives_int(spec_binary(store, ValueView::Int(x), BinaryOp::Modulo, ValueView::Int(y), depth), x - q * y)),
{
    if y != 0 && !(x == i64::MIN && y == -1) {
        lemma_truncating_division(x as int, y as int);
        lemma_truncating_remainder(x as int, y as int);
    }
}

/// Division with remainder of a natural number by a positive one.
proof fn lemma_positive_division(a: int, b: int)
    requires
        a >= 0,
        b > 0,
    ensures
        a - (a / b) * b == a % b,
        0 <= a % b < b,
        0 <= a / b <= a,
        b > 1 && a > 0 ==> a / b < a,
{
    lemma_fundamental_div_mod(a, b);
    lemma_mod_bound(a, b);
    assert(a - (a / b) * b == a % b) by (nonlinear_arith)
        requires a == b * (a / b) + (a % b);
    vstd::arithmetic::div_mod::lemma_div_pos_is_pos(a, b);
    vstd::arithmetic::div_mod::lemma_div_is_ordered_by_denominator(a, 1, b);
    assert(a / 1 == a);
    if b > 1 && a > 0 {
        vstd::arithmetic::div_mod::lemma_div_decreases(a, b);
    }
}

/// Truncating division of `x` by `d`: the quotient, and the remainder it
/// leaves, as the sizes and signs of `x` and `d` decide them.
proof fn lemma_truncating_division(x: int, d: int)
    requires
        d != 0,
        i64::MIN <= x <= i64::MAX,
        i64::MIN <= d <= i64::MAX,
        !(x == i64::MIN && d == -1),
    ensures
        crate::arith::spec_checked_div(x, d) matches Some(q) && {
            let r = x - q * d;
            &&& (if r >= 0 { r } else { -r }) < (if d >= 0 { d } else { -d })
            &&& (r == 0 || (r > 0) == (x > 0))
        },
{
    let a = if x >= 0 { x } else { -x };
    let b = if d >= 0 { d } else { -d };
    lemma_positive_division(a, b);
    let qa = a / b;
    let ra = a % b;
    if x == 0 {
        assert(crate::arith::spec_checked_div(x, d) == Some(0i64));
        assert((0i64 as int) * d == 0);
    } else if x > 0 && d > 0 {
        assert(x / d == qa);
        assert(x - qa * d == ra);
        assert(crate::arith::spec_checked_div(x, d) == Some(qa as i64));
        assert((qa as i64) as int == qa);
    } else if x < 0 && d < 0 {
        assert(x * -1 == a && d * -1 == b);
        assert(qa < 0x8000000000000000int) by {
            if a == 0x8000000000000000int {
                assert(b > 1);
            }
        }
        assert(x - qa * d == -ra) by (nonlinear_arith)
            requires x == -a, d == -b, a - qa * b == ra;
        assert(crate::arith::spec_checked_div(x, d) == Some(qa as i64));
        assert((qa as i64) as int == qa);
    } else if x < 0 {
        assert(x * -1 == a && d == b);
        assert(x - (qa * -1) * d == -ra) by (nonlinear_arith)
            requires x == -a, d == b, a - qa * b == ra;
        assert(crate::arith::spec_checked_div(x, d) == Some((qa * -1) as i64));
        assert(((qa * -1) as i64) as int == qa * -1);
    } else {
        assert(d * -1 == b && x == a);
        assert(x - (qa * -1) * d == ra) by (nonlinear_arith)
            requires x == a, d == -b, a - qa * b == ra;
        assert(crate::arith::spec_checked_div(x, d) == Some((qa * -1) as i64));
        assert(((qa * -1) as i64) as int == qa * -1);
    }
}

/// `checked_rem` leaves what truncating division leaves.
proof fn lemma_truncating_remainder(x: int, d: int)
    requires
        d != 0,
        i64::MIN <= x <= i64::MAX,
        i64::MIN <= d <= i64::MAX,
        !(x == i64::MIN && d == -1),
    ensures
        crate::arith::spec_checked_div(x, d) matches Some(q)
            && crate::arith::spec_checked_rem(x, d) == Some((x - q * d) as i64)
            && i64::MIN <= x - q * d <= i64::MAX,
{
    let a = if x >= 0 { x } else { -x };
    let b = if d >= 0 { d } else { -d };
    lemma_positive_division(a, b);
    lemma_truncating_division(x, d);
    let qa = a / b;
    let ra = a % b;
    if x == 0 {
        assert(crate::arith::spec_checked_div(x, d) == Some(0i64));
        assert((0i64 as int) * d == 0);
    } else if x > 0 && d > 0 {
        assert(x - qa * d == ra);
    } else if x < 0 && d < 0 {
        assert(x * -1 == a && d * -1 == b);
        assert(x - qa * d == -ra) by (nonlinear_arith)
            requires x == -a, d == -b, a - qa * b == ra;
    } else if x < 0 {
        assert(x * -1 == a && d == b);
        assert(x - (qa * -1) * d == -ra) by (nonlinear_arith)
            requires x == -a, d == b, a - qa * b == ra;
    } else {
        assert(d * -1 == b && x == a);
        assert(x - (qa * -1) * d == ra) by (nonlinear_arith)
            requires x == a, d == -b, a - qa * b == ra;
    }
}

/// Strings join under `+`: the result holds the left string, then the
/// right one. A string and anything but a string cannot be added.
pub proof fn law_string_concatenation(store: Store, a: Seq<char>, b: Seq<char>, v: ValueView, depth: nat)
    ensures
        spec_binary(store, ValueView::Str(a), BinaryOp::Add, ValueView::Str(b), depth) matches Some(Ok(ValueView::Str(t)))
            && t.len() == a.len() + b.len()
            && (forall|i: int| 0 <= i < a.len() ==> t[i] == a[i])
            && (forall|i: int| 0 <= i < b.len() ==> t[a.len() + i] == b[i]),
        !(v is Str) ==> spec_binary(store, ValueView::Str(a), BinaryOp::Add, v, depth) == Some(Err::<ValueView, ErrorKind>(ErrorKind::AddMismatch)),
{
}

/// `-` negates an integer (wrapping `i64::MIN` onto itself) and `아니다`
/// inverts a boolean; each refuses other kinds.
pub proof fn law_prefix_operators(x: i64, b: bool, r: ValueView)
    ensures
        x != i64::MIN ==> (spec_unary_ok(UnaryOp::Negate, ValueView::Int(x), r) <==> r == ValueView::Int((-x) as i64)),
        spec_unary_ok(UnaryOp::Negate, ValueView::Int(i64::MIN), r) <==> r == ValueView::Int(i64::MIN),
        spec_unary_ok(UnaryOp::Not, ValueView::Bool(b), r) <==> r == ValueView::Bool(!b),
        spec_unary_error(UnaryOp::Not, ValueView::Int(x)) is Some,
        spec_unary_error(UnaryOp::Negate, ValueView::Bool(b)) is Some,
{
}

/// `길이` counts a list's elements, a string's characters and a record's
/// entries, as a message and as the builtin; `제곱` of an integer is its
/// square when that fits.
pub proof fn law_lengths_and_squares(store: Store, torch: TorchRegistry, v: ValueView, x: i64)
    ensures
        v matches ValueView::List(id) ==> spec_length(store, v) == Some(store.list_view(id as int).len() as int),
        v matches ValueView::Str(s) ==> spec_length(store, v) == Some(s.len() as int),
        v matches ValueView::Record(id) ==> spec_length(store, v) == Some(store.record_view(id as int).len() as int),
        v matches ValueView::Str(s) ==> (s.len() <= i64::MAX ==> spec_unary_message(store, torch, v, UnaryMessage::Length)
            == Some(Ok::<ValueView, ErrorView>(ValueView::Int(s.len() as i64)))),
        v matches ValueView::List(id) ==> (store.list_view(id as int).len() <= i64::MAX ==> spec_unary_message(store, torch, v, UnaryMessage::Length)
            == Some(Ok::<ValueView, ErrorView>(ValueView::Int(store.list_view(id as int).len() as i64)))),
        v matches ValueView::Record(id) ==> (store.record_view(id as int).len() <= i64::MAX ==> spec_unary_message(store, torch, v, UnaryMessage::Length)
            == Some(Ok::<ValueView, ErrorView>(ValueView::Int(store.record_view(id as int).len() as i64)))),
        i64::MIN <= x * x <= i64::MAX ==> spec_unary_message(store, torch, ValueView::Int(x), UnaryMessage::Square)
            == Some(Ok::<ValueView, ErrorView>(ValueView::Int((x * x) as i64))),
{
    if i64::MIN <= x * x <= i64::MAX {
        let p = x * x;
        assert(x * x >= 0) by (nonlinear_arith);
        assert(p % 0x10000000000000000int == p) by {
            vstd::arithmetic::div_mod::lemma_small_mod(p as nat, 0x10000000000000000nat);
        }
    }
}


/// A decimal digit's character stands for the digit.
proof fn lemma_digit_char_value(d: int)
    requires
        0 <= d < 10,
    ensures
        '0' <= digit_char(d) <= '9',
        digit_char(d) as nat - '0' as nat == d,
{
}

/// The decimal text of a natural number is a run of digits worth the number.
proof fn lemma_nat_text_reads_back(n: nat)
    ensures
        nat_text(n).len() > 0,
        all_digits(nat_text(n)),
        digits_value(nat_text(n)) == n,
    decreases n,
{
    if n < 10 {
        lemma_digit_char_value(n as int);
        assert(nat_text(n).drop_last() =~= Seq::<char>::empty());
        assert(crate::text::is_digit(nat_text(n)[0]));
        assert(all_digits(nat_text(n)));
        assert(digits_value(Seq::<char>::empty()) == 0);
        assert(nat_text(n).last() == digit_char(n as int));
    } else {
        lemma_nat_text_reads_back(n / 10);
        lemma_digit_char_value((n % 10) as int);
        let t = nat_text(n);
        assert(t.drop_last() =~= nat_text(n / 10));
        lemma_fundamental_div_mod(n as int, 10);
        assert forall|i: int| 0 <= i < t.len() implies crate::text::is_digit(#[trigger] t[i]) by {
            if i < t.len() - 1 {
                assert(t[i] == nat_text(n / 10)[i]);
            } else {
                assert(t[i] == digit_char((n % 10) as int));
            }
        }
        assert(all_digits(nat_text(n)));
        assert(t.last() == digit_char((n % 10) as int));
        assert(digits_value(t) == digits_value(nat_text(n / 10)) * 10 + n % 10);
    }
}

/// Printing an integer and reading the text back gives the integer:
/// `정수로(문자열로(n))` is `n`. The text is the integer's decimal digits,
/// after a `-` exactly when it is negative.
pub proof fn law_integer_text_round_trip(n: i64)
    ensures
        spec_render_scalar(ValueView::Int(n)) matches Some(t) && spec_parse_i64(t) == Some(n),
        spec_render_scalar(ValueView::Int(n)) matches Some(t) && (t[0] == '-' <==> n < 0),
        spec_render_scalar(ValueView::Int(n)) matches Some(t) && all_digits(if n < 0 { t.drop_first() } else { t }),
{
    if n < 0 {
        lemma_nat_text_reads_back((-n) as nat);
        assert((seq!['-'] + nat_text((-n) as nat)).drop_first() =~= nat_text((-n) as nat));
    } else {
        lemma_nat_text_reads_back(n as nat);
        assert(crate::text::is_digit(nat_text(n as nat)[0]));
    }
}

/// Booleans print as `참` and `거짓`, nothing as `없음`, and a string as itself.
pub proof fn law_scalar_text(b: bool, s: Seq<char>)
    ensures
        spec_render_scalar(ValueView::Bool(b)) == Some(if b { "참"@ } else { "거짓"@ }),
        spec_render_scalar(ValueView::Bool(true)) != spec_render_scalar(ValueView::Bool(false)),
        spec_render_scalar(ValueView::Str(s)) == Some(s),
        spec_render_scalar(ValueView::Nothing) == Some("없음"@),
{
    reveal_strlit("참");
    reveal_strlit("거짓");
    assert("참"@.len() != "거짓"@.len());
}

/// `추가` puts its value at the end of the list, as the builtin and as a
/// message: the list grows by one, keeps its elements in order, and ends
/// with the value; `맨 위 값` taken right after gives the value back and
/// leaves the list as it was.
pub proof fn law_push_appends<H: Host>(
    old: Interpreter<H>,
    new: Interpreter<H>,
    id: usize,
    v: ValueView,
    by_message: bool,
    r: Result<crate::value::Value, crate::error::RuntimeError>,
    sent: Result<(), crate::error::RuntimeError>,
)
    requires
        by_message ==> keyword_outcome(old, new, ValueView::List(id), KeywordMessage::Push, seq![v], sent),
        !by_message ==> builtin_outcome(old, new, BuiltinFunction::Push, seq![ValueView::List(id), v], r),
    ensures
        by_message ==> sent is Ok,
        !by_message ==> r is Ok,
        ({
            let before = old.store.list_view(id as int);
            let after = new.store.list_view(id as int);
            &&& after.len() == before.len() + 1
            &&& after[before.len() as int] == v
            &&& forall|i: int| 0 <= i < before.len() ==> after[i] == before[i]
            &&& spec_resultive(new.store, ValueView::List(id), ResultiveMessage::PopTopElement) == Ok::<ValueView, ErrorView>(v)
            &&& spec_resultive_rest(after, ResultiveMessage::PopTopElement) == before
        }),
{
    let before = old.store.list_view(id as int);
    let after = new.store.list_view(id as int);
    assert(after =~= before.push(v));
    assert(after.drop_last() =~= before);
}

/// Reading a field of a record (`레코드.키`) gives the value stored under
/// that key.
pub proof fn law_record_field(store: Store, torch: TorchRegistry, id: usize, key: Seq<char>, v: ValueView)
    requires
        assoc_get(store.record_view(id as int), key) == Some(v),
    ensures
        spec_property(store, torch, ValueView::Record(id), key) == Some(Ok::<ValueView, ErrorView>(v)),
{
}

/// Two lists of integers are equal exactly when they hold the same
/// integers in the same order.
pub proof fn law_integer_list_equality(store: Store, x: usize, y: usize, depth: nat)
    requires
        depth > 0,
        x < store.lists@.len(),
        y < store.lists@.len(),
        forall|i: int| 0 <= i < store.list_view(x as int).len() ==> (#[trigger] store.list_view(x as int)[i]) is Int,
        forall|i: int| 0 <= i < store.list_view(y as int).len() ==> (#[trigger] store.list_view(y as int)[i]) is Int,
    ensures
        spec_equal(store, ValueView::List(x), ValueView::List(y), depth) == Some(store.list_view(x as int) == store.list_view(y as int)),
{
    let xs = store.list_view(x as int);
    let ys = store.list_view(y as int);
    let d = (depth - 1) as nat;
    if xs.len() == ys.len() {
        assert forall|i: int| 0 <= i < xs.len() implies spec_equal(store, #[trigger] xs[i], ys[i], d) == Some(xs[i] == ys[i]) by {
            assert(xs[i] is Int && ys[i] is Int);
        }
        if xs == ys {
            assert forall|i: int| 0 <= i < xs.len() implies spec_equal(store, #[trigger] xs[i], ys[i], d) == Some(true) by {
                assert(xs[i] is Int && ys[i] is Int);
            }
        } else {
            assert(!(xs =~= ys));
            let i = choose|i: int| 0 <= i < xs.len() && xs[i] != ys[i];
            assert(spec_equal(store, xs[i], ys[i], d) == Some(false));
        }
    }
}

/// Order comparisons take numbers only, `%` integers only, and `-`, `*`,
/// `/` numbers only; anything else is the matching error.
pub proof fn law_operand_kinds(store: Store, v: ValueView, w: ValueView, depth: nat)
    ensures
        !(v is Int || v is Float) ==> spec_binary(store, v, BinaryOp::Less, w, depth) == Some(Err::<ValueView, ErrorKind>(ErrorKind::ComparisonMismatch)),
        !(v is Int || v is Float) ==> spec_binary(store, v, BinaryOp::Greater, w, depth) == Some(Err::<ValueView, ErrorKind>(ErrorKind::ComparisonMismatch)),
        !(v is Int && w is Int) ==> spec_binary(store, v, BinaryOp::Modulo, w, depth) == Some(Err::<ValueView, ErrorKind>(ErrorKind::ModuloNonInt)),
        !(v is Int || v is Float) ==> spec_binary(store, v, BinaryOp::Subtract, w, depth) == Some(Err::<ValueView, ErrorKind>(ErrorKind::NumericMismatch)),
        !(v is Int || v is Float) ==> spec_binary(store, v, BinaryOp::Multiply, w, depth) == Some(Err::<ValueView, ErrorKind>(ErrorKind::NumericMismatch)),
        !(v is Int || v is Float) ==> spec_binary(store, v, BinaryOp::Divide, w, depth) == Some(Err::<ValueView, ErrorKind>(ErrorKind::NumericMismatch)),
{
}

} // verus!
