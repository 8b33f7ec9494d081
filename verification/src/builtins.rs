//! Built-in functions, host handles and the names programs reach them by.
use vstd::prelude::*;
use vstd::string::*;

verus! {

/// The functions every program starts with.
#[derive(Debug, Clone, Copy, PartialEq, Eq, Structural)]
pub enum BuiltinFunction {
    Length,
    CurrentTimeSeconds,
    Push,
    PopLast,
    ToString,
    ToInt,
    ToFloat,
    FlattenLayer,
    LinearLayer,
    ReluLayer,
    SequentialNetwork,
    BuildMnistDataset,
    BuildDataLoader,
    CrossEntropyLoss,
    AdamOptimizer,
    ZeroGrad,
    Forward,
    ComputeLoss,
    Backward,
    OptimizerStep,
    SetTrainMode,
    SetEvalMode,
    FetchBatch,
    ArgMax,
    CountEqual,
}

/// Values that stand for something the host owns: the canvas and the
/// PyTorch objects, the latter by their registration number.
#[derive(Debug, Clone, Copy, PartialEq, Eq, Structural)]
pub enum HostValue {
    Canvas,
    TorchLayer(TorchLayerKind),
    TorchDataset(usize),
    TorchDataLoader(usize),
    TorchModel(usize),
    TorchModelParameters(usize),
    TorchLossFunction(TorchLossKind),
    TorchOptimizer(usize),
}

/// The layers a sequential network is built from.
#[derive(Debug, Clone, Copy, PartialEq, Eq, Structural)]
pub enum TorchLayerKind {
    Flatten,
    Relu,
    Linear { in_features: i64, out_features: i64 },
}

/// Loss functions.
#[derive(Debug, Clone, Copy, PartialEq, Eq, Structural)]
pub enum TorchLossKind {
    CrossEntropy,
}

impl BuiltinFunction {
    /// The name a builtin is called by in error messages and call frames.
    pub open spec fn spec_name(self) -> Seq<char> {
        match self {
            BuiltinFunction::Length => "길이"@,
            BuiltinFunction::CurrentTimeSeconds => "현재시간초"@,
            BuiltinFunction::Push => "추가"@,
            BuiltinFunction::PopLast => "마지막꺼내기"@,
            BuiltinFunction::ToString => "문자열로"@,
            BuiltinFunction::ToInt => "정수로"@,
            BuiltinFunction::ToFloat => "실수로"@,
            BuiltinFunction::FlattenLayer => "평탄화"@,
            BuiltinFunction::LinearLayer => "선형층"@,
            BuiltinFunction::ReluLayer => "렐루"@,
            BuiltinFunction::SequentialNetwork => "순차신경망"@,
            BuiltinFunction::BuildMnistDataset => "숫자손글씨데이터셋"@,
            BuiltinFunction::BuildDataLoader => "데이터로더"@,
            BuiltinFunction::CrossEntropyLoss => "교차엔트로피손실"@,
            BuiltinFunction::AdamOptimizer => "아담"@,
            BuiltinFunction::ZeroGrad => "기울기초기화"@,
            BuiltinFunction::Forward => "순전파"@,
            BuiltinFunction::ComputeLoss => "손실계산"@,
            BuiltinFunction::Backward => "역전파"@,
            BuiltinFunction::OptimizerStep => "매개변수갱신"@,
            BuiltinFunction::SetTrainMode => "학습모드로바꾸기"@,
            BuiltinFunction::SetEvalMode => "평가모드로바꾸기"@,
            BuiltinFunction::FetchBatch => "배치가져오기"@,
            BuiltinFunction::ArgMax => "최대인덱스"@,
            BuiltinFunction::CountEqual => "같은값개수"@,
        }
    }

    /// The builtin's name.
    pub fn name(self) -> (r: &'static str)
        ensures
            r@ == self.spec_name(),
    {
        match self {
            BuiltinFunction::Length => "길이",
            BuiltinFunction::CurrentTimeSeconds => "현재시간초",
            BuiltinFunction::Push => "추가",
            BuiltinFunction::PopLast => "마지막꺼내기",
            BuiltinFunction::ToString => "문자열로",
            BuiltinFunction::ToInt => "정수로",
            BuiltinFunction::ToFloat => "실수로",
            BuiltinFunction::FlattenLayer => "평탄화",
            BuiltinFunction::LinearLayer => "선형층",
            BuiltinFunction::ReluLayer => "렐루",
            BuiltinFunction::SequentialNetwork => "순차신경망",
            BuiltinFunction::BuildMnistDataset => "숫자손글씨데이터셋",
            BuiltinFunction::BuildDataLoader => "데이터로더",
            BuiltinFunction::CrossEntropyLoss => "교차엔트로피손실",
            BuiltinFunction::AdamOptimizer => "아담",
            BuiltinFunction::ZeroGrad => "기울기초기화",
            BuiltinFunction::Forward => "순전파",
            BuiltinFunction::ComputeLoss => "손실계산",
            BuiltinFunction::Backward => "역전파",
            BuiltinFunction::OptimizerStep => "매개변수갱신",
            BuiltinFunction::SetTrainMode => "학습모드로바꾸기",
            BuiltinFunction::SetEvalMode => "평가모드로바꾸기",
            BuiltinFunction::FetchBatch => "배치가져오기",
            BuiltinFunction::ArgMax => "최대인덱스",
            BuiltinFunction::CountEqual => "같은값개수",
        }
    }

    /// How a builtin function value prints.
    pub open spec fn spec_display(self) -> Seq<char> {
        match self {
            BuiltinFunction::Length => "<내장 함수 길이>"@,
            BuiltinFunction::CurrentTimeSeconds => "<내장 함수 현재시간초>"@,
            BuiltinFunction::Push => "<내장 함수 추가>"@,
            BuiltinFunction::PopLast => "<내장 함수 마지막꺼내기>"@,
            BuiltinFunction::ToString => "<내장 함수 문자열로>"@,
            BuiltinFunction::ToInt => "<내장 함수 정수로>"@,
            BuiltinFunction::ToFloat => "<내장 함수 실수로>"@,
            BuiltinFunction::FlattenLayer => "<내장 함수 평탄화>"@,
            BuiltinFunction::LinearLayer => "<내장 함수 선형층>"@,
            BuiltinFunction::ReluLayer => "<내장 함수 렐루>"@,
            BuiltinFunction::SequentialNetwork => "<내장 함수 순차신경망>"@,
            BuiltinFunction::BuildMnistDataset => "<내장 함수 숫자손글씨데이터셋>"@,
            BuiltinFunction::BuildDataLoader => "<내장 함수 데이터로더>"@,
            BuiltinFunction::CrossEntropyLoss => "<내장 함수 교차엔트로피손실>"@,
            BuiltinFunction::AdamOptimizer => "<내장 함수 아담>"@,
            BuiltinFunction::ZeroGrad => "<내장 함수 기울기초기화>"@,
            BuiltinFunction::Forward => "<내장 함수 순전파>"@,
            BuiltinFunction::ComputeLoss => "<내장 함수 손실계산>"@,
            BuiltinFunction::Backward => "<내장 함수 역전파>"@,
            BuiltinFunction::OptimizerStep => "<내장 함수 매개변수갱신>"@,
            BuiltinFunction::SetTrainMode => "<내장 함수 학습모드로바꾸기>"@,
            BuiltinFunction::SetEvalMode => "<내장 함수 평가모드로바꾸기>"@,
            BuiltinFunction::FetchBatch => "<내장 함수 배치가져오기>"@,
            BuiltinFunction::ArgMax => "<내장 함수 최대인덱스>"@,
            BuiltinFunction::CountEqual => "<내장 함수 같은값개수>"@,
        }
    }

    /// The text a builtin function value prints as.
    pub fn display_text(self) -> (r: String)
        ensures
            r@ == self.spec_display(),
    {
        let s = match self {
            BuiltinFunction::Length => "<내장 함수 길이>",
            BuiltinFunction::CurrentTimeSeconds => "<내장 함수 현재시간초>",
            BuiltinFunction::Push => "<내장 함수 추가>",
            BuiltinFunction::PopLast => "<내장 함수 마지막꺼내기>",
            BuiltinFunction::ToString => "<내장 함수 문자열로>",
            BuiltinFunction::ToInt => "<내장 함수 정수로>",
            BuiltinFunction::ToFloat => "<내장 함수 실수로>",
            BuiltinFunction::FlattenLayer => "<내장 함수 평탄화>",
            BuiltinFunction::LinearLayer => "<내장 함수 선형층>",
            BuiltinFunction::ReluLayer => "<내장 함수 렐루>",
            BuiltinFunction::SequentialNetwork => "<내장 함수 순차신경망>",
            BuiltinFunction::BuildMnistDataset => "<내장 함수 숫자손글씨데이터셋>",
            BuiltinFunction::BuildDataLoader => "<내장 함수 데이터로더>",
            BuiltinFunction::CrossEntropyLoss => "<내장 함수 교차엔트로피손실>",
            BuiltinFunction::AdamOptimizer => "<내장 함수 아담>",
            BuiltinFunction::ZeroGrad => "<내장 함수 기울기초기화>",
            BuiltinFunction::Forward => "<내장 함수 순전파>",
            BuiltinFunction::ComputeLoss => "<내장 함수 손실계산>",
            BuiltinFunction::Backward => "<내장 함수 역전파>",
            BuiltinFunction::OptimizerStep => "<내장 함수 매개변수갱신>",
            BuiltinFunction::SetTrainMode => "<내장 함수 학습모드로바꾸기>",
            BuiltinFunction::SetEvalMode => "<내장 함수 평가모드로바꾸기>",
            BuiltinFunction::FetchBatch => "<내장 함수 배치가져오기>",
            BuiltinFunction::ArgMax => "<내장 함수 최대인덱스>",
            BuiltinFunction::CountEqual => "<내장 함수 같은값개수>",
        };
        String::from_str(s)
    }
}

/// The builtin a global name is bound to when a program starts, aliases included.
pub open spec fn spec_builtin_named(name: Seq<char>) -> Option<BuiltinFunction> {
    if name == "숫자손글씨데이터셋만들기"@ {
        Some(BuiltinFunction::BuildMnistDataset)
    } else if name == "데이터로더만들기"@ {
        Some(BuiltinFunction::BuildDataLoader)
    } else if name == "스텝"@ {
        Some(BuiltinFunction::OptimizerStep)
    } else if exists|f: BuiltinFunction| f.spec_name() == name {
        Some(choose|f: BuiltinFunction| f.spec_name() == name)
    } else {
        None
    }
}

/// The global name of the canvas.
pub open spec fn spec_canvas_name() -> Seq<char> {
    "그림판"@
}

/// The builtins in the order the global scope is filled.
pub open spec fn builtin_at(i: int) -> BuiltinFunction {
    if i == 0 {
        BuiltinFunction::Length
    } else if i == 1 {
        BuiltinFunction::CurrentTimeSeconds
    } else if i == 2 {
        BuiltinFunction::Push
    } else if i == 3 {
        BuiltinFunction::PopLast
    } else if i == 4 {
        BuiltinFunction::ToString
    } else if i == 5 {
        BuiltinFunction::ToInt
    } else if i == 6 {
        BuiltinFunction::ToFloat
    } else if i == 7 {
        BuiltinFunction::FlattenLayer
    } else if i == 8 {
        BuiltinFunction::LinearLayer
    } else if i == 9 {
        BuiltinFunction::ReluLayer
    } else if i == 10 {
        BuiltinFunction::SequentialNetwork
    } else if i == 11 {
        BuiltinFunction::BuildMnistDataset
    } else if i == 12 {
        BuiltinFunction::BuildDataLoader
    } else if i == 13 {
        BuiltinFunction::CrossEntropyLoss
    } else if i == 14 {
        BuiltinFunction::AdamOptimizer
    } else if i == 15 {
        BuiltinFunction::ZeroGrad
    } else if i == 16 {
        BuiltinFunction::Forward
    } else if i == 17 {
        BuiltinFunction::ComputeLoss
    } else if i == 18 {
        BuiltinFunction::Backward
    } else if i == 19 {
        BuiltinFunction::OptimizerStep
    } else if i == 20 {
        BuiltinFunction::SetTrainMode
    } else if i == 21 {
        BuiltinFunction::SetEvalMode
    } else if i == 22 {
        BuiltinFunction::FetchBatch
    } else if i == 23 {
        BuiltinFunction::ArgMax
    } else {
        BuiltinFunction::CountEqual
    }
}

/// Where a builtin stands in the order the global scope is filled.
pub open spec fn builtin_index(f: BuiltinFunction) -> int {
    match f {
        BuiltinFunction::Length => 0,
        BuiltinFunction::CurrentTimeSeconds => 1,
        BuiltinFunction::Push => 2,
        BuiltinFunction::PopLast => 3,
        BuiltinFunction::ToString => 4,
        BuiltinFunction::ToInt => 5,
        BuiltinFunction::ToFloat => 6,
        BuiltinFunction::FlattenLayer => 7,
        BuiltinFunction::LinearLayer => 8,
        BuiltinFunction::ReluLayer => 9,
        BuiltinFunction::SequentialNetwork => 10,
        BuiltinFunction::BuildMnistDataset => 11,
        BuiltinFunction::BuildDataLoader => 12,
        BuiltinFunction::CrossEntropyLoss => 13,
        BuiltinFunction::AdamOptimizer => 14,
        BuiltinFunction::ZeroGrad => 15,
        BuiltinFunction::Forward => 16,
        BuiltinFunction::ComputeLoss => 17,
        BuiltinFunction::Backward => 18,
        BuiltinFunction::OptimizerStep => 19,
        BuiltinFunction::SetTrainMode => 20,
        BuiltinFunction::SetEvalMode => 21,
        BuiltinFunction::FetchBatch => 22,
        BuiltinFunction::ArgMax => 23,
        BuiltinFunction::CountEqual => 24,
    }
}

/// Different places in that order hold different builtins.
pub proof fn lemma_builtin_at_injective(j: int, k: int)
    requires
        0 <= j < k < 25,
    ensures
        builtin_at(j) != builtin_at(k),
{
    assert(builtin_index(builtin_at(j)) == j);
    assert(builtin_index(builtin_at(k)) == k);
}

fn builtin_at_exec(i: usize) -> (r: BuiltinFunction)
    ensures
        r == builtin_at(i as int),
{
    if i == 0 {
        BuiltinFunction::Length
    } else if i == 1 {
        BuiltinFunction::CurrentTimeSeconds
    } else if i == 2 {
        BuiltinFunction::Push
    } else if i == 3 {
        BuiltinFunction::PopLast
    } else if i == 4 {
        BuiltinFunction::ToString
    } else if i == 5 {
        BuiltinFunction::ToInt
    } else if i == 6 {
        BuiltinFunction::ToFloat
    } else if i == 7 {
        BuiltinFunction::FlattenLayer
    } else if i == 8 {
        BuiltinFunction::LinearLayer
    } else if i == 9 {
        BuiltinFunction::ReluLayer
    } else if i == 10 {
        BuiltinFunction::SequentialNetwork
    } else if i == 11 {
        BuiltinFunction::BuildMnistDataset
    } else if i == 12 {
        BuiltinFunction::BuildDataLoader
    } else if i == 13 {
        BuiltinFunction::CrossEntropyLoss
    } else if i == 14 {
        BuiltinFunction::AdamOptimizer
    } else if i == 15 {
        BuiltinFunction::ZeroGrad
    } else if i == 16 {
        BuiltinFunction::Forward
    } else if i == 17 {
        BuiltinFunction::ComputeLoss
    } else if i == 18 {
        BuiltinFunction::Backward
    } else if i == 19 {
        BuiltinFunction::OptimizerStep
    } else if i == 20 {
        BuiltinFunction::SetTrainMode
    } else if i == 21 {
        BuiltinFunction::SetEvalMode
    } else if i == 22 {
        BuiltinFunction::FetchBatch
    } else if i == 23 {
        BuiltinFunction::ArgMax
    } else {
        BuiltinFunction::CountEqual
    }
}

/// Whether a binding table binds `f` under `f`'s own name.
pub open spec fn bound_under_own_name(table: Seq<(&'static str, BuiltinFunction)>, f: BuiltinFunction) -> bool {
    exists|i: int| 0 <= i < table.len() && (#[trigger] table[i]).1 == f && table[i].0@ == f.spec_name()
}

/// Every builtin under its own name, in the order the global scope is
/// filled, then the three older aliases.
pub fn builtin_bindings() -> (r: Vec<(&'static str, BuiltinFunction)>)
    ensures
        r@.len() == 28,
        r@[25].0@ == "숫자손글씨데이터셋만들기"@,
        r@[26].0@ == "데이터로더만들기"@,
        r@[27].0@ == "스텝"@,
        forall|i: int|
            0 <= i < r@.len() ==> spec_builtin_named((#[trigger] r@[i]).0@) == Some(r@[i].1),
        forall|f: BuiltinFunction| #[trigger] bound_under_own_name(r@, f),
        forall|j: int, k: int| 0 <= j < k < 28 ==> #[trigger] r@[j].0@ != #[trigger] r@[k].0@,
{
    let mut r: Vec<(&'static str, BuiltinFunction)> = Vec::new();
    let mut i: usize = 0;
    while i < 25
        invariant
            i <= 25,
            r@.len() == i,
            forall|k: int| 0 <= k < i ==> (#[trigger] r@[k]).1 == builtin_at(k) && r@[k].0@ == builtin_at(k).spec_name(),
        decreases 25 - i,
    {
        let f = builtin_at_exec(i);
        r.push((f.name(), f));
        i = i + 1;
    }
    r.push(("숫자손글씨데이터셋만들기", BuiltinFunction::BuildMnistDataset));
    r.push(("데이터로더만들기", BuiltinFunction::BuildDataLoader));
    r.push(("스텝", BuiltinFunction::OptimizerStep));
    proof {
        reveal_strlit("숫자손글씨데이터셋만들기");
        reveal_strlit("데이터로더만들기");
        reveal_strlit("스텝");
        assert forall|f: BuiltinFunction| #[trigger] bound_under_own_name(r@, f) by {
            match f {
                BuiltinFunction::Length => assert(r@[0].1 == f && r@[0].0@ == f.spec_name()),
                BuiltinFunction::CurrentTimeSeconds => assert(r@[1].1 == f && r@[1].0@ == f.spec_name()),
                BuiltinFunction::Push => assert(r@[2].1 == f && r@[2].0@ == f.spec_name()),
                BuiltinFunction::PopLast => assert(r@[3].1 == f && r@[3].0@ == f.spec_name()),
                BuiltinFunction::ToString => assert(r@[4].1 == f && r@[4].0@ == f.spec_name()),
                BuiltinFunction::ToInt => assert(r@[5].1 == f && r@[5].0@ == f.spec_name()),
                BuiltinFunction::ToFloat => assert(r@[6].1 == f && r@[6].0@ == f.spec_name()),
                BuiltinFunction::FlattenLayer => assert(r@[7].1 == f && r@[7].0@ == f.spec_name()),
                BuiltinFunction::LinearLayer => assert(r@[8].1 == f && r@[8].0@ == f.spec_name()),
                BuiltinFunction::ReluLayer => assert(r@[9].1 == f && r@[9].0@ == f.spec_name()),
                BuiltinFunction::SequentialNetwork => assert(r@[10].1 == f && r@[10].0@ == f.spec_name()),
                BuiltinFunction::BuildMnistDataset => assert(r@[11].1 == f && r@[11].0@ == f.spec_name()),
                BuiltinFunction::BuildDataLoader => assert(r@[12].1 == f && r@[12].0@ == f.spec_name()),
                BuiltinFunction::CrossEntropyLoss => assert(r@[13].1 == f && r@[13].0@ == f.spec_name()),
                BuiltinFunction::AdamOptimizer => assert(r@[14].1 == f && r@[14].0@ == f.spec_name()),
                BuiltinFunction::ZeroGrad => assert(r@[15].1 == f && r@[15].0@ == f.spec_name()),
                BuiltinFunction::Forward => assert(r@[16].1 == f && r@[16].0@ == f.spec_name()),
                BuiltinFunction::ComputeLoss => assert(r@[17].1 == f && r@[17].0@ == f.spec_name()),
                BuiltinFunction::Backward => assert(r@[18].1 == f && r@[18].0@ == f.spec_name()),
                BuiltinFunction::OptimizerStep => assert(r@[19].1 == f && r@[19].0@ == f.spec_name()),
                BuiltinFunction::SetTrainMode => assert(r@[20].1 == f && r@[20].0@ == f.spec_name()),
                BuiltinFunction::SetEvalMode => assert(r@[21].1 == f && r@[21].0@ == f.spec_name()),
                BuiltinFunction::FetchBatch => assert(r@[22].1 == f && r@[22].0@ == f.spec_name()),
                BuiltinFunction::ArgMax => assert(r@[23].1 == f && r@[23].0@ == f.spec_name()),
                BuiltinFunction::CountEqual => assert(r@[24].1 == f && r@[24].0@ == f.spec_name()),
            }
        }
        assert forall|k: int| 0 <= k < r@.len() implies spec_builtin_named((#[trigger] r@[k]).0@)
            == Some(r@[k].1) by {
            if k < 25 {
                assert(r@[k].0@ == builtin_at(k).spec_name());
                lemma_builtin_named_by_own_name(r@[k].1);
            } else if k == 25 {
                assert(spec_builtin_named(r@[k].0@) == Some(r@[k].1));
            } else if k == 26 {
                reveal_strlit("숫자손글씨데이터셋만들기");
                reveal_strlit("데이터로더만들기");
                assert("데이터로더만들기"@.len() == 8);
                assert(r@[k].0@ != "숫자손글씨데이터셋만들기"@);
                assert(spec_builtin_named(r@[k].0@) == Some(r@[k].1));
            } else {
                reveal_strlit("숫자손글씨데이터셋만들기");
                reveal_strlit("데이터로더만들기");
                reveal_strlit("스텝");
                assert("스텝"@.len() == 2);
                assert(spec_builtin_named(r@[k].0@) == Some(r@[k].1));
            }
        }
        assert forall|j: int, k: int| 0 <= j < k < 28 implies #[trigger] r@[j].0@ != #[trigger] r@[k].0@ by {
            if r@[j].0@ == r@[k].0@ {
                assert(spec_builtin_named(r@[j].0@) == Some(r@[j].1));
                assert(spec_builtin_named(r@[k].0@) == Some(r@[k].1));
                reveal_strlit("숫자손글씨데이터셋만들기");
                reveal_strlit("데이터로더만들기");
                reveal_strlit("스텝");
                reveal_strlit("숫자손글씨데이터셋");
                reveal_strlit("데이터로더");
                reveal_strlit("매개변수갱신");
                assert("숫자손글씨데이터셋만들기"@.len() == 12);
                assert("데이터로더만들기"@.len() == 8);
                assert("스텝"@.len() == 2);
                assert("숫자손글씨데이터셋"@.len() == 9);
                assert("데이터로더"@.len() == 5);
                assert("매개변수갱신"@.len() == 6);
                if k < 25 {
                    lemma_builtin_at_injective(j, k);
                } else if j < 25 {
                    assert(r@[j].0@ == builtin_at(j).spec_name());
                    assert(r@[j].1 == r@[k].1);
                }
            }
        }
    }
    r
}

/// Distinct builtins have distinct names, and no builtin is named like an alias.
pub proof fn lemma_builtin_names_distinct(f: BuiltinFunction, g: BuiltinFunction)
    ensures
        f.spec_name() == g.spec_name() ==> f == g,
        f.spec_name() != "숫자손글씨데이터셋만들기"@,
        f.spec_name() != "데이터로더만들기"@,
        f.spec_name() != "스텝"@,
{
        reveal_strlit("길이");
        reveal_strlit("현재시간초");
        reveal_strlit("추가");
        reveal_strlit("마지막꺼내기");
        reveal_strlit("문자열로");
        reveal_strlit("정수로");
        reveal_strlit("실수로");
        reveal_strlit("평탄화");
        reveal_strlit("선형층");
        reveal_strlit("렐루");
        reveal_strlit("순차신경망");
        reveal_strlit("숫자손글씨데이터셋");
        reveal_strlit("데이터로더");
        reveal_strlit("교차엔트로피손실");
        reveal_strlit("아담");
        reveal_strlit("기울기초기화");
        reveal_strlit("순전파");
        reveal_strlit("손실계산");
        reveal_strlit("역전파");
        reveal_strlit("매개변수갱신");
        reveal_strlit("학습모드로바꾸기");
        reveal_strlit("평가모드로바꾸기");
        reveal_strlit("배치가져오기");
        reveal_strlit("최대인덱스");
        reveal_strlit("같은값개수");
        reveal_strlit("숫자손글씨데이터셋만들기");
        reveal_strlit("데이터로더만들기");
        reveal_strlit("스텝");
    let a1 = "숫자손글씨데이터셋만들기"@;
    let a2 = "데이터로더만들기"@;
    let a3 = "스텝"@;
    if f.spec_name() == a1 {
        assert(f.spec_name()[0] == a1[0]);
        assert(f.spec_name()[f.spec_name().len() - 1] == a1[a1.len() - 1]);
    }
    if f.spec_name() == a2 {
        assert(f.spec_name()[0] == a2[0]);
        assert(f.spec_name()[f.spec_name().len() - 1] == a2[a2.len() - 1]);
    }
    if f.spec_name() == a3 {
        assert(f.spec_name()[0] == a3[0]);
        assert(f.spec_name()[f.spec_name().len() - 1] == a3[a3.len() - 1]);
    }
    if f.spec_name() == g.spec_name() {
        assert(f.spec_name().len() == g.spec_name().len());
        assert(f.spec_name()[0] == g.spec_name()[0]);
        assert(f.spec_name()[f.spec_name().len() - 1] == g.spec_name()[g.spec_name().len() - 1]);
    }
}

/// Every builtin is bound, when a program starts, under its own name.
pub proof fn lemma_builtin_named_by_own_name(f: BuiltinFunction)
    ensures
        spec_builtin_named(f.spec_name()) == Some(f),
{
    lemma_builtin_names_distinct(f, f);
    let g = choose|g: BuiltinFunction| g.spec_name() == f.spec_name();
    lemma_builtin_names_distinct(f, g);
}


} // verus!
