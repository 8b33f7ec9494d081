//! Runtime errors: what went wrong, where, and the calls it went through.
use vstd::prelude::*;
use vstd::string::*;
use crate::syntax::Span;
use crate::text::{nat_text, usize_to_text};

verus! {

/// What went wrong.
#[derive(Debug)]
pub enum ErrorKind {
    AlreadyDefined { name: String },
    ReturnOutsideFunction,
    OutputWrite { detail: String },
    OutputFlush { detail: String },
    ConditionNotBool,
    LoopConditionNotBool,
    InvalidIntLiteral { raw: String },
    InvalidFloatLiteral { raw: String },
    NegateNonNumber,
    NotNonBool,
    AddMismatch,
    NumericMismatch,
    ComparisonMismatch,
    ModuloNonInt,
    AndNonBool,
    OrNonBool,
    DivisionByZero,
    IntegerOverflow,
    ArgumentCountMismatch { expected: usize, actual: usize },
    NotCallable,
    UnknownNamedArgument { function: String, key: String },
    MissingNamedArgument { function: String, param: String },
    NamedCallOnBuiltin { name: String },
    LengthUnsupported,
    PushTargetNotList,
    PopLastFromEmpty,
    PopLastNotList,
    StringToInt,
    ToIntUnsupported,
    StringToFloat,
    ToFloatUnsupported,
    NotLayerList,
    BatchSizeNotPositive,
    InvalidDataset,
    AdamNeedsParameters,
    LearningRateNotPositive,
    InvalidModel,
    AdamBuildFailed { detail: String },
    InvalidOptimizer,
    LossNeedsLossFunction,
    NegativeBatchIndex,
    InvalidLoader,
    BatchIndexOutOfRange,
    NegativeIndex,
    ListIndexOutOfRange,
    StringIndexOutOfRange,
    NotIndexable,
    PropertyWithArguments,
    TransformWithArguments,
    ResultiveWithArguments,
    KeywordInExpression,
    MessageNotStatement,
    NoProperty { name: String },
    BatchNoProperty { name: String },
    ModelNoProperty { name: String },
    TensorNoProperty { name: String },
    ScalarValueNeedsScalar,
    ListNoSquare,
    StringNoSquare,
    IntNoLength,
    FloatNoLength,
    PopFromEmpty { role: String },
    ResultiveNotList { role: String },
    PushMessageNotList,
    CanvasOnlyMessage { name: String },
    CanvasNoPush,
    Undefined { name: String },
    AssignUndefined { name: String },
    ArgumentNotInt { name: String },
    ArgumentNotNumber { name: String },
    ArgumentNotTensor { name: String },
    ArgumentNotList { name: String },
    ArgumentNotRecord { name: String },
    NotModel,
    NotOptimizer,
    NotLoader,
    FieldNotBool { key: String },
    FieldNotInt { key: String },
    FieldNotNumber { key: String },
    FieldNotString { key: String },
    FieldBadType { key: String },
    FieldMissing { key: String },
    FieldMissingEither { first: String, second: String },
    SleepNegative,
    SleepNotNumber,
    ArityMismatch { name: String, expected: usize, actual: usize },
    HostFailure { detail: String },
    DepthExhausted,
}

/// An error kind with its texts as character sequences.
pub enum ErrorView {
    AlreadyDefined { name: Seq<char> },
    ReturnOutsideFunction,
    OutputWrite { detail: Seq<char> },
    OutputFlush { detail: Seq<char> },
    ConditionNotBool,
    LoopConditionNotBool,
    InvalidIntLiteral { raw: Seq<char> },
    InvalidFloatLiteral { raw: Seq<char> },
    NegateNonNumber,
    NotNonBool,
    AddMismatch,
    NumericMismatch,
    ComparisonMismatch,
    ModuloNonInt,
    AndNonBool,
    OrNonBool,
    DivisionByZero,
    IntegerOverflow,
    ArgumentCountMismatch { expected: usize, actual: usize },
    NotCallable,
    UnknownNamedArgument { function: Seq<char>, key: Seq<char> },
    MissingNamedArgument { function: Seq<char>, param: Seq<char> },
    NamedCallOnBuiltin { name: Seq<char> },
    LengthUnsupported,
    PushTargetNotList,
    PopLastFromEmpty,
    PopLastNotList,
    StringToInt,
    ToIntUnsupported,
    StringToFloat,
    ToFloatUnsupported,
    NotLayerList,
    BatchSizeNotPositive,
    InvalidDataset,
    AdamNeedsParameters,
    LearningRateNotPositive,
    InvalidModel,
    AdamBuildFailed { detail: Seq<char> },
    InvalidOptimizer,
    LossNeedsLossFunction,
    NegativeBatchIndex,
    InvalidLoader,
    BatchIndexOutOfRange,
    NegativeIndex,
    ListIndexOutOfRange,
    StringIndexOutOfRange,
    NotIndexable,
    PropertyWithArguments,
    TransformWithArguments,
    ResultiveWithArguments,
    KeywordInExpression,
    MessageNotStatement,
    NoProperty { name: Seq<char> },
    BatchNoProperty { name: Seq<char> },
    ModelNoProperty { name: Seq<char> },
    TensorNoProperty { name: Seq<char> },
    ScalarValueNeedsScalar,
    ListNoSquare,
    StringNoSquare,
    IntNoLength,
    FloatNoLength,
    PopFromEmpty { role: Seq<char> },
    ResultiveNotList { role: Seq<char> },
    PushMessageNotList,
    CanvasOnlyMessage { name: Seq<char> },
    CanvasNoPush,
    Undefined { name: Seq<char> },
    AssignUndefined { name: Seq<char> },
    ArgumentNotInt { name: Seq<char> },
    ArgumentNotNumber { name: Seq<char> },
    ArgumentNotTensor { name: Seq<char> },
    ArgumentNotList { name: Seq<char> },
    ArgumentNotRecord { name: Seq<char> },
    NotModel,
    NotOptimizer,
    NotLoader,
    FieldNotBool { key: Seq<char> },
    FieldNotInt { key: Seq<char> },
    FieldNotNumber { key: Seq<char> },
    FieldNotString { key: Seq<char> },
    FieldBadType { key: Seq<char> },
    FieldMissing { key: Seq<char> },
    FieldMissingEither { first: Seq<char>, second: Seq<char> },
    SleepNegative,
    SleepNotNumber,
    ArityMismatch { name: Seq<char>, expected: usize, actual: usize },
    HostFailure { detail: Seq<char> },
    DepthExhausted,
}

impl View for ErrorKind {
    type V = ErrorView;

    open spec fn view(&self) -> ErrorView {
        match self {
            ErrorKind::AlreadyDefined { name } => ErrorView::AlreadyDefined { name: name@ },
            ErrorKind::ReturnOutsideFunction => ErrorView::ReturnOutsideFunction,
            ErrorKind::OutputWrite { detail } => ErrorView::OutputWrite { detail: detail@ },
            ErrorKind::OutputFlush { detail } => ErrorView::OutputFlush { detail: detail@ },
            ErrorKind::ConditionNotBool => ErrorView::ConditionNotBool,
            ErrorKind::LoopConditionNotBool => ErrorView::LoopConditionNotBool,
            ErrorKind::InvalidIntLiteral { raw } => ErrorView::InvalidIntLiteral { raw: raw@ },
            ErrorKind::InvalidFloatLiteral { raw } => ErrorView::InvalidFloatLiteral { raw: raw@ },
            ErrorKind::NegateNonNumber => ErrorView::NegateNonNumber,
            ErrorKind::NotNonBool => ErrorView::NotNonBool,
            ErrorKind::AddMismatch => ErrorView::AddMismatch,
            ErrorKind::NumericMismatch => ErrorView::NumericMismatch,
            ErrorKind::ComparisonMismatch => ErrorView::ComparisonMismatch,
            ErrorKind::ModuloNonInt => ErrorView::ModuloNonInt,
            ErrorKind::AndNonBool => ErrorView::AndNonBool,
            ErrorKind::OrNonBool => ErrorView::OrNonBool,
            ErrorKind::DivisionByZero => ErrorView::DivisionByZero,
            ErrorKind::IntegerOverflow => ErrorView::IntegerOverflow,
            ErrorKind::ArgumentCountMismatch { expected, actual } => ErrorView::ArgumentCountMismatch { expected: *expected, actual: *actual },
            ErrorKind::NotCallable => ErrorView::NotCallable,
            ErrorKind::UnknownNamedArgument { function, key } => ErrorView::UnknownNamedArgument { function: function@, key: key@ },
            ErrorKind::MissingNamedArgument { function, param } => ErrorView::MissingNamedArgument { function: function@, param: param@ },
            ErrorKind::NamedCallOnBuiltin { name } => ErrorView::NamedCallOnBuiltin { name: name@ },
            ErrorKind::LengthUnsupported => ErrorView::LengthUnsupported,
            ErrorKind::PushTargetNotList => ErrorView::PushTargetNotList,
            ErrorKind::PopLastFromEmpty => ErrorView::PopLastFromEmpty,
            ErrorKind::PopLastNotList => ErrorView::PopLastNotList,
            ErrorKind::StringToInt => ErrorView::StringToInt,
            ErrorKind::ToIntUnsupported => ErrorView::ToIntUnsupported,
            ErrorKind::StringToFloat => ErrorView::StringToFloat,
            ErrorKind::ToFloatUnsupported => ErrorView::ToFloatUnsupported,
            ErrorKind::NotLayerList => ErrorView::NotLayerList,
            ErrorKind::BatchSizeNotPositive => ErrorView::BatchSizeNotPositive,
            ErrorKind::InvalidDataset => ErrorView::InvalidDataset,
            ErrorKind::AdamNeedsParameters => ErrorView::AdamNeedsParameters,
            ErrorKind::LearningRateNotPositive => ErrorView::LearningRateNotPositive,
            ErrorKind::InvalidModel => ErrorView::InvalidModel,
            ErrorKind::AdamBuildFailed { detail } => ErrorView::AdamBuildFailed { detail: detail@ },
            ErrorKind::InvalidOptimizer => ErrorView::InvalidOptimizer,
            ErrorKind::LossNeedsLossFunction => ErrorView::LossNeedsLossFunction,
            ErrorKind::NegativeBatchIndex => ErrorView::NegativeBatchIndex,
            ErrorKind::InvalidLoader => ErrorView::InvalidLoader,
            ErrorKind::BatchIndexOutOfRange => ErrorView::BatchIndexOutOfRange,
            ErrorKind::NegativeIndex => ErrorView::NegativeIndex,
            ErrorKind::ListIndexOutOfRange => ErrorView::ListIndexOutOfRange,
            ErrorKind::StringIndexOutOfRange => ErrorView::StringIndexOutOfRange,
            ErrorKind::NotIndexable => ErrorView::NotIndexable,
            ErrorKind::PropertyWithArguments => ErrorView::PropertyWithArguments,
            ErrorKind::TransformWithArguments => ErrorView::TransformWithArguments,
            ErrorKind::ResultiveWithArguments => ErrorView::ResultiveWithArguments,
            ErrorKind::KeywordInExpression => ErrorView::KeywordInExpression,
            ErrorKind::MessageNotStatement => ErrorView::MessageNotStatement,
            ErrorKind::NoProperty { name } => ErrorView::NoProperty { name: name@ },
            ErrorKind::BatchNoProperty { name } => ErrorView::BatchNoProperty { name: name@ },
            ErrorKind::ModelNoProperty { name } => ErrorView::ModelNoProperty { name: name@ },
            ErrorKind::TensorNoProperty { name } => ErrorView::TensorNoProperty { name: name@ },
            ErrorKind::ScalarValueNeedsScalar => ErrorView::ScalarValueNeedsScalar,
            ErrorKind::ListNoSquare => ErrorView::ListNoSquare,
            ErrorKind::StringNoSquare => ErrorView::StringNoSquare,
            ErrorKind::IntNoLength => ErrorView::IntNoLength,
            ErrorKind::FloatNoLength => ErrorView::FloatNoLength,
            ErrorKind::PopFromEmpty { role } => ErrorView::PopFromEmpty { role: role@ },
            ErrorKind::ResultiveNotList { role } => ErrorView::ResultiveNotList { role: role@ },
            ErrorKind::PushMessageNotList => ErrorView::PushMessageNotList,
            ErrorKind::CanvasOnlyMessage { name } => ErrorView::CanvasOnlyMessage { name: name@ },
            ErrorKind::CanvasNoPush => ErrorView::CanvasNoPush,
            ErrorKind::Undefined { name } => ErrorView::Undefined { name: name@ },
            ErrorKind::AssignUndefined { name } => ErrorView::AssignUndefined { name: name@ },
            ErrorKind::ArgumentNotInt { name } => ErrorView::ArgumentNotInt { name: name@ },
            ErrorKind::ArgumentNotNumber { name } => ErrorView::ArgumentNotNumber { name: name@ },
            ErrorKind::ArgumentNotTensor { name } => ErrorView::ArgumentNotTensor { name: name@ },
            ErrorKind::ArgumentNotList { name } => ErrorView::ArgumentNotList { name: name@ },
            ErrorKind::ArgumentNotRecord { name } => ErrorView::ArgumentNotRecord { name: name@ },
            ErrorKind::NotModel => ErrorView::NotModel,
            ErrorKind::NotOptimizer => ErrorView::NotOptimizer,
            ErrorKind::NotLoader => ErrorView::NotLoader,
            ErrorKind::FieldNotBool { key } => ErrorView::FieldNotBool { key: key@ },
            ErrorKind::FieldNotInt { key } => ErrorView::FieldNotInt { key: key@ },
            ErrorKind::FieldNotNumber { key } => ErrorView::FieldNotNumber { key: key@ },
            ErrorKind::FieldNotString { key } => ErrorView::FieldNotString { key: key@ },
            ErrorKind::FieldBadType { key } => ErrorView::FieldBadType { key: key@ },
            ErrorKind::FieldMissing { key } => ErrorView::FieldMissing { key: key@ },
            ErrorKind::FieldMissingEither { first, second } => ErrorView::FieldMissingEither { first: first@, second: second@ },
            ErrorKind::SleepNegative => ErrorView::SleepNegative,
            ErrorKind::SleepNotNumber => ErrorView::SleepNotNumber,
            ErrorKind::ArityMismatch { name, expected, actual } => ErrorView::ArityMismatch { name: name@, expected: *expected, actual: *actual },
            ErrorKind::HostFailure { detail } => ErrorView::HostFailure { detail: detail@ },
            ErrorKind::DepthExhausted => ErrorView::DepthExhausted,
        }
    }
}

impl ErrorKind {
    /// The message text of an error of this kind.
    pub open spec fn spec_message(&self) -> Seq<char> {
        match self {
            ErrorKind::AlreadyDefined { name } => "`"@ + name@ + "`은(는) 현재 스코프에 이미 정의되어 있습니다."@,
            ErrorKind::ReturnOutsideFunction => "`돌려준다`는 함수 본문 안에서만 사용할 수 있습니다."@,
            ErrorKind::OutputWrite { detail } => "출력을 쓰지 못했습니다: "@ + detail@,
            ErrorKind::OutputFlush { detail } => "출력을 비우지 못했습니다: "@ + detail@,
            ErrorKind::ConditionNotBool => "조건식은 `참` 또는 `거짓`이어야 합니다."@,
            ErrorKind::LoopConditionNotBool => "반복 조건식은 `참` 또는 `거짓`이어야 합니다."@,
            ErrorKind::InvalidIntLiteral { raw } => "정수 리터럴 `"@ + raw@ + "`를 해석할 수 없습니다."@,
            ErrorKind::InvalidFloatLiteral { raw } => "실수 리터럴 `"@ + raw@ + "`를 해석할 수 없습니다."@,
            ErrorKind::NegateNonNumber => "단항 `-`는 숫자에만 사용할 수 있습니다."@,
            ErrorKind::NotNonBool => "`아니다`는 불리언 값에만 사용할 수 있습니다."@,
            ErrorKind::AddMismatch => "`+`는 숫자끼리 또는 문자열끼리만 사용할 수 있습니다."@,
            ErrorKind::NumericMismatch => "숫자 연산은 정수 또는 실수에만 사용할 수 있습니다."@,
            ErrorKind::ComparisonMismatch => "비교 연산은 숫자에만 사용할 수 있습니다."@,
            ErrorKind::ModuloNonInt => "`%`는 정수끼리만 사용할 수 있습니다."@,
            ErrorKind::AndNonBool => "`그리고`는 불리언 값에만 사용할 수 있습니다."@,
            ErrorKind::OrNonBool => "`또는`은 불리언 값에만 사용할 수 있습니다."@,
            ErrorKind::DivisionByZero => "정수를 0으로 나눌 수 없습니다."@,
            ErrorKind::IntegerOverflow => "정수 연산 결과가 범위를 벗어났습니다."@,
            ErrorKind::ArgumentCountMismatch { expected, actual } => "함수 인수 개수가 맞지 않습니다. 기대: "@ + nat_text(expected as nat) + ", 실제: "@ + nat_text(actual as nat),
            ErrorKind::NotCallable => "호출할 수 없는 값을 호출했습니다."@,
            ErrorKind::UnknownNamedArgument { function, key } => "`"@ + function@ + "` 함수에는 `"@ + key@ + "` 인수가 없습니다."@,
            ErrorKind::MissingNamedArgument { function, param } => "`"@ + function@ + "` 함수 호출에 `"@ + param@ + "` 인수가 필요합니다."@,
            ErrorKind::NamedCallOnBuiltin { name } => "`"@ + name@ + "`에는 아직 이름 붙은 호출을 사용할 수 없습니다."@,
            ErrorKind::LengthUnsupported => "`길이`는 목록, 문자열, 레코드에만 사용할 수 있습니다."@,
            ErrorKind::PushTargetNotList => "`추가`의 첫 번째 인수는 목록이어야 합니다."@,
            ErrorKind::PopLastFromEmpty => "빈 목록에서는 마지막 값을 꺼낼 수 없습니다."@,
            ErrorKind::PopLastNotList => "`마지막꺼내기`는 목록에만 사용할 수 있습니다."@,
            ErrorKind::StringToInt => "문자열을 정수로 바꿀 수 없습니다."@,
            ErrorKind::ToIntUnsupported => "`정수로`는 숫자 또는 문자열에만 사용할 수 있습니다."@,
            ErrorKind::StringToFloat => "문자열을 실수로 바꿀 수 없습니다."@,
            ErrorKind::ToFloatUnsupported => "`실수로`는 숫자 또는 문자열에만 사용할 수 있습니다."@,
            ErrorKind::NotLayerList => "`순차신경망`에는 레이어 목록만 전달할 수 있습니다."@,
            ErrorKind::BatchSizeNotPositive => "`배치크기`는 1 이상의 정수여야 합니다."@,
            ErrorKind::InvalidDataset => "유효하지 않은 데이터셋입니다."@,
            ErrorKind::AdamNeedsParameters => "`아담`의 첫 번째 인수는 모델의 `매개변수`여야 합니다."@,
            ErrorKind::LearningRateNotPositive => "학습률은 0보다 커야 합니다."@,
            ErrorKind::InvalidModel => "유효하지 않은 모델입니다."@,
            ErrorKind::AdamBuildFailed { detail } => "아담 최적화기 생성 실패: "@ + detail@,
            ErrorKind::InvalidOptimizer => "유효하지 않은 최적화기입니다."@,
            ErrorKind::LossNeedsLossFunction => "`손실계산`의 첫 번째 인수는 손실함수여야 합니다."@,
            ErrorKind::NegativeBatchIndex => "배치 인덱스는 0 이상의 정수여야 합니다."@,
            ErrorKind::InvalidLoader => "유효하지 않은 데이터로더입니다."@,
            ErrorKind::BatchIndexOutOfRange => "배치 인덱스가 범위를 벗어났습니다."@,
            ErrorKind::NegativeIndex => "인덱스는 0 이상의 정수여야 합니다."@,
            ErrorKind::ListIndexOutOfRange => "목록 인덱스가 범위를 벗어났습니다."@,
            ErrorKind::StringIndexOutOfRange => "문자열 인덱스가 범위를 벗어났습니다."@,
            ErrorKind::NotIndexable => "인덱싱은 목록 또는 문자열에만 사용할 수 있습니다."@,
            ErrorKind::PropertyWithArguments => "속성 메시지는 인수를 받을 수 없습니다."@,
            ErrorKind::TransformWithArguments => "변환 호출은 추가 인수를 받을 수 없습니다."@,
            ErrorKind::ResultiveWithArguments => "결과 서술 메시지는 추가 인수를 받을 수 없습니다."@,
            ErrorKind::KeywordInExpression => "키워드 메시지는 표현식 자리에서 사용할 수 없습니다."@,
            ErrorKind::MessageNotStatement => "이 메시지는 문장 자리에서 사용할 수 없습니다."@,
            ErrorKind::NoProperty { name } => "이 값에는 `"@ + name@ + "` 속성이 없습니다."@,
            ErrorKind::BatchNoProperty { name } => "배치에는 `"@ + name@ + "` 속성이 없습니다."@,
            ErrorKind::ModelNoProperty { name } => "모델에는 `"@ + name@ + "` 속성이 없습니다."@,
            ErrorKind::TensorNoProperty { name } => "텐서에는 `"@ + name@ + "` 속성이 없습니다."@,
            ErrorKind::ScalarValueNeedsScalar => "`값` 속성은 스칼라 텐서에서만 읽을 수 있습니다."@,
            ErrorKind::ListNoSquare => "목록에는 `제곱` 속성이 없습니다."@,
            ErrorKind::StringNoSquare => "문자열에는 `제곱` 속성이 없습니다."@,
            ErrorKind::IntNoLength => "정수에는 `길이` 속성이 없습니다."@,
            ErrorKind::FloatNoLength => "실수에는 `길이` 속성이 없습니다."@,
            ErrorKind::PopFromEmpty { role } => "빈 목록에서는 "@ + role@ + "를 꺼낼 수 없습니다."@,
            ErrorKind::ResultiveNotList { role } => "`"@ + role@ + "를 꺼낸` 결과 서술은 목록에만 사용할 수 있습니다."@,
            ErrorKind::PushMessageNotList => "`추가` 메시지는 목록에만 보낼 수 있습니다."@,
            ErrorKind::CanvasOnlyMessage { name } => "`"@ + name@ + "` 메시지는 그림판에만 보낼 수 있습니다."@,
            ErrorKind::CanvasNoPush => "`그림판`은 `추가` 동작을 지원하지 않습니다."@,
            ErrorKind::Undefined { name } => "`"@ + name@ + "`은(는) 아직 정의되지 않았습니다."@,
            ErrorKind::AssignUndefined { name } => "`"@ + name@ + "`를 바꿀 수 없습니다. 이 이름이 현재 스코프에 없습니다."@,
            ErrorKind::ArgumentNotInt { name } => "`"@ + name@ + "` 인수는 정수여야 합니다."@,
            ErrorKind::ArgumentNotNumber { name } => "`"@ + name@ + "` 인수는 숫자여야 합니다."@,
            ErrorKind::ArgumentNotTensor { name } => "`"@ + name@ + "` 인수는 텐서여야 합니다."@,
            ErrorKind::ArgumentNotList { name } => "`"@ + name@ + "` 인수는 목록이어야 합니다."@,
            ErrorKind::ArgumentNotRecord { name } => "`"@ + name@ + "` 인수는 레코드여야 합니다."@,
            ErrorKind::NotModel => "이 값은 모델이어야 합니다."@,
            ErrorKind::NotOptimizer => "이 값은 최적화기여야 합니다."@,
            ErrorKind::NotLoader => "이 값은 데이터로더여야 합니다."@,
            ErrorKind::FieldNotBool { key } => "`"@ + key@ + "` 필드는 불리언이어야 합니다."@,
            ErrorKind::FieldNotInt { key } => "`"@ + key@ + "` 필드는 정수여야 합니다."@,
            ErrorKind::FieldNotNumber { key } => "`"@ + key@ + "` 필드는 숫자여야 합니다."@,
            ErrorKind::FieldNotString { key } => "`"@ + key@ + "` 필드는 문자열이어야 합니다."@,
            ErrorKind::FieldBadType { key } => "`"@ + key@ + "` 필드 타입이 올바르지 않습니다."@,
            ErrorKind::FieldMissing { key } => "`"@ + key@ + "` 필드가 필요합니다."@,
            ErrorKind::FieldMissingEither { first, second } => "`"@ + first@ + "` 또는 `"@ + second@ + "` 필드가 필요합니다."@,
            ErrorKind::SleepNegative => "`쉬기` 시간은 0 이상의 값이어야 합니다."@,
            ErrorKind::SleepNotNumber => "`쉬기` 시간은 숫자여야 합니다."@,
            ErrorKind::ArityMismatch { name, expected, actual } => "`"@ + name@ + "` 함수 인수 개수가 맞지 않습니다. 기대: "@ + nat_text(expected as nat) + ", 실제: "@ + nat_text(actual as nat),
            ErrorKind::HostFailure { detail } => detail@,
            ErrorKind::DepthExhausted => "실행 깊이 한도를 넘었습니다."@,
        }
    }

    /// The message text of an error of this kind.
    pub fn message(&self) -> (r: String)
        ensures
            r@ == self.spec_message(),
    {
        match self {
            ErrorKind::AlreadyDefined { name } => {
                let mut s = String::from_str("`");
                s.append(name.as_str());
                s.append("`은(는) 현재 스코프에 이미 정의되어 있습니다.");
                s
            },
            ErrorKind::ReturnOutsideFunction => {
                let mut s = String::from_str("`돌려준다`는 함수 본문 안에서만 사용할 수 있습니다.");
                s
            },
            ErrorKind::OutputWrite { detail } => {
                let mut s = String::from_str("출력을 쓰지 못했습니다: ");
                s.append(detail.as_str());
                s
            },
            ErrorKind::OutputFlush { detail } => {
                let mut s = String::from_str("출력을 비우지 못했습니다: ");
                s.append(detail.as_str());
                s
            },
            ErrorKind::ConditionNotBool => {
                let mut s = String::from_str("조건식은 `참` 또는 `거짓`이어야 합니다.");
                s
            },
            ErrorKind::LoopConditionNotBool => {
                let mut s = String::from_str("반복 조건식은 `참` 또는 `거짓`이어야 합니다.");
                s
            },
            ErrorKind::InvalidIntLiteral { raw } => {
                let mut s = String::from_str("정수 리터럴 `");
                s.append(raw.as_str());
                s.append("`를 해석할 수 없습니다.");
                s
            },
            ErrorKind::InvalidFloatLiteral { raw } => {
                let mut s = String::from_str("실수 리터럴 `");
                s.append(raw.as_str());
                s.append("`를 해석할 수 없습니다.");
                s
            },
            ErrorKind::NegateNonNumber => {
                let mut s = String::from_str("단항 `-`는 숫자에만 사용할 수 있습니다.");
                s
            },
            ErrorKind::NotNonBool => {
                let mut s = String::from_str("`아니다`는 불리언 값에만 사용할 수 있습니다.");
                s
            },
            ErrorKind::AddMismatch => {
                let mut s = String::from_str("`+`는 숫자끼리 또는 문자열끼리만 사용할 수 있습니다.");
                s
            },
            ErrorKind::NumericMismatch => {
                let mut s = String::from_str("숫자 연산은 정수 또는 실수에만 사용할 수 있습니다.");
                s
            },
            ErrorKind::ComparisonMismatch => {
                let mut s = String::from_str("비교 연산은 숫자에만 사용할 수 있습니다.");
                s
            },
            ErrorKind::ModuloNonInt => {
                let mut s = String::from_str("`%`는 정수끼리만 사용할 수 있습니다.");
                s
            },
            ErrorKind::AndNonBool => {
                let mut s = String::from_str("`그리고`는 불리언 값에만 사용할 수 있습니다.");
                s
            },
            ErrorKind::OrNonBool => {
                let mut s = String::from_str("`또는`은 불리언 값에만 사용할 수 있습니다.");
                s
            },
            ErrorKind::DivisionByZero => {
                let mut s = String::from_str("정수를 0으로 나눌 수 없습니다.");
                s
            },
            ErrorKind::IntegerOverflow => {
                let mut s = String::from_str("정수 연산 결과가 범위를 벗어났습니다.");
                s
            },
            ErrorKind::ArgumentCountMismatch { expected, actual } => {
                let mut s = String::from_str("함수 인수 개수가 맞지 않습니다. 기대: ");
                let t_expected = usize_to_text(*expected);
                s.append(t_expected.as_str());
                s.append(", 실제: ");
                let t_actual = usize_to_text(*actual);
                s.append(t_actual.as_str());
                s
            },
            ErrorKind::NotCallable => {
                let mut s = String::from_str("호출할 수 없는 값을 호출했습니다.");
                s
            },
            ErrorKind::UnknownNamedArgument { function, key } => {
                let mut s = String::from_str("`");
                s.append(function.as_str());
                s.append("` 함수에는 `");
                s.append(key.as_str());
                s.append("` 인수가 없습니다.");
                s
            },
            ErrorKind::MissingNamedArgument { function, param } => {
                let mut s = String::from_str("`");
                s.append(function.as_str());
                s.append("` 함수 호출에 `");
                s.append(param.as_str());
                s.append("` 인수가 필요합니다.");
                s
            },
            ErrorKind::NamedCallOnBuiltin { name } => {
                let mut s = String::from_str("`");
                s.append(name.as_str());
                s.append("`에는 아직 이름 붙은 호출을 사용할 수 없습니다.");
                s
            },
            ErrorKind::LengthUnsupported => {
                let mut s = String::from_str("`길이`는 목록, 문자열, 레코드에만 사용할 수 있습니다.");
                s
            },
            ErrorKind::PushTargetNotList => {
                let mut s = String::from_str("`추가`의 첫 번째 인수는 목록이어야 합니다.");
                s
            },
            ErrorKind::PopLastFromEmpty => {
                let mut s = String::from_str("빈 목록에서는 마지막 값을 꺼낼 수 없습니다.");
                s
            },
            ErrorKind::PopLastNotList => {
                let mut s = String::from_str("`마지막꺼내기`는 목록에만 사용할 수 있습니다.");
                s
            },
            ErrorKind::StringToInt => {
                let mut s = String::from_str("문자열을 정수로 바꿀 수 없습니다.");
                s
            },
            ErrorKind::ToIntUnsupported => {
                let mut s = String::from_str("`정수로`는 숫자 또는 문자열에만 사용할 수 있습니다.");
                s
            },
            ErrorKind::StringToFloat => {
                let mut s = String::from_str("문자열을 실수로 바꿀 수 없습니다.");
                s
            },
            ErrorKind::ToFloatUnsupported => {
                let mut s = String::from_str("`실수로`는 숫자 또는 문자열에만 사용할 수 있습니다.");
                s
            },
            ErrorKind::NotLayerList => {
                let mut s = String::from_str("`순차신경망`에는 레이어 목록만 전달할 수 있습니다.");
                s
            },
            ErrorKind::BatchSizeNotPositive => {
                let mut s = String::from_str("`배치크기`는 1 이상의 정수여야 합니다.");
                s
            },
            ErrorKind::InvalidDataset => {
                let mut s = String::from_str("유효하지 않은 데이터셋입니다.");
                s
            },
            ErrorKind::AdamNeedsParameters => {
                let mut s = String::from_str("`아담`의 첫 번째 인수는 모델의 `매개변수`여야 합니다.");
                s
            },
            ErrorKind::LearningRateNotPositive => {
                let mut s = String::from_str("학습률은 0보다 커야 합니다.");
                s
            },
            ErrorKind::InvalidModel => {
                let mut s = String::from_str("유효하지 않은 모델입니다.");
                s
            },
            ErrorKind::AdamBuildFailed { detail } => {
                let mut s = String::from_str("아담 최적화기 생성 실패: ");
                s.append(detail.as_str());
                s
            },
            ErrorKind::InvalidOptimizer => {
                let mut s = String::from_str("유효하지 않은 최적화기입니다.");
                s
            },
            ErrorKind::LossNeedsLossFunction => {
                let mut s = String::from_str("`손실계산`의 첫 번째 인수는 손실함수여야 합니다.");
                s
            },
            ErrorKind::NegativeBatchIndex => {
                let mut s = String::from_str("배치 인덱스는 0 이상의 정수여야 합니다.");
                s
            },
            ErrorKind::InvalidLoader => {
                let mut s = String::from_str("유효하지 않은 데이터로더입니다.");
                s
            },
            ErrorKind::BatchIndexOutOfRange => {
                let mut s = String::from_str("배치 인덱스가 범위를 벗어났습니다.");
                s
            },
            ErrorKind::NegativeIndex => {
                let mut s = String::from_str("인덱스는 0 이상의 정수여야 합니다.");
                s
            },
            ErrorKind::ListIndexOutOfRange => {
                let mut s = String::from_str("목록 인덱스가 범위를 벗어났습니다.");
                s
            },
            ErrorKind::StringIndexOutOfRange => {
                let mut s = String::from_str("문자열 인덱스가 범위를 벗어났습니다.");
                s
            },
            ErrorKind::NotIndexable => {
                let mut s = String::from_str("인덱싱은 목록 또는 문자열에만 사용할 수 있습니다.");
                s
            },
            ErrorKind::PropertyWithArguments => {
                let mut s = String::from_str("속성 메시지는 인수를 받을 수 없습니다.");
                s
            },
            ErrorKind::TransformWithArguments => {
                let mut s = String::from_str("변환 호출은 추가 인수를 받을 수 없습니다.");
                s
            },
            ErrorKind::ResultiveWithArguments => {
                let mut s = String::from_str("결과 서술 메시지는 추가 인수를 받을 수 없습니다.");
                s
            },
            ErrorKind::KeywordInExpression => {
                let mut s = String::from_str("키워드 메시지는 표현식 자리에서 사용할 수 없습니다.");
                s
            },
            ErrorKind::MessageNotStatement => {
                let mut s = String::from_str("이 메시지는 문장 자리에서 사용할 수 없습니다.");
                s
            },
            ErrorKind::NoProperty { name } => {
                let mut s = String::from_str("이 값에는 `");
                s.append(name.as_str());
                s.append("` 속성이 없습니다.");
                s
            },
            ErrorKind::BatchNoProperty { name } => {
                let mut s = String::from_str("배치에는 `");
                s.append(name.as_str());
                s.append("` 속성이 없습니다.");
                s
            },
            ErrorKind::ModelNoProperty { name } => {
                let mut s = String::from_str("모델에는 `");
                s.append(name.as_str());
                s.append("` 속성이 없습니다.");
                s
            },
            ErrorKind::TensorNoProperty { name } => {
                let mut s = String::from_str("텐서에는 `");
                s.append(name.as_str());
                s.append("` 속성이 없습니다.");
                s
            },
            ErrorKind::ScalarValueNeedsScalar => {
                let mut s = String::from_str("`값` 속성은 스칼라 텐서에서만 읽을 수 있습니다.");
                s
            },
            ErrorKind::ListNoSquare => {
                let mut s = String::from_str("목록에는 `제곱` 속성이 없습니다.");
                s
            },
            ErrorKind::StringNoSquare => {
                let mut s = String::from_str("문자열에는 `제곱` 속성이 없습니다.");
                s
            },
            ErrorKind::IntNoLength => {
                let mut s = String::from_str("정수에는 `길이` 속성이 없습니다.");
                s
            },
            ErrorKind::FloatNoLength => {
                let mut s = String::from_str("실수에는 `길이` 속성이 없습니다.");
                s
            },
            ErrorKind::PopFromEmpty { role } => {
                let mut s = String::from_str("빈 목록에서는 ");
                s.append(role.as_str());
                s.append("를 꺼낼 수 없습니다.");
                s
            },
            ErrorKind::ResultiveNotList { role } => {
                let mut s = String::from_str("`");
                s.append(role.as_str());
                s.append("를 꺼낸` 결과 서술은 목록에만 사용할 수 있습니다.");
                s
            },
            ErrorKind::PushMessageNotList => {
                let mut s = String::from_str("`추가` 메시지는 목록에만 보낼 수 있습니다.");
                s
            },
            ErrorKind::CanvasOnlyMessage { name } => {
                let mut s = String::from_str("`");
                s.append(name.as_str());
                s.append("` 메시지는 그림판에만 보낼 수 있습니다.");
                s
            },
            ErrorKind::CanvasNoPush => {
                let mut s = String::from_str("`그림판`은 `추가` 동작을 지원하지 않습니다.");
                s
            },
            ErrorKind::Undefined { name } => {
                let mut s = String::from_str("`");
                s.append(name.as_str());
                s.append("`은(는) 아직 정의되지 않았습니다.");
                s
            },
            ErrorKind::AssignUndefined { name } => {
                let mut s = String::from_str("`");
                s.append(name.as_str());
                s.append("`를 바꿀 수 없습니다. 이 이름이 현재 스코프에 없습니다.");
                s
            },
            ErrorKind::ArgumentNotInt { name } => {
                let mut s = String::from_str("`");
                s.append(name.as_str());
                s.append("` 인수는 정수여야 합니다.");
                s
            },
            ErrorKind::ArgumentNotNumber { name } => {
                let mut s = String::from_str("`");
                s.append(name.as_str());
                s.append("` 인수는 숫자여야 합니다.");
                s
            },
            ErrorKind::ArgumentNotTensor { name } => {
                let mut s = String::from_str("`");
                s.append(name.as_str());
                s.append("` 인수는 텐서여야 합니다.");
                s
            },
            ErrorKind::ArgumentNotList { name } => {
                let mut s = String::from_str("`");
                s.append(name.as_str());
                s.append("` 인수는 목록이어야 합니다.");
                s
            },
            ErrorKind::ArgumentNotRecord { name } => {
                let mut s = String::from_str("`");
                s.append(name.as_str());
                s.append("` 인수는 레코드여야 합니다.");
                s
            },
            ErrorKind::NotModel => {
                let mut s = String::from_str("이 값은 모델이어야 합니다.");
                s
            },
            ErrorKind::NotOptimizer => {
                let mut s = String::from_str("이 값은 최적화기여야 합니다.");
                s
            },
            ErrorKind::NotLoader => {
                let mut s = String::from_str("이 값은 데이터로더여야 합니다.");
                s
            },
            ErrorKind::FieldNotBool { key } => {
                let mut s = String::from_str("`");
                s.append(key.as_str());
                s.append("` 필드는 불리언이어야 합니다.");
                s
            },
            ErrorKind::FieldNotInt { key } => {
                let mut s = String::from_str("`");
                s.append(key.as_str());
                s.append("` 필드는 정수여야 합니다.");
                s
            },
            ErrorKind::FieldNotNumber { key } => {
                let mut s = String::from_str("`");
                s.append(key.as_str());
                s.append("` 필드는 숫자여야 합니다.");
                s
            },
            ErrorKind::FieldNotString { key } => {
                let mut s = String::from_str("`");
                s.append(key.as_str());
                s.append("` 필드는 문자열이어야 합니다.");
                s
            },
            ErrorKind::FieldBadType { key } => {
                let mut s = String::from_str("`");
                s.append(key.as_str());
                s.append("` 필드 타입이 올바르지 않습니다.");
                s
            },
            ErrorKind::FieldMissing { key } => {
                let mut s = String::from_str("`");
                s.append(key.as_str());
                s.append("` 필드가 필요합니다.");
                s
            },
            ErrorKind::FieldMissingEither { first, second } => {
                let mut s = String::from_str("`");
                s.append(first.as_str());
                s.append("` 또는 `");
                s.append(second.as_str());
                s.append("` 필드가 필요합니다.");
                s
            },
            ErrorKind::SleepNegative => {
                let mut s = String::from_str("`쉬기` 시간은 0 이상의 값이어야 합니다.");
                s
            },
            ErrorKind::SleepNotNumber => {
                let mut s = String::from_str("`쉬기` 시간은 숫자여야 합니다.");
                s
            },
            ErrorKind::ArityMismatch { name, expected, actual } => {
                let mut s = String::from_str("`");
                s.append(name.as_str());
                s.append("` 함수 인수 개수가 맞지 않습니다. 기대: ");
                let t_expected = usize_to_text(*expected);
                s.append(t_expected.as_str());
                s.append(", 실제: ");
                let t_actual = usize_to_text(*actual);
                s.append(t_actual.as_str());
                s
            },
            ErrorKind::HostFailure { detail } => {
                let mut s = String::from_str(detail.as_str());
                s
            },
            ErrorKind::DepthExhausted => {
                let mut s = String::from_str("실행 깊이 한도를 넘었습니다.");
                s
            },
        }
    }
}

/// A call the error passed through on its way out: the function's name
/// and where it was called.
#[derive(Debug)]
pub struct CallFrame {
    pub name: String,
    pub span: Option<Span>,
}

/// An error raised while running a program.
#[derive(Debug)]
pub struct RuntimeError {
    pub kind: ErrorKind,
    pub span: Option<Span>,
    pub call_stack: Vec<CallFrame>,
}

impl RuntimeError {
    /// An error of the given kind, with no location yet.
    pub fn new(kind: ErrorKind) -> (r: RuntimeError)
        ensures
            r.kind == kind,
            r.span is None,
            r.call_stack@.len() == 0,
    {
        RuntimeError { kind, span: None, call_stack: Vec::new() }
    }

    /// An error of the given kind at the given location.
    pub fn with_span(kind: ErrorKind, span: Option<Span>) -> (r: RuntimeError)
        ensures
            r.kind == kind,
            r.span == span,
            r.call_stack@.len() == 0,
    {
        RuntimeError { kind, span, call_stack: Vec::new() }
    }

    /// Gives the error a location if it has none yet.
    pub fn with_fallback_span(self, span: Option<Span>) -> (r: RuntimeError)
        ensures
            r.kind == self.kind,
            r.call_stack@ == self.call_stack@,
            r.span == (if self.span is Some { self.span } else { span }),
    {
        let RuntimeError { kind, span: own, call_stack } = self;
        match own {
            Some(s) => RuntimeError { kind, span: Some(s), call_stack },
            None => RuntimeError { kind, span, call_stack },
        }
    }

    /// Records that the error left the function `name` called at `span`.
    pub fn with_call_frame(self, name: String, span: Option<Span>) -> (r: RuntimeError)
        ensures
            r.kind == self.kind,
            r.span == self.span,
            r.call_stack@.len() == self.call_stack@.len() + 1,
            forall|i: int| 0 <= i < self.call_stack@.len() ==> r.call_stack@[i] == self.call_stack@[i],
            r.call_stack@.last().name@ == name@,
            r.call_stack@.last().span == span,
    {
        let RuntimeError { kind, span: own, mut call_stack } = self;
        call_stack.push(CallFrame { name, span });
        RuntimeError { kind, span: own, call_stack }
    }

    /// The error's message text.
    pub fn message(&self) -> (r: String)
        ensures
            r@ == self.kind.spec_message(),
    {
        self.kind.message()
    }
}

} // verus!
