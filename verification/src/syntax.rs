//! The resolved program tree that the interpreter walks.
use std::rc::Rc;
use vstd::prelude::*;

verus! {

/// A source location attached to statements, expressions and errors.
#[derive(Clone, Copy, Debug, PartialEq, Eq, Structural)]
pub struct Span {
    pub line: usize,
    pub column: usize,
}

/// Prefix operators.
#[derive(Clone, Copy, Debug, PartialEq, Eq, Structural)]
pub enum UnaryOp {
    Negate,
    Not,
}

/// Infix operators.
#[derive(Clone, Copy, Debug, PartialEq, Eq, Structural)]
pub enum BinaryOp {
    Add,
    Subtract,
    Multiply,
    Divide,
    Modulo,
    Equal,
    NotEqual,
    Less,
    LessEqual,
    Greater,
    GreaterEqual,
    And,
    Or,
}

/// Messages read as properties (`목록의 길이`).
#[derive(Clone, Copy, Debug, PartialEq, Eq, Structural)]
pub enum UnaryMessage {
    Length,
    Square,
}

/// Arithmetic messages with one argument.
#[derive(Clone, Copy, Debug, PartialEq, Eq, Structural)]
pub enum WordMessage {
    Add,
    Subtract,
    Multiply,
    Divide,
}

/// Messages sent in statement position.
#[derive(Clone, Copy, Debug, PartialEq, Eq, Structural)]
pub enum KeywordMessage {
    Push,
    CanvasClear,
    CanvasDot,
    CanvasFillRect,
    CanvasFillText,
}

/// Messages that describe a result (`목록에서 맨 뒤 값을 꺼낸 것`).
#[derive(Clone, Copy, Debug, PartialEq, Eq, Structural)]
pub enum ResultiveMessage {
    PopTopElement,
    PopBackElement,
    PopFrontElement,
}

/// How a message send names what it asks for.
#[derive(Clone, Debug)]
pub enum SendSelector {
    Property(String),
    Transform(String),
    Word(WordMessage),
    Resultive(ResultiveMessage),
    Keyword(KeywordMessage),
}

/// One `key: value` entry of a record literal.
#[derive(Debug)]
pub struct RecordEntry {
    pub key: String,
    pub value: Expr,
}

/// Expressions.
#[derive(Debug)]
pub enum Expr {
    Name { name: String, span: Option<Span> },
    Int { raw: String, span: Option<Span> },
    Float { raw: String, span: Option<Span> },
    Str { value: String, span: Option<Span> },
    Bool { value: bool, span: Option<Span> },
    Nothing { span: Option<Span> },
    List { items: Vec<Expr>, span: Option<Span> },
    Record { entries: Vec<RecordEntry>, span: Option<Span> },
    Unary { op: UnaryOp, expr: Box<Expr>, span: Option<Span> },
    Binary { left: Box<Expr>, op: BinaryOp, right: Box<Expr>, span: Option<Span> },
    Call { callee: Box<Expr>, args: Vec<Expr>, span: Option<Span> },
    Send { receiver: Box<Expr>, selector: SendSelector, args: Vec<Expr>, span: Option<Span> },
    Index { base: Box<Expr>, index: Box<Expr>, span: Option<Span> },
}

/// Statements.
#[derive(Debug)]
pub enum Stmt {
    Bind { name: String, value: Expr, span: Option<Span> },
    Assign { name: String, value: Expr, span: Option<Span> },
    Print { value: Expr, span: Option<Span> },
    Sleep { duration_seconds: Expr, span: Option<Span> },
    Return { value: Expr, span: Option<Span> },
    If { condition: Expr, then_block: Vec<Stmt>, else_block: Option<Vec<Stmt>>, span: Option<Span> },
    While { condition: Expr, body: Vec<Stmt>, span: Option<Span> },
    FunctionDef { name: String, params: Vec<String>, body: Rc<Vec<Stmt>>, span: Option<Span> },
    Send { receiver: Expr, selector: SendSelector, args: Vec<Expr>, span: Option<Span> },
    NamedCall { callee: Expr, named_args: Expr, span: Option<Span> },
    Expr { expr: Expr, span: Option<Span> },
}

/// A whole program: its top-level statements.
#[derive(Debug)]
pub struct Program {
    pub statements: Vec<Stmt>,
}

impl Expr {
    pub open spec fn spec_span(&self) -> Option<Span> {
        match self {
            Expr::Name { span, .. } => *span,
            Expr::Int { span, .. } => *span,
            Expr::Float { span, .. } => *span,
            Expr::Str { span, .. } => *span,
            Expr::Bool { span, .. } => *span,
            Expr::Nothing { span } => *span,
            Expr::List { span, .. } => *span,
            Expr::Record { span, .. } => *span,
            Expr::Unary { span, .. } => *span,
            Expr::Binary { span, .. } => *span,
            Expr::Call { span, .. } => *span,
            Expr::Send { span, .. } => *span,
            Expr::Index { span, .. } => *span,
        }
    }

    /// The expression's source location, if it has one.
    #[verifier::when_used_as_spec(spec_span)]
    pub fn span(&self) -> (r: Option<Span>)
        ensures
            r == self.spec_span(),
    {
        match self {
            Expr::Name { span, .. } => *span,
            Expr::Int { span, .. } => *span,
            Expr::Float { span, .. } => *span,
            Expr::Str { span, .. } => *span,
            Expr::Bool { span, .. } => *span,
            Expr::Nothing { span } => *span,
            Expr::List { span, .. } => *span,
            Expr::Record { span, .. } => *span,
            Expr::Unary { span, .. } => *span,
            Expr::Binary { span, .. } => *span,
            Expr::Call { span, .. } => *span,
            Expr::Send { span, .. } => *span,
            Expr::Index { span, .. } => *span,
        }
    }
}

impl Stmt {
    pub open spec fn spec_span(&self) -> Option<Span> {
        match self {
            Stmt::Bind { span, .. } => *span,
            Stmt::Assign { span, .. } => *span,
            Stmt::Print { span, .. } => *span,
            Stmt::Sleep { span, .. } => *span,
            Stmt::Return { span, .. } => *span,
            Stmt::If { span, .. } => *span,
            Stmt::While { span, .. } => *span,
            Stmt::FunctionDef { span, .. } => *span,
            Stmt::Send { span, .. } => *span,
            Stmt::NamedCall { span, .. } => *span,
            Stmt::Expr { span, .. } => *span,
        }
    }

    /// The statement's source location, if it has one.
    #[verifier::when_used_as_spec(spec_span)]
    pub fn span(&self) -> (r: Option<Span>)
        ensures
            r == self.spec_span(),
    {
        match self {
            Stmt::Bind { span, .. } => *span,
            Stmt::Assign { span, .. } => *span,
            Stmt::Print { span, .. } => *span,
            Stmt::Sleep { span, .. } => *span,
            Stmt::Return { span, .. } => *span,
            Stmt::If { span, .. } => *span,
            Stmt::While { span, .. } => *span,
            Stmt::FunctionDef { span, .. } => *span,
            Stmt::Send { span, .. } => *span,
            Stmt::NamedCall { span, .. } => *span,
            Stmt::Expr { span, .. } => *span,
        }
    }
}

/// The property name that stands for a unary message, if any.
pub open spec fn spec_unary_message_for_property(name: Seq<char>) -> Option<UnaryMessage> {
    if name == "길이"@ {
        Some(UnaryMessage::Length)
    } else if name == "제곱"@ {
        Some(UnaryMessage::Square)
    } else {
        None
    }
}

/// Maps a property name to the unary message it stands for.
pub fn unary_message_for_property(name: &str) -> (r: Option<UnaryMessage>)
    ensures
        r == spec_unary_message_for_property(name@),
{
    if crate::text::str_equal(name, "길이") {
        Some(UnaryMessage::Length)
    } else if crate::text::str_equal(name, "제곱") {
        Some(UnaryMessage::Square)
    } else {
        None
    }
}

impl WordMessage {
    pub open spec fn spec_name(self) -> Seq<char> {
        match self {
            WordMessage::Add => "더하기"@,
            WordMessage::Subtract => "빼기"@,
            WordMessage::Multiply => "곱하기"@,
            WordMessage::Divide => "나누기"@,
        }
    }

    /// The message's name as written in programs.
    pub fn name(self) -> (r: &'static str)
        ensures
            r@ == self.spec_name(),
    {
        match self {
            WordMessage::Add => "더하기",
            WordMessage::Subtract => "빼기",
            WordMessage::Multiply => "곱하기",
            WordMessage::Divide => "나누기",
        }
    }

    pub open spec fn spec_binary_op(self) -> BinaryOp {
        match self {
            WordMessage::Add => BinaryOp::Add,
            WordMessage::Subtract => BinaryOp::Subtract,
            WordMessage::Multiply => BinaryOp::Multiply,
            WordMessage::Divide => BinaryOp::Divide,
        }
    }
}

impl KeywordMessage {
    pub open spec fn spec_name(self) -> Seq<char> {
        match self {
            KeywordMessage::Push => "추가"@,
            KeywordMessage::CanvasClear => "지우기"@,
            KeywordMessage::CanvasDot => "점찍기"@,
            KeywordMessage::CanvasFillRect => "사각형채우기"@,
            KeywordMessage::CanvasFillText => "글자쓰기"@,
        }
    }

    /// The message's name as written in programs.
    pub fn name(self) -> (r: &'static str)
        ensures
            r@ == self.spec_name(),
    {
        match self {
            KeywordMessage::Push => "추가",
            KeywordMessage::CanvasClear => "지우기",
            KeywordMessage::CanvasDot => "점찍기",
            KeywordMessage::CanvasFillRect => "사각형채우기",
            KeywordMessage::CanvasFillText => "글자쓰기",
        }
    }
}

impl ResultiveMessage {
    pub open spec fn spec_role(self) -> Seq<char> {
        match self {
            ResultiveMessage::PopTopElement => "맨 위 값"@,
            ResultiveMessage::PopBackElement => "맨 뒤 값"@,
            ResultiveMessage::PopFrontElement => "맨 앞 값"@,
        }
    }

    /// The role word that the message's error texts use.
    pub fn role(self) -> (r: &'static str)
        ensures
            r@ == self.spec_role(),
    {
        match self {
            ResultiveMessage::PopTopElement => "맨 위 값",
            ResultiveMessage::PopBackElement => "맨 뒤 값",
            ResultiveMessage::PopFrontElement => "맨 앞 값",
        }
    }
}

} // verus!
