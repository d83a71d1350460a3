use vstd::prelude::*;

verus! {

/// The value of a floating-point literal. The library holds no floating-point
/// numbers: a decimal literal keeps the text that was scanned for it (digits,
/// point, exponent), and its value is what `f64` parsing gives for that text,
/// or 0.0 where the text does not parse.
#[derive(Clone, Debug, PartialEq)]
pub enum FloatLiteral {
    Decimal { text: String },
    NotANumber,
    Infinity,
}

/// The lexical category of a token, with the value that a literal carries.
#[derive(Clone, Debug, PartialEq)]
#[allow(inconsistent_fields)]
pub enum SyntaxTokenType {
    EndOfFileToken,
    BadToken,
    WhiteSpace,
    // punctuation
    TildeToken,
    AmpersandToken,
    AmpersandAmpersandToken,
    AmpersandEqualsToken,
    BarToken,
    BarBarToken,
    BarEqualsToken,
    CaretToken,
    CaretEqualsToken,
    QuestionToken,
    OpenParenToken,
    CloseParenToken,
    OpenBracketToken,
    CloseBracketToken,
    OpenBraceToken,
    CloseBraceToken,
    DotToken,
    PlusToken,
    PlusPlusToken,
    PlusEqualsToken,
    MinusToken,
    MinusMinusToken,
    MinusEqualsToken,
    AsteriskToken,
    AsteriskEqualsToken,
    SlashToken,
    SlashEqualsToken,
    PercentToken,
    PercentEqualsToken,
    CommaToken,
    SemiToken,
    ColonToken,
    ColonColonToken,
    EqualsToken,
    EqualsEqualsToken,
    NotToken,
    ExclamationEqualsToken,
    LessThanToken,
    LessThanLessThanToken,
    LessThanEqualsToken,
    LessThanLessThanEqualsToken,
    GreaterThanToken,
    GreaterThanGreaterThanToken,
    GreaterThanEqualsToken,
    GreaterThanGreaterThanEqualsToken,
    // literals
    IntegerLiteralToken { value: i128 },
    FloatLiteralToken { value: FloatLiteral },
    CharacterLiteralToken { value: char },
    StringLiteralToken { value: String },
    IdentifierToken { text: String },
    // keywords
    BoolKeyword,
    BreakKeyword,
    BufferKeyword,
    CaseKeyword,
    CBufferKeyword,
    ConstKeyword,
    ContinueKeyword,
    DefaultKeyword,
    DiscardKeyword,
    DoKeyword,
    DoubleKeyword,
    ElseKeyword,
    ExternKeyword,
    FalseKeyword,
    FloatKeyword,
    ForKeyword,
    GroupSharedKeyword,
    HalfKeyword,
    IfKeyword,
    InKeyword,
    InlineKeyword,
    InOutKeyword,
    IntKeyword,
    MatrixKeyword,
    NamespaceKeyword,
    OutKeyword,
    RegisterKeyword,
    ReturnKeyword,
    SamplerKeyword,
    StaticKeyword,
    StructKeyword,
    SwitchKeyword,
    TBufferKeyword,
    TrueKeyword,
    TypedefKeyword,
    UIntKeyword,
    UniformKeyword,
    VectorKeyword,
    VoidKeyword,
    VolatileKeyword,
    WhileKeyword,
}

/// One token of a token sequence.
#[derive(Clone, Debug, PartialEq)]
pub struct SyntaxToken {
    pub token_type: SyntaxTokenType,
}

/// What a floating-point literal denotes, with its text as characters.
pub enum FloatView {
    Decimal(Seq<char>),
    NotANumber,
    Infinity,
}

/// What a token denotes: the kind itself where its payload is a plain value,
/// else the payload's characters.
pub enum TokenView {
    Fixed(SyntaxTokenType),
    Float(FloatView),
    Str(Seq<char>),
    Ident(Seq<char>),
}

impl FloatLiteral {
    pub open spec fn view(&self) -> FloatView {
        match self {
            FloatLiteral::Decimal { text } => FloatView::Decimal(text@),
            FloatLiteral::NotANumber => FloatView::NotANumber,
            FloatLiteral::Infinity => FloatView::Infinity,
        }
    }
}

impl SyntaxTokenType {
    pub open spec fn view(&self) -> TokenView {
        match self {
            SyntaxTokenType::FloatLiteralToken { value } => TokenView::Float(value.view()),
            SyntaxTokenType::StringLiteralToken { value } => TokenView::Str(value@),
            SyntaxTokenType::IdentifierToken { text } => TokenView::Ident(text@),
            _ => TokenView::Fixed(*self),
        }
    }

    pub fn is_white_space(&self) -> (r: bool)
        ensures
            r == (self.view() == TokenView::Fixed(SyntaxTokenType::WhiteSpace)),
    {
        match self {
            SyntaxTokenType::WhiteSpace => true,
            _ => false,
        }
    }
}

impl SyntaxToken {
    pub open spec fn view(&self) -> TokenView {
        self.token_type.view()
    }
}

} // verus!
