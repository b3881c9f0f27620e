//! The token model: what the scanner produces and the parser consumes.

use vstd::prelude::*;

verus! {

/// Binary operators of the language.
#[derive(Debug, Clone, Copy, PartialEq, Eq, Structural)]
pub enum Operator {
    EqualEqual,
    BangEqual,
    Less,
    LessEqual,
    Greater,
    GreaterEqual,
    Plus,
    Minus,
    Star,
    Slash,
}

/// The `!` prefix operator.
#[derive(Debug, Clone, Copy, PartialEq, Eq, Structural)]
pub struct Bang {}

/// The `-` prefix operator.
#[derive(Debug, Clone, Copy, PartialEq, Eq, Structural)]
pub struct Minus {}

/// Prefix operators of the language.
#[derive(Debug, Clone, Copy, PartialEq, Eq, Structural)]
pub enum UnaryOperator {
    Minus(Minus),
    Bang(Bang),
}

/// A literal as written in the source. A number keeps its decimal text.
#[derive(Debug, Clone, PartialEq)]
pub enum Literal {
    Number(String),
    Str(String),
    True,
    False,
    Nil,
}

/// A name as written in the source.
#[derive(Debug, Clone, PartialEq)]
pub struct Identifier {
    pub name: String,
}

/// What a token is.
#[derive(Debug, Clone, PartialEq)]
pub enum TokenType {
    LeftParenthesis,
    RightParenthesis,
    LeftBrace,
    RightBrace,
    Comma,
    Dot,
    Semicolon,
    Equal,
    Literal(Literal),
    Identifier(Identifier),
    Operator(Operator),
    Bang,
    And,
    Class,
    Else,
    Fun,
    For,
    If,
    Or,
    Print,
    Return,
    Super,
    This,
    Var,
    While,
    Eof,
}

/// A token type with its text as a sequence of characters.
pub enum TokenTypeView {
    LeftParenthesis,
    RightParenthesis,
    LeftBrace,
    RightBrace,
    Comma,
    Dot,
    Semicolon,
    Equal,
    Number(Seq<char>),
    Str(Seq<char>),
    True,
    False,
    Nil,
    Identifier(Seq<char>),
    Operator(Operator),
    Bang,
    And,
    Class,
    Else,
    Fun,
    For,
    If,
    Or,
    Print,
    Return,
    Super,
    This,
    Var,
    While,
    Eof,
}

impl View for TokenType {
    type V = TokenTypeView;

    open spec fn view(&self) -> TokenTypeView {
        match self {
            TokenType::LeftParenthesis => TokenTypeView::LeftParenthesis,
            TokenType::RightParenthesis => TokenTypeView::RightParenthesis,
            TokenType::LeftBrace => TokenTypeView::LeftBrace,
            TokenType::RightBrace => TokenTypeView::RightBrace,
            TokenType::Comma => TokenTypeView::Comma,
            TokenType::Dot => TokenTypeView::Dot,
            TokenType::Semicolon => TokenTypeView::Semicolon,
            TokenType::Equal => TokenTypeView::Equal,
            TokenType::Literal(Literal::Number(n)) => TokenTypeView::Number(n@),
            TokenType::Literal(Literal::Str(s)) => TokenTypeView::Str(s@),
            TokenType::Literal(Literal::True) => TokenTypeView::True,
            TokenType::Literal(Literal::False) => TokenTypeView::False,
            TokenType::Literal(Literal::Nil) => TokenTypeView::Nil,
            TokenType::Identifier(id) => TokenTypeView::Identifier(id.name@),
            TokenType::Operator(op) => TokenTypeView::Operator(*op),
            TokenType::Bang => TokenTypeView::Bang,
            TokenType::And => TokenTypeView::And,
            TokenType::Class => TokenTypeView::Class,
            TokenType::Else => TokenTypeView::Else,
            TokenType::Fun => TokenTypeView::Fun,
            TokenType::For => TokenTypeView::For,
            TokenType::If => TokenTypeView::If,
            TokenType::Or => TokenTypeView::Or,
            TokenType::Print => TokenTypeView::Print,
            TokenType::Return => TokenTypeView::Return,
            TokenType::Super => TokenTypeView::Super,
            TokenType::This => TokenTypeView::This,
            TokenType::Var => TokenTypeView::Var,
            TokenType::While => TokenTypeView::While,
            TokenType::Eof => TokenTypeView::Eof,
        }
    }
}

/// The number of an operator among the binary operators.
pub open spec fn operator_index(op: Operator) -> int {
    match op {
        Operator::EqualEqual => 0,
        Operator::BangEqual => 1,
        Operator::Less => 2,
        Operator::LessEqual => 3,
        Operator::Greater => 4,
        Operator::GreaterEqual => 5,
        Operator::Plus => 6,
        Operator::Minus => 7,
        Operator::Star => 8,
        Operator::Slash => 9,
    }
}

/// The kind of a token: its variant, with each operator and each kind of
/// literal told apart, and the text of names, numbers and strings ignored.
pub open spec fn kind(t: TokenTypeView) -> int {
    match t {
        TokenTypeView::LeftParenthesis => 0,
        TokenTypeView::RightParenthesis => 1,
        TokenTypeView::LeftBrace => 2,
        TokenTypeView::RightBrace => 3,
        TokenTypeView::Comma => 4,
        TokenTypeView::Dot => 5,
        TokenTypeView::Semicolon => 6,
        TokenTypeView::Equal => 7,
        TokenTypeView::Number(_) => 8,
        TokenTypeView::Str(_) => 9,
        TokenTypeView::True => 10,
        TokenTypeView::False => 11,
        TokenTypeView::Nil => 12,
        TokenTypeView::Identifier(_) => 13,
        TokenTypeView::Bang => 14,
        TokenTypeView::And => 15,
        TokenTypeView::Class => 16,
        TokenTypeView::Else => 17,
        TokenTypeView::Fun => 18,
        TokenTypeView::For => 19,
        TokenTypeView::If => 20,
        TokenTypeView::Or => 21,
        TokenTypeView::Print => 22,
        TokenTypeView::Return => 23,
        TokenTypeView::Super => 24,
        TokenTypeView::This => 25,
        TokenTypeView::Var => 26,
        TokenTypeView::While => 27,
        TokenTypeView::Eof => 28,
        TokenTypeView::Operator(op) => 29 + operator_index(op),
    }
}

impl Operator {
    /// The number of this operator among the binary operators.
    pub fn index(&self) -> (r: u8)
        ensures
            r as int == operator_index(*self),
    {
        match self {
            Operator::EqualEqual => 0,
            Operator::BangEqual => 1,
            Operator::Less => 2,
            Operator::LessEqual => 3,
            Operator::Greater => 4,
            Operator::GreaterEqual => 5,
            Operator::Plus => 6,
            Operator::Minus => 7,
            Operator::Star => 8,
            Operator::Slash => 9,
        }
    }
}

impl TokenType {
    /// The kind of this token, as `kind` gives it.
    pub fn kind_index(&self) -> (r: u8)
        ensures
            r as int == kind(self@),
    {
        match self {
            TokenType::LeftParenthesis => 0,
            TokenType::RightParenthesis => 1,
            TokenType::LeftBrace => 2,
            TokenType::RightBrace => 3,
            TokenType::Comma => 4,
            TokenType::Dot => 5,
            TokenType::Semicolon => 6,
            TokenType::Equal => 7,
            TokenType::Literal(Literal::Number(_)) => 8,
            TokenType::Literal(Literal::Str(_)) => 9,
            TokenType::Literal(Literal::True) => 10,
            TokenType::Literal(Literal::False) => 11,
            TokenType::Literal(Literal::Nil) => 12,
            TokenType::Identifier(_) => 13,
            TokenType::Bang => 14,
            TokenType::And => 15,
            TokenType::Class => 16,
            TokenType::Else => 17,
            TokenType::Fun => 18,
            TokenType::For => 19,
            TokenType::If => 20,
            TokenType::Or => 21,
            TokenType::Print => 22,
            TokenType::Return => 23,
            TokenType::Super => 24,
            TokenType::This => 25,
            TokenType::Var => 26,
            TokenType::While => 27,
            TokenType::Eof => 28,
            TokenType::Operator(op) => 29 + op.index(),
        }
    }

    /// Whether the two token types are of the same kind, ignoring the text
    /// that names, numbers and strings carry.
    pub fn is_same_type(&self, other: &TokenType) -> (r: bool)
        ensures
            r == (kind(self@) == kind(other@)),
    {
        self.kind_index() == other.kind_index()
    }

    /// A copy of this token type.
    pub fn duplicate(&self) -> (r: TokenType)
        ensures
            r == *self,
    {
        match self {
            TokenType::LeftParenthesis => TokenType::LeftParenthesis,
            TokenType::RightParenthesis => TokenType::RightParenthesis,
            TokenType::LeftBrace => TokenType::LeftBrace,
            TokenType::RightBrace => TokenType::RightBrace,
            TokenType::Comma => TokenType::Comma,
            TokenType::Dot => TokenType::Dot,
            TokenType::Semicolon => TokenType::Semicolon,
            TokenType::Equal => TokenType::Equal,
            TokenType::Literal(l) => TokenType::Literal(l.duplicate()),
            TokenType::Identifier(id) => TokenType::Identifier(id.duplicate()),
            TokenType::Operator(op) => TokenType::Operator(*op),
            TokenType::Bang => TokenType::Bang,
            TokenType::And => TokenType::And,
            TokenType::Class => TokenType::Class,
            TokenType::Else => TokenType::Else,
            TokenType::Fun => TokenType::Fun,
            TokenType::For => TokenType::For,
            TokenType::If => TokenType::If,
            TokenType::Or => TokenType::Or,
            TokenType::Print => TokenType::Print,
            TokenType::Return => TokenType::Return,
            TokenType::Super => TokenType::Super,
            TokenType::This => TokenType::This,
            TokenType::Var => TokenType::Var,
            TokenType::While => TokenType::While,
            TokenType::Eof => TokenType::Eof,
        }
    }
}

impl Literal {
    /// A copy of this literal.
    pub fn duplicate(&self) -> (r: Literal)
        ensures
            r == *self,
    {
        match self {
            Literal::Number(n) => Literal::Number(n.clone()),
            Literal::Str(s) => Literal::Str(s.clone()),
            Literal::True => Literal::True,
            Literal::False => Literal::False,
            Literal::Nil => Literal::Nil,
        }
    }
}

impl Identifier {
    /// A copy of this name.
    pub fn duplicate(&self) -> (r: Identifier)
        ensures
            r == *self,
    {
        Identifier { name: self.name.clone() }
    }
}


/// The prefix operator that a token type is, if it is one.
pub open spec fn unary_of(t: TokenType) -> Option<UnaryOperator> {
    match t {
        TokenType::Operator(Operator::Minus) => Some(UnaryOperator::Minus(Minus {})),
        TokenType::Bang => Some(UnaryOperator::Bang(Bang {})),
        _ => None,
    }
}

/// The token type that a prefix operator is written as.
pub open spec fn unary_token(u: UnaryOperator) -> TokenType {
    match u {
        UnaryOperator::Minus(_) => TokenType::Operator(Operator::Minus),
        UnaryOperator::Bang(_) => TokenType::Bang,
    }
}


/// A token: what it is, the line it starts on (counted from 1), and the
/// byte offset of its first character in the source.
#[derive(Debug, Clone, Copy, PartialEq)]
pub struct Token<T> {
    pub token_type: T,
    pub line: usize,
    pub start_index_in_source: usize,
}

impl<T> Token<T> {
    /// A token of the given type at the given line and position.
    pub fn new(token_type: T, line: usize, column: usize) -> (r: Token<T>)
        ensures
            r.token_type == token_type,
            r.line == line,
            r.start_index_in_source == column,
    {
        Token { token_type, line, start_index_in_source: column }
    }
}

impl Token<TokenType> {
    /// A copy of this token.
    pub fn duplicate(&self) -> (r: Token<TokenType>)
        ensures
            r == *self,
    {
        Token {
            token_type: self.token_type.duplicate(),
            line: self.line,
            start_index_in_source: self.start_index_in_source,
        }
    }
}

/// Conversion between token types and the narrower types that stand for some
/// of them (literals, names, operators).
pub trait TokenSubType: Sized {
    /// The value of this type that a token type is, if it is one.
    spec fn sub_type_of(token_type: TokenType) -> Option<Self>;

    /// The token type that a value of this type is.
    spec fn token_type_of(token_sub_type: Self) -> TokenType;

    /// The value of this type that `token_type` is, if it is one.
    fn from_token_type(token_type: &TokenType) -> (r: Option<Self>)
        ensures
            r == Self::sub_type_of(*token_type),
    ;

    /// The token type that `token_sub_type` is.
    fn to_token_type(token_sub_type: Self) -> (r: TokenType)
        ensures
            r == Self::token_type_of(token_sub_type),
    ;
}

impl TokenSubType for TokenType {
    open spec fn sub_type_of(token_type: TokenType) -> Option<TokenType> {
        Some(token_type)
    }

    open spec fn token_type_of(token_sub_type: TokenType) -> TokenType {
        token_sub_type
    }

    fn from_token_type(token_type: &TokenType) -> (r: Option<TokenType>) {
        Some(token_type.duplicate())
    }

    fn to_token_type(token_sub_type: TokenType) -> (r: TokenType) {
        token_sub_type
    }
}

impl TokenSubType for Literal {
    open spec fn sub_type_of(token_type: TokenType) -> Option<Literal> {
        match token_type {
            TokenType::Literal(l) => Some(l),
            _ => None,
        }
    }

    open spec fn token_type_of(token_sub_type: Literal) -> TokenType {
        TokenType::Literal(token_sub_type)
    }

    fn from_token_type(token_type: &TokenType) -> (r: Option<Literal>) {
        match token_type {
            TokenType::Literal(l) => Some(l.duplicate()),
            _ => None,
        }
    }

    fn to_token_type(token_sub_type: Literal) -> (r: TokenType) {
        TokenType::Literal(token_sub_type)
    }
}

impl TokenSubType for Identifier {
    open spec fn sub_type_of(token_type: TokenType) -> Option<Identifier> {
        match token_type {
            TokenType::Identifier(id) => Some(id),
            _ => None,
        }
    }

    open spec fn token_type_of(token_sub_type: Identifier) -> TokenType {
        TokenType::Identifier(token_sub_type)
    }

    fn from_token_type(token_type: &TokenType) -> (r: Option<Identifier>) {
        match token_type {
            TokenType::Identifier(id) => Some(id.duplicate()),
            _ => None,
        }
    }

    fn to_token_type(token_sub_type: Identifier) -> (r: TokenType) {
        TokenType::Identifier(token_sub_type)
    }
}

impl TokenSubType for Operator {
    open spec fn sub_type_of(token_type: TokenType) -> Option<Operator> {
        match token_type {
            TokenType::Operator(op) => Some(op),
            _ => None,
        }
    }

    open spec fn token_type_of(token_sub_type: Operator) -> TokenType {
        TokenType::Operator(token_sub_type)
    }

    fn from_token_type(token_type: &TokenType) -> (r: Option<Operator>) {
        match token_type {
            TokenType::Operator(op) => Some(*op),
            _ => None,
        }
    }

    fn to_token_type(token_sub_type: Operator) -> (r: TokenType) {
        TokenType::Operator(token_sub_type)
    }
}

impl TokenSubType for UnaryOperator {
    open spec fn sub_type_of(token_type: TokenType) -> Option<UnaryOperator> {
        unary_of(token_type)
    }

    open spec fn token_type_of(token_sub_type: UnaryOperator) -> TokenType {
        unary_token(token_sub_type)
    }

    fn from_token_type(token_type: &TokenType) -> (r: Option<UnaryOperator>) {
        match token_type {
            TokenType::Operator(Operator::Minus) => Some(UnaryOperator::Minus(Minus {})),
            TokenType::Bang => Some(UnaryOperator::Bang(Bang {})),
            _ => None,
        }
    }

    fn to_token_type(token_sub_type: UnaryOperator) -> (r: TokenType) {
        match token_sub_type {
            UnaryOperator::Minus(_) => TokenType::Operator(Operator::Minus),
            UnaryOperator::Bang(_) => TokenType::Bang,
        }
    }
}

impl Token<TokenType> {
    /// This token as a token of a narrower type, if its type is one of it.
    pub fn to_token_sub_type<U: TokenSubType>(self, _kind: &U) -> (r: Option<Token<U>>)
        ensures
            r == match U::sub_type_of(self.token_type) {
                Some(u) => Some(
                    Token { token_type: u, line: self.line, start_index_in_source: self.start_index_in_source },
                ),
                None => None,
            },
    {
        match U::from_token_type(&self.token_type) {
            Some(u) => Some(Token::new(u, self.line, self.start_index_in_source)),
            None => None,
        }
    }
}

impl From<Token<Literal>> for Token<TokenType> {
    fn from(token: Token<Literal>) -> (r: Token<TokenType>) {
        Token {
            token_type: TokenType::Literal(token.token_type),
            line: token.line,
            start_index_in_source: token.start_index_in_source,
        }
    }
}

impl vstd::std_specs::convert::FromSpecImpl<Token<Literal>> for Token<TokenType> {
    open spec fn obeys_from_spec() -> bool {
        true
    }

    open spec fn from_spec(token: Token<Literal>) -> Token<TokenType> {
        Token {
            token_type: TokenType::Literal(token.token_type),
            line: token.line,
            start_index_in_source: token.start_index_in_source,
        }
    }
}

impl From<Token<Operator>> for Token<TokenType> {
    fn from(token: Token<Operator>) -> (r: Token<TokenType>) {
        Token {
            token_type: TokenType::Operator(token.token_type),
            line: token.line,
            start_index_in_source: token.start_index_in_source,
        }
    }
}

impl vstd::std_specs::convert::FromSpecImpl<Token<Operator>> for Token<TokenType> {
    open spec fn obeys_from_spec() -> bool {
        true
    }

    open spec fn from_spec(token: Token<Operator>) -> Token<TokenType> {
        Token {
            token_type: TokenType::Operator(token.token_type),
            line: token.line,
            start_index_in_source: token.start_index_in_source,
        }
    }
}

impl From<Token<UnaryOperator>> for Token<TokenType> {
    fn from(token: Token<UnaryOperator>) -> (r: Token<TokenType>) {
        Token {
            token_type: UnaryOperator::to_token_type(token.token_type),
            line: token.line,
            start_index_in_source: token.start_index_in_source,
        }
    }
}

impl vstd::std_specs::convert::FromSpecImpl<Token<UnaryOperator>> for Token<TokenType> {
    open spec fn obeys_from_spec() -> bool {
        true
    }

    open spec fn from_spec(token: Token<UnaryOperator>) -> Token<TokenType> {
        Token {
            token_type: unary_token(token.token_type),
            line: token.line,
            start_index_in_source: token.start_index_in_source,
        }
    }
}

} // verus!
