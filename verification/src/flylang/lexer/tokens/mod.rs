use crate::flylang::module::slice::{LangModuleSlice, SliceView};
use vstd::prelude::*;

pub mod representations;

verus! {

#[derive(Debug, Clone, Copy, PartialEq, Eq, Structural)]
pub enum Toggleable {
    Openning,
    Closing,
}

#[derive(Debug, Clone, Copy, PartialEq, Eq, Structural)]
pub enum Keywords {
    Fn,
    If,
    Cs,
    Kind,
    New,
    Else,
    While,
    Until,
    Each,
    Stop,
    Return,
    Pass,
    Use,
    In,
    From,
}

#[derive(Debug, Clone, Copy, PartialEq, Eq, Structural)]
pub enum Operator {
    Add,
    Substract,
    Multiply,
    Divide,
    Power,
    Modulo,
    EuclidianDivision,
}

// ! Order is important :
// ! Greater index will be executed first
#[derive(Debug, Clone, Copy, PartialEq, Eq, Structural)]
pub enum BinaryOperator {
    And,
    Xor,
    Or,
}

#[derive(Debug, Clone, Copy, PartialEq, Eq, Structural)]
pub enum Comparison {
    Equal,
    /// Value is `true` if it is strict
    Less(bool),
    /// Value is `true` if it is strict
    Greater(bool),
}

#[derive(Debug, Clone)]
pub enum ScopeTarget {
    Named(std::string::String),
    /// The number of enclosing scopes to leave: never 0.
    Numbered(usize),
}

#[derive(Debug, Clone)]
pub enum VarDefinition {
    Normal,
    WithOperation(Token<Operator>),
    Constant,
}

#[derive(Debug)]
pub enum StringItem {
    Literal(std::string::String),
    Expression(Box<Vec<Token<Tokens>>>),
}

#[derive(Debug)]
pub enum Literals {
    Word,
    True,
    False,
    Number,
    Empty,
    String(Vec<Token<StringItem>>),
}

#[derive(Debug)]
pub enum Tokens {
    Literal(Literals),
    Keyword(Keywords),
    Not,
    Operator(Operator),
    BinaryOperator(BinaryOperator),
    Comparison(Comparison),
    Block(Toggleable),
    Object(Toggleable),
    Accessor,
    Modifier,
    EndOfInstruction,
    ArgSeparator,
    VarDef(VarDefinition),
    ScopeTarget(ScopeTarget),
}

/// A lexeme: what it is, and where it stands in its module.
#[derive(Debug, Clone)]
pub struct Token<K = Tokens> {
    pub kind: K,
    pub location: LangModuleSlice,
}

/// What a token is, mathematically.
pub struct TokenView<K> {
    pub kind: K,
    pub location: SliceView,
}

pub enum ScopeTargetView {
    Named(Seq<char>),
    Numbered(nat),
}

pub enum VarDefinitionView {
    Normal,
    WithOperation(TokenView<Operator>),
    Constant,
}

pub enum StringItemView {
    Literal(Seq<char>),
    Expression(Seq<TokenView<TokensView>>),
}

pub enum LiteralsView {
    Word,
    True,
    False,
    Number,
    Empty,
    String(Seq<TokenView<StringItemView>>),
}

pub enum TokensView {
    Literal(LiteralsView),
    Keyword(Keywords),
    Not,
    Operator(Operator),
    BinaryOperator(BinaryOperator),
    Comparison(Comparison),
    Block(Toggleable),
    Object(Toggleable),
    Accessor,
    Modifier,
    EndOfInstruction,
    ArgSeparator,
    VarDef(VarDefinitionView),
    ScopeTarget(ScopeTargetView),
}

impl ScopeTarget {
    pub open spec fn view(self) -> ScopeTargetView {
        match self {
            ScopeTarget::Named(name) => ScopeTargetView::Named(name@),
            ScopeTarget::Numbered(amount) => ScopeTargetView::Numbered(amount as nat),
        }
    }

    /// An independent copy of the target.
    pub fn duplicate(&self) -> (r: Self)
        ensures
            r@ == self@,
    {
        match self {
            ScopeTarget::Named(name) => ScopeTarget::Named(name.clone()),
            ScopeTarget::Numbered(amount) => ScopeTarget::Numbered(*amount),
        }
    }
}

impl VarDefinition {
    pub open spec fn view(self) -> VarDefinitionView {
        match self {
            VarDefinition::Normal => VarDefinitionView::Normal,
            VarDefinition::WithOperation(operator) => VarDefinitionView::WithOperation(
                operator_view(operator),
            ),
            VarDefinition::Constant => VarDefinitionView::Constant,
        }
    }
}

/// The view of an operator token.
pub open spec fn operator_view(token: Token<Operator>) -> TokenView<Operator> {
    TokenView { kind: token.kind, location: token.location@ }
}

/// The view of a token.
pub open spec fn token_view(token: Token<Tokens>) -> TokenView<TokensView>
    decreases token, 1int,
{
    TokenView { kind: token.kind@, location: token.location@ }
}

/// The views of the tokens of `tokens`, in order.
pub open spec fn token_views(tokens: Seq<Token<Tokens>>) -> Seq<TokenView<TokensView>>
    decreases tokens, 0int,
{
    Seq::new(
        tokens.len(),
        |i: int|
            if 0 <= i < tokens.len() {
                token_view(tokens[i])
            } else {
                arbitrary()
            },
    )
}

/// The view of a part of a string.
pub open spec fn part_view(part: Token<StringItem>) -> TokenView<StringItemView>
    decreases part, 1int,
{
    TokenView { kind: part.kind@, location: part.location@ }
}

/// The views of the parts of a string, in order.
pub open spec fn part_views(parts: Seq<Token<StringItem>>) -> Seq<TokenView<StringItemView>>
    decreases parts, 0int,
{
    Seq::new(
        parts.len(),
        |i: int|
            if 0 <= i < parts.len() {
                part_view(parts[i])
            } else {
                arbitrary()
            },
    )
}

impl StringItem {
    pub open spec fn view(self) -> StringItemView
        decreases self, 0int,
    {
        match self {
            StringItem::Literal(text) => StringItemView::Literal(text@),
            StringItem::Expression(tokens) => StringItemView::Expression(token_views(tokens@)),
        }
    }
}

impl Literals {
    pub open spec fn view(self) -> LiteralsView
        decreases self, 0int,
    {
        match self {
            Literals::Word => LiteralsView::Word,
            Literals::True => LiteralsView::True,
            Literals::False => LiteralsView::False,
            Literals::Number => LiteralsView::Number,
            Literals::Empty => LiteralsView::Empty,
            Literals::String(parts) => LiteralsView::String(part_views(parts@)),
        }
    }
}

impl Tokens {
    pub open spec fn view(self) -> TokensView
        decreases self, 0int,
    {
        match self {
            Tokens::Literal(literal) => TokensView::Literal(literal@),
            Tokens::Keyword(keyword) => TokensView::Keyword(keyword),
            Tokens::Not => TokensView::Not,
            Tokens::Operator(operator) => TokensView::Operator(operator),
            Tokens::BinaryOperator(operator) => TokensView::BinaryOperator(operator),
            Tokens::Comparison(comparison) => TokensView::Comparison(comparison),
            Tokens::Block(side) => TokensView::Block(side),
            Tokens::Object(side) => TokensView::Object(side),
            Tokens::Accessor => TokensView::Accessor,
            Tokens::Modifier => TokensView::Modifier,
            Tokens::EndOfInstruction => TokensView::EndOfInstruction,
            Tokens::ArgSeparator => TokensView::ArgSeparator,
            Tokens::VarDef(definition) => TokensView::VarDef(definition@),
            Tokens::ScopeTarget(target) => TokensView::ScopeTarget(target@),
        }
    }
}

/// An independent copy of a token.
pub fn duplicate_token(token: &Token<Tokens>) -> (r: Token<Tokens>)
    ensures
        token_view(r) == token_view(*token),
    decreases token, 1int,
{
    Token { kind: token.kind.duplicate(), location: token.location.duplicate() }
}

/// An independent copy of a list of tokens.
pub fn duplicate_tokens(tokens: &Vec<Token<Tokens>>) -> (r: Vec<Token<Tokens>>)
    ensures
        token_views(r@) == token_views(tokens@),
    decreases tokens, 0int,
{
    let mut out: Vec<Token<Tokens>> = Vec::new();
    let mut at: usize = 0;
    while at < tokens.len()
        invariant
            at <= tokens.len(),
            out@.len() == at,
            forall|i: int| 0 <= i < at ==> token_view(out@[i]) == token_view(tokens@[i]),
        decreases tokens.len() - at,
    {
        let copy = duplicate_token(&tokens[at]);
        out.push(copy);
        at = at + 1;
    }
    assert(token_views(out@) =~= token_views(tokens@));
    out
}

/// An independent copy of a part of a string.
pub fn duplicate_part(part: &Token<StringItem>) -> (r: Token<StringItem>)
    ensures
        part_view(r) == part_view(*part),
    decreases part, 1int,
{
    Token { kind: part.kind.duplicate(), location: part.location.duplicate() }
}

/// An independent copy of the parts of a string.
pub fn duplicate_parts(parts: &Vec<Token<StringItem>>) -> (r: Vec<Token<StringItem>>)
    ensures
        part_views(r@) == part_views(parts@),
    decreases parts, 0int,
{
    let mut out: Vec<Token<StringItem>> = Vec::new();
    let mut at: usize = 0;
    while at < parts.len()
        invariant
            at <= parts.len(),
            out@.len() == at,
            forall|i: int| 0 <= i < at ==> part_view(out@[i]) == part_view(parts@[i]),
        decreases parts.len() - at,
    {
        let copy = duplicate_part(&parts[at]);
        out.push(copy);
        at = at + 1;
    }
    assert(part_views(out@) =~= part_views(parts@));
    out
}

impl StringItem {
    /// An independent copy of the part.
    pub fn duplicate(&self) -> (r: Self)
        ensures
            r@ == self@,
        decreases self, 0int,
    {
        match self {
            StringItem::Literal(text) => StringItem::Literal(text.clone()),
            StringItem::Expression(tokens) => StringItem::Expression(
                Box::new(duplicate_tokens(tokens)),
            ),
        }
    }
}

impl Literals {
    /// An independent copy of the literal.
    pub fn duplicate(&self) -> (r: Self)
        ensures
            r@ == self@,
        decreases self, 0int,
    {
        match self {
            Literals::Word => Literals::Word,
            Literals::True => Literals::True,
            Literals::False => Literals::False,
            Literals::Number => Literals::Number,
            Literals::Empty => Literals::Empty,
            Literals::String(parts) => Literals::String(duplicate_parts(parts)),
        }
    }
}

impl VarDefinition {
    /// An independent copy of the definition mark.
    pub fn duplicate(&self) -> (r: Self)
        ensures
            r@ == self@,
    {
        match self {
            VarDefinition::Normal => VarDefinition::Normal,
            VarDefinition::WithOperation(operator) => VarDefinition::WithOperation(
                Token { kind: operator.kind, location: operator.location.duplicate() },
            ),
            VarDefinition::Constant => VarDefinition::Constant,
        }
    }
}

impl Tokens {
    /// An independent copy of the token kind.
    pub fn duplicate(&self) -> (r: Self)
        ensures
            r@ == self@,
        decreases self, 0int,
    {
        match self {
            Tokens::Literal(literal) => Tokens::Literal(literal.duplicate()),
            Tokens::Keyword(keyword) => Tokens::Keyword(*keyword),
            Tokens::Not => Tokens::Not,
            Tokens::Operator(operator) => Tokens::Operator(*operator),
            Tokens::BinaryOperator(operator) => Tokens::BinaryOperator(*operator),
            Tokens::Comparison(comparison) => Tokens::Comparison(*comparison),
            Tokens::Block(side) => Tokens::Block(*side),
            Tokens::Object(side) => Tokens::Object(*side),
            Tokens::Accessor => Tokens::Accessor,
            Tokens::Modifier => Tokens::Modifier,
            Tokens::EndOfInstruction => Tokens::EndOfInstruction,
            Tokens::ArgSeparator => Tokens::ArgSeparator,
            Tokens::VarDef(definition) => Tokens::VarDef(definition.duplicate()),
            Tokens::ScopeTarget(target) => Tokens::ScopeTarget(target.duplicate()),
        }
    }
}

impl<K> Token<K> {
    pub fn new(kind: K, location: &LangModuleSlice) -> (r: Self)
        ensures
            r.kind == kind,
            r.location@ == location@,
    {
        Self { kind, location: location.duplicate() }
    }

    pub fn kind(&self) -> (r: &K)
        ensures
            *r == self.kind,
    {
        &self.kind
    }

    pub fn location(&self) -> (r: &LangModuleSlice)
        ensures
            *r == self.location,
    {
        &self.location
    }
}

} // verus!
