//! The abstract syntax tree the parser produces: literals, identifiers,
//! operator applications, arrays and array indexing, and the six statement
//! forms, each span-tagged.

use vstd::prelude::*;
use crate::span::Span;
use crate::token::{Token, TokenType, TokenTypeV};
use crate::error::{LangError, LangErrorV};
use crate::text::{spec_token_text, token_text};

verus! {

/// A literal value: a boolean, a character, or a signed 32-bit integer.
#[derive(Debug, PartialEq, Eq, Clone, Copy)]
pub enum Literal {
    Boolean { val: bool, span: Span },
    Char { val: char, span: Span },
    Number { val: i32, span: Span },
}

/// The operators of the language. `Not` is unary; `Minus` serves both as the
/// unary negation and as binary subtraction.
#[derive(Clone, Copy, Debug, PartialEq, Eq, Structural)]
pub enum OperatorType {
    Plus,
    Minus,
    Divide,
    Multiply,
    LessThan,
    GreaterThan,
    LessThanEq,
    GreaterThanEq,
    Equal,
    Not,
    NotEqual,
}

/// A name appearing in the source.
#[derive(Debug)]
pub struct Identifier {
    pub id: String,
    pub span: Span,
}

/// The mathematical value of an [`Identifier`].
pub ghost struct IdentifierV {
    pub id: Seq<char>,
    pub span: Span,
}

impl View for Identifier {
    type V = IdentifierV;

    open spec fn view(&self) -> IdentifierV {
        IdentifierV { id: self.id@, span: self.span }
    }
}

impl Clone for Identifier {
    fn clone(&self) -> (r: Self)
        ensures
            r@ == self@,
    {
        Identifier { id: self.id.clone(), span: self.span }
    }
}

/// An expression of the language.
#[derive(Debug)]
pub enum Expression {
    App { app: Application },
    Group { expr: Box<Expression>, span: Span },
    Literal { lit: Literal },
    Identifier(Identifier),
    Array { elements: Vec<Expression>, span: Span },
    Index { variable: Identifier, index: Box<Expression>, span: Span },
}

/// An operator applied to one or two argument expressions.
#[derive(Debug)]
pub enum Application {
    Unary { op: OperatorType, expr: Box<Expression>, span: Span },
    Binary { op: OperatorType, left: Box<Expression>, right: Box<Expression>, span: Span },
}

/// The mathematical value of an [`Expression`].
pub ghost enum ExpressionV {
    App { app: ApplicationV },
    Group { expr: Box<ExpressionV>, span: Span },
    Literal { lit: Literal },
    Identifier(IdentifierV),
    Array { elements: Seq<ExpressionV>, span: Span },
    Index { variable: IdentifierV, index: Box<ExpressionV>, span: Span },
}

/// The mathematical value of an [`Application`].
pub ghost enum ApplicationV {
    Unary { op: OperatorType, expr: Box<ExpressionV>, span: Span },
    Binary { op: OperatorType, left: Box<ExpressionV>, right: Box<ExpressionV>, span: Span },
}

pub open spec fn expr_view(e: Expression) -> ExpressionV
    decreases e, 0int,
{
    match e {
        Expression::App { app } => ExpressionV::App { app: app_view(app) },
        Expression::Group { expr, span } => ExpressionV::Group {
            expr: Box::new(expr_view(*expr)),
            span,
        },
        Expression::Literal { lit } => ExpressionV::Literal { lit },
        Expression::Identifier(id) => ExpressionV::Identifier(id@),
        Expression::Array { elements, span } => {
            proof {
                assert(decreases_to!(e => elements@));
            }
            ExpressionV::Array { elements: exprs_view(elements@), span }
        },
        Expression::Index { variable, index, span } => ExpressionV::Index {
            variable: variable@,
            index: Box::new(expr_view(*index)),
            span,
        },
    }
}

pub open spec fn exprs_view(s: Seq<Expression>) -> Seq<ExpressionV>
    decreases s, s.len(),
{
    if s.len() == 0 {
        Seq::empty()
    } else {
        proof {
            assert(decreases_to!(s => s[0]));
            assert(s.drop_first() =~= s.subrange(1, s.len() as int));
            assert(decreases_to!(s => s.drop_first()));
        }
        seq![expr_view(s[0])] + exprs_view(s.drop_first())
    }
}

pub open spec fn app_view(a: Application) -> ApplicationV
    decreases a, 0int,
{
    match a {
        Application::Unary { op, expr, span } => ApplicationV::Unary {
            op,
            expr: Box::new(expr_view(*expr)),
            span,
        },
        Application::Binary { op, left, right, span } => ApplicationV::Binary {
            op,
            left: Box::new(expr_view(*left)),
            right: Box::new(expr_view(*right)),
            span,
        },
    }
}

impl View for Expression {
    type V = ExpressionV;

    open spec fn view(&self) -> ExpressionV {
        expr_view(*self)
    }
}

impl View for Application {
    type V = ApplicationV;

    open spec fn view(&self) -> ApplicationV {
        app_view(*self)
    }
}

/// A statement binding a fresh variable to an expression's value.
#[derive(Debug)]
pub struct Let {
    pub variable: String,
    pub value: Expression,
    pub span: Span,
}

/// A statement overwriting an existing variable with an expression's value.
#[derive(Debug)]
pub struct Mutate {
    pub variable: String,
    pub value: Expression,
    pub span: Span,
}

/// A conditional statement: the body runs when the condition holds.
#[derive(Debug)]
pub struct If {
    pub condition: Expression,
    pub iff: Vec<Statement>,
    pub span: Span,
}

/// A loop: the body runs while the condition holds.
#[derive(Debug)]
pub struct While {
    pub condition: Expression,
    pub body: Vec<Statement>,
    pub span: Span,
}

/// A statement of the language.
#[derive(Debug)]
pub enum Statement {
    Let(Let),
    Mutate(Mutate),
    Expr(Expression),
    If(If),
    While(While),
    Yield(Expression),
}

pub ghost struct LetV {
    pub variable: Seq<char>,
    pub value: ExpressionV,
    pub span: Span,
}

pub ghost struct MutateV {
    pub variable: Seq<char>,
    pub value: ExpressionV,
    pub span: Span,
}

pub ghost struct IfV {
    pub condition: ExpressionV,
    pub iff: Seq<StatementV>,
    pub span: Span,
}

pub ghost struct WhileV {
    pub condition: ExpressionV,
    pub body: Seq<StatementV>,
    pub span: Span,
}

/// The mathematical value of a [`Statement`].
pub ghost enum StatementV {
    Let(LetV),
    Mutate(MutateV),
    Expr(ExpressionV),
    If(IfV),
    While(WhileV),
    Yield(ExpressionV),
}

pub open spec fn stmt_view(s: Statement) -> StatementV
    decreases s, 0int,
{
    match s {
        Statement::Let(l) => StatementV::Let(
            LetV { variable: l.variable@, value: expr_view(l.value), span: l.span },
        ),
        Statement::Mutate(m) => StatementV::Mutate(
            MutateV { variable: m.variable@, value: expr_view(m.value), span: m.span },
        ),
        Statement::Expr(e) => StatementV::Expr(expr_view(e)),
        Statement::If(i) => {
            proof {
                assert(decreases_to!(s => i.iff@));
            }
            StatementV::If(
                IfV { condition: expr_view(i.condition), iff: stmts_view(i.iff@), span: i.span },
            )
        },
        Statement::While(w) => {
            proof {
                assert(decreases_to!(s => w.body@));
            }
            StatementV::While(
                WhileV {
                    condition: expr_view(w.condition),
                    body: stmts_view(w.body@),
                    span: w.span,
                },
            )
        },
        Statement::Yield(e) => StatementV::Yield(expr_view(e)),
    }
}

pub open spec fn stmts_view(s: Seq<Statement>) -> Seq<StatementV>
    decreases s, s.len(),
{
    if s.len() == 0 {
        Seq::empty()
    } else {
        proof {
            assert(decreases_to!(s => s[0]));
            assert(s.drop_first() =~= s.subrange(1, s.len() as int));
            assert(decreases_to!(s => s.drop_first()));
        }
        seq![stmt_view(s[0])] + stmts_view(s.drop_first())
    }
}

impl View for Let {
    type V = LetV;

    open spec fn view(&self) -> LetV {
        LetV { variable: self.variable@, value: expr_view(self.value), span: self.span }
    }
}

impl View for Mutate {
    type V = MutateV;

    open spec fn view(&self) -> MutateV {
        MutateV { variable: self.variable@, value: expr_view(self.value), span: self.span }
    }
}

impl View for If {
    type V = IfV;

    open spec fn view(&self) -> IfV {
        IfV { condition: expr_view(self.condition), iff: stmts_view(self.iff@), span: self.span }
    }
}

impl View for While {
    type V = WhileV;

    open spec fn view(&self) -> WhileV {
        WhileV {
            condition: expr_view(self.condition),
            body: stmts_view(self.body@),
            span: self.span,
        }
    }
}

impl View for Statement {
    type V = StatementV;

    open spec fn view(&self) -> StatementV {
        stmt_view(*self)
    }
}

// spans of syntax nodes

impl Literal {
    pub open spec fn spec_span(&self) -> Span {
        match self {
            Literal::Boolean { val: _, span } => *span,
            Literal::Char { val: _, span } => *span,
            Literal::Number { val: _, span } => *span,
        }
    }

    #[verifier::when_used_as_spec(spec_span)]
    pub fn span(&self) -> (r: Span)
        ensures
            r == self.spec_span(),
    {
        match self {
            Literal::Boolean { val: _, span } => *span,
            Literal::Char { val: _, span } => *span,
            Literal::Number { val: _, span } => *span,
        }
    }

    /// create a literal given a value and token
    pub fn from_bool(tok: &Token, val: bool) -> (r: Literal)
        ensures
            r == (Literal::Boolean { val, span: tok@.span }),
    {
        Literal::Boolean { val, span: tok.span() }
    }

    pub fn from_char(tok: &Token, val: char) -> (r: Literal)
        ensures
            r == (Literal::Char { val, span: tok@.span }),
    {
        Literal::Char { val, span: tok.span() }
    }

    pub fn from_number(tok: &Token, val: i32) -> (r: Literal)
        ensures
            r == (Literal::Number { val, span: tok@.span }),
    {
        Literal::Number { val, span: tok.span() }
    }
}

/// The span of an expression's mathematical value.
pub open spec fn expr_span(e: ExpressionV) -> Span {
    match e {
        ExpressionV::Literal { lit } => lit.spec_span(),
        ExpressionV::Group { expr: _, span } => span,
        ExpressionV::App { app } => app_span(app),
        ExpressionV::Identifier(id) => id.span,
        ExpressionV::Array { elements: _, span } => span,
        ExpressionV::Index { variable: _, index: _, span } => span,
    }
}

/// The span of an application's mathematical value.
pub open spec fn app_span(a: ApplicationV) -> Span {
    match a {
        ApplicationV::Unary { op: _, expr: _, span } => span,
        ApplicationV::Binary { op: _, left: _, right: _, span } => span,
    }
}

/// The span of a statement's mathematical value.
pub open spec fn stmt_span(s: StatementV) -> Span {
    match s {
        StatementV::Let(l) => l.span,
        StatementV::Mutate(m) => m.span,
        StatementV::Expr(e) => expr_span(e),
        StatementV::If(i) => i.span,
        StatementV::While(w) => w.span,
        StatementV::Yield(e) => expr_span(e),
    }
}

impl Expression {
    pub fn span(&self) -> (r: Span)
        ensures
            r == expr_span(self@),
    {
        match self {
            Expression::Literal { lit } => lit.span(),
            Expression::Group { expr: _, span } => *span,
            Expression::App { app } => app.span(),
            Expression::Identifier(id) => id.span,
            Expression::Array { elements: _, span } => *span,
            Expression::Index { variable: _, index: _, span } => *span,
        }
    }
}

impl Application {
    pub fn span(&self) -> (r: Span)
        ensures
            r == app_span(self@),
    {
        match self {
            Application::Unary { op: _, expr: _, span } => *span,
            Application::Binary { op: _, left: _, right: _, span } => *span,
        }
    }

    /// Create an Application from a unary operator and expression; the span
    /// joins the operator token's span with the expression's.
    pub fn from_unary(tok: &Token, op: OperatorType, expr: Expression) -> (r: Application)
        ensures
            r@ == (ApplicationV::Unary {
                op,
                expr: Box::new(expr@),
                span: Span::spec_superspan(tok@.span, expr_span(expr@)),
            }),
    {
        let span = Span::superspan(tok.span(), expr.span());
        Application::Unary { op, expr: Box::new(expr), span }
    }

    /// Create an Application from a binary operator and two expressions; the
    /// span joins the operands' spans.
    pub fn from_binary(op: OperatorType, left: Expression, right: Expression) -> (r: Application)
        ensures
            r@ == (ApplicationV::Binary {
                op,
                left: Box::new(left@),
                right: Box::new(right@),
                span: Span::spec_superspan(expr_span(left@), expr_span(right@)),
            }),
    {
        let span = Span::superspan(left.span(), right.span());
        Application::Binary { op, left: Box::new(left), right: Box::new(right), span }
    }
}

impl Identifier {
    pub fn new(name: String, span: Span) -> (r: Identifier)
        ensures
            r@ == (IdentifierV { id: name@, span }),
    {
        Identifier { id: name, span }
    }

    pub fn name(&self) -> (r: &str)
        ensures
            r@ == self@.id,
    {
        self.id.as_str()
    }

    pub fn borrow_name(&self) -> (r: &String)
        ensures
            r@ == self@.id,
    {
        &self.id
    }

    pub fn span(&self) -> (r: Span)
        ensures
            r == self@.span,
    {
        self.span
    }
}

impl Mutate {
    /// Build a mutation from its target's token, which must be an
    /// identifier, and the assigned expression; the span joins theirs.
    pub fn from(variable: &Token, value: Expression) -> (r: Mutate)
        requires
            variable@.kind is Identifier,
        ensures
            r.variable@ == variable@.kind->Identifier_0,
            r.value@ == value@,
            r.span == Span::spec_superspan(variable@.span, expr_span(value@)),
    {
        let name = match variable.token_type() {
            TokenType::Identifier(name) => name.clone(),
            _ => unreached(),
        };
        let span = Span::superspan(variable.span(), value.span());
        Mutate { variable: name, value, span }
    }
}

impl Let {
    /// Build a binding from its target's token and the bound expression; the
    /// span runs from `start` (the `let` keyword) to the expression. A token
    /// that is not an identifier is an invalid identifier error.
    pub fn from(variable: &Token, value: Expression, start: Span) -> (r: Result<Let, LangError>)
        ensures
            match variable@.kind {
                TokenTypeV::Identifier(name) => r matches Ok(l) && l.variable@ == name && l.value@
                    == value@ && l.span == Span::spec_superspan(start, expr_span(value@)),
                kind => r matches Err(e) && e@ == (LangErrorV::InvalidIdentifier {
                    span: variable@.span,
                    id_literal: spec_token_text(kind),
                }),
            },
    {
        let name = match variable.token_type() {
            TokenType::Identifier(name) => name.clone(),
            ty => {
                return Err(
                    LangError::InvalidIdentifier { span: variable.span(), id_literal: token_text(ty) },
                );
            },
        };
        let span = Span::superspan(start, value.span());
        Ok(Let { variable: name, value, span })
    }
}

impl If {
    pub fn from(condition: Expression, body: Vec<Statement>, span: Span) -> (r: If)
        ensures
            r.condition@ == condition@,
            r.iff@ == body@,
            r.span == span,
    {
        If { condition, iff: body, span }
    }
}

impl While {
    pub fn from(condition: Expression, body: Vec<Statement>, span: Span) -> (r: While)
        ensures
            r.condition@ == condition@,
            r.body@ == body@,
            r.span == span,
    {
        While { condition, body, span }
    }
}

impl Statement {
    pub fn span(&self) -> (r: Span)
        ensures
            r == stmt_span(self@),
    {
        match self {
            Statement::Let(l) => l.span,
            Statement::Mutate(m) => m.span,
            Statement::Expr(e) => e.span(),
            Statement::If(i) => i.span,
            Statement::While(w) => w.span,
            Statement::Yield(e) => e.span(),
        }
    }
}

/// The view sequence is as long as its source and views element by element.
pub proof fn lemma_stmts_view_index(s: Seq<Statement>, i: int)
    requires
        0 <= i < s.len(),
    ensures
        stmts_view(s).len() == s.len(),
        stmts_view(s)[i] == stmt_view(s[i]),
    decreases s.len(),
{
    lemma_stmts_view_len(s);
    if i > 0 {
        lemma_stmts_view_index(s.drop_first(), i - 1);
    }
}

pub proof fn lemma_stmts_view_len(s: Seq<Statement>)
    ensures
        stmts_view(s).len() == s.len(),
    decreases s.len(),
{
    if s.len() > 0 {
        lemma_stmts_view_len(s.drop_first());
    }
}

/// The view sequence is as long as its source and views element by element.
pub proof fn lemma_exprs_view_index(s: Seq<Expression>, i: int)
    requires
        0 <= i < s.len(),
    ensures
        exprs_view(s).len() == s.len(),
        exprs_view(s)[i] == expr_view(s[i]),
    decreases s.len(),
{
    lemma_exprs_view_len(s);
    if i > 0 {
        lemma_exprs_view_index(s.drop_first(), i - 1);
    }
}

pub proof fn lemma_exprs_view_len(s: Seq<Expression>)
    ensures
        exprs_view(s).len() == s.len(),
    decreases s.len(),
{
    if s.len() > 0 {
        lemma_exprs_view_len(s.drop_first());
    }
}

/// The views of a sequence of statements, element by element.
pub proof fn lemma_stmts_view_push(s: Seq<Statement>, x: Statement)
    ensures
        stmts_view(s.push(x)) == stmts_view(s).push(stmt_view(x)),
    decreases s.len(),
{
    if s.len() == 0 {
        assert(s.push(x).drop_first() =~= Seq::<Statement>::empty());
        assert(s.push(x)[0] == x);
        assert(stmts_view(s.push(x).drop_first()) =~= Seq::<StatementV>::empty());
        assert(stmts_view(s.push(x)) =~= stmts_view(s).push(stmt_view(x)));
    } else {
        assert(s.push(x).drop_first() =~= s.drop_first().push(x));
        assert(s.push(x)[0] == s[0]);
        lemma_stmts_view_push(s.drop_first(), x);
        assert(stmts_view(s.push(x)) == seq![stmt_view(s[0])] + stmts_view(
            s.drop_first().push(x),
        ));
        assert(stmts_view(s) == seq![stmt_view(s[0])] + stmts_view(s.drop_first()));
        assert(stmts_view(s.push(x)) =~= stmts_view(s).push(stmt_view(x)));
    }
}

/// The views of a sequence of expressions, element by element.
pub proof fn lemma_exprs_view_push(s: Seq<Expression>, x: Expression)
    ensures
        exprs_view(s.push(x)) == exprs_view(s).push(expr_view(x)),
    decreases s.len(),
{
    if s.len() == 0 {
        assert(s.push(x).drop_first() =~= Seq::<Expression>::empty());
        assert(s.push(x)[0] == x);
        assert(exprs_view(s.push(x).drop_first()) =~= Seq::<ExpressionV>::empty());
        assert(exprs_view(s.push(x)) =~= exprs_view(s).push(expr_view(x)));
    } else {
        assert(s.push(x).drop_first() =~= s.drop_first().push(x));
        assert(s.push(x)[0] == s[0]);
        lemma_exprs_view_push(s.drop_first(), x);
        assert(exprs_view(s.push(x)) == seq![expr_view(s[0])] + exprs_view(
            s.drop_first().push(x),
        ));
        assert(exprs_view(s) == seq![expr_view(s[0])] + exprs_view(s.drop_first()));
        assert(exprs_view(s.push(x)) =~= exprs_view(s).push(expr_view(x)));
    }
}

} // verus!
