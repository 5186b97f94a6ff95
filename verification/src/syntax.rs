use vstd::prelude::*;
use crate::span::Span;

verus! {

/// An owned identifier, recovered byte for byte from the source text.
#[derive(Clone, Debug, Eq, Hash, PartialEq)]
pub struct Identifier(pub String);

impl View for Identifier {
    type V = Seq<char>;

    open spec fn view(&self) -> Seq<char> {
        self.0@
    }
}

/// An expression of the language, annotated with its source span.
#[derive(Debug, PartialEq)]
pub enum Expression {
    Atom(Atom),
    Ref(Variable),
    Ty(Type),
    Abs(Lambda),
    App(Apply),
}

/// A quoted symbolic literal.
#[derive(Debug, PartialEq)]
pub struct Atom {
    pub ann: Span,
    pub ident: Identifier,
}

/// A reference to a term-level name.
#[derive(Debug, PartialEq)]
pub struct Variable {
    pub ann: Span,
    pub ident: Identifier,
}

/// A reference to a type-level name, distinguished from [`Variable`] by its
/// lexical class alone.
#[derive(Debug, PartialEq)]
pub struct Type {
    pub ann: Span,
    pub ident: Identifier,
}

/// A lambda abstraction; `args` may be empty.
#[derive(Debug, PartialEq)]
pub struct Lambda {
    pub ann: Span,
    pub args: Vec<Box<Expression>>,
    pub body: Box<Expression>,
}

/// An application of a function expression to arguments; `args` may be empty.
#[derive(Debug, PartialEq)]
pub struct Apply {
    pub ann: Span,
    pub fun: Box<Expression>,
    pub args: Vec<Box<Expression>>,
}

/// A top-level statement.
#[derive(Debug, PartialEq)]
pub enum Statement {
    Claim(Claim),
    Def(Define),
    Expr(Expression),
}

/// `claim name : type-expression`.
#[derive(Debug, PartialEq)]
pub struct Claim {
    pub ann: Span,
    pub ident: Identifier,
    pub expr: Box<Expression>,
}

/// `define name = body-expression`.
#[derive(Debug, PartialEq)]
pub struct Define {
    pub ann: Span,
    pub ident: Identifier,
    pub body: Box<Expression>,
}

/// The parse root: the statements of one source text, in source order.
#[derive(Debug, PartialEq)]
pub struct Source {
    pub ann: Span,
    pub statements: Vec<Statement>,
}

/// A claim paired with its definition, under one identifier.
#[derive(Debug, PartialEq)]
pub struct Definition {
    pub ident: Identifier,
    pub claim: (Span, Box<Expression>),
    pub body: (Span, Box<Expression>),
}

/// Mathematical value of an [`Expression`].
#[verifier::ext_equal]
pub enum ExpressionView {
    Atom { ann: Span, ident: Seq<char> },
    Ref { ann: Span, ident: Seq<char> },
    Ty { ann: Span, ident: Seq<char> },
    Abs { ann: Span, args: Seq<ExpressionView>, body: Box<ExpressionView> },
    App { ann: Span, fun: Box<ExpressionView>, args: Seq<ExpressionView> },
}

/// Mathematical value of a [`Statement`].
#[verifier::ext_equal]
pub enum StatementView {
    Claim { ann: Span, ident: Seq<char>, expr: ExpressionView },
    Def { ann: Span, ident: Seq<char>, body: ExpressionView },
    Expr(ExpressionView),
}

/// Mathematical value of a [`Source`].
#[verifier::ext_equal]
pub struct SourceView {
    pub ann: Span,
    pub statements: Seq<StatementView>,
}

pub open spec fn expr_view(e: Expression) -> ExpressionView
    decreases e,
{
    match e {
        Expression::Atom(a) => ExpressionView::Atom { ann: a.ann, ident: a.ident@ },
        Expression::Ref(v) => ExpressionView::Ref { ann: v.ann, ident: v.ident@ },
        Expression::Ty(t) => ExpressionView::Ty { ann: t.ann, ident: t.ident@ },
        Expression::Abs(l) => ExpressionView::Abs {
            ann: l.ann,
            args: exprs_view(l.args@),
            body: Box::new(expr_view(*l.body)),
        },
        Expression::App(a) => ExpressionView::App {
            ann: a.ann,
            fun: Box::new(expr_view(*a.fun)),
            args: exprs_view(a.args@),
        },
    }
}

pub open spec fn exprs_view(es: Seq<Box<Expression>>) -> Seq<ExpressionView>
    decreases es,
{
    if es.len() == 0 {
        Seq::empty()
    } else {
        seq![expr_view(*es[0])] + exprs_view(es.drop_first())
    }
}

pub open spec fn stmt_view(s: Statement) -> StatementView {
    match s {
        Statement::Claim(c) => StatementView::Claim {
            ann: c.ann,
            ident: c.ident@,
            expr: expr_view(*c.expr),
        },
        Statement::Def(d) => StatementView::Def {
            ann: d.ann,
            ident: d.ident@,
            body: expr_view(*d.body),
        },
        Statement::Expr(e) => StatementView::Expr(expr_view(e)),
    }
}

pub open spec fn stmts_view(ss: Seq<Statement>) -> Seq<StatementView>
    decreases ss,
{
    if ss.len() == 0 {
        Seq::empty()
    } else {
        seq![stmt_view(ss[0])] + stmts_view(ss.drop_first())
    }
}

impl View for Expression {
    type V = ExpressionView;

    open spec fn view(&self) -> ExpressionView {
        expr_view(*self)
    }
}

impl View for Statement {
    type V = StatementView;

    open spec fn view(&self) -> StatementView {
        stmt_view(*self)
    }
}

impl View for Source {
    type V = SourceView;

    open spec fn view(&self) -> SourceView {
        SourceView { ann: self.ann, statements: stmts_view(self.statements@) }
    }
}

/// The view of a statement list is the pointwise view of its elements.
pub proof fn lemma_stmts_view(ss: Seq<Statement>)
    ensures
        stmts_view(ss).len() == ss.len(),
        forall|i: int| 0 <= i < ss.len() ==> stmts_view(ss)[i] == stmt_view(#[trigger] ss[i]),
    decreases ss,
{
    if ss.len() > 0 {
        lemma_stmts_view(ss.drop_first());
        assert forall|i: int| 0 <= i < ss.len() implies stmts_view(ss)[i] == stmt_view(
            #[trigger] ss[i],
        ) by {
            if i > 0 {
                assert(ss.drop_first()[i - 1] == ss[i]);
            }
        }
    }
}

/// The view of an expression list is the pointwise view of its elements.
pub proof fn lemma_exprs_view(es: Seq<Box<Expression>>)
    ensures
        exprs_view(es).len() == es.len(),
        forall|i: int| 0 <= i < es.len() ==> exprs_view(es)[i] == expr_view(*#[trigger] es[i]),
    decreases es,
{
    if es.len() > 0 {
        lemma_exprs_view(es.drop_first());
        assert forall|i: int| 0 <= i < es.len() implies exprs_view(es)[i] == expr_view(
            *#[trigger] es[i],
        ) by {
            if i > 0 {
                assert(es.drop_first()[i - 1] == es[i]);
            }
        }
    }
}

/// Appending one expression extends the view by its view.
pub proof fn lemma_exprs_view_push(es: Seq<Box<Expression>>, e: Box<Expression>)
    ensures
        exprs_view(es.push(e)) =~= exprs_view(es) + seq![expr_view(*e)],
    decreases es,
{
    if es.len() == 0 {
        assert(es.push(e)[0] == e);
        assert(es.push(e).drop_first() =~= Seq::<Box<Expression>>::empty());
        assert(exprs_view(Seq::<Box<Expression>>::empty()) =~= Seq::<ExpressionView>::empty());
        assert(exprs_view(es.push(e)) =~= seq![expr_view(*e)]);
    } else {
        lemma_exprs_view_push(es.drop_first(), e);
        assert(es.push(e)[0] == es[0]);
        assert(es.push(e).drop_first() =~= es.drop_first().push(e));
        assert(exprs_view(es.push(e)) == seq![expr_view(*es[0])] + exprs_view(
            es.drop_first().push(e),
        ));
    }
}

/// Appending one statement extends the view by its view.
pub proof fn lemma_stmts_view_push(ss: Seq<Statement>, s: Statement)
    ensures
        stmts_view(ss.push(s)) =~= stmts_view(ss) + seq![stmt_view(s)],
    decreases ss,
{
    if ss.len() == 0 {
        assert(ss.push(s)[0] == s);
        assert(ss.push(s).drop_first() =~= Seq::<Statement>::empty());
        assert(stmts_view(Seq::<Statement>::empty()) =~= Seq::<StatementView>::empty());
        assert(stmts_view(ss.push(s)) =~= seq![stmt_view(s)]);
    } else {
        lemma_stmts_view_push(ss.drop_first(), s);
        assert(ss.push(s)[0] == ss[0]);
        assert(ss.push(s).drop_first() =~= ss.drop_first().push(s));
        assert(stmts_view(ss.push(s)) == seq![stmt_view(ss[0])] + stmts_view(
            ss.drop_first().push(s),
        ));
    }
}

} // verus!
