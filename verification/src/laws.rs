use vstd::prelude::*;
use vstd::utf8::decode_utf8_encode_utf8;
use vstd::utf8::encode_utf8;
use crate::cst::CstChildView;
use crate::cst::CstView;
use crate::parser::spec_location;
use crate::parser::spec_parse_args;
use crate::parser::spec_parse_lambda;
use crate::parser::spec_parse_source;
use crate::parser::spec_parse_statement;
use crate::parser::spec_parse_statements;
use crate::parser::spec_read;
use crate::parser::ParseErrorView;
use crate::span::Span;
use crate::syntax::ExpressionView;
use crate::syntax::SourceView;
use crate::syntax::StatementView;

verus! {

/// What a span's text is made of: the text recovered for a span, when the
/// read succeeds, re-encodes byte for byte to exactly the bytes of the
/// source under that span.
pub proof fn lemma_read_exact(loc: Span, data: Seq<u8>)
    ensures
        spec_read(loc, data) matches Ok(s) ==> {
            &&& loc.offset + loc.length <= data.len()
            &&& encode_utf8(s) == data.subrange(loc.offset as int, loc.offset + loc.length)
        },
{
    broadcast use decode_utf8_encode_utf8;

}

/// Parsing is a pure function of the tree and the text: equal inputs give
/// structurally equal syntax trees, whether they succeed or fail.
pub proof fn lemma_parse_deterministic(n1: CstView, n2: CstView, d1: Seq<u8>, d2: Seq<u8>)
    requires
        n1 == n2,
        d1 == d2,
    ensures
        spec_parse_source(n1, d1) == spec_parse_source(n2, d2),
{
}

/// A successfully parsed statement carries the variant of its node's kind:
/// `claim` nodes become claims, `define` nodes definitions, and `expression`
/// nodes bare expressions.
pub proof fn lemma_statement_variant(n: CstView, data: Seq<u8>)
    ensures
        spec_parse_statement(n, data) matches Ok(st) ==> {
            &&& (st is Claim <==> n.kind == "claim"@)
            &&& (st is Def <==> n.kind == "define"@)
            &&& (st is Expr <==> n.kind == "expression"@)
        },
{
    reveal_strlit("claim");
    reveal_strlit("define");
    reveal_strlit("expression");
    assert("claim"@.len() == 5);
    assert("define"@.len() == 6);
    assert("expression"@.len() == 10);
}

/// A source holding one statement node parses, when it succeeds, to exactly
/// one statement: the parse of that node.
pub proof fn lemma_single_statement_source(n: CstView, data: Seq<u8>)
    requires
        n.kind == "source"@,
        n.children.len() == 1,
        n.children[0].node.kind != "comment"@,
    ensures
        spec_parse_source(n, data) matches Ok(src) ==> {
            &&& src.statements.len() == 1
            &&& spec_parse_statement(n.children[0].node, data) == Ok::<_, ParseErrorView>(
                src.statements[0],
            )
        },
{
    assert(n.children.drop_first() =~= Seq::<CstChildView>::empty());
    assert(spec_parse_statements(n.children.drop_first(), data) == Ok::<
        Seq<StatementView>,
        ParseErrorView,
    >(Seq::empty()));
    match spec_parse_statement(n.children[0].node, data) {
        Ok(s) => {
            assert(spec_parse_statements(n.children, data) == Ok::<_, ParseErrorView>(
                seq![s] + Seq::empty(),
            ));
            assert((seq![s] + Seq::empty())[0] == s);
        },
        Err(_) => {},
    }
}

/// A child list with nothing filed under `arguments` contributes no
/// argument expressions.
pub proof fn lemma_parse_args_empty(cs: Seq<CstChildView>, data: Seq<u8>)
    requires
        forall|i: int| 0 <= i < cs.len() ==> (#[trigger] cs[i].field) != Some("arguments"@),
    ensures
        spec_parse_args(cs, data) == Ok::<Seq<ExpressionView>, ParseErrorView>(Seq::empty()),
    decreases cs,
{
    if cs.len() > 0 {
        assert(forall|i: int|
            0 <= i < cs.drop_first().len() ==> (#[trigger] cs.drop_first()[i].field) != Some(
                "arguments"@,
            ));
        lemma_parse_args_empty(cs.drop_first(), data);
    }
}

/// A lambda that declares no arguments parses, when it succeeds, to an
/// abstraction with an empty argument list and the parsed body.
pub proof fn lemma_lambda_no_args(n: CstView, data: Seq<u8>)
    requires
        forall|i: int| 0 <= i < n.children.len() ==> (#[trigger] n.children[i].field) != Some(
            "arguments"@,
        ),
    ensures
        spec_parse_lambda(n, data) matches Ok(e) ==> e matches ExpressionView::Abs {
            args,
            ..
        } && args.len() == 0,
{
    lemma_parse_args_empty(n.children, data);
}

/// An empty source parses to a source with no statements, annotated with
/// the root's span.
pub proof fn lemma_empty_source(n: CstView, data: Seq<u8>)
    requires
        n.kind == "source"@,
        n.children.len() == 0,
    ensures
        spec_parse_source(n, data) == Ok::<SourceView, ParseErrorView>(
            SourceView { ann: spec_location(n), statements: Seq::empty() },
        ),
{
}

} // verus!
