use vstd::prelude::*;
use vstd::string::StrSliceExecFns;
use vstd::string::StringExecFns;
use vstd::utf8::decode_utf8;
use vstd::utf8::encode_utf8;
use vstd::utf8::valid_utf8;
use crate::cst::lemma_cst_children_view;
use crate::cst::CstChildView;
use crate::cst::CstNode;
use crate::cst::CstView;
use crate::cst::cst_wf;
use crate::cst::lemma_member_child;
use crate::span::Span;
use crate::syntax::expr_view;
use crate::syntax::exprs_view;
use crate::syntax::lemma_exprs_view_push;
use crate::syntax::lemma_stmts_view_push;
use crate::syntax::stmt_view;
use crate::syntax::stmts_view;
use crate::syntax::Apply;
use crate::syntax::Atom;
use crate::syntax::Claim;
use crate::syntax::Define;
use crate::syntax::Expression;
use crate::syntax::ExpressionView;
use crate::syntax::Identifier;
use crate::syntax::Lambda;
use crate::syntax::Source;
use crate::syntax::SourceView;
use crate::syntax::Statement;
use crate::syntax::StatementView;
use crate::syntax::Type;
use crate::syntax::Variable;

verus! {

/// A mandatory single-kind position held a node of a different kind.
#[derive(Debug, PartialEq)]
pub struct Mismatch {
    pub loc: Span,
    pub actual: String,
    pub expected: String,
}

/// A mandatory field was absent on an otherwise correctly-kinded node.
#[derive(Debug, PartialEq)]
pub struct Missing {
    pub loc: Span,
    pub token: String,
    pub what: String,
}

/// None of an ordered set of alternative constructs matched; `expected`
/// lists the candidate kind labels in attempt order.
#[derive(Debug, PartialEq)]
pub struct Choice {
    pub loc: Span,
    pub actual: String,
    pub expected: Vec<String>,
}

/// The source text could not be seeked or read at the expected span.
#[derive(Debug, PartialEq)]
pub struct Reading {
    pub loc: Span,
    pub help: String,
}

/// The one diagnostic a failed parse returns; every variant carries the
/// primary offending span.
#[derive(Debug, PartialEq)]
pub enum ParseError {
    /// Extracted bytes were not valid UTF-8.
    Encoding { loc: Span },
    /// The grammar engine could not be configured.
    GrammarError { help: String },
    Reading(Reading),
    Mismatch(Mismatch),
    Missing(Missing),
    Choice(Choice),
}

/// Mathematical value of a [`Mismatch`].
#[verifier::ext_equal]
pub struct MismatchView {
    pub loc: Span,
    pub actual: Seq<char>,
    pub expected: Seq<char>,
}

/// Mathematical value of a [`Missing`].
#[verifier::ext_equal]
pub struct MissingView {
    pub loc: Span,
    pub token: Seq<char>,
    pub what: Seq<char>,
}

/// Mathematical value of a [`Choice`].
#[verifier::ext_equal]
pub struct ChoiceView {
    pub loc: Span,
    pub actual: Seq<char>,
    pub expected: Seq<Seq<char>>,
}

/// Mathematical value of a [`Reading`].
#[verifier::ext_equal]
pub struct ReadingView {
    pub loc: Span,
    pub help: Seq<char>,
}

/// Mathematical value of a [`ParseError`].
#[verifier::ext_equal]
pub enum ParseErrorView {
    Encoding { loc: Span },
    GrammarError { help: Seq<char> },
    Reading(ReadingView),
    Mismatch(MismatchView),
    Missing(MissingView),
    Choice(ChoiceView),
}

impl View for Mismatch {
    type V = MismatchView;

    open spec fn view(&self) -> MismatchView {
        MismatchView { loc: self.loc, actual: self.actual@, expected: self.expected@ }
    }
}

impl View for Missing {
    type V = MissingView;

    open spec fn view(&self) -> MissingView {
        MissingView { loc: self.loc, token: self.token@, what: self.what@ }
    }
}

impl View for Choice {
    type V = ChoiceView;

    open spec fn view(&self) -> ChoiceView {
        ChoiceView { loc: self.loc, actual: self.actual@, expected: self.expected.deep_view() }
    }
}

impl View for Reading {
    type V = ReadingView;

    open spec fn view(&self) -> ReadingView {
        ReadingView { loc: self.loc, help: self.help@ }
    }
}

impl View for ParseError {
    type V = ParseErrorView;

    open spec fn view(&self) -> ParseErrorView {
        match self {
            ParseError::Encoding { loc } => ParseErrorView::Encoding { loc: *loc },
            ParseError::GrammarError { help } => ParseErrorView::GrammarError { help: help@ },
            ParseError::Reading(r) => ParseErrorView::Reading(r@),
            ParseError::Mismatch(m) => ParseErrorView::Mismatch(m@),
            ParseError::Missing(m) => ParseErrorView::Missing(m@),
            ParseError::Choice(c) => ParseErrorView::Choice(c@),
        }
    }
}

/// The view of a `Result`, taken on both sides.
pub open spec fn res_view<T: View, E: View>(r: Result<T, E>) -> Result<T::V, E::V> {
    match r {
        Ok(t) => Ok(t@),
        Err(e) => Err(e@),
    }
}

/// The original source text as a random-access byte buffer with a read
/// cursor, seekable to any offset within it.
pub struct SourceCursor {
    pub data: Vec<u8>,
    pub pos: usize,
}

impl SourceCursor {
    /// Wraps a source text for span-directed extraction.
    pub fn new(text: &str) -> (c: SourceCursor)
        ensures
            c.data@ == encode_utf8(text@),
            c.pos == 0,
    {
        SourceCursor { data: text.as_bytes_vec(), pos: 0 }
    }
}

/// Relies on `<str as PartialEq>::eq`: two string slices compare equal
/// exactly when they hold the same characters.
#[verifier::external_body]
fn str_eq(a: &str, b: &str) -> (r: bool)
    ensures
        r == (a@ == b@),
{
    a == b
}

/// Relies on `String::from_utf8`: it returns a string exactly when the bytes
/// are valid UTF-8, and that string decodes them.
#[verifier::external_body]
fn string_from_utf8(bytes: Vec<u8>) -> (r: Option<String>)
    ensures
        r is Some <==> valid_utf8(bytes@),
        r matches Some(s) ==> s@ == decode_utf8(bytes@),
{
    match String::from_utf8(bytes) {
        Ok(s) => Some(s),
        Err(_) => None,
    }
}

/// The span covered by a node: its byte range as offset and length.
pub open spec fn spec_location(n: CstView) -> Span
    recommends
        n.start <= n.end,
{
    Span { offset: n.start, length: (n.end - n.start) as usize }
}

/// Computes a node's span from its byte range; infallible on a well-formed
/// node.
pub fn location(node: &CstNode) -> (s: Span)
    requires
        node@.start <= node@.end,
    ensures
        s == spec_location(node@),
{
    Span { offset: node.start, length: node.end - node.start }
}

pub open spec fn seek_help() -> Seq<char> {
    "seek past the end of the source"@
}

pub open spec fn short_read_help() -> Seq<char> {
    "span runs past the end of the source"@
}

/// What [`read`] returns: the text under `loc` in `data`, or the first
/// diagnostic among a failed seek, a short read, and an encoding fault.
pub open spec fn spec_read(loc: Span, data: Seq<u8>) -> Result<Seq<char>, ParseErrorView> {
    if loc.offset > data.len() {
        Err(ParseErrorView::Reading(ReadingView { loc, help: seek_help() }))
    } else if loc.length > data.len() - loc.offset {
        Err(ParseErrorView::Reading(ReadingView { loc, help: short_read_help() }))
    } else if !valid_utf8(data.subrange(loc.offset as int, loc.end())) {
        Err(ParseErrorView::Encoding { loc })
    } else {
        Ok(decode_utf8(data.subrange(loc.offset as int, loc.end())))
    }
}

/// Seeks the cursor to `loc.offset`, reads exactly `loc.length` bytes and
/// validates them as UTF-8. Only the read position of the cursor moves; the
/// text itself is never altered.
pub fn read(loc: Span, cursor: &mut SourceCursor) -> (r: Result<String, ParseError>)
    ensures
        final(cursor).data@ == old(cursor).data@,
        res_view(r) == spec_read(loc, old(cursor).data@),
        loc.offset > old(cursor).data@.len() ==> final(cursor).pos == old(cursor).pos,
        loc.offset <= old(cursor).data@.len() && loc.end() > old(cursor).data@.len()
            ==> final(cursor).pos == loc.offset,
        loc.end() <= old(cursor).data@.len() ==> final(cursor).pos == loc.end(),
{
    if loc.offset > cursor.data.len() {
        return Err(ParseError::Reading(Reading { loc, help: "seek past the end of the source".to_owned() }));
    }
    cursor.pos = loc.offset;
    if loc.length > cursor.data.len() - cursor.pos {
        return Err(ParseError::Reading(Reading { loc, help: "span runs past the end of the source".to_owned() }));
    }
    let sub = vstd::slice::slice_subrange(cursor.data.as_slice(), cursor.pos, cursor.pos + loc.length);
    let bytes = vstd::slice::slice_to_vec(sub);
    cursor.pos = cursor.pos + loc.length;
    match string_from_utf8(bytes) {
        Some(s) => Ok(s),
        None => Err(ParseError::Encoding { loc }),
    }
}

/// A kind label set in grammar quotes, as the diagnostics print it.
pub open spec fn quoted(s: Seq<char>) -> Seq<char> {
    "`"@ + s + "'"@
}

fn quote_label(s: &str) -> (r: String)
    ensures
        r@ == quoted(s@),
{
    let mut q = "`".to_owned();
    q.append(s);
    q.append("'");
    q
}

/// What [`expect`] returns: the node's span if its kind is exactly
/// `expected`, and a mismatch diagnostic otherwise.
pub open spec fn spec_expect(expected: Seq<char>, n: CstView) -> Result<Span, ParseErrorView> {
    if n.kind == expected {
        Ok(spec_location(n))
    } else {
        Err(
            ParseErrorView::Mismatch(
                MismatchView { loc: spec_location(n), actual: n.kind, expected: quoted(expected) },
            ),
        )
    }
}

/// Asserts that `node` has exactly the kind `expected`; the single primitive
/// behind every structurally mandatory grammar position.
pub fn expect(expected: &str, node: &CstNode) -> (r: Result<Span, ParseError>)
    requires
        node@.start <= node@.end,
    ensures
        res_view(r) == spec_expect(expected@, node@),
{
    let loc = location(node);
    if str_eq(node.kind.as_str(), expected) {
        Ok(loc)
    } else {
        Err(
            ParseError::Mismatch(
                Mismatch { loc, actual: node.kind.clone(), expected: quote_label(expected) },
            ),
        )
    }
}

fn mismatch(loc: Span, actual: String, expected: String) -> (e: ParseError)
    ensures
        e@ == ParseErrorView::Mismatch(MismatchView { loc, actual: actual@, expected: expected@ }),
{
    ParseError::Mismatch(Mismatch { loc, actual, expected })
}

fn missing(loc: Span, token: String, what: String) -> (e: ParseError)
    ensures
        e@ == ParseErrorView::Missing(MissingView { loc, token: token@, what: what@ }),
{
    ParseError::Missing(Missing { loc, token, what })
}

/// The child the grammar files under `name`, if any: the first one carrying
/// that field label.
pub open spec fn spec_child_by_field(cs: Seq<CstChildView>, name: Seq<char>) -> Option<CstView>
    decreases cs,
{
    if cs.len() == 0 {
        None
    } else if cs[0].field == Some(name) {
        Some(cs[0].node)
    } else {
        spec_child_by_field(cs.drop_first(), name)
    }
}

/// A child found by field name is one of the children.
pub proof fn lemma_child_by_field_member(cs: Seq<CstChildView>, name: Seq<char>)
    ensures
        spec_child_by_field(cs, name) matches Some(v) ==> exists|i: int|
            0 <= i < cs.len() && cs[i].node == v,
    decreases cs,
{
    if cs.len() > 0 && !(cs[0].field == Some(name)) {
        lemma_child_by_field_member(cs.drop_first(), name);
        match spec_child_by_field(cs, name) {
            Some(v) => {
                let i = choose|i: int| 0 <= i < cs.drop_first().len() && cs.drop_first()[i].node == v;
                assert(cs[i + 1].node == v);
            },
            None => {},
        }
    }
}

/// Looks up the single child the grammar associates with the field `name`.
#[verifier::loop_isolation(false)]
fn child_by_field_name<'a>(node: &'a CstNode, name: &str) -> (r: Option<&'a CstNode>)
    ensures
        match r {
            Some(c) => spec_child_by_field(node@.children, name@) == Some(c@),
            None => spec_child_by_field(node@.children, name@) is None,
        },
{
    proof {
        lemma_cst_children_view(node.children@);
        assert(node@.children.skip(0) =~= node@.children);
    }
    let mut i: usize = 0;
    while i < node.children.len()
        invariant
            0 <= i <= node.children.len(),
            spec_child_by_field(node@.children, name@) == spec_child_by_field(
                node@.children.skip(i as int),
                name@,
            ),
        decreases node.children.len() - i,
    {
        let child = &node.children[i];
        let found = match &child.field {
            Some(f) => str_eq(f.as_str(), name),
            None => false,
        };
        proof {
            assert(child@ == node.children@[i as int]@);
            assert(node@.children[i as int] == node.children@[i as int]@);
            assert(node@.children.skip(i as int)[0] == node@.children[i as int]);
        }
        if found {
            return Some(&child.node);
        }
        proof {
            assert(node@.children.skip(i as int).drop_first() =~= node@.children.skip(i as int + 1));
        }
        i = i + 1;
    }
    proof {
        assert(node@.children.skip(i as int).len() == 0);
    }
    None
}

/// The first named child of a node, if any.
pub open spec fn spec_named_child(cs: Seq<CstChildView>) -> Option<CstView>
    decreases cs,
{
    if cs.len() == 0 {
        None
    } else if cs[0].node.named {
        Some(cs[0].node)
    } else {
        spec_named_child(cs.drop_first())
    }
}

/// The first named child is one of the children.
pub proof fn lemma_named_child_member(cs: Seq<CstChildView>)
    ensures
        spec_named_child(cs) matches Some(v) ==> exists|i: int|
            0 <= i < cs.len() && cs[i].node == v,
    decreases cs,
{
    if cs.len() > 0 && !cs[0].node.named {
        lemma_named_child_member(cs.drop_first());
        match spec_named_child(cs) {
            Some(v) => {
                let i = choose|i: int| 0 <= i < cs.drop_first().len() && cs.drop_first()[i].node == v;
                assert(cs[i + 1].node == v);
            },
            None => {},
        }
    }
}

/// Looks up a node's first named child.
#[verifier::loop_isolation(false)]
fn named_child<'a>(node: &'a CstNode) -> (r: Option<&'a CstNode>)
    ensures
        match r {
            Some(c) => spec_named_child(node@.children) == Some(c@),
            None => spec_named_child(node@.children) is None,
        },
{
    proof {
        lemma_cst_children_view(node.children@);
        assert(node@.children.skip(0) =~= node@.children);
    }
    let mut i: usize = 0;
    while i < node.children.len()
        invariant
            0 <= i <= node.children.len(),
            spec_named_child(node@.children) == spec_named_child(node@.children.skip(i as int)),
        decreases node.children.len() - i,
    {
        let child = &node.children[i];
        proof {
            assert(child@ == node.children@[i as int]@);
            assert(node@.children[i as int] == node.children@[i as int]@);
            assert(node@.children.skip(i as int)[0] == node@.children[i as int]);
        }
        if child.node.named {
            return Some(&child.node);
        }
        proof {
            assert(node@.children.skip(i as int).drop_first() =~= node@.children.skip(i as int + 1));
        }
        i = i + 1;
    }
    proof {
        assert(node@.children.skip(i as int).len() == 0);
    }
    None
}

/// The tail of a rendered alternatives list: a comma-separated run of quoted
/// labels, each preceded by a separator.
pub open spec fn spec_label_rest(labels: Seq<Seq<char>>) -> Seq<char>
    decreases labels,
{
    if labels.len() == 0 {
        Seq::empty()
    } else {
        ", "@ + quoted(labels[0]) + spec_label_rest(labels.drop_first())
    }
}

/// The human-readable rendering of a list of legal alternatives.
pub open spec fn spec_one_of_msg(labels: Seq<Seq<char>>) -> Seq<char> {
    if labels.len() == 0 {
        "one of: "@
    } else {
        "one of: "@ + quoted(labels[0]) + spec_label_rest(labels.drop_first())
    }
}

/// Renders a list of candidate kind labels as one `one of: ...` message,
/// keeping the declared order.
#[verifier::loop_isolation(false)]
pub fn one_of_msg(variants: &Vec<String>) -> (r: String)
    ensures
        r@ == spec_one_of_msg(variants.deep_view()),
{
    let ghost dv = variants.deep_view();
    let mut acc = "one of: ".to_owned();
    if variants.len() == 0 {
        return acc;
    }
    acc.append("`");
    acc.append(variants[0].as_str());
    acc.append("'");
    proof {
        assert(dv[0] == variants@[0]@);
        assert(acc@ =~= "one of: "@ + quoted(dv[0]));
        assert(dv.drop_first() =~= dv.skip(1));
    }
    let mut i: usize = 1;
    while i < variants.len()
        invariant
            1 <= i <= variants.len(),
            spec_one_of_msg(dv) =~= acc@ + spec_label_rest(dv.skip(i as int)),
        decreases variants.len() - i,
    {
        acc.append(", ");
        acc.append("`");
        acc.append(variants[i].as_str());
        acc.append("'");
        proof {
            assert(dv[i as int] == variants@[i as int]@);
            assert(dv.skip(i as int)[0] == dv[i as int]);
            assert(dv.skip(i as int).drop_first() =~= dv.skip(i as int + 1));
        }
        i = i + 1;
    }
    proof {
        assert(dv.skip(i as int) =~= Seq::<Seq<char>>::empty());
    }
    acc
}

/// The statement kinds tried at a statement position, in attempt order.
pub open spec fn stmt_kind_labels() -> Seq<Seq<char>> {
    seq!["claim"@, "define"@, "expression"@]
}

/// The expression kinds tried under an `expression` wrapper, in attempt order.
pub open spec fn expr_kind_labels() -> Seq<Seq<char>> {
    seq!["atom"@, "identifier"@, "type_identifier"@, "lambda"@, "application"@]
}

/// What [`parse_name`] returns: the text under the node's `identifier` field.
pub open spec fn spec_parse_name(n: CstView, data: Seq<u8>) -> Result<Seq<char>, ParseErrorView> {
    match spec_child_by_field(n.children, "identifier"@) {
        None => Err(
            ParseErrorView::Missing(
                MissingView { loc: spec_location(n), token: n.kind, what: "identifier"@ },
            ),
        ),
        Some(c) => spec_read(spec_location(c), data),
    }
}

/// What [`parse_atom`] returns.
pub open spec fn spec_parse_atom(n: CstView, data: Seq<u8>) -> Result<
    ExpressionView,
    ParseErrorView,
> {
    match spec_expect("atom"@, n) {
        Err(e) => Err(e),
        Ok(loc) => match spec_parse_name(n, data) {
            Err(e) => Err(e),
            Ok(ident) => Ok(ExpressionView::Atom { ann: loc, ident }),
        },
    }
}

/// What [`parse_identifier`] returns.
pub open spec fn spec_parse_identifier(n: CstView, data: Seq<u8>) -> Result<
    ExpressionView,
    ParseErrorView,
> {
    match spec_expect("identifier"@, n) {
        Err(e) => Err(e),
        Ok(loc) => match spec_read(loc, data) {
            Err(e) => Err(e),
            Ok(ident) => Ok(ExpressionView::Ref { ann: loc, ident }),
        },
    }
}

/// What [`parse_type_identifier`] returns.
pub open spec fn spec_parse_type_identifier(n: CstView, data: Seq<u8>) -> Result<
    ExpressionView,
    ParseErrorView,
> {
    match spec_expect("type_identifier"@, n) {
        Err(e) => Err(e),
        Ok(loc) => match spec_read(loc, data) {
            Err(e) => Err(e),
            Ok(ident) => Ok(ExpressionView::Ty { ann: loc, ident }),
        },
    }
}

/// What [`parse_expr`] returns: the node must be an `expression` wrapper, and
/// its first named child is dispatched over the candidate kinds in the fixed
/// order of [`expr_kind_labels`].
pub open spec fn spec_parse_expr(n: CstView, data: Seq<u8>) -> Result<
    ExpressionView,
    ParseErrorView,
>
    decreases n, 0int,
    via spec_parse_expr_decreases
{
    match spec_expect("expression"@, n) {
        Err(e) => Err(e),
        Ok(loc) => match spec_named_child(n.children) {
            None => Err(
                ParseErrorView::Missing(
                    MissingView { loc, token: "expression"@, what: "expression body"@ },
                ),
            ),
            Some(c) => if c.kind == "atom"@ {
                spec_parse_atom(c, data)
            } else if c.kind == "identifier"@ {
                spec_parse_identifier(c, data)
            } else if c.kind == "type_identifier"@ {
                spec_parse_type_identifier(c, data)
            } else if c.kind == "lambda"@ {
                spec_parse_lambda(c, data)
            } else if c.kind == "application"@ {
                spec_parse_application(c, data)
            } else {
                Err(
                    ParseErrorView::Choice(
                        ChoiceView {
                            loc: spec_location(c),
                            actual: c.kind,
                            expected: expr_kind_labels(),
                        },
                    ),
                )
            },
        },
    }
}

#[via_fn]
proof fn spec_parse_expr_decreases(n: CstView, data: Seq<u8>) {
    lemma_named_child_member(n.children);
    match spec_named_child(n.children) {
        Some(c) => {
            let i = choose|i: int| 0 <= i < n.children.len() && n.children[i].node == c;
            assert(decreases_to!(n => n.children));
            assert(decreases_to!(n.children => n.children[i]));
            assert(decreases_to!(n.children[i] => n.children[i].node));
        },
        None => {},
    }
}

/// What [`parse_lambda`] returns: the argument expressions in order, then the
/// mandatory body.
pub open spec fn spec_parse_lambda(n: CstView, data: Seq<u8>) -> Result<
    ExpressionView,
    ParseErrorView,
>
    decreases n, 1int,
    via spec_parse_lambda_decreases
{
    match spec_expect("lambda"@, n) {
        Err(e) => Err(e),
        Ok(loc) => match spec_parse_args(n.children, data) {
            Err(e) => Err(e),
            Ok(args) => match spec_child_by_field(n.children, "body"@) {
                None => Err(
                    ParseErrorView::Missing(
                        MissingView { loc, token: "`lambda'"@, what: "body `expression'"@ },
                    ),
                ),
                Some(b) => match spec_parse_expr(b, data) {
                    Err(e) => Err(e),
                    Ok(body) => Ok(
                        ExpressionView::Abs { ann: loc, args, body: Box::new(body) },
                    ),
                },
            },
        },
    }
}

#[via_fn]
proof fn spec_parse_lambda_decreases(n: CstView, data: Seq<u8>) {
    lemma_child_by_field_member(n.children, "body"@);
    assert(decreases_to!(n => n.children));
    match spec_child_by_field(n.children, "body"@) {
        Some(b) => {
            let i = choose|i: int| 0 <= i < n.children.len() && n.children[i].node == b;
            assert(decreases_to!(n.children => n.children[i]));
            assert(decreases_to!(n.children[i] => n.children[i].node));
        },
        None => {},
    }
}

/// What [`parse_application`] returns: the mandatory function expression,
/// then the argument expressions in order.
pub open spec fn spec_parse_application(n: CstView, data: Seq<u8>) -> Result<
    ExpressionView,
    ParseErrorView,
>
    decreases n, 1int,
    via spec_parse_application_decreases
{
    match spec_expect("application"@, n) {
        Err(e) => Err(e),
        Ok(loc) => match spec_child_by_field(n.children, "function"@) {
            None => Err(
                ParseErrorView::Missing(
                    MissingView {
                        loc,
                        token: "function `application'"@,
                        what: "function `expression'"@,
                    },
                ),
            ),
            Some(f) => match spec_parse_expr(f, data) {
                Err(e) => Err(e),
                Ok(fun) => match spec_parse_args(n.children, data) {
                    Err(e) => Err(e),
                    Ok(args) => Ok(
                        ExpressionView::App { ann: loc, fun: Box::new(fun), args },
                    ),
                },
            },
        },
    }
}

#[via_fn]
proof fn spec_parse_application_decreases(n: CstView, data: Seq<u8>) {
    lemma_child_by_field_member(n.children, "function"@);
    assert(decreases_to!(n => n.children));
    match spec_child_by_field(n.children, "function"@) {
        Some(f) => {
            let i = choose|i: int| 0 <= i < n.children.len() && n.children[i].node == f;
            assert(decreases_to!(n.children => n.children[i]));
            assert(decreases_to!(n.children[i] => n.children[i].node));
        },
        None => {},
    }
}

/// The expressions of the children filed under `arguments`, in order.
pub open spec fn spec_parse_args(cs: Seq<CstChildView>, data: Seq<u8>) -> Result<
    Seq<ExpressionView>,
    ParseErrorView,
>
    decreases cs, 2int,
{
    if cs.len() == 0 {
        Ok(Seq::empty())
    } else if cs[0].field == Some("arguments"@) {
        match spec_parse_expr(cs[0].node, data) {
            Err(e) => Err(e),
            Ok(e) => match spec_parse_args(cs.drop_first(), data) {
                Err(e2) => Err(e2),
                Ok(rest) => Ok(seq![e] + rest),
            },
        }
    } else {
        spec_parse_args(cs.drop_first(), data)
    }
}

/// What [`parse_expr_stmt`] returns: a bare expression as a statement.
pub open spec fn spec_parse_expr_stmt(n: CstView, data: Seq<u8>) -> Result<
    StatementView,
    ParseErrorView,
>
    decreases n, 1int,
{
    match spec_parse_expr(n, data) {
        Err(e) => Err(e),
        Ok(e) => Ok(StatementView::Expr(e)),
    }
}

/// What [`parse_claim`] returns: the claimed name and its mandatory type
/// expression.
pub open spec fn spec_parse_claim(n: CstView, data: Seq<u8>) -> Result<
    StatementView,
    ParseErrorView,
>
    decreases n, 1int,
    via spec_parse_claim_decreases
{
    match spec_expect("claim"@, n) {
        Err(e) => Err(e),
        Ok(loc) => match spec_parse_name(n, data) {
            Err(e) => Err(e),
            Ok(ident) => match spec_child_by_field(n.children, "type"@) {
                None => Err(
                    ParseErrorView::Missing(
                        MissingView { loc, token: "`claim'"@, what: "type `expression'"@ },
                    ),
                ),
                Some(c) => match spec_parse_expr(c, data) {
                    Err(e) => Err(e),
                    Ok(expr) => Ok(StatementView::Claim { ann: loc, ident, expr }),
                },
            },
        },
    }
}

#[via_fn]
proof fn spec_parse_claim_decreases(n: CstView, data: Seq<u8>) {
    lemma_child_by_field_member(n.children, "type"@);
    assert(decreases_to!(n => n.children));
    match spec_child_by_field(n.children, "type"@) {
        Some(c) => {
            let i = choose|i: int| 0 <= i < n.children.len() && n.children[i].node == c;
            assert(decreases_to!(n.children => n.children[i]));
            assert(decreases_to!(n.children[i] => n.children[i].node));
        },
        None => {},
    }
}

/// What [`parse_define`] returns: the defined name and its mandatory body.
pub open spec fn spec_parse_define(n: CstView, data: Seq<u8>) -> Result<
    StatementView,
    ParseErrorView,
>
    decreases n, 1int,
    via spec_parse_define_decreases
{
    match spec_expect("define"@, n) {
        Err(e) => Err(e),
        Ok(loc) => match spec_parse_name(n, data) {
            Err(e) => Err(e),
            Ok(ident) => match spec_child_by_field(n.children, "body"@) {
                None => Err(
                    ParseErrorView::Missing(
                        MissingView { loc, token: "`define'"@, what: "body `expression'"@ },
                    ),
                ),
                Some(b) => match spec_parse_expr(b, data) {
                    Err(e) => Err(e),
                    Ok(body) => Ok(StatementView::Def { ann: loc, ident, body }),
                },
            },
        },
    }
}

#[via_fn]
proof fn spec_parse_define_decreases(n: CstView, data: Seq<u8>) {
    lemma_child_by_field_member(n.children, "body"@);
    assert(decreases_to!(n => n.children));
    match spec_child_by_field(n.children, "body"@) {
        Some(b) => {
            let i = choose|i: int| 0 <= i < n.children.len() && n.children[i].node == b;
            assert(decreases_to!(n.children => n.children[i]));
            assert(decreases_to!(n.children[i] => n.children[i].node));
        },
        None => {},
    }
}

/// What [`parse_statement`] returns: dispatch over the statement kinds of
/// [`stmt_kind_labels`], by exact kind.
pub open spec fn spec_parse_statement(n: CstView, data: Seq<u8>) -> Result<
    StatementView,
    ParseErrorView,
>
    decreases n, 2int,
{
    if n.kind == "claim"@ {
        spec_parse_claim(n, data)
    } else if n.kind == "define"@ {
        spec_parse_define(n, data)
    } else if n.kind == "expression"@ {
        spec_parse_expr_stmt(n, data)
    } else {
        Err(
            ParseErrorView::Mismatch(
                MismatchView {
                    loc: spec_location(n),
                    actual: n.kind,
                    expected: spec_one_of_msg(stmt_kind_labels()),
                },
            ),
        )
    }
}

/// The statements of a child list, in order, comment nodes skipped.
pub open spec fn spec_parse_statements(cs: Seq<CstChildView>, data: Seq<u8>) -> Result<
    Seq<StatementView>,
    ParseErrorView,
>
    decreases cs, 3int,
{
    if cs.len() == 0 {
        Ok(Seq::empty())
    } else if cs[0].node.kind == "comment"@ {
        spec_parse_statements(cs.drop_first(), data)
    } else {
        match spec_parse_statement(cs[0].node, data) {
            Err(e) => Err(e),
            Ok(s) => match spec_parse_statements(cs.drop_first(), data) {
                Err(e) => Err(e),
                Ok(rest) => Ok(seq![s] + rest),
            },
        }
    }
}

/// What [`parse_source`] returns: the root must be a `source` node, and its
/// children become the statement list.
pub open spec fn spec_parse_source(n: CstView, data: Seq<u8>) -> Result<
    SourceView,
    ParseErrorView,
>
    decreases n, 4int,
{
    match spec_expect("source"@, n) {
        Err(e) => Err(e),
        Ok(loc) => match spec_parse_statements(n.children, data) {
            Err(e) => Err(e),
            Ok(ss) => Ok(SourceView { ann: loc, statements: ss }),
        },
    }
}

fn stmt_kind_label_vec() -> (v: Vec<String>)
    ensures
        v.deep_view() == stmt_kind_labels(),
{
    let mut v: Vec<String> = Vec::new();
    v.push("claim".to_owned());
    v.push("define".to_owned());
    v.push("expression".to_owned());
    proof {
        assert(v.deep_view() =~= stmt_kind_labels());
    }
    v
}

fn expr_kind_label_vec() -> (v: Vec<String>)
    ensures
        v.deep_view() == expr_kind_labels(),
{
    let mut v: Vec<String> = Vec::new();
    v.push("atom".to_owned());
    v.push("identifier".to_owned());
    v.push("type_identifier".to_owned());
    v.push("lambda".to_owned());
    v.push("application".to_owned());
    proof {
        assert(v.deep_view() =~= expr_kind_labels());
    }
    v
}

/// Recovers the identifier text of the child filed under `identifier`.
pub fn parse_name(node: &CstNode, cursor: &mut SourceCursor) -> (r: Result<Identifier, ParseError>)
    requires
        cst_wf(node@),
    ensures
        final(cursor).data@ == old(cursor).data@,
        res_view(r) == spec_parse_name(node@, old(cursor).data@),
{
    let ident_node = match child_by_field_name(node, "identifier") {
        None => return Err(missing(location(node), node.kind.clone(), "identifier".to_owned())),
        Some(c) => c,
    };
    proof {
        lemma_child_by_field_member(node@.children, "identifier"@);
        lemma_member_child(node@, ident_node@);
    }
    match read(location(ident_node), cursor) {
        Ok(s) => Ok(Identifier(s)),
        Err(e) => Err(e),
    }
}

/// Builds an atom expression from an `atom` node.
pub fn parse_atom(node: &CstNode, cursor: &mut SourceCursor) -> (r: Result<Expression, ParseError>)
    requires
        cst_wf(node@),
    ensures
        final(cursor).data@ == old(cursor).data@,
        res_view(r) == spec_parse_atom(node@, old(cursor).data@),
{
    let loc = match expect("atom", node) {
        Ok(l) => l,
        Err(e) => return Err(e),
    };
    let ident = match parse_name(node, cursor) {
        Ok(i) => i,
        Err(e) => return Err(e),
    };
    Ok(Expression::Atom(Atom { ann: loc, ident }))
}

/// Builds a variable reference from an `identifier` node; the node's own
/// span is the identifier text.
pub fn parse_identifier(node: &CstNode, cursor: &mut SourceCursor) -> (r: Result<
    Expression,
    ParseError,
>)
    requires
        cst_wf(node@),
    ensures
        final(cursor).data@ == old(cursor).data@,
        res_view(r) == spec_parse_identifier(node@, old(cursor).data@),
{
    let loc = match expect("identifier", node) {
        Ok(l) => l,
        Err(e) => return Err(e),
    };
    match read(loc, cursor) {
        Ok(s) => Ok(Expression::Ref(Variable { ann: loc, ident: Identifier(s) })),
        Err(e) => Err(e),
    }
}

/// Builds a type variable reference from a `type_identifier` node.
pub fn parse_type_identifier(node: &CstNode, cursor: &mut SourceCursor) -> (r: Result<
    Expression,
    ParseError,
>)
    requires
        cst_wf(node@),
    ensures
        final(cursor).data@ == old(cursor).data@,
        res_view(r) == spec_parse_type_identifier(node@, old(cursor).data@),
{
    let loc = match expect("type_identifier", node) {
        Ok(l) => l,
        Err(e) => return Err(e),
    };
    match read(loc, cursor) {
        Ok(s) => Ok(Expression::Ty(Type { ann: loc, ident: Identifier(s) })),
        Err(e) => Err(e),
    }
}

/// Builds the expression under an `expression` wrapper node, dispatching on
/// the kind of its first named child over the candidates of
/// [`expr_kind_labels`], in that order.
pub fn parse_expr(node: &CstNode, cursor: &mut SourceCursor) -> (r: Result<Expression, ParseError>)
    requires
        cst_wf(node@),
    ensures
        final(cursor).data@ == old(cursor).data@,
        res_view(r) == spec_parse_expr(node@, old(cursor).data@),
    decreases node@, 0int,
{
    let loc = match expect("expression", node) {
        Ok(l) => l,
        Err(e) => return Err(e),
    };
    let child = match named_child(node) {
        None => return Err(missing(loc, "expression".to_owned(), "expression body".to_owned())),
        Some(c) => c,
    };
    proof {
        lemma_named_child_member(node@.children);
        lemma_member_child(node@, child@);
    }
    if str_eq(child.kind.as_str(), "atom") {
        parse_atom(child, cursor)
    } else if str_eq(child.kind.as_str(), "identifier") {
        parse_identifier(child, cursor)
    } else if str_eq(child.kind.as_str(), "type_identifier") {
        parse_type_identifier(child, cursor)
    } else if str_eq(child.kind.as_str(), "lambda") {
        parse_lambda(child, cursor)
    } else if str_eq(child.kind.as_str(), "application") {
        parse_application(child, cursor)
    } else {
        Err(
            ParseError::Choice(
                Choice {
                    loc: location(child),
                    actual: child.kind.clone(),
                    expected: expr_kind_label_vec(),
                },
            ),
        )
    }
}

/// Parses the expressions of the children filed under `arguments`, in order.
#[verifier::loop_isolation(false)]
fn parse_args(node: &CstNode, cursor: &mut SourceCursor) -> (r: Result<
    Vec<Box<Expression>>,
    ParseError,
>)
    requires
        cst_wf(node@),
    ensures
        final(cursor).data@ == old(cursor).data@,
        match r {
            Ok(es) => spec_parse_args(node@.children, old(cursor).data@) == Ok::<
                _,
                ParseErrorView,
            >(exprs_view(es@)),
            Err(e) => spec_parse_args(node@.children, old(cursor).data@) == Err::<
                Seq<ExpressionView>,
                _,
            >(e@),
        },
    decreases node@, 0int,
{
    let ghost data = cursor.data@;
    let mut args: Vec<Box<Expression>> = Vec::new();
    let mut i: usize = 0;
    proof {
        lemma_cst_children_view(node.children@);
        assert(node@.children.skip(0) =~= node@.children);
        assert(exprs_view(args@) =~= Seq::<ExpressionView>::empty());
    }
    while i < node.children.len()
        invariant
            i <= node.children.len(),
            cursor.data@ == data,
            spec_parse_args(node@.children, data) == (match spec_parse_args(
                node@.children.skip(i as int),
                data,
            ) {
                Ok(rest) => Ok::<_, ParseErrorView>(exprs_view(args@) + rest),
                Err(e) => Err::<Seq<ExpressionView>, _>(e),
            }),
        decreases node.children.len() - i,
    {
        let child = &node.children[i];
        proof {
            assert(child@ == node.children@[i as int]@);
            assert(node@.children[i as int] == node.children@[i as int]@);
            assert(node@.children.skip(i as int)[0] == node@.children[i as int]);
            assert(node@.children.skip(i as int).drop_first() =~= node@.children.skip(
                i as int + 1,
            ));
        }
        let is_arg = match &child.field {
            Some(f) => str_eq(f.as_str(), "arguments"),
            None => false,
        };
        if is_arg {
            proof {
                assert(node@.children[i as int].node == child@.node);
                lemma_member_child(node@, child@.node);
            }
            match parse_expr(&child.node, cursor) {
                Ok(e) => {
                    let ghost old_args = args@;
                    args.push(Box::new(e));
                    proof {
                        lemma_exprs_view_push(old_args, Box::new(e));
                        assert forall|rest: Seq<ExpressionView>|
                            exprs_view(old_args) + (seq![expr_view(e)] + rest) =~= exprs_view(
                                args@,
                            ) + rest by {}
                    }
                },
                Err(e) => return Err(e),
            }
        }
        i = i + 1;
    }
    proof {
        assert(node@.children.skip(node.children.len() as int)
            =~= Seq::<CstChildView>::empty());
        assert(exprs_view(args@) + Seq::<ExpressionView>::empty() =~= exprs_view(args@));
    }
    Ok(args)
}

/// Builds a lambda abstraction from a `lambda` node: the arguments first,
/// then the mandatory body.
pub fn parse_lambda(node: &CstNode, cursor: &mut SourceCursor) -> (r: Result<
    Expression,
    ParseError,
>)
    requires
        cst_wf(node@),
    ensures
        final(cursor).data@ == old(cursor).data@,
        res_view(r) == spec_parse_lambda(node@, old(cursor).data@),
    decreases node@, 1int,
{
    let loc = match expect("lambda", node) {
        Ok(l) => l,
        Err(e) => return Err(e),
    };
    let args = match parse_args(node, cursor) {
        Ok(a) => a,
        Err(e) => return Err(e),
    };
    let body_node = match child_by_field_name(node, "body") {
        None => return Err(missing(loc, "`lambda'".to_owned(), "body `expression'".to_owned())),
        Some(b) => b,
    };
    proof {
        lemma_child_by_field_member(node@.children, "body"@);
        lemma_member_child(node@, body_node@);
    }
    let body = match parse_expr(body_node, cursor) {
        Ok(b) => b,
        Err(e) => return Err(e),
    };
    Ok(Expression::Abs(Lambda { ann: loc, args, body: Box::new(body) }))
}

/// Builds an application from an `application` node: the mandatory function
/// expression first, then the arguments.
pub fn parse_application(node: &CstNode, cursor: &mut SourceCursor) -> (r: Result<
    Expression,
    ParseError,
>)
    requires
        cst_wf(node@),
    ensures
        final(cursor).data@ == old(cursor).data@,
        res_view(r) == spec_parse_application(node@, old(cursor).data@),
    decreases node@, 1int,
{
    let loc = match expect("application", node) {
        Ok(l) => l,
        Err(e) => return Err(e),
    };
    let fun_node = match child_by_field_name(node, "function") {
        None => return Err(
            missing(loc, "function `application'".to_owned(), "function `expression'".to_owned()),
        ),
        Some(f) => f,
    };
    proof {
        lemma_child_by_field_member(node@.children, "function"@);
        lemma_member_child(node@, fun_node@);
    }
    let fun = match parse_expr(fun_node, cursor) {
        Ok(f) => f,
        Err(e) => return Err(e),
    };
    let args = match parse_args(node, cursor) {
        Ok(a) => a,
        Err(e) => return Err(e),
    };
    Ok(Expression::App(Apply { ann: loc, fun: Box::new(fun), args }))
}

/// Wraps a bare expression node as a statement.
pub fn parse_expr_stmt(node: &CstNode, cursor: &mut SourceCursor) -> (r: Result<
    Statement,
    ParseError,
>)
    requires
        cst_wf(node@),
    ensures
        final(cursor).data@ == old(cursor).data@,
        res_view(r) == spec_parse_expr_stmt(node@, old(cursor).data@),
    decreases node@, 1int,
{
    match parse_expr(node, cursor) {
        Ok(e) => Ok(Statement::Expr(e)),
        Err(e) => Err(e),
    }
}

/// Builds a claim statement from a `claim` node: its name, then the
/// mandatory type expression.
pub fn parse_claim(node: &CstNode, cursor: &mut SourceCursor) -> (r: Result<Statement, ParseError>)
    requires
        cst_wf(node@),
    ensures
        final(cursor).data@ == old(cursor).data@,
        res_view(r) == spec_parse_claim(node@, old(cursor).data@),
    decreases node@, 1int,
{
    let loc = match expect("claim", node) {
        Ok(l) => l,
        Err(e) => return Err(e),
    };
    let ident = match parse_name(node, cursor) {
        Ok(i) => i,
        Err(e) => return Err(e),
    };
    let type_node = match child_by_field_name(node, "type") {
        None => return Err(missing(loc, "`claim'".to_owned(), "type `expression'".to_owned())),
        Some(c) => c,
    };
    proof {
        lemma_child_by_field_member(node@.children, "type"@);
        lemma_member_child(node@, type_node@);
    }
    let expr = match parse_expr(type_node, cursor) {
        Ok(e) => e,
        Err(e) => return Err(e),
    };
    Ok(Statement::Claim(Claim { ann: loc, ident, expr: Box::new(expr) }))
}

/// Builds a definition statement from a `define` node: its name, then the
/// mandatory body.
pub fn parse_define(node: &CstNode, cursor: &mut SourceCursor) -> (r: Result<Statement, ParseError>)
    requires
        cst_wf(node@),
    ensures
        final(cursor).data@ == old(cursor).data@,
        res_view(r) == spec_parse_define(node@, old(cursor).data@),
    decreases node@, 1int,
{
    let loc = match expect("define", node) {
        Ok(l) => l,
        Err(e) => return Err(e),
    };
    let ident = match parse_name(node, cursor) {
        Ok(i) => i,
        Err(e) => return Err(e),
    };
    let body_node = match child_by_field_name(node, "body") {
        None => return Err(missing(loc, "`define'".to_owned(), "body `expression'".to_owned())),
        Some(b) => b,
    };
    proof {
        lemma_child_by_field_member(node@.children, "body"@);
        lemma_member_child(node@, body_node@);
    }
    let body = match parse_expr(body_node, cursor) {
        Ok(b) => b,
        Err(e) => return Err(e),
    };
    Ok(Statement::Def(Define { ann: loc, ident, body: Box::new(body) }))
}

/// Builds a statement, dispatching on the node's kind over the candidates of
/// [`stmt_kind_labels`].
pub fn parse_statement(node: &CstNode, cursor: &mut SourceCursor) -> (r: Result<
    Statement,
    ParseError,
>)
    requires
        cst_wf(node@),
    ensures
        final(cursor).data@ == old(cursor).data@,
        res_view(r) == spec_parse_statement(node@, old(cursor).data@),
    decreases node@, 2int,
{
    if str_eq(node.kind.as_str(), "claim") {
        parse_claim(node, cursor)
    } else if str_eq(node.kind.as_str(), "define") {
        parse_define(node, cursor)
    } else if str_eq(node.kind.as_str(), "expression") {
        parse_expr_stmt(node, cursor)
    } else {
        let labels = stmt_kind_label_vec();
        Err(mismatch(location(node), node.kind.clone(), one_of_msg(&labels)))
    }
}

/// Builds the parse root from a `source` node, collecting its children as
/// statements in order and skipping comment nodes.
#[verifier::loop_isolation(false)]
#[verifier::rlimit(60)]
pub fn parse_source(node: &CstNode, cursor: &mut SourceCursor) -> (r: Result<Source, ParseError>)
    requires
        cst_wf(node@),
    ensures
        final(cursor).data@ == old(cursor).data@,
        res_view(r) == spec_parse_source(node@, old(cursor).data@),
    decreases node@, 4int,
{
    let ghost data = cursor.data@;
    let loc = match expect("source", node) {
        Ok(l) => l,
        Err(e) => return Err(e),
    };
    let mut statements: Vec<Statement> = Vec::new();
    let mut i: usize = 0;
    proof {
        lemma_cst_children_view(node.children@);
        assert(node@.children.skip(0) =~= node@.children);
        assert(stmts_view(statements@) =~= Seq::<StatementView>::empty());
    }
    while i < node.children.len()
        invariant
            i <= node.children.len(),
            cursor.data@ == data,
            spec_parse_statements(node@.children, data) == (match spec_parse_statements(
                node@.children.skip(i as int),
                data,
            ) {
                Ok(rest) => Ok::<_, ParseErrorView>(stmts_view(statements@) + rest),
                Err(e) => Err::<Seq<StatementView>, _>(e),
            }),
        decreases node.children.len() - i,
    {
        let child = &node.children[i];
        proof {
            assert(child@ == node.children@[i as int]@);
            assert(node@.children[i as int] == node.children@[i as int]@);
            assert(node@.children.skip(i as int)[0] == node@.children[i as int]);
            assert(node@.children.skip(i as int).drop_first() =~= node@.children.skip(
                i as int + 1,
            ));
        }
        if !str_eq(child.node.kind.as_str(), "comment") {
            proof {
                assert(node@.children[i as int].node == child@.node);
                lemma_member_child(node@, child@.node);
            }
            match parse_statement(&child.node, cursor) {
                Ok(s) => {
                    let ghost old_stmts = statements@;
                    statements.push(s);
                    proof {
                        lemma_stmts_view_push(old_stmts, s);
                        match spec_parse_statements(node@.children.skip(i as int + 1), data) {
                            Ok(rest) => {
                                assert(stmts_view(old_stmts) + (seq![stmt_view(s)] + rest)
                                    =~= stmts_view(statements@) + rest);
                            },
                            Err(_) => {},
                        }
                    }
                },
                Err(e) => return Err(e),
            }
        }
        i = i + 1;
    }
    proof {
        assert(node@.children.skip(node.children.len() as int)
            =~= Seq::<CstChildView>::empty());
        assert(stmts_view(statements@) + Seq::<StatementView>::empty() =~= stmts_view(statements@));
    }
    Ok(Source { ann: loc, statements })
}

/// The single entry point: builds the syntax tree of one source text from
/// the concrete syntax tree the grammar engine produced for it.
pub fn parse(node: &CstNode, text: &str) -> (r: Result<Source, ParseError>)
    requires
        cst_wf(node@),
    ensures
        res_view(r) == spec_parse_source(node@, encode_utf8(text@)),
{
    let mut cursor = SourceCursor::new(text);
    parse_source(node, &mut cursor)
}

} // verus!
