use crate::text::{str_eq, str_to_string, string_push};
use vstd::prelude::*;

verus! {

/// Delimiter of a token group.
#[derive(Debug, PartialEq, Eq, Structural, Clone, Copy)]
pub enum Delimiter {
    Parenthesis,
    Brace,
    Bracket,
    Invisible,
}

/// A token of the attribute's argument list.
pub enum ArgToken {
    Ident(String),
    /// A punctuation character; `true` when it is joined to the next one
    /// (as the two characters of `::`).
    Punct(char, bool),
    /// A string literal: its value and its source text.
    Str(String, String),
    /// Any other literal, by its source text.
    Literal(String),
    /// A delimited group: its delimiter, its tokens and its source text.
    Group(Delimiter, Vec<ArgToken>, String),
}

/// Where an expression of the argument list stands: tokens `start..end`.
pub struct ExprRange {
    pub start: usize,
    pub end: usize,
}

/// One `"key" = value` entry of `attributes(...)`: the key, and where its
/// value expression stands: tokens `start..end` of the group at position
/// `group` of the argument list.
pub struct AttributeArg {
    pub key: String,
    pub group: usize,
    pub start: usize,
    pub end: usize,
}

/// The options given to `#[wasi_instrument(...)]`.
pub struct InstrumentArgs {
    pub service: Option<String>,
    pub name: Option<String>,
    pub export: bool,
    pub attributes: Vec<AttributeArg>,
    /// `parent = <expr>`: the explicit parent context, by position in the list.
    pub parent: Option<ExprRange>,
}

/// Why an argument list was refused.
#[derive(Debug, PartialEq, Eq)]
pub enum ArgsError {
    /// An option did not start with an identifier.
    ExpectedIdent,
    /// `=` missing after `service`, `name`, `parent` or an attribute key.
    ExpectedEq,
    /// A string literal was missing.
    ExpectedStr,
    /// `attributes` was not followed by a parenthesized list.
    ExpectedParens,
    /// No expression follows, up to a comma or the end of the list.
    ExpectedExpr,
    /// Two options were not separated by a comma.
    ExpectedComma,
    /// An option that `#[wasi_instrument]` does not know: its name and its
    /// position in the argument list.
    Unsupported(String, usize),
    /// A Rust keyword where an option name belongs: the keyword and its
    /// position in the argument list.
    Keyword(String, usize),
}

pub struct AttributeArgView {
    pub key: Seq<char>,
    pub group: nat,
    pub start: nat,
    pub end: nat,
}

pub struct ArgsView {
    pub service: Option<Seq<char>>,
    pub name: Option<Seq<char>>,
    pub export: bool,
    pub attributes: Seq<AttributeArgView>,
    pub parent: Option<(nat, nat)>,
}

pub enum ArgsErrorView {
    ExpectedIdent,
    ExpectedEq,
    ExpectedStr,
    ExpectedParens,
    ExpectedExpr,
    ExpectedComma,
    Unsupported(Seq<char>, nat),
    Keyword(Seq<char>, nat),
}

pub open spec fn opt_string_view(o: Option<String>) -> Option<Seq<char>> {
    match o {
        Some(s) => Some(s@),
        None => None,
    }
}

impl View for AttributeArg {
    type V = AttributeArgView;

    open spec fn view(&self) -> AttributeArgView {
        AttributeArgView {
            key: self.key@,
            group: self.group as nat,
            start: self.start as nat,
            end: self.end as nat,
        }
    }
}

impl View for InstrumentArgs {
    type V = ArgsView;

    open spec fn view(&self) -> ArgsView {
        ArgsView {
            service: opt_string_view(self.service),
            name: opt_string_view(self.name),
            export: self.export,
            attributes: self.attributes@.map_values(|a: AttributeArg| a@),
            parent: match self.parent {
                Some(r) => Some((r.start as nat, r.end as nat)),
                None => None,
            },
        }
    }
}

impl View for ArgsError {
    type V = ArgsErrorView;

    open spec fn view(&self) -> ArgsErrorView {
        match self {
            ArgsError::ExpectedIdent => ArgsErrorView::ExpectedIdent,
            ArgsError::ExpectedEq => ArgsErrorView::ExpectedEq,
            ArgsError::ExpectedStr => ArgsErrorView::ExpectedStr,
            ArgsError::ExpectedParens => ArgsErrorView::ExpectedParens,
            ArgsError::ExpectedExpr => ArgsErrorView::ExpectedExpr,
            ArgsError::ExpectedComma => ArgsErrorView::ExpectedComma,
            ArgsError::Unsupported(s, i) => ArgsErrorView::Unsupported(s@, *i as nat),
            ArgsError::Keyword(s, i) => ArgsErrorView::Keyword(s@, *i as nat),
        }
    }
}

pub open spec fn no_args() -> ArgsView {
    ArgsView { service: None, name: None, export: false, attributes: Seq::empty(), parent: None }
}

pub open spec fn is_punct(t: ArgToken, c: char) -> bool {
    t matches ArgToken::Punct(p, _) && p == c
}

// ---------------------------------------------------------------------------
// The source text of a run of tokens, and `syn`'s expression grammar over it
// ---------------------------------------------------------------------------

/// Whether `syn` parses `text` as exactly one Rust expression
/// (`syn::parse_str::<syn::Expr>(text)` succeeds).
pub uninterp spec fn syn_parses_expr(text: Seq<char>) -> bool;

/// `syn::parse_str::<syn::Expr>`: whether the text is one expression. The
/// expression grammar is `syn`'s; only that the answer is a function of the
/// text is claimed.
#[verifier::external_body]
fn parses_as_expr(text: &str) -> (r: bool)
    ensures
        r == syn_parses_expr(text@),
{
    syn::parse_str::<syn::Expr>(text).is_ok()
}

/// The source text of one token.
pub open spec fn token_text(t: ArgToken) -> Seq<char> {
    match t {
        ArgToken::Ident(name) => name@,
        ArgToken::Punct(c, _) => seq![c],
        ArgToken::Str(_, text) => text@,
        ArgToken::Literal(text) => text@,
        ArgToken::Group(_, _, text) => text@,
    }
}

/// What separates a token's text from the next one's: nothing after a
/// joined punctuation character, a space otherwise.
pub open spec fn separator(t: ArgToken) -> Seq<char> {
    match t {
        ArgToken::Punct(_, true) => Seq::empty(),
        _ => seq![' '],
    }
}

/// The source text of a run of tokens.
pub open spec fn run_text(ts: Seq<ArgToken>) -> Seq<char>
    decreases ts.len(),
{
    if ts.len() == 0 {
        Seq::empty()
    } else if ts.len() == 1 {
        token_text(ts[0])
    } else {
        run_text(ts.drop_last()) + separator(ts[ts.len() - 2]) + token_text(ts.last())
    }
}

/// Whether tokens `start..end` are one expression that ends the entry: `syn`
/// parses their text as an expression, and a comma or the end of the list
/// follows them.
pub open spec fn ends_expr(toks: Seq<ArgToken>, start: int, end: int) -> bool {
    &&& start < end <= toks.len()
    &&& syn_parses_expr(run_text(toks.subrange(start, end)))
    &&& (end == toks.len() || is_punct(toks[end], ','))
}

/// The first `end` from `from` on at which the expression starting at
/// `start` ends.
pub open spec fn expr_end_from(toks: Seq<ArgToken>, start: int, from: int) -> Option<int>
    decreases toks.len() + 1 - from,
{
    if from > toks.len() || from < 0 {
        None
    } else if ends_expr(toks, start, from) {
        Some(from)
    } else {
        expr_end_from(toks, start, from + 1)
    }
}

/// Whether some run of tokens from `start` to an end at or after `from`
/// is one expression (whatever follows it).
pub open spec fn some_expr_from(toks: Seq<ArgToken>, start: int, from: int) -> bool
    decreases toks.len() + 1 - from,
{
    if from > toks.len() || from < 0 {
        false
    } else if start < from && syn_parses_expr(run_text(toks.subrange(start, from))) {
        true
    } else {
        some_expr_from(toks, start, from + 1)
    }
}

/// Why no expression ends the entry starting at `start`: an expression
/// there is followed by something other than a comma, or there is none.
pub open spec fn missing_expr_error(toks: Seq<ArgToken>, start: int) -> ArgsErrorView {
    if some_expr_from(toks, start, start + 1) {
        ArgsErrorView::ExpectedComma
    } else {
        ArgsErrorView::ExpectedExpr
    }
}

/// Where the expression starting at token `start` ends, if one does.
pub open spec fn expr_end(toks: Seq<ArgToken>, start: int) -> Option<int> {
    expr_end_from(toks, start, start + 1)
}

pub proof fn lemma_expr_end_from(toks: Seq<ArgToken>, start: int, from: int)
    ensures
        expr_end_from(toks, start, from) matches Some(e) ==> from <= e && ends_expr(toks, start, e),
    decreases toks.len() + 1 - from,
{
    if 0 <= from <= toks.len() && !ends_expr(toks, start, from) {
        lemma_expr_end_from(toks, start, from + 1);
    }
}

/// The words that `syn`'s identifier parser refuses (with "expected
/// identifier, found keyword"): the keywords of the Rust reference, and `_`.
/// The check itself is private to `syn`, and is this list and nothing more.
pub open spec fn is_keyword(name: Seq<char>) -> bool {
    name == "_"@
        || name == "abstract"@
        || name == "as"@
        || name == "async"@
        || name == "await"@
        || name == "become"@
        || name == "box"@
        || name == "break"@
        || name == "const"@
        || name == "continue"@
        || name == "crate"@
        || name == "do"@
        || name == "dyn"@
        || name == "else"@
        || name == "enum"@
        || name == "extern"@
        || name == "false"@
        || name == "final"@
        || name == "fn"@
        || name == "for"@
        || name == "if"@
        || name == "impl"@
        || name == "in"@
        || name == "let"@
        || name == "loop"@
        || name == "macro"@
        || name == "match"@
        || name == "mod"@
        || name == "move"@
        || name == "mut"@
        || name == "override"@
        || name == "priv"@
        || name == "pub"@
        || name == "ref"@
        || name == "return"@
        || name == "Self"@
        || name == "self"@
        || name == "static"@
        || name == "struct"@
        || name == "super"@
        || name == "trait"@
        || name == "true"@
        || name == "try"@
        || name == "type"@
        || name == "typeof"@
        || name == "unsafe"@
        || name == "unsized"@
        || name == "use"@
        || name == "virtual"@
        || name == "where"@
        || name == "while"@
        || name == "yield"@
}

/// Whether `name` is a Rust keyword (or `_`).
pub fn keyword(name: &str) -> (r: bool)
    ensures
        r == is_keyword(name@),
{
    str_eq(name, "_")
        || str_eq(name, "abstract")
        || str_eq(name, "as")
        || str_eq(name, "async")
        || str_eq(name, "await")
        || str_eq(name, "become")
        || str_eq(name, "box")
        || str_eq(name, "break")
        || str_eq(name, "const")
        || str_eq(name, "continue")
        || str_eq(name, "crate")
        || str_eq(name, "do")
        || str_eq(name, "dyn")
        || str_eq(name, "else")
        || str_eq(name, "enum")
        || str_eq(name, "extern")
        || str_eq(name, "false")
        || str_eq(name, "final")
        || str_eq(name, "fn")
        || str_eq(name, "for")
        || str_eq(name, "if")
        || str_eq(name, "impl")
        || str_eq(name, "in")
        || str_eq(name, "let")
        || str_eq(name, "loop")
        || str_eq(name, "macro")
        || str_eq(name, "match")
        || str_eq(name, "mod")
        || str_eq(name, "move")
        || str_eq(name, "mut")
        || str_eq(name, "override")
        || str_eq(name, "priv")
        || str_eq(name, "pub")
        || str_eq(name, "ref")
        || str_eq(name, "return")
        || str_eq(name, "Self")
        || str_eq(name, "self")
        || str_eq(name, "static")
        || str_eq(name, "struct")
        || str_eq(name, "super")
        || str_eq(name, "trait")
        || str_eq(name, "true")
        || str_eq(name, "try")
        || str_eq(name, "type")
        || str_eq(name, "typeof")
        || str_eq(name, "unsafe")
        || str_eq(name, "unsized")
        || str_eq(name, "use")
        || str_eq(name, "virtual")
        || str_eq(name, "where")
        || str_eq(name, "while")
        || str_eq(name, "yield")
}

// ---------------------------------------------------------------------------
// The grammar
// ---------------------------------------------------------------------------

/// The entries `"key" = value, ...` of an `attributes(...)` group, from
/// token `k` on, appended to `acc`.
pub open spec fn attribute_list(content: Seq<ArgToken>, k: int, group: nat, acc: ArgsView) -> Result<ArgsView, ArgsErrorView>
    decreases content.len() - k,
{
    if k < 0 || k >= content.len() {
        Ok(acc)
    } else {
        match content[k] {
            ArgToken::Str(key, _) => if k + 1 < content.len() && is_punct(content[k + 1], '=') {
                match expr_end(content, k + 2) {
                    None => Err(missing_expr_error(content, k + 2)),
                    Some(e) => {
                        let acc2 = ArgsView {
                            attributes: acc.attributes.push(
                                AttributeArgView { key: key@, group, start: (k + 2) as nat, end: e as nat },
                            ),
                            ..acc
                        };
                        if e >= content.len() {
                            Ok(acc2)
                        } else {
                            proof {
                                lemma_expr_end_from(content, k + 2, k + 3);
                            }
                            attribute_list(content, e + 1, group, acc2)
                        }
                    },
                }
            } else {
                Err(ArgsErrorView::ExpectedEq)
            },
            _ => Err(ArgsErrorView::ExpectedStr),
        }
    }
}

/// One option starting at token `i`: the position right after it and the
/// options with it applied.
pub open spec fn option_at(toks: Seq<ArgToken>, i: int, acc: ArgsView) -> Result<(int, ArgsView), ArgsErrorView> {
    match toks[i] {
        ArgToken::Ident(name) => if is_keyword(name@) {
            Err(ArgsErrorView::Keyword(name@, i as nat))
        } else if name@ == "service"@ || name@ == "name"@ {
            if !(i + 1 < toks.len() && is_punct(toks[i + 1], '=')) {
                Err(ArgsErrorView::ExpectedEq)
            } else {
                match if i + 2 < toks.len() { Some(toks[i + 2]) } else { None } {
                    Some(ArgToken::Str(v, _)) => Ok(
                        (
                            i + 3,
                            if name@ == "service"@ {
                                ArgsView { service: Some(v@), ..acc }
                            } else {
                                ArgsView { name: Some(v@), ..acc }
                            },
                        ),
                    ),
                    _ => Err(ArgsErrorView::ExpectedStr),
                }
            }
        } else if name@ == "parent"@ {
            if !(i + 1 < toks.len() && is_punct(toks[i + 1], '=')) {
                Err(ArgsErrorView::ExpectedEq)
            } else {
                match expr_end(toks, i + 2) {
                    Some(e) => Ok((e, ArgsView { parent: Some(((i + 2) as nat, e as nat)), ..acc })),
                    None => Err(missing_expr_error(toks, i + 2)),
                }
            }
        } else if name@ == "export"@ {
            Ok((i + 1, ArgsView { export: true, ..acc }))
        } else if name@ == "attributes"@ {
            match if i + 1 < toks.len() { Some(toks[i + 1]) } else { None } {
                Some(ArgToken::Group(Delimiter::Parenthesis, content, _)) => match attribute_list(
                    content@,
                    0,
                    (i + 1) as nat,
                    acc,
                ) {
                    Ok(acc2) => Ok((i + 2, acc2)),
                    Err(e) => Err(e),
                },
                _ => Err(ArgsErrorView::ExpectedParens),
            }
        } else {
            Err(ArgsErrorView::Unsupported(name@, i as nat))
        },
        _ => Err(ArgsErrorView::ExpectedIdent),
    }
}

/// The options from token `i` on, separated by commas (a trailing comma is
/// allowed), applied in order to `acc`; a later option overrides an earlier one.
pub open spec fn options_from(toks: Seq<ArgToken>, i: int, acc: ArgsView) -> Result<ArgsView, ArgsErrorView>
    decreases toks.len() - i,
{
    if i < 0 || i >= toks.len() {
        Ok(acc)
    } else {
        match option_at(toks, i, acc) {
            Err(e) => Err(e),
            Ok((j, acc2)) => if j >= toks.len() {
                Ok(acc2)
            } else if is_punct(toks[j], ',') {
                proof {
                    lemma_option_advances(toks, i, acc);
                }
                options_from(toks, j + 1, acc2)
            } else {
                Err(ArgsErrorView::ExpectedComma)
            },
        }
    }
}

pub proof fn lemma_option_advances(toks: Seq<ArgToken>, i: int, acc: ArgsView)
    requires
        0 <= i < toks.len(),
    ensures
        option_at(toks, i, acc) matches Ok((j, _)) ==> i < j <= toks.len(),
{
    if let ArgToken::Ident(name) = toks[i] {
        if name@ == "parent"@ {
            lemma_expr_end_from(toks, i + 2, i + 3);
        }
    }
}

/// The meaning of an argument list of `#[wasi_instrument]`.
pub open spec fn parse_args_spec(toks: Seq<ArgToken>) -> Result<ArgsView, ArgsErrorView> {
    options_from(toks, 0, no_args())
}

pub open spec fn args_result_view(r: Result<InstrumentArgs, ArgsError>) -> Result<ArgsView, ArgsErrorView> {
    match r {
        Ok(a) => Ok(a@),
        Err(e) => Err(e@),
    }
}

// ---------------------------------------------------------------------------
// Laws of the grammar
// ---------------------------------------------------------------------------

/// An attribute entry points at one expression, inside the parenthesized
/// group at position `group`, followed by a comma or the group's end.
pub open spec fn well_placed(toks: Seq<ArgToken>, a: AttributeArgView) -> bool {
    &&& a.group < toks.len()
    &&& toks[a.group as int] matches ArgToken::Group(Delimiter::Parenthesis, content, _) && ends_expr(
        content@,
        a.start as int,
        a.end as int,
    )
}

pub open spec fn all_well_placed(toks: Seq<ArgToken>, attrs: Seq<AttributeArgView>) -> bool {
    forall|i: int| 0 <= i < attrs.len() ==> well_placed(toks, #[trigger] attrs[i])
}

/// The explicit parent, when given, is one expression of the list followed
/// by a comma or the list's end.
pub open spec fn parent_well_placed(toks: Seq<ArgToken>, parent: Option<(nat, nat)>) -> bool {
    parent matches Some((s, e)) ==> ends_expr(toks, s as int, e as int)
}

proof fn lemma_attribute_list_well_placed(
    toks: Seq<ArgToken>,
    g: int,
    content: Vec<ArgToken>,
    text: String,
    k: int,
    acc: ArgsView,
)
    requires
        0 <= g < toks.len(),
        toks[g] == ArgToken::Group(Delimiter::Parenthesis, content, text),
        0 <= k,
        all_well_placed(toks, acc.attributes),
        attribute_list(content@, k, g as nat, acc) is Ok,
    ensures
        all_well_placed(toks, attribute_list(content@, k, g as nat, acc)->Ok_0.attributes),
        attribute_list(content@, k, g as nat, acc)->Ok_0.parent == acc.parent,
    decreases content@.len() - k,
{
    let c = content@;
    if k < c.len() {
        if let ArgToken::Str(key, _) = c[k] {
            if k + 1 < c.len() && is_punct(c[k + 1], '=') {
                lemma_expr_end_from(c, k + 2, k + 3);
                if let Some(e) = expr_end(c, k + 2) {
                    let entry = AttributeArgView { key: key@, group: g as nat, start: (k + 2) as nat, end: e as nat };
                    let acc2 = ArgsView { attributes: acc.attributes.push(entry), ..acc };
                    assert(well_placed(toks, entry));
                    assert(all_well_placed(toks, acc2.attributes)) by {
                        assert forall|i: int| 0 <= i < acc2.attributes.len() implies well_placed(
                            toks,
                            #[trigger] acc2.attributes[i],
                        ) by {
                            if i < acc.attributes.len() {
                                assert(acc2.attributes[i] == acc.attributes[i]);
                            }
                        }
                    }
                    if e < c.len() {
                        lemma_attribute_list_well_placed(toks, g, content, text, e + 1, acc2);
                    }
                }
            }
        }
    }
}

proof fn lemma_options_well_placed(toks: Seq<ArgToken>, i: int, acc: ArgsView)
    requires
        0 <= i,
        all_well_placed(toks, acc.attributes),
        parent_well_placed(toks, acc.parent),
        options_from(toks, i, acc) is Ok,
    ensures
        all_well_placed(toks, options_from(toks, i, acc)->Ok_0.attributes),
        parent_well_placed(toks, options_from(toks, i, acc)->Ok_0.parent),
    decreases toks.len() - i,
{
    if i < toks.len() {
        lemma_option_advances(toks, i, acc);
        if let Ok((j, acc2)) = option_at(toks, i, acc) {
            assert(all_well_placed(toks, acc2.attributes) && parent_well_placed(toks, acc2.parent)) by {
                if let ArgToken::Ident(name) = toks[i] {
                    if name@ == "attributes"@ && i + 1 < toks.len() {
                        if let ArgToken::Group(Delimiter::Parenthesis, content, text) = toks[i + 1] {
                            lemma_attribute_list_well_placed(toks, i + 1, content, text, 0, acc);
                        }
                    }
                    if name@ == "parent"@ {
                        lemma_expr_end_from(toks, i + 2, i + 3);
                    }
                }
            }
            if j < toks.len() && is_punct(toks[j], ',') {
                lemma_options_well_placed(toks, j + 1, acc2);
            }
        }
    }
}

/// Every attribute entry of an accepted argument list, and the explicit
/// parent, point at one `syn` expression followed by a comma or the end.
pub proof fn lemma_parsed_args_well_placed(toks: Seq<ArgToken>)
    requires
        parse_args_spec(toks) is Ok,
    ensures
        all_well_placed(toks, parse_args_spec(toks)->Ok_0.attributes),
        parent_well_placed(toks, parse_args_spec(toks)->Ok_0.parent),
{
    lemma_options_well_placed(toks, 0, no_args());
}

/// An expression is cut at the first comma (or the list's end) where the
/// tokens before it parse as one expression: no shorter run does.
pub proof fn lemma_expr_end_is_first(toks: Seq<ArgToken>, start: int, from: int)
    ensures
        expr_end_from(toks, start, from) matches Some(e) ==> (ends_expr(toks, start, e) && forall|x: int|
            from <= x < e ==> !#[trigger] ends_expr(toks, start, x)),
        expr_end_from(toks, start, from) is None && 0 <= from ==> forall|x: int|
            from <= x ==> !#[trigger] ends_expr(toks, start, x),
    decreases toks.len() + 1 - from,
{
    if 0 <= from <= toks.len() && !ends_expr(toks, start, from) {
        lemma_expr_end_is_first(toks, start, from + 1);
    }
}

/// One entry of an `attributes(...)` group is well formed: a string
/// literal holding its key, `=`, then its expression.
pub open spec fn entry_at(content: Seq<ArgToken>, group: nat, a: AttributeArgView) -> bool {
    &&& a.group == group
    &&& 2 <= a.start
    &&& (content[a.start - 2] matches ArgToken::Str(key, _) && key@ == a.key)
    &&& is_punct(content[a.start - 1], '=')
    &&& ends_expr(content, a.start as int, a.end as int)
}

/// An accepted `attributes(...)` group yields one entry per `"key" = value`
/// it holds, in order: the entries tile the group from token `k` on, each
/// starting right after the comma that ends the one before, the last ending
/// the group (or a trailing comma). The entries already found are kept, and
/// nothing but the entries changes.
pub proof fn lemma_attribute_list_tiles(content: Seq<ArgToken>, k: int, group: nat, acc: ArgsView)
    requires
        0 <= k,
        attribute_list(content, k, group, acc) is Ok,
    ensures
        ({
            let r = attribute_list(content, k, group, acc)->Ok_0;
            let n0 = acc.attributes.len() as int;
            &&& r == ArgsView { attributes: r.attributes, ..acc }
            &&& n0 <= r.attributes.len()
            &&& r.attributes.subrange(0, n0) == acc.attributes
            &&& k >= content.len() ==> r.attributes.len() == n0
            &&& k < content.len() ==> r.attributes.len() > n0 && r.attributes[n0].start == k + 2
            &&& forall|m: int| n0 <= m < r.attributes.len() ==> entry_at(content, group, #[trigger] r.attributes[m])
            &&& forall|m: int|
                #![trigger r.attributes[m]]
                n0 <= m < r.attributes.len() - 1 ==> r.attributes[m + 1].start == r.attributes[m].end + 3
            &&& r.attributes.len() > n0 ==> (r.attributes.last().end == content.len()
                || r.attributes.last().end + 1 == content.len())
        }),
    decreases content.len() - k,
{
    let r = attribute_list(content, k, group, acc)->Ok_0;
    let n0 = acc.attributes.len() as int;
    if k >= content.len() {
        assert(r.attributes.subrange(0, n0) =~= acc.attributes);
    } else {
        if let ArgToken::Str(key, _) = content[k] {
            lemma_expr_end_from(content, k + 2, k + 3);
            let e = expr_end(content, k + 2)->0;
            let entry = AttributeArgView { key: key@, group, start: (k + 2) as nat, end: e as nat };
            let acc2 = ArgsView { attributes: acc.attributes.push(entry), ..acc };
            assert(entry_at(content, group, entry));
            if e >= content.len() {
                assert(r.attributes.subrange(0, n0) =~= acc.attributes);
            } else {
                lemma_attribute_list_tiles(content, e + 1, group, acc2);
                assert(r.attributes.subrange(0, n0 + 1) == acc2.attributes);
                assert(r.attributes[n0] == acc2.attributes[n0]);
                assert(r.attributes.subrange(0, n0) =~= acc.attributes) by {
                    assert forall|m: int| 0 <= m < n0 implies r.attributes[m] == acc.attributes[m] by {
                        assert(r.attributes.subrange(0, n0 + 1)[m] == acc2.attributes[m]);
                    }
                }
            }
        }
    }
}

/// None of the five option names is a keyword.
proof fn lemma_option_names_not_keywords()
    ensures
        !is_keyword("service"@),
        !is_keyword("name"@),
        !is_keyword("parent"@),
        !is_keyword("export"@),
        !is_keyword("attributes"@),
        "service"@ != "name"@,
        "parent"@ != "service"@,
        "parent"@ != "name"@,
        "export"@ != "service"@,
        "export"@ != "name"@,
        "export"@ != "parent"@,
        "attributes"@ != "service"@,
        "attributes"@ != "name"@,
        "attributes"@ != "parent"@,
        "attributes"@ != "export"@,
{
    reveal_strlit("_");
    reveal_strlit("abstract");
    reveal_strlit("as");
    reveal_strlit("async");
    reveal_strlit("await");
    reveal_strlit("become");
    reveal_strlit("box");
    reveal_strlit("break");
    reveal_strlit("const");
    reveal_strlit("continue");
    reveal_strlit("crate");
    reveal_strlit("do");
    reveal_strlit("dyn");
    reveal_strlit("else");
    reveal_strlit("enum");
    reveal_strlit("extern");
    reveal_strlit("false");
    reveal_strlit("final");
    reveal_strlit("fn");
    reveal_strlit("for");
    reveal_strlit("if");
    reveal_strlit("impl");
    reveal_strlit("in");
    reveal_strlit("let");
    reveal_strlit("loop");
    reveal_strlit("macro");
    reveal_strlit("match");
    reveal_strlit("mod");
    reveal_strlit("move");
    reveal_strlit("mut");
    reveal_strlit("override");
    reveal_strlit("priv");
    reveal_strlit("pub");
    reveal_strlit("ref");
    reveal_strlit("return");
    reveal_strlit("Self");
    reveal_strlit("self");
    reveal_strlit("static");
    reveal_strlit("struct");
    reveal_strlit("super");
    reveal_strlit("trait");
    reveal_strlit("true");
    reveal_strlit("try");
    reveal_strlit("type");
    reveal_strlit("typeof");
    reveal_strlit("unsafe");
    reveal_strlit("unsized");
    reveal_strlit("use");
    reveal_strlit("virtual");
    reveal_strlit("where");
    reveal_strlit("while");
    reveal_strlit("yield");
    reveal_strlit("service");
    reveal_strlit("name");
    reveal_strlit("parent");
    reveal_strlit("export");
    reveal_strlit("attributes");
    assert("parent"@.len() != "service"@.len());
    assert("parent"@.len() != "name"@.len());
    assert("export"@.len() != "service"@.len());
    assert("export"@.len() != "name"@.len());
    assert("export"@[0] != "parent"@[0]);
    assert("service"@.len() != "_"@.len());
    assert("service"@.len() != "abstract"@.len());
    assert("service"@.len() != "as"@.len());
    assert("service"@.len() != "async"@.len());
    assert("service"@.len() != "await"@.len());
    assert("service"@.len() != "become"@.len());
    assert("service"@.len() != "box"@.len());
    assert("service"@.len() != "break"@.len());
    assert("service"@.len() != "const"@.len());
    assert("service"@.len() != "continue"@.len());
    assert("service"@.len() != "crate"@.len());
    assert("service"@.len() != "do"@.len());
    assert("service"@.len() != "dyn"@.len());
    assert("service"@.len() != "else"@.len());
    assert("service"@.len() != "enum"@.len());
    assert("service"@.len() != "extern"@.len());
    assert("service"@.len() != "false"@.len());
    assert("service"@.len() != "final"@.len());
    assert("service"@.len() != "fn"@.len());
    assert("service"@.len() != "for"@.len());
    assert("service"@.len() != "if"@.len());
    assert("service"@.len() != "impl"@.len());
    assert("service"@.len() != "in"@.len());
    assert("service"@.len() != "let"@.len());
    assert("service"@.len() != "loop"@.len());
    assert("service"@.len() != "macro"@.len());
    assert("service"@.len() != "match"@.len());
    assert("service"@.len() != "mod"@.len());
    assert("service"@.len() != "move"@.len());
    assert("service"@.len() != "mut"@.len());
    assert("service"@.len() != "override"@.len());
    assert("service"@.len() != "priv"@.len());
    assert("service"@.len() != "pub"@.len());
    assert("service"@.len() != "ref"@.len());
    assert("service"@.len() != "return"@.len());
    assert("service"@.len() != "Self"@.len());
    assert("service"@.len() != "self"@.len());
    assert("service"@.len() != "static"@.len());
    assert("service"@.len() != "struct"@.len());
    assert("service"@.len() != "super"@.len());
    assert("service"@.len() != "trait"@.len());
    assert("service"@.len() != "true"@.len());
    assert("service"@.len() != "try"@.len());
    assert("service"@.len() != "type"@.len());
    assert("service"@.len() != "typeof"@.len());
    assert("service"@.len() != "unsafe"@.len());
    assert("service"@[0] != "unsized"@[0]);
    assert("service"@.len() != "use"@.len());
    assert("service"@[0] != "virtual"@[0]);
    assert("service"@.len() != "where"@.len());
    assert("service"@.len() != "while"@.len());
    assert("service"@.len() != "yield"@.len());
    assert("service"@.len() != "name"@.len());
    assert("name"@.len() != "_"@.len());
    assert("name"@.len() != "abstract"@.len());
    assert("name"@.len() != "as"@.len());
    assert("name"@.len() != "async"@.len());
    assert("name"@.len() != "await"@.len());
    assert("name"@.len() != "become"@.len());
    assert("name"@.len() != "box"@.len());
    assert("name"@.len() != "break"@.len());
    assert("name"@.len() != "const"@.len());
    assert("name"@.len() != "continue"@.len());
    assert("name"@.len() != "crate"@.len());
    assert("name"@.len() != "do"@.len());
    assert("name"@.len() != "dyn"@.len());
    assert("name"@[0] != "else"@[0]);
    assert("name"@[0] != "enum"@[0]);
    assert("name"@.len() != "extern"@.len());
    assert("name"@.len() != "false"@.len());
    assert("name"@.len() != "final"@.len());
    assert("name"@.len() != "fn"@.len());
    assert("name"@.len() != "for"@.len());
    assert("name"@.len() != "if"@.len());
    assert("name"@[0] != "impl"@[0]);
    assert("name"@.len() != "in"@.len());
    assert("name"@.len() != "let"@.len());
    assert("name"@[0] != "loop"@[0]);
    assert("name"@.len() != "macro"@.len());
    assert("name"@.len() != "match"@.len());
    assert("name"@.len() != "mod"@.len());
    assert("name"@[0] != "move"@[0]);
    assert("name"@.len() != "mut"@.len());
    assert("name"@.len() != "override"@.len());
    assert("name"@[0] != "priv"@[0]);
    assert("name"@.len() != "pub"@.len());
    assert("name"@.len() != "ref"@.len());
    assert("name"@.len() != "return"@.len());
    assert("name"@[0] != "Self"@[0]);
    assert("name"@[0] != "self"@[0]);
    assert("name"@.len() != "static"@.len());
    assert("name"@.len() != "struct"@.len());
    assert("name"@.len() != "super"@.len());
    assert("name"@.len() != "trait"@.len());
    assert("name"@[0] != "true"@[0]);
    assert("name"@.len() != "try"@.len());
    assert("name"@[0] != "type"@[0]);
    assert("name"@.len() != "typeof"@.len());
    assert("name"@.len() != "unsafe"@.len());
    assert("name"@.len() != "unsized"@.len());
    assert("name"@.len() != "use"@.len());
    assert("name"@.len() != "virtual"@.len());
    assert("name"@.len() != "where"@.len());
    assert("name"@.len() != "while"@.len());
    assert("name"@.len() != "yield"@.len());
    assert("parent"@.len() != "_"@.len());
    assert("parent"@.len() != "abstract"@.len());
    assert("parent"@.len() != "as"@.len());
    assert("parent"@.len() != "async"@.len());
    assert("parent"@.len() != "await"@.len());
    assert("parent"@[0] != "become"@[0]);
    assert("parent"@.len() != "box"@.len());
    assert("parent"@.len() != "break"@.len());
    assert("parent"@.len() != "const"@.len());
    assert("parent"@.len() != "continue"@.len());
    assert("parent"@.len() != "crate"@.len());
    assert("parent"@.len() != "do"@.len());
    assert("parent"@.len() != "dyn"@.len());
    assert("parent"@.len() != "else"@.len());
    assert("parent"@.len() != "enum"@.len());
    assert("parent"@[0] != "extern"@[0]);
    assert("parent"@.len() != "false"@.len());
    assert("parent"@.len() != "final"@.len());
    assert("parent"@.len() != "fn"@.len());
    assert("parent"@.len() != "for"@.len());
    assert("parent"@.len() != "if"@.len());
    assert("parent"@.len() != "impl"@.len());
    assert("parent"@.len() != "in"@.len());
    assert("parent"@.len() != "let"@.len());
    assert("parent"@.len() != "loop"@.len());
    assert("parent"@.len() != "macro"@.len());
    assert("parent"@.len() != "match"@.len());
    assert("parent"@.len() != "mod"@.len());
    assert("parent"@.len() != "move"@.len());
    assert("parent"@.len() != "mut"@.len());
    assert("parent"@.len() != "override"@.len());
    assert("parent"@.len() != "priv"@.len());
    assert("parent"@.len() != "pub"@.len());
    assert("parent"@.len() != "ref"@.len());
    assert("parent"@[0] != "return"@[0]);
    assert("parent"@.len() != "Self"@.len());
    assert("parent"@.len() != "self"@.len());
    assert("parent"@[0] != "static"@[0]);
    assert("parent"@[0] != "struct"@[0]);
    assert("parent"@.len() != "super"@.len());
    assert("parent"@.len() != "trait"@.len());
    assert("parent"@.len() != "true"@.len());
    assert("parent"@.len() != "try"@.len());
    assert("parent"@.len() != "type"@.len());
    assert("parent"@[0] != "typeof"@[0]);
    assert("parent"@[0] != "unsafe"@[0]);
    assert("parent"@.len() != "unsized"@.len());
    assert("parent"@.len() != "use"@.len());
    assert("parent"@.len() != "virtual"@.len());
    assert("parent"@.len() != "where"@.len());
    assert("parent"@.len() != "while"@.len());
    assert("parent"@.len() != "yield"@.len());
    assert("export"@.len() != "_"@.len());
    assert("export"@.len() != "abstract"@.len());
    assert("export"@.len() != "as"@.len());
    assert("export"@.len() != "async"@.len());
    assert("export"@.len() != "await"@.len());
    assert("export"@[0] != "become"@[0]);
    assert("export"@.len() != "box"@.len());
    assert("export"@.len() != "break"@.len());
    assert("export"@.len() != "const"@.len());
    assert("export"@.len() != "continue"@.len());
    assert("export"@.len() != "crate"@.len());
    assert("export"@.len() != "do"@.len());
    assert("export"@.len() != "dyn"@.len());
    assert("export"@.len() != "else"@.len());
    assert("export"@.len() != "enum"@.len());
    assert("export"@[2] != "extern"@[2]);
    assert("export"@.len() != "false"@.len());
    assert("export"@.len() != "final"@.len());
    assert("export"@.len() != "fn"@.len());
    assert("export"@.len() != "for"@.len());
    assert("export"@.len() != "if"@.len());
    assert("export"@.len() != "impl"@.len());
    assert("export"@.len() != "in"@.len());
    assert("export"@.len() != "let"@.len());
    assert("export"@.len() != "loop"@.len());
    assert("export"@.len() != "macro"@.len());
    assert("export"@.len() != "match"@.len());
    assert("export"@.len() != "mod"@.len());
    assert("export"@.len() != "move"@.len());
    assert("export"@.len() != "mut"@.len());
    assert("export"@.len() != "override"@.len());
    assert("export"@.len() != "priv"@.len());
    assert("export"@.len() != "pub"@.len());
    assert("export"@.len() != "ref"@.len());
    assert("export"@[0] != "return"@[0]);
    assert("export"@.len() != "Self"@.len());
    assert("export"@.len() != "self"@.len());
    assert("export"@[0] != "static"@[0]);
    assert("export"@[0] != "struct"@[0]);
    assert("export"@.len() != "super"@.len());
    assert("export"@.len() != "trait"@.len());
    assert("export"@.len() != "true"@.len());
    assert("export"@.len() != "try"@.len());
    assert("export"@.len() != "type"@.len());
    assert("export"@[0] != "typeof"@[0]);
    assert("export"@[0] != "unsafe"@[0]);
    assert("export"@.len() != "unsized"@.len());
    assert("export"@.len() != "use"@.len());
    assert("export"@.len() != "virtual"@.len());
    assert("export"@.len() != "where"@.len());
    assert("export"@.len() != "while"@.len());
    assert("export"@.len() != "yield"@.len());
    assert("attributes"@.len() != "_"@.len());
    assert("attributes"@.len() != "abstract"@.len());
    assert("attributes"@.len() != "as"@.len());
    assert("attributes"@.len() != "async"@.len());
    assert("attributes"@.len() != "await"@.len());
    assert("attributes"@.len() != "become"@.len());
    assert("attributes"@.len() != "box"@.len());
    assert("attributes"@.len() != "break"@.len());
    assert("attributes"@.len() != "const"@.len());
    assert("attributes"@.len() != "continue"@.len());
    assert("attributes"@.len() != "crate"@.len());
    assert("attributes"@.len() != "do"@.len());
    assert("attributes"@.len() != "dyn"@.len());
    assert("attributes"@.len() != "else"@.len());
    assert("attributes"@.len() != "enum"@.len());
    assert("attributes"@.len() != "extern"@.len());
    assert("attributes"@.len() != "false"@.len());
    assert("attributes"@.len() != "final"@.len());
    assert("attributes"@.len() != "fn"@.len());
    assert("attributes"@.len() != "for"@.len());
    assert("attributes"@.len() != "if"@.len());
    assert("attributes"@.len() != "impl"@.len());
    assert("attributes"@.len() != "in"@.len());
    assert("attributes"@.len() != "let"@.len());
    assert("attributes"@.len() != "loop"@.len());
    assert("attributes"@.len() != "macro"@.len());
    assert("attributes"@.len() != "match"@.len());
    assert("attributes"@.len() != "mod"@.len());
    assert("attributes"@.len() != "move"@.len());
    assert("attributes"@.len() != "mut"@.len());
    assert("attributes"@.len() != "override"@.len());
    assert("attributes"@.len() != "priv"@.len());
    assert("attributes"@.len() != "pub"@.len());
    assert("attributes"@.len() != "ref"@.len());
    assert("attributes"@.len() != "return"@.len());
    assert("attributes"@.len() != "Self"@.len());
    assert("attributes"@.len() != "self"@.len());
    assert("attributes"@.len() != "static"@.len());
    assert("attributes"@.len() != "struct"@.len());
    assert("attributes"@.len() != "super"@.len());
    assert("attributes"@.len() != "trait"@.len());
    assert("attributes"@.len() != "true"@.len());
    assert("attributes"@.len() != "try"@.len());
    assert("attributes"@.len() != "type"@.len());
    assert("attributes"@.len() != "typeof"@.len());
    assert("attributes"@.len() != "unsafe"@.len());
    assert("attributes"@.len() != "unsized"@.len());
    assert("attributes"@.len() != "use"@.len());
    assert("attributes"@.len() != "virtual"@.len());
    assert("attributes"@.len() != "where"@.len());
    assert("attributes"@.len() != "while"@.len());
    assert("attributes"@.len() != "yield"@.len());
    assert("attributes"@.len() != "service"@.len());
    assert("attributes"@.len() != "name"@.len());
    assert("attributes"@.len() != "parent"@.len());
    assert("attributes"@.len() != "export"@.len());
}

/// The options that take a string, `service = "v"` and `name = "v"`, set
/// that field to `v`, change nothing else and continue right after `v`;
/// `export` sets `export` alone; `parent = <expr>` records where its
/// expression stands and changes nothing else.
pub proof fn lemma_option_effects(
    toks: Seq<ArgToken>,
    i: int,
    acc: ArgsView,
    opt: String,
    v: String,
    text: String,
    joint: bool,
)
    requires
        0 <= i < toks.len(),
        toks[i] == ArgToken::Ident(opt),
    ensures
        opt@ == "service"@ && i + 2 < toks.len() && toks[i + 1] == ArgToken::Punct('=', joint) && toks[i + 2]
            == ArgToken::Str(v, text) ==> option_at(toks, i, acc) == Ok::<(int, ArgsView), ArgsErrorView>(
            (i + 3, ArgsView { service: Some(v@), ..acc }),
        ),
        opt@ == "name"@ && i + 2 < toks.len() && toks[i + 1] == ArgToken::Punct('=', joint) && toks[i + 2]
            == ArgToken::Str(v, text) ==> option_at(toks, i, acc) == Ok::<(int, ArgsView), ArgsErrorView>(
            (i + 3, ArgsView { name: Some(v@), ..acc }),
        ),
        opt@ == "export"@ ==> option_at(toks, i, acc) == Ok::<(int, ArgsView), ArgsErrorView>(
            (i + 1, ArgsView { export: true, ..acc }),
        ),
        opt@ == "parent"@ && i + 1 < toks.len() && toks[i + 1] == ArgToken::Punct('=', joint) ==> (option_at(
            toks,
            i,
            acc,
        ) matches Ok((e, after)) ==> after == ArgsView { parent: Some(((i + 2) as nat, e as nat)), ..acc }),
        opt@ == "attributes"@ ==> (option_at(toks, i, acc) matches Ok((e, after)) ==> (e == i + 2 && after
            == ArgsView { attributes: after.attributes, ..acc } && toks[i + 1] is Group && after.attributes.subrange(
            0,
            acc.attributes.len() as int,
        ) == acc.attributes && forall|m: int|
            acc.attributes.len() <= m < after.attributes.len() ==> entry_at(
                toks[i + 1]->Group_1@,
                (i + 1) as nat,
                #[trigger] after.attributes[m],
            ))),
{
    lemma_option_names_not_keywords();
    if opt@ == "attributes"@ && i + 1 < toks.len() {
        if let ArgToken::Group(Delimiter::Parenthesis, content, _) = toks[i + 1] {
            if attribute_list(content@, 0, (i + 1) as nat, acc) is Ok {
                lemma_attribute_list_tiles(content@, 0, (i + 1) as nat, acc);
            }
        }
    }
}

/// Options are read in order, each applied to what the ones before it
/// gave, so a later option overrides an earlier one of its kind: after an
/// option, the list ends, or a comma leads to the next option, or the list
/// is refused for want of that comma.
pub proof fn lemma_options_in_sequence(toks: Seq<ArgToken>, i: int, acc: ArgsView)
    requires
        0 <= i < toks.len(),
    ensures
        option_at(toks, i, acc) matches Err(e) ==> options_from(toks, i, acc) == Err::<ArgsView, ArgsErrorView>(e),
        option_at(toks, i, acc) matches Ok((j, after)) ==> (i < j && options_from(toks, i, acc) == if j
            >= toks.len() {
            Ok::<ArgsView, ArgsErrorView>(after)
        } else if toks[j] matches ArgToken::Punct(c, _) && c == ',' {
            options_from(toks, j + 1, after)
        } else {
            Err(ArgsErrorView::ExpectedComma)
        }),
{
    lemma_option_advances(toks, i, acc);
}

/// An empty argument list gives no option.
pub proof fn lemma_empty_args()
    ensures
        parse_args_spec(Seq::<ArgToken>::empty()) == Ok::<ArgsView, ArgsErrorView>(no_args()),
{
}

/// An option name other than `service`, `name`, `parent`, `export` and
/// `attributes` is refused with that name, whatever follows it.
pub proof fn lemma_unknown_option_refused(toks: Seq<ArgToken>, acc: ArgsView, i: int, name: String)
    requires
        0 <= i < toks.len(),
        toks[i] == ArgToken::Ident(name),
        name@ != "service"@,
        name@ != "name"@,
        name@ != "parent"@,
        name@ != "export"@,
        name@ != "attributes"@,
        !is_keyword(name@),
    ensures
        options_from(toks, i, acc) == Err::<ArgsView, ArgsErrorView>(ArgsErrorView::Unsupported(name@, i as nat)),
{
}

/// The text with which a refused argument list is reported.
pub open spec fn args_error_text(e: ArgsErrorView) -> Seq<char> {
    match e {
        ArgsErrorView::ExpectedIdent => "expected identifier"@,
        ArgsErrorView::ExpectedEq => "expected `=`"@,
        ArgsErrorView::ExpectedStr => "expected string literal"@,
        ArgsErrorView::ExpectedParens => "expected parentheses"@,
        ArgsErrorView::ExpectedExpr => "expected an expression"@,
        ArgsErrorView::ExpectedComma => "expected `,`"@,
        ArgsErrorView::Unsupported(name, _) => "unsupported wasi_instrument option `"@ + name + "`"@,
        ArgsErrorView::Keyword(name, _) => "expected identifier, found keyword `"@ + name + "`"@,
    }
}

impl ArgsError {
    /// The text with which this refusal is reported.
    pub fn message(&self) -> (m: String)
        ensures
            m@ == args_error_text(self@),
    {
        match self {
            ArgsError::ExpectedIdent => str_to_string("expected identifier"),
            ArgsError::ExpectedEq => str_to_string("expected `=`"),
            ArgsError::ExpectedStr => str_to_string("expected string literal"),
            ArgsError::ExpectedParens => str_to_string("expected parentheses"),
            ArgsError::ExpectedExpr => str_to_string("expected an expression"),
            ArgsError::ExpectedComma => str_to_string("expected `,`"),
            ArgsError::Unsupported(name, _) => {
                let mut m = str_to_string("unsupported wasi_instrument option `");
                m.append(name.as_str());
                m.append("`");
                m
            },
            ArgsError::Keyword(name, _) => {
                let mut m = str_to_string("expected identifier, found keyword `");
                m.append(name.as_str());
                m.append("`");
                m
            },
        }
    }
}

// ---------------------------------------------------------------------------
// The parser
// ---------------------------------------------------------------------------

fn token_is_punct(t: &ArgToken, c: char) -> (r: bool)
    ensures
        r == is_punct(*t, c),
{
    match t {
        ArgToken::Punct(p, _) => *p == c,
        _ => false,
    }
}

/// The source text of tokens `start..end`.
fn text_of_run(toks: &Vec<ArgToken>, start: usize, end: usize) -> (r: String)
    requires
        start <= end <= toks@.len(),
    ensures
        r@ == run_text(toks@.subrange(start as int, end as int)),
{
    let mut out = String::new();
    let mut i = start;
    while i < end
        invariant
            start <= i <= end <= toks@.len(),
            out@ == run_text(toks@.subrange(start as int, i as int)),
        decreases end - i,
    {
        let ghost before = toks@.subrange(start as int, i as int);
        let ghost after = toks@.subrange(start as int, i + 1);
        assert(after.drop_last() =~= before);
        if i > start {
            match &toks[i - 1] {
                ArgToken::Punct(_, true) => {},
                _ => string_push(&mut out, ' '),
            }
        }
        match &toks[i] {
            ArgToken::Ident(name) => out.append(name.as_str()),
            ArgToken::Punct(c, _) => string_push(&mut out, *c),
            ArgToken::Str(_, text) => out.append(text.as_str()),
            ArgToken::Literal(text) => out.append(text.as_str()),
            ArgToken::Group(_, _, text) => out.append(text.as_str()),
        }
        proof {
            if i == start {
                assert(out@ =~= run_text(after));
            } else {
                assert(after[after.len() - 2] == toks@[i - 1]);
                assert(out@ =~= run_text(after));
            }
        }
        i = i + 1;
    }
    out
}

/// Where the expression starting at `start` ends, if one does.
fn find_expr_end(toks: &Vec<ArgToken>, start: usize) -> (r: Option<usize>)
    requires
        start <= toks@.len(),
    ensures
        match expr_end(toks@, start as int) {
            Some(e) => r == Some(e as usize) && start < e <= toks@.len(),
            None => r is None,
        },
{
    proof {
        lemma_expr_end_from(toks@, start as int, start + 1);
    }
    let n = toks.len();
    let mut last = start;
    while last < n
        invariant
            n == toks@.len(),
            start <= last <= n,
            expr_end(toks@, start as int) == expr_end_from(toks@, start as int, last + 1),
        decreases n - last,
    {
        let end = last + 1;
        let followed = end == n || token_is_punct(&toks[end], ',');
        if followed {
            let text = text_of_run(toks, start, end);
            if parses_as_expr(text.as_str()) {
                return Some(end);
            }
        }
        last = end;
    }
    None
}

/// Why no expression ends the entry starting at `start`.
fn missing_expr(toks: &Vec<ArgToken>, start: usize) -> (r: ArgsError)
    requires
        start <= toks@.len(),
    ensures
        r@ == missing_expr_error(toks@, start as int),
{
    let n = toks.len();
    let mut last = start;
    while last < n
        invariant
            n == toks@.len(),
            start <= last <= n,
            some_expr_from(toks@, start as int, start + 1) == some_expr_from(toks@, start as int, last + 1),
        decreases n - last,
    {
        let end = last + 1;
        let text = text_of_run(toks, start, end);
        if parses_as_expr(text.as_str()) {
            return ArgsError::ExpectedComma;
        }
        last = end;
    }
    ArgsError::ExpectedExpr
}

fn parse_attribute_list(content: &Vec<ArgToken>, group: usize, args: &mut InstrumentArgs) -> (r: Result<(), ArgsError>)
    ensures
        match attribute_list(content@, 0, group as nat, old(args)@) {
            Ok(a) => r is Ok && final(args)@ == a,
            Err(e) => r matches Err(x) && x@ == e,
        },
{
    let n = content.len();
    let mut k: usize = 0;
    while k < n
        invariant
            n == content@.len(),
            k <= n,
            attribute_list(content@, 0, group as nat, old(args)@) == attribute_list(
                content@,
                k as int,
                group as nat,
                args@,
            ),
        decreases n - k,
    {
        match &content[k] {
            ArgToken::Str(key, _) => {
                if k + 1 < n && token_is_punct(&content[k + 1], '=') {
                    let start = k + 2;
                    let e = match find_expr_end(content, start) {
                        Some(e) => e,
                        None => {
                            return Err(missing_expr(content, start));
                        },
                    };
                    let ghost before = args@;
                    args.attributes.push(AttributeArg { key: key.clone(), group, start, end: e });
                    assert(args@.attributes =~= before.attributes.push(
                        AttributeArgView { key: key@, group: group as nat, start: start as nat, end: e as nat },
                    ));
                    if e >= n {
                        return Ok(());
                    }
                    k = e + 1;
                } else {
                    return Err(ArgsError::ExpectedEq);
                }
            },
            _ => {
                return Err(ArgsError::ExpectedStr);
            },
        }
    }
    Ok(())
}

fn parse_option(tokens: &Vec<ArgToken>, i: usize, args: &mut InstrumentArgs) -> (r: Result<usize, ArgsError>)
    requires
        i < tokens@.len(),
    ensures
        match option_at(tokens@, i as int, old(args)@) {
            Ok((j, a)) => r == Ok::<usize, ArgsError>(j as usize) && final(args)@ == a && i < j
                <= tokens@.len(),
            Err(e) => r matches Err(x) && x@ == e,
        },
{
    proof {
        lemma_option_advances(tokens@, i as int, old(args)@);
    }
    let n = tokens.len();
    match &tokens[i] {
        ArgToken::Ident(name) => {
            if keyword(name.as_str()) {
                return Err(ArgsError::Keyword(name.clone(), i));
            }
            let is_service = str_eq(name.as_str(), "service");
            let is_name = str_eq(name.as_str(), "name");
            if is_service || is_name {
                if !(i + 1 < n && token_is_punct(&tokens[i + 1], '=')) {
                    return Err(ArgsError::ExpectedEq);
                }
                if i + 2 < n {
                    match &tokens[i + 2] {
                        ArgToken::Str(v, _) => {
                            if is_service {
                                args.service = Some(v.clone());
                            } else {
                                args.name = Some(v.clone());
                            }
                            Ok(i + 3)
                        },
                        _ => Err(ArgsError::ExpectedStr),
                    }
                } else {
                    Err(ArgsError::ExpectedStr)
                }
            } else if str_eq(name.as_str(), "parent") {
                if !(i + 1 < n && token_is_punct(&tokens[i + 1], '=')) {
                    return Err(ArgsError::ExpectedEq);
                }
                match find_expr_end(tokens, i + 2) {
                    Some(e) => {
                        args.parent = Some(ExprRange { start: i + 2, end: e });
                        Ok(e)
                    },
                    None => Err(missing_expr(tokens, i + 2)),
                }
            } else if str_eq(name.as_str(), "export") {
                args.export = true;
                Ok(i + 1)
            } else if str_eq(name.as_str(), "attributes") {
                if i + 1 < n {
                    match &tokens[i + 1] {
                        ArgToken::Group(Delimiter::Parenthesis, content, _) => {
                            match parse_attribute_list(content, i + 1, args) {
                                Ok(()) => Ok(i + 2),
                                Err(e) => Err(e),
                            }
                        },
                        _ => Err(ArgsError::ExpectedParens),
                    }
                } else {
                    Err(ArgsError::ExpectedParens)
                }
            } else {
                Err(ArgsError::Unsupported(name.clone(), i))
            }
        },
        _ => Err(ArgsError::ExpectedIdent),
    }
}

/// Reads the argument list of `#[wasi_instrument(...)]`. Each accepted
/// attribute entry, and the explicit parent, point at one expression.
pub fn parse_instrument_args(tokens: &Vec<ArgToken>) -> (r: Result<InstrumentArgs, ArgsError>)
    ensures
        args_result_view(r) == parse_args_spec(tokens@),
        r matches Ok(a) ==> all_well_placed(tokens@, a@.attributes) && parent_well_placed(
            tokens@,
            a@.parent,
        ),
{
    let r = read_options(tokens);
    proof {
        if r is Ok {
            lemma_parsed_args_well_placed(tokens@);
        }
    }
    r
}

fn read_options(tokens: &Vec<ArgToken>) -> (r: Result<InstrumentArgs, ArgsError>)
    ensures
        args_result_view(r) == parse_args_spec(tokens@),
{
    let mut args = InstrumentArgs {
        service: None,
        name: None,
        export: false,
        attributes: Vec::new(),
        parent: None,
    };
    assert(args@.attributes =~= Seq::<AttributeArgView>::empty());
    assert(args@ == no_args());
    let n = tokens.len();
    let mut i: usize = 0;
    while i < n
        invariant
            n == tokens@.len(),
            i <= n,
            parse_args_spec(tokens@) == options_from(tokens@, i as int, args@),
        decreases n - i,
    {
        let j = match parse_option(tokens, i, &mut args) {
            Ok(j) => j,
            Err(e) => {
                return Err(e);
            },
        };
        if j >= n {
            return Ok(args);
        }
        if token_is_punct(&tokens[j], ',') {
            i = j + 1;
        } else {
            return Err(ArgsError::ExpectedComma);
        }
    }
    Ok(args)
}

} // verus!
