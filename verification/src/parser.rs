//! The parser: recursive descent with one-token lookahead over the
//! filtered token sequence, building the AST with per-declaration error
//! recovery.
//!
//! The spec-level function [`s_parse`] gives, for any token sequence,
//! the exact list of parsed items and the exact list of diagnostic
//! lines; [`parse`] is proved to produce them.

use vstd::prelude::*;

use crate::ast::{
    asts_view, clone_data_type, fields_view, tags_view, ASTV, DataType, DataTypeV, Field,
    FieldName, FieldType, FieldTypeV, FieldV, StructDeclaration, StructDeclarationV, Tag, TagV,
    AST,
};
use crate::scanner::{token_views, Position, Token, TokenK, TokenV, TokenWithContext};
use crate::text::{dec_rep, usize_to_string};

verus! {

/// The grammatical element a diagnostic says was required.
#[derive(Debug, Clone, Copy, PartialEq, Eq, Structural)]
pub enum RequiredElements {
    StringLiteral,
    Struct,
    LeftBrace,
    Identifier,
    Colon,
}

/// A syntactic error.
#[derive(Debug)]
pub enum ParseError {
    /// The input ended inside a declaration, struct body or tag block.
    UnexpectedEndOfFile,
    /// A token shape the grammar does not recognize in its context.
    UnknownError,
    /// A specific element was required but another token was found.
    Missing(RequiredElements, String, Position),
}

/// Spec-level view of [`ParseError`].
pub enum ParseErrorV {
    UnexpectedEndOfFile,
    UnknownError,
    Missing(RequiredElements, Seq<char>, Position),
}

impl View for ParseError {
    type V = ParseErrorV;

    open spec fn view(&self) -> ParseErrorV {
        match self {
            ParseError::UnexpectedEndOfFile => ParseErrorV::UnexpectedEndOfFile,
            ParseError::UnknownError => ParseErrorV::UnknownError,
            ParseError::Missing(el, lex, p) => ParseErrorV::Missing(*el, lex@, *p),
        }
    }
}

pub open spec fn elem_text(e: RequiredElements) -> Seq<char> {
    match e {
        RequiredElements::StringLiteral => "StringLiteral"@,
        RequiredElements::Struct => "Struct"@,
        RequiredElements::LeftBrace => "LeftBrace"@,
        RequiredElements::Identifier => "Identifier"@,
        RequiredElements::Colon => "Colon"@,
    }
}

impl RequiredElements {
    fn text(&self) -> (s: &'static str)
        ensures
            s@ == elem_text(*self),
    {
        match self {
            RequiredElements::StringLiteral => "StringLiteral",
            RequiredElements::Struct => "Struct",
            RequiredElements::LeftBrace => "LeftBrace",
            RequiredElements::Identifier => "Identifier",
            RequiredElements::Colon => "Colon",
        }
    }
}

/// The diagnostic line for a syntactic error.
pub open spec fn parse_err_message(e: ParseErrorV) -> Seq<char> {
    match e {
        ParseErrorV::UnexpectedEndOfFile => "Unexpected End Of file"@,
        ParseErrorV::UnknownError =>
            "We have encountered an unknown error. This is likely a bug with the library."@,
        ParseErrorV::Missing(el, lex, p) => "Expected "@ + elem_text(el) + " but found `"@ + lex
            + "` at line "@ + dec_rep(p.line as nat) + " column "@ + dec_rep(p.column as nat),
    }
}

impl ParseError {
    /// Renders the error as a human-readable diagnostic line.
    pub fn message(&self) -> (s: String)
        ensures
            s@ == parse_err_message(self@),
    {
        match self {
            ParseError::UnexpectedEndOfFile => {
                let mut s = String::new();
                s.append("Unexpected End Of file");
                s
            },
            ParseError::UnknownError => {
                let mut s = String::new();
                s.append(
                    "We have encountered an unknown error. This is likely a bug with the library.",
                );
                s
            },
            ParseError::Missing(el, lex, p) => {
                let mut s = String::new();
                s.append("Expected ");
                s.append(el.text());
                s.append(" but found `");
                s.append(lex.as_str());
                s.append("` at line ");
                let line = usize_to_string(p.line);
                s.append(line.as_str());
                s.append(" column ");
                let column = usize_to_string(p.column);
                s.append(column.as_str());
                s
            },
        }
    }
}

// ---------------------------------------------------------------------
// The grammar, as a specification
// ---------------------------------------------------------------------

/// The outcome of one spec-level parse step: a result and the index at
/// which parsing resumes.
pub struct Parsed<T> {
    pub res: Result<T, ParseErrorV>,
    pub next: int,
}

/// End-of-input failure.
pub open spec fn eof_at<T>(t: Seq<TokenV>) -> Parsed<T> {
    Parsed { res: Err(ParseErrorV::UnexpectedEndOfFile), next: t.len() as int }
}

/// Clamps a resume index into `(i, len]`, so that recursion in the spec
/// functions is visibly well-founded; every parse step in fact resumes
/// in that range, so the clamp never alters a value.
pub open spec fn bound_next(n: int, i: int, len: int) -> int {
    if n <= i {
        i + 1
    } else if n > len {
        len
    } else {
        n
    }
}

/// After a `json` or `binding` keyword: require a colon, then a string
/// literal; the literal is the tag value.
pub open spec fn s_tag_suffix(t: Seq<TokenV>, i: int) -> Parsed<Seq<char>> {
    if i < 0 || i >= t.len() {
        eof_at(t)
    } else if !(t[i].token is Colon) {
        Parsed {
            res: Err(ParseErrorV::Missing(RequiredElements::Colon, t[i].lexeme, t[i].position)),
            next: i + 1,
        }
    } else if i + 1 >= t.len() {
        eof_at(t)
    } else {
        match t[i + 1].token {
            TokenK::StringLiteral(v) => Parsed { res: Ok(v), next: i + 2 },
            _ => Parsed {
                res: Err(
                    ParseErrorV::Missing(
                        RequiredElements::StringLiteral,
                        t[i + 1].lexeme,
                        t[i + 1].position,
                    ),
                ),
                next: i + 2,
            },
        }
    }
}

/// A backtick tag block, after its opening backtick: an inner loop that
/// collects `json` and `binding` entries, treats any other token as
/// inert, and ends at the closing backtick; end of input before that is
/// an error.
pub open spec fn s_parse_backtick_block(t: Seq<TokenV>, i: int) -> Parsed<Seq<TagV>>
    decreases t.len() - i, 1int,
{
    if i < 0 || i >= t.len() {
        eof_at(t)
    } else {
        match t[i].token {
            TokenK::Graveaccent => Parsed { res: Ok(Seq::empty()), next: i + 1 },
            TokenK::Json => s_tag_entry(t, i, "json"@),
            TokenK::Binding => s_tag_entry(t, i, "binding"@),
            _ => s_parse_backtick_block(t, i + 1),
        }
    }
}

/// One tag entry inside a backtick block: the keyword stands at `i`.
pub open spec fn s_tag_entry(t: Seq<TokenV>, i: int, key: Seq<char>) -> Parsed<Seq<TagV>>
    decreases t.len() - i, 0int,
{
    if i < 0 || i >= t.len() {
        eof_at(t)
    } else {
        let sfx = s_tag_suffix(t, i + 1);
        match sfx.res {
            Ok(v) => {
                let rest = s_parse_backtick_block(t, bound_next(sfx.next, i, t.len() as int));
                match rest.res {
                    Ok(tags) => Parsed {
                        res: Ok(seq![TagV { key, value: v }] + tags),
                        next: rest.next,
                    },
                    Err(e) => Parsed { res: Err(e), next: rest.next },
                }
            },
            Err(e) => Parsed { res: Err(e), next: sfx.next },
        }
    }
}

/// After a field name and its type: an optional backtick tag block
/// upgrades the field from plain to tagged.
pub open spec fn s_maybe_tags(t: Seq<TokenV>, i: int, name: Seq<char>, ft: FieldTypeV) -> Parsed<
    FieldV,
> {
    if 0 <= i < t.len() && t[i].token is Graveaccent {
        let tb = s_parse_backtick_block(t, i + 1);
        match tb.res {
            Ok(tags) => Parsed { res: Ok(FieldV::WithTags(name, ft, tags)), next: tb.next },
            Err(e) => Parsed { res: Err(e), next: tb.next },
        }
    } else {
        Parsed { res: Ok(FieldV::Plain(name, ft)), next: i }
    }
}

/// After a list field's element type: tags may follow; a bare trailing
/// newline is tolerated (and left for the surrounding block); any other
/// token, or end of input, is a hard error.
pub open spec fn s_list_suffix(t: Seq<TokenV>, i: int, name: Seq<char>, ft: FieldTypeV) -> Parsed<
    FieldV,
> {
    if 0 <= i < t.len() && t[i].token is Graveaccent {
        let tb = s_parse_backtick_block(t, i + 1);
        match tb.res {
            Ok(tags) => Parsed { res: Ok(FieldV::WithTags(name, ft, tags)), next: tb.next },
            Err(e) => Parsed { res: Err(e), next: tb.next },
        }
    } else if 0 <= i < t.len() && t[i].token is NextLine {
        Parsed { res: Ok(FieldV::Plain(name, ft)), next: i }
    } else {
        Parsed {
            res: Err(ParseErrorV::UnexpectedEndOfFile),
            next: if i >= t.len() {
                t.len() as int
            } else {
                i
            },
        }
    }
}

/// A list field, after its `[`: require `]`, then a built-in type or a
/// custom identifier as the element type.
pub open spec fn s_parse_list(t: Seq<TokenV>, i: int, name: Seq<char>) -> Parsed<FieldV> {
    if i < 0 || i >= t.len() {
        eof_at(t)
    } else if !(t[i].token is RightBracket) {
        Parsed { res: Err(ParseErrorV::UnknownError), next: i }
    } else if i + 1 >= t.len() {
        eof_at(t)
    } else {
        match t[i + 1].token {
            TokenK::DataType(d) => s_list_suffix(t, i + 2, name, FieldTypeV::List(d)),
            TokenK::Identifier(lit) => s_list_suffix(
                t,
                i + 2,
                name,
                FieldTypeV::List(DataTypeV::Custom(lit)),
            ),
            _ => Parsed { res: Err(ParseErrorV::UnknownError), next: i + 1 },
        }
    }
}

/// A field, after its leading identifier `name`: branch on the next
/// token, as the grammar prescribes.
pub open spec fn s_parse_identifier(t: Seq<TokenV>, i: int, name: Seq<char>) -> Parsed<FieldV> {
    if i < 0 || i >= t.len() {
        eof_at(t)
    } else {
        match t[i].token {
            TokenK::DataType(d) => s_maybe_tags(t, i + 1, name, FieldTypeV::One(d)),
            TokenK::Identifier(lit) => s_maybe_tags(
                t,
                i + 1,
                name,
                FieldTypeV::One(DataTypeV::Custom(lit)),
            ),
            TokenK::NextLine => Parsed { res: Ok(FieldV::Embedded(name)), next: i + 1 },
            TokenK::Graveaccent => {
                let tb = s_parse_backtick_block(t, i + 1);
                match tb.res {
                    Ok(tags) => Parsed {
                        res: Ok(FieldV::WithTags(name, FieldTypeV::One(DataTypeV::Unspecified), tags)),
                        next: tb.next,
                    },
                    Err(e) => Parsed { res: Err(e), next: tb.next },
                }
            },
            TokenK::LeftBracket => s_parse_list(t, i + 1, name),
            _ => Parsed { res: Err(ParseErrorV::UnknownError), next: i },
        }
    }
}

/// A field block, after its opening brace: statements until the closing
/// brace.  Statements that are not fields (nested declarations, nested
/// blocks, stray tag entries, unrecognized tokens) contribute a blank
/// member.  End of input before the closing brace is an error, and any
/// statement error fails the whole block.
pub open spec fn s_parse_block(t: Seq<TokenV>, i: int) -> Parsed<Seq<FieldV>>
    decreases t.len() - i, 2int,
{
    if i < 0 || i >= t.len() {
        eof_at(t)
    } else {
        match t[i].token {
            TokenK::RightBrace => Parsed { res: Ok(Seq::empty()), next: i + 1 },
            TokenK::Identifier(name) => {
                let f = s_parse_identifier(t, i + 1, name);
                match f.res {
                    Ok(fv) => s_block_tail(t, i, fv, f.next),
                    Err(e) => Parsed { res: Err(e), next: f.next },
                }
            },
            TokenK::Type => {
                let d = s_parse_struct_declaration(t, i + 1);
                match d.res {
                    Ok(_) => s_block_tail(t, i, FieldV::Blank, d.next),
                    Err(e) => Parsed { res: Err(e), next: d.next },
                }
            },
            TokenK::LeftBrace => {
                let b = s_parse_block(t, i + 1);
                match b.res {
                    Ok(_) => s_block_tail(t, i, FieldV::Blank, b.next),
                    Err(e) => Parsed { res: Err(e), next: b.next },
                }
            },
            TokenK::Json => {
                let sfx = s_tag_suffix(t, i + 1);
                match sfx.res {
                    Ok(_) => s_block_tail(t, i, FieldV::Blank, sfx.next),
                    Err(e) => Parsed { res: Err(e), next: sfx.next },
                }
            },
            TokenK::Binding => {
                let sfx = s_tag_suffix(t, i + 1);
                match sfx.res {
                    Ok(_) => s_block_tail(t, i, FieldV::Blank, sfx.next),
                    Err(e) => Parsed { res: Err(e), next: sfx.next },
                }
            },
            _ => s_block_tail(t, i, FieldV::Blank, i + 1),
        }
    }
}

/// The rest of a field block after one statement parsed as `fv`,
/// resuming at `n`.
pub open spec fn s_block_tail(t: Seq<TokenV>, i: int, fv: FieldV, n: int) -> Parsed<Seq<FieldV>>
    decreases t.len() - i, 1int,
{
    if i < 0 || i >= t.len() {
        eof_at(t)
    } else {
        let rest = s_parse_block(t, bound_next(n, i, t.len() as int));
        match rest.res {
            Ok(fs) => Parsed { res: Ok(seq![fv] + fs), next: rest.next },
            Err(e) => Parsed { res: Err(e), next: rest.next },
        }
    }
}

/// A struct declaration, after its `type` keyword: require an
/// identifier, the `struct` keyword and `{`, then a field block.
pub open spec fn s_parse_struct_declaration(t: Seq<TokenV>, i: int) -> Parsed<StructDeclarationV>
    decreases t.len() - i, 3int,
{
    if i < 0 || i >= t.len() {
        eof_at(t)
    } else {
        match t[i].token {
            TokenK::Identifier(name) => {
                if i + 1 >= t.len() {
                    eof_at(t)
                } else if !(t[i + 1].token is Struct) {
                    Parsed {
                        res: Err(
                            ParseErrorV::Missing(
                                RequiredElements::Struct,
                                t[i + 1].lexeme,
                                t[i + 1].position,
                            ),
                        ),
                        next: i + 2,
                    }
                } else if i + 2 >= t.len() {
                    eof_at(t)
                } else if !(t[i + 2].token is LeftBrace) {
                    Parsed {
                        res: Err(
                            ParseErrorV::Missing(
                                RequiredElements::LeftBrace,
                                t[i + 2].lexeme,
                                t[i + 2].position,
                            ),
                        ),
                        next: i + 3,
                    }
                } else {
                    let b = s_parse_block(t, i + 3);
                    match b.res {
                        Ok(fields) => Parsed {
                            res: Ok(StructDeclarationV { name, body: fields }),
                            next: b.next,
                        },
                        Err(e) => Parsed { res: Err(e), next: b.next },
                    }
                }
            },
            _ => Parsed {
                res: Err(
                    ParseErrorV::Missing(
                        RequiredElements::Identifier,
                        t[i].lexeme,
                        t[i].position,
                    ),
                ),
                next: i + 1,
            },
        }
    }
}

/// Fields re-wrapped as top-level items.
pub open spec fn fields_as_asts(fs: Seq<FieldV>) -> Seq<ASTV> {
    fs.map_values(|f: FieldV| ASTV::Field(f))
}

/// One top-level declaration, dispatched on its leading token: `type`
/// begins a struct declaration; an identifier begins a field; `{`
/// begins a bare field block whose fields surface as top-level items;
/// `json` and `binding` tag entries parse but produce nothing; any
/// other token is an inert no-op.
pub open spec fn s_parse_declaration(t: Seq<TokenV>, i: int) -> Parsed<Seq<ASTV>> {
    if i < 0 || i >= t.len() {
        eof_at(t)
    } else {
        match t[i].token {
            TokenK::Type => {
                let d = s_parse_struct_declaration(t, i + 1);
                match d.res {
                    Ok(sd) => Parsed { res: Ok(seq![ASTV::Declaration(sd)]), next: d.next },
                    Err(e) => Parsed { res: Err(e), next: d.next },
                }
            },
            TokenK::Identifier(name) => {
                let f = s_parse_identifier(t, i + 1, name);
                match f.res {
                    Ok(fv) => Parsed { res: Ok(seq![ASTV::Field(fv)]), next: f.next },
                    Err(e) => Parsed { res: Err(e), next: f.next },
                }
            },
            TokenK::LeftBrace => {
                let b = s_parse_block(t, i + 1);
                match b.res {
                    Ok(fs) => Parsed { res: Ok(fields_as_asts(fs)), next: b.next },
                    Err(e) => Parsed { res: Err(e), next: b.next },
                }
            },
            TokenK::Json => {
                let sfx = s_tag_suffix(t, i + 1);
                match sfx.res {
                    Ok(_) => Parsed { res: Ok(Seq::empty()), next: sfx.next },
                    Err(e) => Parsed { res: Err(e), next: sfx.next },
                }
            },
            TokenK::Binding => {
                let sfx = s_tag_suffix(t, i + 1);
                match sfx.res {
                    Ok(_) => Parsed { res: Ok(Seq::empty()), next: sfx.next },
                    Err(e) => Parsed { res: Err(e), next: sfx.next },
                }
            },
            _ => Parsed { res: Ok(Seq::empty()), next: i + 1 },
        }
    }
}

/// The whole top-level parse from index `i`: the parsed items and the
/// diagnostic lines, in order.  Reaching the end of the input between
/// declarations is the normal termination; an error inside a
/// declaration is recorded as its diagnostic line and parsing resumes
/// with the next declaration.
pub open spec fn s_parse(t: Seq<TokenV>, i: int) -> (Seq<ASTV>, Seq<Seq<char>>)
    decreases t.len() - i,
{
    if i < 0 || i >= t.len() {
        (Seq::empty(), Seq::empty())
    } else {
        let d = s_parse_declaration(t, i);
        let rest = s_parse(t, bound_next(d.next, i, t.len() as int));
        match d.res {
            Ok(items) => (items + rest.0, rest.1),
            Err(e) => (rest.0, seq![parse_err_message(e)] + rest.1),
        }
    }
}

/// The parse result: the full item list when no diagnostic was
/// recorded, otherwise the full diagnostic list.
pub open spec fn spec_parse(t: Seq<TokenV>) -> Result<Seq<ASTV>, Seq<Seq<char>>> {
    let r = s_parse(t, 0);
    if r.1.len() == 0 {
        Ok(r.0)
    } else {
        Err(r.1)
    }
}

// ---------------------------------------------------------------------
// The parser, executable
// ---------------------------------------------------------------------

fn parse_tag_suffix(tokens: &Vec<TokenWithContext>, i: usize) -> (r: (
    Result<String, ParseError>,
    usize,
))
    requires
        i <= tokens@.len(),
    ensures
        ({
            let sp = s_tag_suffix(token_views(tokens@), i as int);
            &&& r.1 == sp.next
            &&& i <= r.1 <= tokens@.len()
            &&& match r.0 {
                Ok(v) => sp.res == Ok::<Seq<char>, ParseErrorV>(v@),
                Err(e) => sp.res == Err::<Seq<char>, ParseErrorV>(e@),
            }
        }),
{
    let n = tokens.len();
    if i >= n {
        return (Err(ParseError::UnexpectedEndOfFile), n);
    }
    let tok = &tokens[i];
    match &tok.token {
        Token::Colon => {
            if i + 1 >= n {
                return (Err(ParseError::UnexpectedEndOfFile), n);
            }
            let tok2 = &tokens[i + 1];
            match &tok2.token {
                Token::StringLiteral(v) => (Ok(v.clone()), i + 2),
                _ => (
                    Err(
                        ParseError::Missing(
                            RequiredElements::StringLiteral,
                            tok2.lexeme.clone(),
                            tok2.position,
                        ),
                    ),
                    i + 2,
                ),
            }
        },
        _ => (
            Err(ParseError::Missing(RequiredElements::Colon, tok.lexeme.clone(), tok.position)),
            i + 1,
        ),
    }
}

fn parse_backtick_block(tokens: &Vec<TokenWithContext>, i: usize) -> (r: (
    Result<Vec<Tag>, ParseError>,
    usize,
))
    requires
        i <= tokens@.len(),
    ensures
        ({
            let sp = s_parse_backtick_block(token_views(tokens@), i as int);
            &&& r.1 == sp.next
            &&& i <= r.1 <= tokens@.len()
            &&& match r.0 {
                Ok(tags) => sp.res == Ok::<Seq<TagV>, ParseErrorV>(tags_view(tags@)),
                Err(e) => sp.res == Err::<Seq<TagV>, ParseErrorV>(e@),
            }
        }),
{
    let ghost tv = token_views(tokens@);
    let n = tokens.len();
    let mut tags: Vec<Tag> = Vec::new();
    let mut j: usize = i;
    loop
        invariant
            i <= j <= n,
            n == tv.len(),
            tv == token_views(tokens@),
            ({
                let orig = s_parse_backtick_block(tv, i as int);
                let cur = s_parse_backtick_block(tv, j as int);
                &&& orig.next == cur.next
                &&& (cur.res matches Ok(rest) ==> orig.res == Ok::<Seq<TagV>, ParseErrorV>(
                    tags_view(tags@) + rest,
                ))
                &&& (cur.res matches Err(e) ==> orig.res == Err::<Seq<TagV>, ParseErrorV>(e))
            }),
        decreases n - j,
    {
        proof {
            assert(tags_view(tags@) + Seq::<TagV>::empty() =~= tags_view(tags@));
        }
        if j >= n {
            return (Err(ParseError::UnexpectedEndOfFile), n);
        }
        let tok = &tokens[j];
        match &tok.token {
            Token::Graveaccent => {
                return (Ok(tags), j + 1);
            },
            Token::Json => {
                let ghost old_tags = tags@;
                let (sr, n1) = parse_tag_suffix(tokens, j + 1);
                match sr {
                    Ok(v) => {
                        let ghost vv = v@;
                        tags.push(Tag { key: String::from_str("json"), value: v });
                        proof {
                            assert(j < n1 <= n);
                            assert(bound_next(n1 as int, j as int, tv.len() as int) == n1 as int);
                            assert(tags_view(tags@) =~= tags_view(old_tags).push(
                                TagV { key: "json"@, value: vv },
                            ));
                            assert(tags_view(old_tags) + (seq![
                                TagV { key: "json"@, value: vv },
                            ] + s_parse_backtick_block(tv, n1 as int).res->Ok_0) =~= tags_view(
                                tags@,
                            ) + s_parse_backtick_block(tv, n1 as int).res->Ok_0);
                        }
                        j = n1;
                    },
                    Err(e) => {
                        proof {
                            let entry = s_tag_entry(tv, j as int, "json"@);
                            assert(s_parse_backtick_block(tv, j as int) == entry);
                            assert(entry.res == Err::<Seq<TagV>, ParseErrorV>(e@));
                            assert(entry.next == n1);
                        }
                        return (Err(e), n1);
                    },
                }
            },
            Token::Binding => {
                let ghost old_tags = tags@;
                let (sr, n1) = parse_tag_suffix(tokens, j + 1);
                match sr {
                    Ok(v) => {
                        let ghost vv = v@;
                        tags.push(Tag { key: String::from_str("binding"), value: v });
                        proof {
                            assert(j < n1 <= n);
                            assert(bound_next(n1 as int, j as int, tv.len() as int) == n1 as int);
                            assert(tags_view(tags@) =~= tags_view(old_tags).push(
                                TagV { key: "binding"@, value: vv },
                            ));
                            assert(tags_view(old_tags) + (seq![
                                TagV { key: "binding"@, value: vv },
                            ] + s_parse_backtick_block(tv, n1 as int).res->Ok_0) =~= tags_view(
                                tags@,
                            ) + s_parse_backtick_block(tv, n1 as int).res->Ok_0);
                        }
                        j = n1;
                    },
                    Err(e) => {
                        proof {
                            let entry = s_tag_entry(tv, j as int, "binding"@);
                            assert(s_parse_backtick_block(tv, j as int) == entry);
                            assert(entry.res == Err::<Seq<TagV>, ParseErrorV>(e@));
                            assert(entry.next == n1);
                        }
                        return (Err(e), n1);
                    },
                }
            },
            _ => {
                j = j + 1;
            },
        }
    }
}

fn parse_maybe_tags(tokens: &Vec<TokenWithContext>, i: usize, name: String, ft: FieldType) -> (r: (
    Result<Field, ParseError>,
    usize,
))
    requires
        i <= tokens@.len(),
    ensures
        ({
            let sp = s_maybe_tags(token_views(tokens@), i as int, name@, ft@);
            &&& r.1 == sp.next
            &&& i <= r.1 <= tokens@.len()
            &&& match r.0 {
                Ok(f) => sp.res == Ok::<FieldV, ParseErrorV>(f@),
                Err(e) => sp.res == Err::<FieldV, ParseErrorV>(e@),
            }
        }),
{
    let n = tokens.len();
    let mut has_backtick = false;
    if i < n {
        let tok = &tokens[i];
        match &tok.token {
            Token::Graveaccent => {
                has_backtick = true;
            },
            _ => {},
        }
    }
    if has_backtick {
        let (tb, n1) = parse_backtick_block(tokens, i + 1);
        match tb {
            Ok(tags) => (Ok(Field::WithTags(FieldName(name), ft, tags)), n1),
            Err(e) => (Err(e), n1),
        }
    } else {
        (Ok(Field::Plain(FieldName(name), ft)), i)
    }
}

fn parse_list_suffix(tokens: &Vec<TokenWithContext>, i: usize, name: String, ft: FieldType) -> (r: (
    Result<Field, ParseError>,
    usize,
))
    requires
        i <= tokens@.len(),
    ensures
        ({
            let sp = s_list_suffix(token_views(tokens@), i as int, name@, ft@);
            &&& r.1 == sp.next
            &&& i <= r.1 <= tokens@.len()
            &&& match r.0 {
                Ok(f) => sp.res == Ok::<FieldV, ParseErrorV>(f@),
                Err(e) => sp.res == Err::<FieldV, ParseErrorV>(e@),
            }
        }),
{
    let n = tokens.len();
    if i < n {
        let tok = &tokens[i];
        match &tok.token {
            Token::Graveaccent => {
                let (tb, n1) = parse_backtick_block(tokens, i + 1);
                return match tb {
                    Ok(tags) => (Ok(Field::WithTags(FieldName(name), ft, tags)), n1),
                    Err(e) => (Err(e), n1),
                };
            },
            Token::NextLine => {
                return (Ok(Field::Plain(FieldName(name), ft)), i);
            },
            _ => {
                return (Err(ParseError::UnexpectedEndOfFile), i);
            },
        }
    }
    (Err(ParseError::UnexpectedEndOfFile), n)
}

fn parse_list(tokens: &Vec<TokenWithContext>, i: usize, name: String) -> (r: (
    Result<Field, ParseError>,
    usize,
))
    requires
        i <= tokens@.len(),
    ensures
        ({
            let sp = s_parse_list(token_views(tokens@), i as int, name@);
            &&& r.1 == sp.next
            &&& i <= r.1 <= tokens@.len()
            &&& match r.0 {
                Ok(f) => sp.res == Ok::<FieldV, ParseErrorV>(f@),
                Err(e) => sp.res == Err::<FieldV, ParseErrorV>(e@),
            }
        }),
{
    let n = tokens.len();
    if i >= n {
        return (Err(ParseError::UnexpectedEndOfFile), n);
    }
    let tok = &tokens[i];
    match &tok.token {
        Token::RightBracket => {
            if i + 1 >= n {
                return (Err(ParseError::UnexpectedEndOfFile), n);
            }
            let tok2 = &tokens[i + 1];
            match &tok2.token {
                Token::DataType(d) => {
                    let elem = clone_data_type(d);
                    parse_list_suffix(tokens, i + 2, name, FieldType::List(elem))
                },
                Token::Identifier(lit) => {
                    let elem = DataType::Custom(lit.clone());
                    parse_list_suffix(tokens, i + 2, name, FieldType::List(elem))
                },
                _ => (Err(ParseError::UnknownError), i + 1),
            }
        },
        _ => (Err(ParseError::UnknownError), i),
    }
}

fn parse_identifier(tokens: &Vec<TokenWithContext>, i: usize, name: String) -> (r: (
    Result<Field, ParseError>,
    usize,
))
    requires
        i <= tokens@.len(),
    ensures
        ({
            let sp = s_parse_identifier(token_views(tokens@), i as int, name@);
            &&& r.1 == sp.next
            &&& i <= r.1 <= tokens@.len()
            &&& match r.0 {
                Ok(f) => sp.res == Ok::<FieldV, ParseErrorV>(f@),
                Err(e) => sp.res == Err::<FieldV, ParseErrorV>(e@),
            }
        }),
{
    let n = tokens.len();
    if i >= n {
        return (Err(ParseError::UnexpectedEndOfFile), n);
    }
    let tok = &tokens[i];
    match &tok.token {
        Token::DataType(d) => {
            let t = clone_data_type(d);
            parse_maybe_tags(tokens, i + 1, name, FieldType::One(t))
        },
        Token::Identifier(lit) => {
            let t = DataType::Custom(lit.clone());
            parse_maybe_tags(tokens, i + 1, name, FieldType::One(t))
        },
        Token::NextLine => (Ok(Field::Embedded(name)), i + 1),
        Token::Graveaccent => {
            let (tb, n1) = parse_backtick_block(tokens, i + 1);
            match tb {
                Ok(tags) => (
                    Ok(
                        Field::WithTags(
                            FieldName(name),
                            FieldType::One(DataType::Unspecified),
                            tags,
                        ),
                    ),
                    n1,
                ),
                Err(e) => (Err(e), n1),
            }
        },
        Token::LeftBracket => parse_list(tokens, i + 1, name),
        _ => (Err(ParseError::UnknownError), i),
    }
}

fn parse_block(tokens: &Vec<TokenWithContext>, i: usize) -> (r: (
    Result<Vec<Field>, ParseError>,
    usize,
))
    requires
        i <= tokens@.len(),
    ensures
        ({
            let sp = s_parse_block(token_views(tokens@), i as int);
            &&& r.1 == sp.next
            &&& i <= r.1 <= tokens@.len()
            &&& match r.0 {
                Ok(fs) => sp.res == Ok::<Seq<FieldV>, ParseErrorV>(fields_view(fs@)),
                Err(e) => sp.res == Err::<Seq<FieldV>, ParseErrorV>(e@),
            }
        }),
    decreases tokens@.len() - i,
{
    let ghost tv = token_views(tokens@);
    let n = tokens.len();
    let mut fields: Vec<Field> = Vec::new();
    let mut j: usize = i;
    loop
        invariant
            i <= j <= n,
            n == tv.len(),
            tv == token_views(tokens@),
            ({
                let orig = s_parse_block(tv, i as int);
                let cur = s_parse_block(tv, j as int);
                &&& orig.next == cur.next
                &&& (cur.res matches Ok(rest) ==> orig.res == Ok::<Seq<FieldV>, ParseErrorV>(
                    fields_view(fields@) + rest,
                ))
                &&& (cur.res matches Err(e) ==> orig.res == Err::<Seq<FieldV>, ParseErrorV>(e))
            }),
        decreases n - j,
    {
        proof {
            assert(fields_view(fields@) + Seq::<FieldV>::empty() =~= fields_view(fields@));
        }
        if j >= n {
            return (Err(ParseError::UnexpectedEndOfFile), n);
        }
        let ghost old_fields = fields@;
        let tok = &tokens[j];
        let step: (Result<Field, ParseError>, usize) = match &tok.token {
            Token::RightBrace => {
                return (Ok(fields), j + 1);
            },
            Token::Identifier(name) => {
                let name_owned = name.clone();
                parse_identifier(tokens, j + 1, name_owned)
            },
            Token::Type => {
                let (dr, n1) = parse_struct_declaration(tokens, j + 1);
                match dr {
                    Ok(_) => (Ok(Field::Blank), n1),
                    Err(e) => (Err(e), n1),
                }
            },
            Token::LeftBrace => {
                let (br, n1) = parse_block(tokens, j + 1);
                match br {
                    Ok(_) => (Ok(Field::Blank), n1),
                    Err(e) => (Err(e), n1),
                }
            },
            Token::Json => {
                let (sr, n1) = parse_tag_suffix(tokens, j + 1);
                match sr {
                    Ok(_) => (Ok(Field::Blank), n1),
                    Err(e) => (Err(e), n1),
                }
            },
            Token::Binding => {
                let (sr, n1) = parse_tag_suffix(tokens, j + 1);
                match sr {
                    Ok(_) => (Ok(Field::Blank), n1),
                    Err(e) => (Err(e), n1),
                }
            },
            _ => (Ok(Field::Blank), j + 1),
        };
        let (sres, snext) = step;
        match sres {
            Ok(f) => {
                let ghost fv = f@;
                proof {
                    assert(j < snext <= n);
                    assert(bound_next(snext as int, j as int, tv.len() as int) == snext as int);
                    let cur = s_parse_block(tv, j as int);
                    assert(cur == s_block_tail(tv, j as int, fv, snext as int));
                }
                fields.push(f);
                proof {
                    let rest2 = s_parse_block(tv, snext as int);
                    assert(fields_view(fields@) =~= fields_view(old_fields).push(fv));
                    if rest2.res is Ok {
                        assert(fields_view(old_fields) + (seq![fv] + rest2.res->Ok_0)
                            =~= fields_view(fields@) + rest2.res->Ok_0);
                    }
                }
                j = snext;
            },
            Err(e) => {
                return (Err(e), snext);
            },
        }
    }
}

fn parse_struct_declaration(tokens: &Vec<TokenWithContext>, i: usize) -> (r: (
    Result<StructDeclaration, ParseError>,
    usize,
))
    requires
        i <= tokens@.len(),
    ensures
        ({
            let sp = s_parse_struct_declaration(token_views(tokens@), i as int);
            &&& r.1 == sp.next
            &&& i <= r.1 <= tokens@.len()
            &&& match r.0 {
                Ok(sd) => sp.res == Ok::<StructDeclarationV, ParseErrorV>(sd@),
                Err(e) => sp.res == Err::<StructDeclarationV, ParseErrorV>(e@),
            }
        }),
    decreases tokens@.len() - i,
{
    let n = tokens.len();
    if i >= n {
        return (Err(ParseError::UnexpectedEndOfFile), n);
    }
    let tok = &tokens[i];
    let name = match &tok.token {
        Token::Identifier(name) => name.clone(),
        _ => {
            return (
                Err(
                    ParseError::Missing(
                        RequiredElements::Identifier,
                        tok.lexeme.clone(),
                        tok.position,
                    ),
                ),
                i + 1,
            );
        },
    };
    if i + 1 >= n {
        return (Err(ParseError::UnexpectedEndOfFile), n);
    }
    let tok2 = &tokens[i + 1];
    match &tok2.token {
        Token::Struct => {},
        _ => {
            return (
                Err(
                    ParseError::Missing(RequiredElements::Struct, tok2.lexeme.clone(), tok2.position),
                ),
                i + 2,
            );
        },
    }
    if i + 2 >= n {
        return (Err(ParseError::UnexpectedEndOfFile), n);
    }
    let tok3 = &tokens[i + 2];
    match &tok3.token {
        Token::LeftBrace => {},
        _ => {
            return (
                Err(
                    ParseError::Missing(
                        RequiredElements::LeftBrace,
                        tok3.lexeme.clone(),
                        tok3.position,
                    ),
                ),
                i + 3,
            );
        },
    }
    let (br, n1) = parse_block(tokens, i + 3);
    match br {
        Ok(fields) => (Ok(StructDeclaration { name, body: fields }), n1),
        Err(e) => (Err(e), n1),
    }
}

/// Re-wraps parsed fields as top-level items.
fn fields_to_asts(fields: Vec<Field>) -> (r: Vec<AST>)
    ensures
        asts_view(r@) == fields_as_asts(fields_view(fields@)),
{
    let ghost orig = fields@;
    let mut fields = fields;
    let mut out: Vec<AST> = Vec::new();
    let ghost mut k: int = 0;
    while fields.len() > 0
        invariant
            0 <= k <= orig.len(),
            fields@ == orig.subrange(k, orig.len() as int),
            asts_view(out@) == fields_as_asts(fields_view(orig.take(k))),
        decreases fields@.len(),
    {
        let f = fields.remove(0);
        proof {
            assert(f == orig[k]);
            assert(fields@ =~= orig.subrange(k + 1, orig.len() as int));
        }
        out.push(AST::Field(f));
        proof {
            assert(orig.take(k + 1) =~= orig.take(k).push(orig[k]));
            assert(fields_view(orig.take(k + 1)) =~= fields_view(orig.take(k)).push(orig[k]@));
            assert(fields_as_asts(fields_view(orig.take(k + 1))) =~= fields_as_asts(
                fields_view(orig.take(k)),
            ).push(ASTV::Field(orig[k]@)));
            assert(asts_view(out@) =~= fields_as_asts(fields_view(orig.take(k + 1))));
            k = k + 1;
        }
    }
    proof {
        assert(orig.take(k) =~= orig);
    }
    out
}

fn parse_declaration(tokens: &Vec<TokenWithContext>, i: usize) -> (r: (
    Result<Vec<AST>, ParseError>,
    usize,
))
    requires
        i <= tokens@.len(),
    ensures
        ({
            let sp = s_parse_declaration(token_views(tokens@), i as int);
            &&& r.1 == sp.next
            &&& i <= r.1 <= tokens@.len()
            &&& i < tokens@.len() ==> i < r.1
            &&& match r.0 {
                Ok(items) => sp.res == Ok::<Seq<ASTV>, ParseErrorV>(asts_view(items@)),
                Err(e) => sp.res == Err::<Seq<ASTV>, ParseErrorV>(e@),
            }
        }),
{
    let ghost tv = token_views(tokens@);
    let n = tokens.len();
    if i >= n {
        return (Err(ParseError::UnexpectedEndOfFile), n);
    }
    let tok = &tokens[i];
    match &tok.token {
        Token::Type => {
            let (dr, n1) = parse_struct_declaration(tokens, i + 1);
            match dr {
                Ok(sd) => {
                    let ghost sdv = sd@;
                    let mut out: Vec<AST> = Vec::new();
                    out.push(AST::Declaration(sd));
                    proof {
                        assert(asts_view(out@) =~= seq![ASTV::Declaration(sdv)]);
                    }
                    (Ok(out), n1)
                },
                Err(e) => (Err(e), n1),
            }
        },
        Token::Identifier(name) => {
            let name_owned = name.clone();
            let (fr, n1) = parse_identifier(tokens, i + 1, name_owned);
            match fr {
                Ok(f) => {
                    let ghost fv = f@;
                    let mut out: Vec<AST> = Vec::new();
                    out.push(AST::Field(f));
                    proof {
                        assert(asts_view(out@) =~= seq![ASTV::Field(fv)]);
                    }
                    (Ok(out), n1)
                },
                Err(e) => (Err(e), n1),
            }
        },
        Token::LeftBrace => {
            let (br, n1) = parse_block(tokens, i + 1);
            match br {
                Ok(fields) => (Ok(fields_to_asts(fields)), n1),
                Err(e) => (Err(e), n1),
            }
        },
        Token::Json => {
            let (sr, n1) = parse_tag_suffix(tokens, i + 1);
            match sr {
                Ok(_) => {
                    let out: Vec<AST> = Vec::new();
                    proof {
                        assert(asts_view(out@) =~= Seq::<ASTV>::empty());
                    }
                    (Ok(out), n1)
                },
                Err(e) => (Err(e), n1),
            }
        },
        Token::Binding => {
            let (sr, n1) = parse_tag_suffix(tokens, i + 1);
            match sr {
                Ok(_) => {
                    let out: Vec<AST> = Vec::new();
                    proof {
                        assert(asts_view(out@) =~= Seq::<ASTV>::empty());
                    }
                    (Ok(out), n1)
                },
                Err(e) => (Err(e), n1),
            }
        },
        _ => {
            let out: Vec<AST> = Vec::new();
            proof {
                assert(asts_view(out@) =~= Seq::<ASTV>::empty());
            }
            (Ok(out), i + 1)
        },
    }
}

/// The views of a sequence of diagnostic strings.
pub open spec fn msgs_view(s: Seq<String>) -> Seq<Seq<char>> {
    s.map_values(|m: String| m@)
}

/// Parses the token sequence into the list of top-level items.
///
/// One malformed declaration never suppresses later ones: its
/// diagnostic is recorded and parsing continues with the next
/// declaration.  The result is the full item list when no diagnostic
/// was recorded, otherwise the full diagnostic list.
pub fn parse(tokens: &Vec<TokenWithContext>) -> (r: Result<Vec<AST>, Vec<String>>)
    ensures
        ({
            let sp = spec_parse(token_views(tokens@));
            match r {
                Ok(asts) => sp is Ok && asts_view(asts@) == sp->Ok_0,
                Err(msgs) => sp is Err && msgs_view(msgs@) == sp->Err_0,
            }
        }),
{
    let ghost tv = token_views(tokens@);
    let n = tokens.len();
    let mut statements: Vec<AST> = Vec::new();
    let mut errors: Vec<String> = Vec::new();
    let mut i: usize = 0;
    while i < n
        invariant
            i <= n,
            n == tv.len(),
            tv == token_views(tokens@),
            s_parse(tv, 0).0 == asts_view(statements@) + s_parse(tv, i as int).0,
            s_parse(tv, 0).1 == msgs_view(errors@) + s_parse(tv, i as int).1,
        decreases n - i,
    {
        let ghost old_statements = statements@;
        let ghost old_errors = errors@;
        let (dr, n1) = parse_declaration(tokens, i);
        proof {
            assert(bound_next(n1 as int, i as int, tv.len() as int) == n1 as int);
        }
        match dr {
            Ok(mut items) => {
                let ghost items_v = asts_view(items@);
                statements.append(&mut items);
                proof {
                    assert(asts_view(statements@) =~= asts_view(old_statements) + items_v);
                    assert(asts_view(old_statements) + (items_v + s_parse(tv, n1 as int).0)
                        =~= asts_view(statements@) + s_parse(tv, n1 as int).0);
                }
            },
            Err(e) => {
                let m = e.message();
                errors.push(m);
                proof {
                    assert(msgs_view(errors@) =~= msgs_view(old_errors).push(
                        parse_err_message(e@),
                    ));
                    assert(msgs_view(old_errors) + (seq![parse_err_message(e@)] + s_parse(
                        tv,
                        n1 as int,
                    ).1) =~= msgs_view(errors@) + s_parse(tv, n1 as int).1);
                }
            },
        }
        i = n1;
    }
    proof {
        assert(s_parse(tv, i as int).0 =~= Seq::<ASTV>::empty());
        assert(s_parse(tv, i as int).1 =~= Seq::<Seq<char>>::empty());
        assert(asts_view(statements@) =~= s_parse(tv, 0).0);
        assert(msgs_view(errors@) =~= s_parse(tv, 0).1);
    }
    if errors.len() == 0 {
        proof {
            assert(msgs_view(errors@) =~= Seq::<Seq<char>>::empty());
        }
        Ok(statements)
    } else {
        proof {
            assert(msgs_view(errors@).len() == errors@.len());
        }
        Err(errors)
    }
}

} // verus!
