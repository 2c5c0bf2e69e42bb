//! The lexer: converts raw source text into a sequence of positioned
//! tokens.
//!
//! The spec-level function [`scan_items`] gives the exact stream of
//! tokens and lexical errors for any input; the executable entry points
//! [`scan_into_iterator`] and [`scan`] are proved to produce it.

use vstd::prelude::*;

use crate::ast::{DataType, DataTypeV};
use crate::text::{chars_eq_str, dec_rep, push_char, string_from_chars, usize_to_string};

verus! {

/// A source position, line and column both 1-based.
///
/// A newline resets the column to 1 and increments the line; every other
/// consumed character advances the column by 1.
#[derive(Debug, Clone, Copy, PartialEq, Eq, Structural)]
pub struct Position {
    pub line: usize,
    pub column: usize,
}

pub open spec fn initial_position() -> Position {
    Position { line: 1, column: 1 }
}

/// The position after consuming one more character `c`.
pub open spec fn pos_step(p: Position, c: char) -> Position {
    if c == '\n' {
        Position { line: (p.line + 1) as usize, column: 1 }
    } else {
        Position { line: p.line, column: (p.column + 1) as usize }
    }
}

/// The position after consuming the first `i` characters of `s`.
pub open spec fn pos_after(s: Seq<char>, i: int) -> Position
    decreases i,
{
    if i <= 0 {
        initial_position()
    } else {
        pos_step(pos_after(s, i - 1), s[i - 1])
    }
}

pub proof fn lemma_pos_after_bounds(s: Seq<char>, i: int)
    requires
        0 <= i < usize::MAX,
    ensures
        1 <= pos_after(s, i).line <= i + 1,
        1 <= pos_after(s, i).column <= i + 1,
    decreases i,
{
    if i > 0 {
        lemma_pos_after_bounds(s, i - 1);
    }
}

/// Over a run of non-newline characters the line is unchanged and the
/// column advances by the length of the run.
pub proof fn lemma_pos_after_run(s: Seq<char>, i: int, j: int)
    requires
        0 <= i <= j,
        j < usize::MAX,
        forall|k: int| i <= k < j ==> s[k] != '\n',
    ensures
        pos_after(s, j).line == pos_after(s, i).line,
        pos_after(s, j).column == pos_after(s, i).column + (j - i),
    decreases j - i,
{
    if j > i {
        lemma_pos_after_run(s, i, j - 1);
        lemma_pos_after_bounds(s, j - 1);
    }
}

impl Position {
    pub fn initial() -> (p: Position)
        ensures
            p == initial_position(),
    {
        Position { line: 1, column: 1 }
    }

    pub fn increment_column(&mut self)
        requires
            old(self).column < usize::MAX,
        ensures
            final(self).line == old(self).line,
            final(self).column == old(self).column + 1,
    {
        self.column = self.column + 1;
    }

    pub fn increment_line(&mut self)
        requires
            old(self).line < usize::MAX,
        ensures
            final(self).line == old(self).line + 1,
            final(self).column == 1,
    {
        self.line = self.line + 1;
        self.column = 1;
    }
}

/// A lexical token.
#[derive(Debug)]
pub enum Token {
    LeftBrace,
    RightBrace,
    Colon,
    Identifier(String),
    StringLiteral(String),
    Whitespace,
    Graveaccent,
    NextLine,
    LeftBracket,
    RightBracket,
    Pointer,
    // Keywords
    Type,
    Struct,
    Json,
    Binding,
    DataType(DataType),
}

/// Spec-level view of [`Token`].
pub enum TokenK {
    LeftBrace,
    RightBrace,
    Colon,
    Identifier(Seq<char>),
    StringLiteral(Seq<char>),
    Whitespace,
    Graveaccent,
    NextLine,
    LeftBracket,
    RightBracket,
    Pointer,
    Type,
    Struct,
    Json,
    Binding,
    DataType(DataTypeV),
}

impl View for Token {
    type V = TokenK;

    open spec fn view(&self) -> TokenK {
        match self {
            Token::LeftBrace => TokenK::LeftBrace,
            Token::RightBrace => TokenK::RightBrace,
            Token::Colon => TokenK::Colon,
            Token::Identifier(s) => TokenK::Identifier(s@),
            Token::StringLiteral(s) => TokenK::StringLiteral(s@),
            Token::Whitespace => TokenK::Whitespace,
            Token::Graveaccent => TokenK::Graveaccent,
            Token::NextLine => TokenK::NextLine,
            Token::LeftBracket => TokenK::LeftBracket,
            Token::RightBracket => TokenK::RightBracket,
            Token::Pointer => TokenK::Pointer,
            Token::Type => TokenK::Type,
            Token::Struct => TokenK::Struct,
            Token::Json => TokenK::Json,
            Token::Binding => TokenK::Binding,
            Token::DataType(d) => TokenK::DataType(d@),
        }
    }
}

/// A token together with the exact matched text and its source position.
#[derive(Debug)]
pub struct TokenWithContext {
    pub token: Token,
    pub lexeme: String,
    pub position: Position,
}

/// Spec-level view of [`TokenWithContext`].
pub struct TokenV {
    pub token: TokenK,
    pub lexeme: Seq<char>,
    pub position: Position,
}

impl View for TokenWithContext {
    type V = TokenV;

    open spec fn view(&self) -> TokenV {
        TokenV { token: self.token@, lexeme: self.lexeme@, position: self.position }
    }
}

/// A lexical error: a string literal not closed before a newline or the
/// end of the input, carrying the position where scanning stopped.
#[derive(Debug, Clone, Copy, PartialEq, Eq, Structural)]
pub enum ScannerError {
    MissingStringTerminator(Position),
}

/// The message text for a lexical error.
pub open spec fn scan_err_message(e: ScannerError) -> Seq<char> {
    match e {
        ScannerError::MissingStringTerminator(p) => "Missing string terminator at line "@
            + dec_rep(p.line as nat) + " column "@ + dec_rep(p.column as nat),
    }
}

impl ScannerError {
    /// Renders the error as a human-readable diagnostic line.
    pub fn message(&self) -> (s: String)
        ensures
            s@ == scan_err_message(*self),
    {
        match self {
            ScannerError::MissingStringTerminator(p) => {
                let mut s = String::new();
                s.append("Missing string terminator at line ");
                let line = usize_to_string(p.line);
                s.append(line.as_str());
                s.append(" column ");
                let column = usize_to_string(p.column);
                s.append(column.as_str());
                s
            },
        }
    }
}

// ---------------------------------------------------------------------
// Character classification
// ---------------------------------------------------------------------

pub open spec fn spec_is_digit(c: char) -> bool {
    48 <= c as u32 <= 57
}

/// Identifier characters are letters plus `.` and `-`, so that dotted,
/// package-qualified names can be written.
pub open spec fn spec_is_alpha(c: char) -> bool {
    ||| 97 <= c as u32 <= 122
    ||| 65 <= c as u32 <= 90
    ||| c == '.'
    ||| c == '-'
}

pub open spec fn spec_is_alphanumeric(c: char) -> bool {
    spec_is_digit(c) || spec_is_alpha(c)
}

pub open spec fn spec_is_nextline(c: char) -> bool {
    c == '\n'
}

pub open spec fn spec_is_whitespace(c: char) -> bool {
    c == ' ' || c == '\r' || c == '\t'
}

fn is_digit(c: char) -> (b: bool)
    ensures
        b == spec_is_digit(c),
{
    let u = c as u32;
    48 <= u && u <= 57
}

fn is_alpha(c: char) -> (b: bool)
    ensures
        b == spec_is_alpha(c),
{
    let u = c as u32;
    (97 <= u && u <= 122) || (65 <= u && u <= 90) || c == '.' || c == '-'
}

fn is_alphanumeric(c: char) -> (b: bool)
    ensures
        b == spec_is_alphanumeric(c),
{
    is_digit(c) || is_alpha(c)
}

fn is_nextline(c: char) -> (b: bool)
    ensures
        b == spec_is_nextline(c),
{
    c == '\n'
}

fn is_whitespace(c: char) -> (b: bool)
    ensures
        b == spec_is_whitespace(c),
{
    c == ' ' || c == '\r' || c == '\t'
}

// ---------------------------------------------------------------------
// The scan, as a specification
// ---------------------------------------------------------------------

/// The end of the maximal run of identifier characters starting at `i`.
pub open spec fn ident_end(s: Seq<char>, i: int) -> int
    decreases s.len() - i,
{
    if i < s.len() && spec_is_alphanumeric(s[i]) {
        ident_end(s, i + 1)
    } else {
        i
    }
}

/// The end of the run of string-literal characters starting at `i`:
/// the first index at or after `i` holding a closing quote or a newline,
/// or the end of the input.
pub open spec fn strlit_end(s: Seq<char>, i: int) -> int
    decreases s.len() - i,
{
    if i < s.len() && s[i] != '"' && s[i] != '\n' {
        strlit_end(s, i + 1)
    } else {
        i
    }
}

/// Maps a completed lexeme to its token: the recognized keywords and
/// built-in type names, or an identifier.
pub open spec fn keyword_token(lex: Seq<char>) -> TokenK {
    if lex == "type"@ {
        TokenK::Type
    } else if lex == "struct"@ {
        TokenK::Struct
    } else if lex == "json"@ {
        TokenK::Json
    } else if lex == "binding"@ {
        TokenK::Binding
    } else if lex == "int64"@ || lex == "float64"@ || lex == "int"@ {
        TokenK::DataType(DataTypeV::Number)
    } else if lex == "string"@ || lex == "time.Time"@ {
        TokenK::DataType(DataTypeV::Text)
    } else if lex == "bool"@ {
        TokenK::DataType(DataTypeV::Boolean)
    } else {
        TokenK::Identifier(lex)
    }
}

/// One step of the scan: the token or error produced at index `i`, and
/// the index at which scanning resumes.
pub struct StepV {
    pub item: ScanItem,
    pub next: int,
}

/// One element of the raw scan output: a token or a lexical error.
pub enum ScanItem {
    Token(TokenV),
    Error(ScannerError),
}

/// The token or error produced when scanning resumes at index `i`
/// (meaningful for `0 <= i < s.len()`).
pub open spec fn spec_scan_next(s: Seq<char>, i: int) -> StepV {
    let c = s[i];
    let pos = pos_after(s, i);
    if c == ':' {
        punct_step(TokenK::Colon, c, pos, i)
    } else if c == '{' {
        punct_step(TokenK::LeftBrace, c, pos, i)
    } else if c == '}' {
        punct_step(TokenK::RightBrace, c, pos, i)
    } else if c == '`' {
        punct_step(TokenK::Graveaccent, c, pos, i)
    } else if c == '[' {
        punct_step(TokenK::LeftBracket, c, pos, i)
    } else if c == ']' {
        punct_step(TokenK::RightBracket, c, pos, i)
    } else if c == '*' {
        punct_step(TokenK::Pointer, c, pos, i)
    } else if spec_is_nextline(c) {
        punct_step(TokenK::NextLine, c, pos, i)
    } else if spec_is_whitespace(c) {
        punct_step(TokenK::Whitespace, c, pos, i)
    } else if c == '"' {
        let j = strlit_end(s, i + 1);
        if j < s.len() && s[j] == '"' {
            StepV {
                item: ScanItem::Token(
                    TokenV {
                        token: TokenK::StringLiteral(s.subrange(i + 1, j)),
                        lexeme: s.subrange(i, j + 1),
                        position: pos,
                    },
                ),
                next: j + 1,
            }
        } else {
            StepV {
                item: ScanItem::Error(ScannerError::MissingStringTerminator(pos_after(s, j))),
                next: j,
            }
        }
    } else {
        let j = ident_end(s, i + 1);
        let lex = s.subrange(i, j);
        StepV {
            item: ScanItem::Token(TokenV { token: keyword_token(lex), lexeme: lex, position: pos }),
            next: j,
        }
    }
}

pub open spec fn punct_step(t: TokenK, c: char, pos: Position, i: int) -> StepV {
    StepV {
        item: ScanItem::Token(TokenV { token: t, lexeme: seq![c], position: pos }),
        next: i + 1,
    }
}

/// The full raw scan output from index `i` on: every token (whitespace
/// and pointer sigils included) and every lexical error, in source order.
pub open spec fn scan_items(s: Seq<char>, i: int) -> Seq<ScanItem>
    decreases s.len() - i,
{
    if i < 0 || i >= s.len() {
        Seq::empty()
    } else {
        let st = spec_scan_next(s, i);
        let n = if st.next <= i {
            i + 1
        } else if st.next > s.len() {
            s.len() as int
        } else {
            st.next
        };
        seq![st.item] + scan_items(s, n)
    }
}

// ---------------------------------------------------------------------
// The scan, executable
// ---------------------------------------------------------------------

/// The characters of a string slice, as a vector.
fn chars_of(s: &str) -> (v: Vec<char>)
    ensures
        v@ == s@,
{
    let n = s.unicode_len();
    let mut v: Vec<char> = Vec::new();
    let mut i: usize = 0;
    while i < n
        invariant
            i <= n,
            n == s@.len(),
            v@ == s@.subrange(0, i as int),
        decreases n - i,
    {
        v.push(s.get_char(i));
        i = i + 1;
        proof {
            assert(v@ =~= s@.subrange(0, i as int));
        }
    }
    proof {
        assert(v@ =~= s@);
    }
    v
}

/// A copy of the characters of `v` in the index range `[a, b)`.
fn copy_range(v: &Vec<char>, a: usize, b: usize) -> (r: Vec<char>)
    requires
        a <= b <= v@.len(),
    ensures
        r@ == v@.subrange(a as int, b as int),
{
    let mut r: Vec<char> = Vec::new();
    let mut i: usize = a;
    while i < b
        invariant
            a <= i <= b <= v@.len(),
            r@ == v@.subrange(a as int, i as int),
        decreases b - i,
    {
        r.push(v[i]);
        i = i + 1;
        proof {
            assert(r@ =~= v@.subrange(a as int, i as int));
        }
    }
    r
}

fn single_char_string(c: char) -> (s: String)
    ensures
        s@ == seq![c],
{
    let mut s = String::new();
    push_char(&mut s, c);
    proof {
        assert(s@ =~= seq![c]);
    }
    s
}

/// Scans one token or error starting at index `i`, returning it with
/// the resume index and the position there.
fn scan_next(chars: &Vec<char>, i: usize, pos: Position) -> (r: (
    Result<TokenWithContext, ScannerError>,
    usize,
    Position,
))
    requires
        i < chars@.len(),
        chars@.len() < usize::MAX,
        pos == pos_after(chars@, i as int),
    ensures
        ({
            let st = spec_scan_next(chars@, i as int);
            &&& r.1 == st.next
            &&& i < r.1 <= chars@.len()
            &&& r.2 == pos_after(chars@, r.1 as int)
            &&& match r.0 {
                Ok(t) => st.item == ScanItem::Token(t@),
                Err(e) => st.item == ScanItem::Error(e),
            }
        }),
{
    let ghost s = chars@;
    let n = chars.len();
    let c = chars[i];
    proof {
        lemma_pos_after_bounds(s, i as int);
    }
    if c == ':' || c == '{' || c == '}' || c == '`' || c == '[' || c == ']' || c == '*'
        || is_nextline(c) || is_whitespace(c) {
        let token = if c == ':' {
            Token::Colon
        } else if c == '{' {
            Token::LeftBrace
        } else if c == '}' {
            Token::RightBrace
        } else if c == '`' {
            Token::Graveaccent
        } else if c == '[' {
            Token::LeftBracket
        } else if c == ']' {
            Token::RightBracket
        } else if c == '*' {
            Token::Pointer
        } else if is_nextline(c) {
            Token::NextLine
        } else {
            Token::Whitespace
        };
        let mut next_pos = pos;
        if is_nextline(c) {
            next_pos.increment_line();
        } else {
            next_pos.increment_column();
        }
        let twc = TokenWithContext { token, lexeme: single_char_string(c), position: pos };
        (Ok(twc), i + 1, next_pos)
    } else if c == '"' {
        let mut j: usize = i + 1;
        while j < n && chars[j] != '"' && chars[j] != '\n'
            invariant
                i + 1 <= j <= n,
                n == s.len(),
                chars@ == s,
                strlit_end(s, i + 1) == strlit_end(s, j as int),
                forall|k: int| i + 1 <= k < j ==> (s[k] != '"' && s[k] != '\n'),
            decreases n - j,
        {
            j = j + 1;
        }
        proof {
            assert(strlit_end(s, j as int) == j);
            assert(forall|k: int| i <= k < j ==> s[k] != '\n');
            lemma_pos_after_run(s, i as int, j as int);
        }
        if j < n {
            let cj = chars[j];
            if cj == '"' {
                let literal = copy_range(chars, i + 1, j);
                let lexeme = copy_range(chars, i, j + 1);
                proof {
                    assert(forall|k: int| i <= k < j + 1 ==> s[k] != '\n');
                    lemma_pos_after_run(s, i as int, j + 1);
                }
                let next_pos = Position { line: pos.line, column: pos.column + (j + 1 - i) };
                let twc = TokenWithContext {
                    token: Token::StringLiteral(string_from_chars(&literal)),
                    lexeme: string_from_chars(&lexeme),
                    position: pos,
                };
                return (Ok(twc), j + 1, next_pos);
            }
        }
        let err_pos = Position { line: pos.line, column: pos.column + (j - i) };
        proof {
            assert(err_pos == pos_after(s, j as int));
        }
        (Err(ScannerError::MissingStringTerminator(err_pos)), j, err_pos)
    } else {
        let mut j: usize = i + 1;
        while j < n && is_alphanumeric(chars[j])
            invariant
                i + 1 <= j <= n,
                n == s.len(),
                chars@ == s,
                ident_end(s, i + 1) == ident_end(s, j as int),
                forall|k: int| i + 1 <= k < j ==> spec_is_alphanumeric(s[k]),
            decreases n - j,
        {
            j = j + 1;
        }
        proof {
            assert(ident_end(s, j as int) == j);
            assert(forall|k: int| i <= k < j ==> s[k] != '\n');
            lemma_pos_after_run(s, i as int, j as int);
        }
        let lex = copy_range(chars, i, j);
        let token = if chars_eq_str(&lex, "type") {
            Token::Type
        } else if chars_eq_str(&lex, "struct") {
            Token::Struct
        } else if chars_eq_str(&lex, "json") {
            Token::Json
        } else if chars_eq_str(&lex, "binding") {
            Token::Binding
        } else if chars_eq_str(&lex, "int64") || chars_eq_str(&lex, "float64") || chars_eq_str(
            &lex,
            "int",
        ) {
            Token::DataType(DataType::Number)
        } else if chars_eq_str(&lex, "string") || chars_eq_str(&lex, "time.Time") {
            Token::DataType(DataType::Text)
        } else if chars_eq_str(&lex, "bool") {
            Token::DataType(DataType::Boolean)
        } else {
            Token::Identifier(string_from_chars(&lex))
        };
        proof {
            assert(token@ == keyword_token(lex@));
        }
        let next_pos = Position { line: pos.line, column: pos.column + (j - i) };
        let twc = TokenWithContext {
            token,
            lexeme: string_from_chars(&lex),
            position: pos,
        };
        (Ok(twc), j, next_pos)
    }
}

/// The view of one raw scan result.
pub open spec fn item_view(x: Result<TokenWithContext, ScannerError>) -> ScanItem {
    match x {
        Ok(t) => ScanItem::Token(t@),
        Err(e) => ScanItem::Error(e),
    }
}

/// The views of a sequence of raw scan results.
pub open spec fn raw_views(r: Seq<Result<TokenWithContext, ScannerError>>) -> Seq<ScanItem> {
    r.map_values(|x: Result<TokenWithContext, ScannerError>| item_view(x))
}

/// Scans the whole input into the raw stream of tokens and lexical
/// errors, in source order, with nothing filtered out.
pub fn scan_into_iterator(input: &str) -> (r: Vec<Result<TokenWithContext, ScannerError>>)
    requires
        input@.len() < usize::MAX,
    ensures
        raw_views(r@) == scan_items(input@, 0),
{
    let chars = chars_of(input);
    let ghost s = input@;
    let n = chars.len();
    let mut r: Vec<Result<TokenWithContext, ScannerError>> = Vec::new();
    let mut i: usize = 0;
    let mut pos = Position::initial();
    while i < n
        invariant
            i <= n,
            n == s.len(),
            chars@ == s,
            s.len() < usize::MAX,
            pos == pos_after(s, i as int),
            raw_views(r@) + scan_items(s, i as int) == scan_items(s, 0),
        decreases n - i,
    {
        let ghost old_r = r@;
        let (item, ni, npos) = scan_next(&chars, i, pos);
        proof {
            let st = spec_scan_next(s, i as int);
            assert(scan_items(s, i as int) =~= seq![st.item] + scan_items(s, ni as int));
        }
        r.push(item);
        proof {
            assert(raw_views(r@) =~= raw_views(old_r).push(item_view(item)));
            assert(raw_views(r@) + scan_items(s, ni as int) =~= raw_views(old_r) + scan_items(
                s,
                i as int,
            ));
        }
        i = ni;
        pos = npos;
    }
    proof {
        assert(scan_items(s, i as int) =~= Seq::empty());
        assert(raw_views(r@) =~= scan_items(s, 0));
    }
    r
}

// ---------------------------------------------------------------------
// Filtering: the token stream handed to the parser
// ---------------------------------------------------------------------

/// Whether a token survives filtering: whitespace and the pointer sigil
/// are discarded, everything else is kept.
pub open spec fn kept_token(t: TokenV) -> bool {
    !(t.token is Whitespace) && !(t.token is Pointer)
}

/// The lexical errors of a raw scan stream, in order.
pub open spec fn scan_errors(items: Seq<ScanItem>) -> Seq<ScannerError>
    decreases items.len(),
{
    if items.len() == 0 {
        Seq::empty()
    } else {
        match items[0] {
            ScanItem::Error(e) => seq![e] + scan_errors(items.drop_first()),
            ScanItem::Token(_) => scan_errors(items.drop_first()),
        }
    }
}

/// The kept tokens of a raw scan stream, in order.
pub open spec fn kept_tokens(items: Seq<ScanItem>) -> Seq<TokenV>
    decreases items.len(),
{
    if items.len() == 0 {
        Seq::empty()
    } else {
        match items[0] {
            ScanItem::Token(t) => if kept_token(t) {
                seq![t] + kept_tokens(items.drop_first())
            } else {
                kept_tokens(items.drop_first())
            },
            ScanItem::Error(_) => kept_tokens(items.drop_first()),
        }
    }
}

proof fn lemma_scan_errors_push(items: Seq<ScanItem>, x: ScanItem)
    ensures
        scan_errors(items.push(x)) == scan_errors(items) + (match x {
            ScanItem::Error(e) => seq![e],
            ScanItem::Token(_) => Seq::<ScannerError>::empty(),
        }),
    decreases items.len(),
{
    let tail = match x {
        ScanItem::Error(e) => seq![e],
        ScanItem::Token(_) => Seq::<ScannerError>::empty(),
    };
    if items.len() == 0 {
        assert(items.push(x).drop_first() =~= Seq::<ScanItem>::empty());
        assert(scan_errors(Seq::<ScanItem>::empty()) =~= Seq::<ScannerError>::empty());
        assert(scan_errors(items.push(x).drop_first()) =~= Seq::<ScannerError>::empty());
        assert(items.push(x)[0] == x);
        assert(scan_errors(items.push(x)) =~= scan_errors(items) + tail);
    } else {
        lemma_scan_errors_push(items.drop_first(), x);
        assert(items.push(x).drop_first() =~= items.drop_first().push(x));
        assert(items.push(x)[0] == items[0]);
        match items[0] {
            ScanItem::Error(e) => {
                assert(scan_errors(items.push(x)) =~= seq![e] + scan_errors(
                    items.drop_first().push(x),
                ));
                assert(seq![e] + (scan_errors(items.drop_first()) + tail) =~= scan_errors(items)
                    + tail);
            },
            ScanItem::Token(_) => {
                assert(scan_errors(items.push(x)) =~= scan_errors(items.drop_first().push(x)));
            },
        }
        assert(scan_errors(items.push(x)) =~= scan_errors(items) + tail);
    }
}

proof fn lemma_kept_tokens_push(items: Seq<ScanItem>, x: ScanItem)
    ensures
        kept_tokens(items.push(x)) == kept_tokens(items) + (match x {
            ScanItem::Token(t) => if kept_token(t) {
                seq![t]
            } else {
                Seq::<TokenV>::empty()
            },
            ScanItem::Error(_) => Seq::<TokenV>::empty(),
        }),
    decreases items.len(),
{
    let tail = match x {
        ScanItem::Token(t) => if kept_token(t) {
            seq![t]
        } else {
            Seq::<TokenV>::empty()
        },
        ScanItem::Error(_) => Seq::<TokenV>::empty(),
    };
    if items.len() == 0 {
        assert(items.push(x).drop_first() =~= Seq::<ScanItem>::empty());
        assert(kept_tokens(Seq::<ScanItem>::empty()) =~= Seq::<TokenV>::empty());
        assert(kept_tokens(items.push(x).drop_first()) =~= Seq::<TokenV>::empty());
        assert(items.push(x)[0] == x);
        assert(kept_tokens(items.push(x)) =~= kept_tokens(items) + tail);
    } else {
        lemma_kept_tokens_push(items.drop_first(), x);
        assert(items.push(x).drop_first() =~= items.drop_first().push(x));
        assert(items.push(x)[0] == items[0]);
        match items[0] {
            ScanItem::Token(t) => {
                if kept_token(t) {
                    assert(kept_tokens(items.push(x)) =~= seq![t] + kept_tokens(
                        items.drop_first().push(x),
                    ));
                    assert(seq![t] + (kept_tokens(items.drop_first()) + tail) =~= kept_tokens(
                        items,
                    ) + tail);
                } else {
                    assert(kept_tokens(items.push(x)) =~= kept_tokens(items.drop_first().push(x)));
                }
            },
            ScanItem::Error(_) => {
                assert(kept_tokens(items.push(x)) =~= kept_tokens(items.drop_first().push(x)));
            },
        }
        assert(kept_tokens(items.push(x)) =~= kept_tokens(items) + tail);
    }
}

/// The views of a sequence of tokens.
pub open spec fn token_views(toks: Seq<TokenWithContext>) -> Seq<TokenV> {
    toks.map_values(|t: TokenWithContext| t@)
}

/// A source of input text: the scanner accepts both string slices and
/// owned strings.
pub trait Input {
    /// The characters of the input.
    spec fn text(&self) -> Seq<char>;

    /// The input as a string slice.
    fn as_str(&self) -> (s: &str)
        ensures
            s@ == self.text(),
    ;
}

impl<'a> Input for &'a str {
    open spec fn text(&self) -> Seq<char> {
        (*self)@
    }

    fn as_str(&self) -> (s: &str) {
        *self
    }
}

impl Input for String {
    open spec fn text(&self) -> Seq<char> {
        self@
    }

    fn as_str(&self) -> (s: &str) {
        String::as_str(self)
    }
}

/// Scans the entire input eagerly.
///
/// If any lexical error occurs, all such errors are collected and
/// returned together, and no token sequence is returned alongside them.
/// On success, whitespace tokens and the pointer sigil are filtered out
/// of the returned sequence.
pub fn scan<I: Input>(input: I) -> (r: Result<Vec<TokenWithContext>, Vec<ScannerError>>)
    requires
        input.text().len() < usize::MAX,
    ensures
        ({
            let items = scan_items(input.text(), 0);
            match r {
                Ok(toks) => scan_errors(items).len() == 0 && token_views(toks@) == kept_tokens(
                    items,
                ),
                Err(errs) => errs@ == scan_errors(items) && errs@.len() > 0,
            }
        }),
{
    let source = input.as_str();
    let mut raw = scan_into_iterator(source);
    let ghost full: Seq<Result<TokenWithContext, ScannerError>> = raw@;
    let ghost items = scan_items(input.text(), 0);
    let mut toks: Vec<TokenWithContext> = Vec::new();
    let mut errs: Vec<ScannerError> = Vec::new();
    let ghost mut k: int = 0;
    while raw.len() > 0
        invariant
            0 <= k <= full.len(),
            raw@ == full.subrange(k, full.len() as int),
            raw_views(full) == items,
            token_views(toks@) == kept_tokens(items.take(k)),
            errs@ == scan_errors(items.take(k)),
        decreases raw@.len(),
    {
        let ghost old_toks = toks@;
        let ghost old_errs = errs@;
        let item = raw.remove(0);
        proof {
            assert(item == full[k]);
            assert(raw@ =~= full.subrange(k + 1, full.len() as int));
            assert(items[k] == item_view(full[k]));
            assert(items.take(k + 1) =~= items.take(k).push(items[k]));
            lemma_kept_tokens_push(items.take(k), items[k]);
            lemma_scan_errors_push(items.take(k), items[k]);
        }
        match item {
            Ok(t) => {
                let keep = match &t.token {
                    Token::Whitespace => false,
                    Token::Pointer => false,
                    _ => true,
                };
                if keep {
                    toks.push(t);
                    proof {
                        assert(token_views(toks@) =~= token_views(old_toks).push(items[k]->Token_0));
                        assert(token_views(toks@) =~= kept_tokens(items.take(k + 1)));
                    }
                } else {
                    proof {
                        assert(token_views(toks@) =~= kept_tokens(items.take(k + 1)));
                    }
                }
            },
            Err(e) => {
                errs.push(e);
                proof {
                    assert(errs@ =~= scan_errors(items.take(k + 1)));
                }
            },
        }
        proof {
            k = k + 1;
        }
    }
    proof {
        assert(k == full.len());
        assert(items.take(k) =~= items);
    }
    if errs.len() == 0 {
        Ok(toks)
    } else {
        Err(errs)
    }
}

} // verus!
