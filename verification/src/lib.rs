//! Translates Go-style struct type declarations into structural type
//! definitions for TypeScript or Flow.
//!
//! The pipeline has three stages: a position-tracking lexer
//! ([`scanner`]), a recursive-descent parser with per-declaration error
//! recovery ([`parser`]), and renderers that turn the resulting AST into
//! target-dialect source text ([`interpreter`]).

use vstd::prelude::*;

pub mod ast;
pub mod interpreter;
pub mod parser;
pub mod scanner;
pub mod text;

use crate::interpreter::{interpret, s_interpret, InterpreterError, TransformTo};
use crate::parser::{msgs_view, parse, spec_parse};
use crate::scanner::{kept_tokens, scan, scan_err_message, scan_errors, scan_items, ScannerError};

verus! {

/// The diagnostic line for the renderers' contract violation.
pub open spec fn interp_error_text() -> Seq<char> {
    "Expected a struct declaration but found a top-level field"@
}

/// The message lines for a list of lexical errors.
pub open spec fn scan_error_texts(errs: Seq<ScannerError>) -> Seq<Seq<char>> {
    errs.map_values(|e: ScannerError| scan_err_message(e))
}

/// The whole pipeline: scan, parse, render.  The result is the full
/// rendered text, or the full ordered list of diagnostic lines; no
/// partial output is ever returned alongside errors.
pub open spec fn spec_transform(s: Seq<char>, dialect: TransformTo) -> Result<
    Seq<char>,
    Seq<Seq<char>>,
> {
    let items = scan_items(s, 0);
    if scan_errors(items).len() > 0 {
        Err(scan_error_texts(scan_errors(items)))
    } else {
        match spec_parse(kept_tokens(items)) {
            Err(msgs) => Err(msgs),
            Ok(ast) => match s_interpret(ast, dialect) {
                Ok(text) => Ok(text),
                Err(_) => Err(seq![interp_error_text()]),
            },
        }
    }
}

/// Empty input (zero declarations) transforms to empty output text,
/// with no errors, in either dialect.
pub proof fn lemma_empty_input(dialect: TransformTo)
    ensures
        spec_transform(Seq::empty(), dialect) == Ok::<Seq<char>, Seq<Seq<char>>>(
            Seq::<char>::empty(),
        ),
{
    let items = scan_items(Seq::empty(), 0);
    assert(items =~= Seq::<crate::scanner::ScanItem>::empty());
    assert(scan_errors(items).len() == 0);
    assert(kept_tokens(items) =~= Seq::<crate::scanner::TokenV>::empty());
    assert(crate::parser::s_parse(kept_tokens(items), 0).1.len() == 0);
    assert(s_interpret(crate::parser::s_parse(kept_tokens(items), 0).0, dialect)
        == Ok::<Seq<char>, InterpreterError>(Seq::<char>::empty()));
}

/// Translates Go-style struct declarations in `source` into the chosen
/// dialect's type declarations.  On failure the result is the ordered
/// list of human-readable diagnostic lines.
pub fn transform(source: &str, dialect: TransformTo) -> (r: Result<String, Vec<String>>)
    requires
        source@.len() < usize::MAX,
    ensures
        ({
            let sp = spec_transform(source@, dialect);
            match r {
                Ok(text) => sp == Ok::<Seq<char>, Seq<Seq<char>>>(text@),
                Err(msgs) => sp == Err::<Seq<char>, Seq<Seq<char>>>(msgs_view(msgs@)),
            }
        }),
{
    match scan(source) {
        Err(errs) => {
            let ghost ev = errs@;
            let mut msgs: Vec<String> = Vec::new();
            let mut k: usize = 0;
            while k < errs.len()
                invariant
                    k <= errs@.len(),
                    errs@ == ev,
                    msgs_view(msgs@) == scan_error_texts(ev.take(k as int)),
                decreases errs@.len() - k,
            {
                let ghost old_msgs = msgs@;
                let e = errs[k];
                let m = e.message();
                let ghost mv = m@;
                msgs.push(m);
                proof {
                    assert(ev.take(k + 1) =~= ev.take(k as int).push(ev[k as int]));
                    assert(msgs_view(msgs@) =~= msgs_view(old_msgs).push(mv));
                    assert(scan_error_texts(ev.take(k + 1)) =~= scan_error_texts(
                        ev.take(k as int),
                    ).push(scan_err_message(ev[k as int])));
                    assert(msgs_view(msgs@) =~= scan_error_texts(ev.take(k + 1)));
                }
                k = k + 1;
            }
            proof {
                assert(ev.take(k as int) =~= ev);
            }
            Err(msgs)
        },
        Ok(toks) => {
            match parse(&toks) {
                Err(msgs) => Err(msgs),
                Ok(ast) => {
                    match interpret(&ast, dialect) {
                        Ok(text) => Ok(text),
                        Err(_) => {
                            let mut msgs: Vec<String> = Vec::new();
                            msgs.push(
                                String::from_str(
                                    "Expected a struct declaration but found a top-level field",
                                ),
                            );
                            proof {
                                assert(msgs_view(msgs@) =~= seq![interp_error_text()]);
                            }
                            Err(msgs)
                        },
                    }
                },
            }
        },
    }
}

} // verus!
