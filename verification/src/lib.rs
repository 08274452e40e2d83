//! GalaxC compiler library: lexing, parsing, type checking and IR lowering
//! for the GalaxC mission-critical programming language.

pub mod text;
pub mod diagnostics;
pub mod lexer;
pub mod types;
pub mod checker;
pub mod ast;
pub mod parser;
pub mod ir;
pub mod debugger;
pub mod toolchain;

use vstd::prelude::*;
use vstd::string::StringSliceAdditionalSpecFns;
use crate::diagnostics::{CompileError, Diagnostic, DiagnosticKind};
use crate::lexer::{lexed, lexer_error, Token};
use crate::ir::{show_program, program_v, IrProgram};
use crate::ir::lower::lowered_program;
use crate::lexer::TokenKind;
use crate::lexer::unique::{law_lexing_unique, same_token};
use crate::parser::blank_from;
use crate::parser::state::{
    filtered, refuses_first, no_declaration_message, module_only, skip_newlines_from, same_kinds, lemma_filtered_kinds,
    lemma_skip_kinds, empty_ops_program, holds_empty_ops, same_words, lemma_filtered_words, lemma_empty_program_words,
    stream_ok, lemma_filtered_ok,
};
use crate::parser::lemma_lexed_stream_ok;
use crate::checker::check::{quiet_program, quiet_item, quiet_op, quiet_block};

verus! {

/// The compiler's version.
pub const VERSION: &'static str = "0.1.0";

/// The result of a compiler phase that reports its failures as diagnostics.
pub type CompileResult<T> = Result<T, CompileError>;

/// A failed run: at least one diagnostic, and every one of them an error.
pub open spec fn failed_with_errors(errors: Seq<Diagnostic>) -> bool {
    &&& errors.len() > 0
    &&& forall|i: int| 0 <= i < errors.len() ==> (#[trigger] errors[i]).kind == DiagnosticKind::Error
}

/// When `source` has no token stream, `r` fails, with diagnostics of the
/// lexer only.
pub open spec fn rejected_by_lexer<T>(source: &str, filename: &str, r: Result<T, Vec<Diagnostic>>) -> bool {
    (forall|toks: Seq<Token>| !lexed(source.spec_bytes(), toks)) ==> (r matches Err(errors) && errors@.len()
        > 0 && forall|i: int| 0 <= i < errors@.len() ==> lexer_error(source.spec_bytes(), filename@, #[trigger] errors@[i]))
}

/// The token stream of `source` is nothing but line breaks before its end.
pub open spec fn lexes_blank(source: &str) -> bool {
    exists|toks: Seq<Token>| lexed(source.spec_bytes(), toks) && blank_from(toks, 0)
}

/// The token stream of `source` is a module declaration of one name,
/// `orbit` and the name, and then nothing but line breaks.
pub open spec fn lexes_module_only(source: &str) -> bool {
    exists|toks: Seq<Token>| lexed(source.spec_bytes(), toks) && module_only(toks, 0)
}

/// `r` fails, and its first error says that the first item of the token
/// stream `toks`, as the parser reads it, is no declaration.
pub open spec fn refused_first_item<T>(toks: Seq<Token>, r: Result<T, Vec<Diagnostic>>) -> bool {
    r matches Err(errors) && errors@.len() > 0 && errors@[0].message@ == no_declaration_message(
        filtered(toks)[skip_newlines_from(filtered(toks), 0)].kind,
    )
}

/// The facts about `source` that its token stream `tokens` decides: any
/// stream lexed from `source` has the kinds of `tokens`, so whether it is
/// blank or a lone module declaration, and what the parser's first item
/// is, are those of `tokens`.
proof fn lemma_lexed_facts(source: &str, tokens: Seq<Token>)
    requires
        lexed(source.spec_bytes(), tokens),
    ensures
        lexes_blank(source) ==> blank_from(tokens, 0),
        lexes_module_only(source) ==> module_only(tokens, 0),
        forall|toks: Seq<Token>| #[trigger] lexed(source.spec_bytes(), toks) ==> {
            &&& refuses_first(filtered(toks), 0) == refuses_first(filtered(tokens), 0)
            &&& filtered(toks)[skip_newlines_from(filtered(toks), 0)].kind == filtered(tokens)[skip_newlines_from(
                filtered(tokens),
                0,
            )].kind
        },
{
    let b = source.spec_bytes();
    assert forall|toks: Seq<Token>| #[trigger] lexed(b, toks) implies same_kinds(tokens, toks) by {
        law_lexing_unique(b, tokens, toks);
        assert forall|i: int| 0 <= i < tokens.len() implies #[trigger] tokens[i].kind == toks[i].kind by {
            assert(same_token(tokens[i], toks[i]));
        }
    }
    if lexes_blank(source) {
        let t0 = choose|toks: Seq<Token>| lexed(b, toks) && blank_from(toks, 0);
        assert(same_kinds(tokens, t0));
        assert forall|i: int| 0 <= i < tokens.len() - 1 implies (#[trigger] tokens[i]).kind == TokenKind::Newline by {
            assert(t0[i].kind == TokenKind::Newline);
        }
    }
    if lexes_module_only(source) {
        let t0 = choose|toks: Seq<Token>| lexed(b, toks) && module_only(toks, 0);
        assert(same_kinds(tokens, t0));
        assert(tokens[0].kind == t0[0].kind && tokens[1].kind == t0[1].kind);
        assert forall|i: int| 2 <= i < tokens.len() - 1 implies (#[trigger] tokens[i]).kind == TokenKind::Newline by {
            assert(t0[i].kind == TokenKind::Newline);
        }
    }
    assert forall|toks: Seq<Token>| #[trigger] lexed(b, toks) implies {
        &&& refuses_first(filtered(toks), 0) == refuses_first(filtered(tokens), 0)
        &&& filtered(toks)[skip_newlines_from(filtered(toks), 0)].kind == filtered(tokens)[skip_newlines_from(
            filtered(tokens),
            0,
        )].kind
    } by {
        assert(same_kinds(tokens, toks));
        lemma_filtered_kinds(tokens, toks, tokens.len() as int);
        lemma_filtered_kinds(toks, tokens, toks.len() as int);
        lemma_skip_kinds(filtered(tokens), filtered(toks), 0);
        let ft = filtered(tokens);
        let fs = filtered(toks);
        let q = skip_newlines_from(ft, 0);
        if ft.len() > 0 {
            parser::state::lemma_skip_twice(ft, 0);
            assert(ft[q].kind == fs[q].kind);
            assert(ft[0].kind == fs[0].kind);
        }
    }
}

/// The token stream of `source`, as the parser reads it, is a program of
/// operations with empty bodies (see `empty_ops_program`) in the module
/// `module`, named `names`.
pub open spec fn lexes_empty_ops(source: &str, module: Option<Seq<char>>, names: Seq<Seq<char>>) -> bool {
    exists|toks: Seq<Token>| lexed(source.spec_bytes(), toks) && empty_ops_program(filtered(toks), 0, module, names)
}

/// What `lexes_empty_ops` says of some stream of `source` holds of each.
proof fn lemma_lexed_empty_ops(source: &str, tokens: Seq<Token>, module: Option<Seq<char>>, names: Seq<Seq<char>>)
    requires
        lexed(source.spec_bytes(), tokens),
        lexes_empty_ops(source, module, names),
    ensures
        empty_ops_program(filtered(tokens), 0, module, names),
{
    let b = source.spec_bytes();
    let toks = choose|toks: Seq<Token>| lexed(b, toks) && empty_ops_program(filtered(toks), 0, module, names);
    law_lexing_unique(b, toks, tokens);
    assert forall|i: int| 0 <= i < toks.len() implies #[trigger] toks[i].kind == tokens[i].kind && toks[i].lexeme@
        == tokens[i].lexeme@ by {
        assert(same_token(toks[i], tokens[i]));
    }
    lemma_filtered_words(toks, tokens, toks.len() as int);
    lemma_lexed_stream_ok(b, toks);
    lemma_filtered_ok(toks);
    lemma_empty_program_words(filtered(toks), filtered(tokens), module, names);
}

/// A program of operations with empty bodies is quiet.
proof fn lemma_empty_ops_quiet(p: ast::Program, module: Option<Seq<char>>, names: Seq<Seq<char>>)
    requires
        holds_empty_ops(p, module, names),
    ensures
        quiet_program(p),
{
    assert forall|i: int| 0 <= i < p.items@.len() implies quiet_item(#[trigger] p.items@[i]) by {
        assert(crate::parser::decl::empty_op_item(p.items@[i], names[i]));
    }
}

/// Lex, parse and type-check `source`, producing no output. Text that does
/// not lex is rejected with the lexer's errors.
pub fn check_only(source: &str, filename: &str) -> (r: Result<(), Vec<Diagnostic>>)
    ensures
        rejected_by_lexer(source, filename, r),
        lexes_blank(source) || lexes_module_only(source) ==> r is Ok,
        forall|toks: Seq<Token>| #[trigger] lexed(source.spec_bytes(), toks) && refuses_first(filtered(toks), 0)
            ==> refused_first_item(toks, r),
        forall|m: Option<Seq<char>>, names: Seq<Seq<char>>| #[trigger] lexes_empty_ops(source, m, names) ==> r is Ok,
        match r {
            Ok(_) => exists|toks: Seq<Token>| lexed(source.spec_bytes(), toks),
            Err(errors) => failed_with_errors(errors@),
        },
{
    let tokens = match lexer::tokenize(source, filename) {
        Ok(tokens) => tokens,
        Err(errors) => return Err(errors),
    };
    proof {
        parser::lemma_lexed_stream_ok(source.spec_bytes(), tokens@);
        lemma_lexed_facts(source, tokens@);
    }
    let ghost toks = tokens@;
    let ghost simple = exists|m: Option<Seq<char>>, names: Seq<Seq<char>>| lexes_empty_ops(source, m, names);
    let ghost (wm, wnames) = choose|m: Option<Seq<char>>, names: Seq<Seq<char>>| lexes_empty_ops(source, m, names);
    proof {
        if simple {
            lemma_lexed_empty_ops(source, toks, wm, wnames);
        }
    }
    let ast = match parser::parse(tokens, source, filename) {
        Ok(ast) => ast,
        Err(errors) => return Err(errors),
    };
    proof {
        if simple {
            lemma_empty_ops_quiet(ast, wm, wnames);
        }
    }
    match checker::check(ast, filename) {
        Ok(_) => Ok(()),
        Err(errors) => Err(errors),
    }
}

/// Lex, parse, type-check and lower `source`, and give the intermediate
/// representation as text: the listing of the lowering of the program read.
pub fn emit_ir(source: &str, filename: &str) -> (r: Result<String, Vec<Diagnostic>>)
    ensures
        rejected_by_lexer(source, filename, r),
        lexes_blank(source) || lexes_module_only(source) ==> r is Ok,
        forall|toks: Seq<Token>| #[trigger] lexed(source.spec_bytes(), toks) && refuses_first(filtered(toks), 0)
            ==> refused_first_item(toks, r),
        match r {
            Ok(text) => {
                &&& exists|toks: Seq<Token>| lexed(source.spec_bytes(), toks)
                &&& exists|program: ast::Program, ir: IrProgram|
                    #![trigger show_program(ir), lowered_program(program, 0)]
                    program_v(ir) == lowered_program(program, 0) && text@ == show_program(ir)
            },
            Err(errors) => failed_with_errors(errors@),
        },
        forall|m: Option<Seq<char>>, names: Seq<Seq<char>>| #[trigger] lexes_empty_ops(source, m, names) ==> {
            &&& r matches Ok(text)
            &&& exists|program: ast::Program, ir: IrProgram|
                #![trigger show_program(ir), lowered_program(program, 0)]
                holds_empty_ops(program, m, names) && program_v(ir) == lowered_program(program, 0) && text@
                    == show_program(ir)
        },
{
    let tokens = match lexer::tokenize(source, filename) {
        Ok(tokens) => tokens,
        Err(errors) => return Err(errors),
    };
    proof {
        parser::lemma_lexed_stream_ok(source.spec_bytes(), tokens@);
        lemma_lexed_facts(source, tokens@);
    }
    let ghost toks = tokens@;
    let ghost simple = exists|m: Option<Seq<char>>, names: Seq<Seq<char>>| lexes_empty_ops(source, m, names);
    let ghost (wm, wnames) = choose|m: Option<Seq<char>>, names: Seq<Seq<char>>| lexes_empty_ops(source, m, names);
    proof {
        if simple {
            lemma_lexed_empty_ops(source, toks, wm, wnames);
        }
    }
    let ast = match parser::parse(tokens, source, filename) {
        Ok(ast) => ast,
        Err(errors) => return Err(errors),
    };
    proof {
        if simple {
            lemma_empty_ops_quiet(ast, wm, wnames);
        }
        assert forall|m: Option<Seq<char>>, names: Seq<Seq<char>>| #[trigger] lexes_empty_ops(source, m, names) implies holds_empty_ops(
            ast,
            m,
            names,
        ) by {
            lemma_lexed_empty_ops(source, toks, m, names);
        }
    }
    let ghost parsed = ast;
    let typed = match checker::check(ast, filename) {
        Ok(checked) => checked,
        Err(errors) => return Err(errors),
    };
    let program = ir::lower(&typed);
    let text = ir::display(&program);
    proof {
        assert(typed == parsed);
    }
    Ok(text)
}

} // verus!
