//! The grammar of modules, as functions on the token sequence: declarations, statements,
//! imports and exposing lists, each read from a position together with the position after it.
use vstd::prelude::*;

use crate::ast::{split_dots, Associativity, Exposing, ExposingDetail, Import, Module, Stmt, TypeAnnotation};
use crate::ast::views::{
    annotation_view, details_view, exposing_view, imports_view, module_view, stmt_view, stmts_view,
    AnnotationView, ExposingDetailView, ExposingView, ImportView, ModuleView, PatternView,
    StmtView, TypeView,
};
use crate::lexer::{SrcToken, Token};
use super::error::Error;
use super::extract::empty_named;
use super::grammar::{
    ahead, at, consume_at, expect_at, expression_at, lower_name_parts, operator_of, past, perr,
    skip_end, to_indented, to_line_start, unexpected_err, Indent, PErr, Skip,
};
use super::peeked_spec;
use super::type_grammar::type_at;

verus! {

/// The indentation that declarations, statements, imports and exposing lists are read from.
pub open spec fn top() -> Indent {
    (0, 0)
}

/// A lower-case name token read at `p`.
pub open spec fn lower_name_at(ts: Seq<SrcToken>, p: int) -> Result<Seq<char>, PErr> {
    match at(ts, p) {
        Some((Token::LowerName(n), _)) => Ok(n@),
        Some((t, range)) => Err(unexpected_err(t, range, empty_named("LowerName"@))),
        None => Err(PErr::UnexpectedEnd),
    }
}

/// A capitalised name token read at `p`.
pub open spec fn upper_name_at(ts: Seq<SrcToken>, p: int) -> Result<Seq<char>, PErr> {
    match at(ts, p) {
        Some((Token::UpperName(n), _)) => Ok(n@),
        Some((t, range)) => Err(unexpected_err(t, range, empty_named("UpperName"@))),
        None => Err(PErr::UnexpectedEnd),
    }
}

/// A module name read at `p`: the segments of a capitalised name or path.
pub open spec fn module_name_at(ts: Seq<SrcToken>, p: int) -> Result<Seq<Seq<char>>, PErr> {
    match at(ts, p) {
        Some((Token::UpperPath(n), _)) => Ok(split_dots(n@)),
        Some((Token::UpperName(n), _)) => Ok(split_dots(n@)),
        Some((t, range)) => Err(unexpected_err(t, range, empty_named("UpperName"@))),
        None => Err(PErr::UnexpectedEnd),
    }
}

// ---------------------------------------------------------------------------------------------
// Type declarations
// ---------------------------------------------------------------------------------------------
/// `type Name vars = Constructor | Constructor ...`, each part indented from `base`.
pub open spec fn type_decl_at(ts: Seq<SrcToken>, p: int, base: Indent) -> (
    Result<StmtView, PErr>,
    int,
) {
    let (r0, p1) = expect_at(ts, p, Token::Type);
    if r0 is Err {
        (Err(r0->Err_0), p1)
    } else {
        let (r1, p2) = to_indented(base, ts, p1);
        if r1 is Err {
            (Err(r1->Err_0), p2)
        } else {
            let r2 = upper_name_at(ts, p2);
            let p3 = past(ts, p2);
            if r2 is Err {
                (Err(r2->Err_0), p3)
            } else {
                let (r3, p4) = to_indented(base, ts, p3);
                if r3 is Err {
                    (Err(r3->Err_0), p4)
                } else {
                    decl_after_vars(ts, base, r2->Ok_0, type_vars_at(ts, p4, base, Seq::empty()))
                }
            }
        }
    }
}

/// The type variables of a declaration from `q`, after those read so far, up to its `=`.
pub open spec fn type_vars_at(ts: Seq<SrcToken>, q: int, base: Indent, vars: Seq<Seq<char>>) -> (
    Result<Seq<Seq<char>>, PErr>,
    int,
)
    decreases ts.len() - q,
{
    if at(ts, q) matches Some((Token::Equals, _)) {
        (Ok(vars), q)
    } else {
        let r0 = lower_name_at(ts, q);
        let q1 = past(ts, q);
        if r0 is Err {
            (Err(r0->Err_0), q1)
        } else {
            let (r1, q2) = to_indented(base, ts, q1);
            if r1 is Err {
                (Err(r1->Err_0), q2)
            } else if !ahead(ts, q, q2) {
                (Err(PErr::Unknown), q2)
            } else {
                type_vars_at(ts, q2, base, vars.push(r0->Ok_0))
            }
        }
    }
}

/// The rest of a declaration named `name` once its variables are read: `=` and the
/// constructors.
pub open spec fn decl_after_vars(
    ts: Seq<SrcToken>,
    base: Indent,
    name: Seq<char>,
    vars: (Result<Seq<Seq<char>>, PErr>, int),
) -> (Result<StmtView, PErr>, int) {
    if vars.0 is Err {
        (Err(vars.0->Err_0), vars.1)
    } else {
        let (r0, q1) = expect_at(ts, vars.1, Token::Equals);
        if r0 is Err {
            (Err(r0->Err_0), q1)
        } else {
            let (r1, q2) = to_indented(base, ts, q1);
            if r1 is Err {
                (Err(r1->Err_0), q2)
            } else {
                let (r2, q3) = type_at(ts, q2, base);
                if r2 is Err {
                    (Err(r2->Err_0), q3)
                } else {
                    let (r3, q4) = to_indented(base, ts, q3);
                    if r3 is Err {
                        (Err(r3->Err_0), q4)
                    } else {
                        decl_with(name, vars.0->Ok_0, constructors_at(ts, q4, base, seq![r2->Ok_0]))
                    }
                }
            }
        }
    }
}

/// The declaration of `name` with `vars` and the constructors read, or the error reading
/// them gave.
pub open spec fn decl_with(
    name: Seq<char>,
    vars: Seq<Seq<char>>,
    r: (Result<Seq<TypeView>, PErr>, int),
) -> (Result<StmtView, PErr>, int) {
    match r.0 {
        Err(e) => (Err(e), r.1),
        Ok(constructors) => (Ok(StmtView::Type { name, args: vars, constructors }), r.1),
    }
}

/// The `| Constructor` parts from `q`, after the constructors read so far.
pub open spec fn constructors_at(
    ts: Seq<SrcToken>,
    q: int,
    base: Indent,
    acc: Seq<TypeView>,
) -> (Result<Seq<TypeView>, PErr>, int)
    decreases ts.len() - q,
{
    if at(ts, q) matches Some((Token::Bar, _)) {
        let (r1, q2) = to_indented(base, ts, q + 1);
        if r1 is Err {
            (Err(r1->Err_0), q2)
        } else {
            let (r2, q3) = type_at(ts, q2, base);
            if r2 is Err {
                (Err(r2->Err_0), q3)
            } else {
                let (r3, q4) = to_indented(base, ts, q3);
                if r3 is Err {
                    (Err(r3->Err_0), q4)
                } else if !ahead(ts, q, q4) {
                    (Err(PErr::Unknown), q4)
                } else {
                    constructors_at(ts, q4, base, acc.push(r2->Ok_0))
                }
            }
        }
    } else {
        (Ok(acc), q)
    }
}

// ---------------------------------------------------------------------------------------------
// Infix declarations
// ---------------------------------------------------------------------------------------------
/// The associativity named by the token at `p`.
pub open spec fn associativity_at(ts: Seq<SrcToken>, p: int) -> Result<Associativity, PErr> {
    match at(ts, p) {
        Some((Token::LowerName(n), range)) => if n@ == "left"@ {
            Ok(Associativity::Left)
        } else if n@ == "right"@ {
            Ok(Associativity::Right)
        } else if n@ == "non"@ {
            Ok(Associativity::Non)
        } else {
            Err(
                unexpected_err(
                    Token::LowerName(n),
                    range,
                    "LowerName with 'left', 'right', or 'non"@,
                ),
            )
        },
        Some((t, range)) => Err(unexpected_err(t, range, "LowerName with 'left', 'right', or 'non"@)),
        None => Err(PErr::UnexpectedEnd),
    }
}

/// The precedence given by the integer literal at `p`; a negative one is an error.
pub open spec fn precedence_at(ts: Seq<SrcToken>, p: int) -> Result<usize, PErr> {
    match at(ts, p) {
        Some((Token::LiteralInteger(v), _)) => if v >= 0 {
            Ok(v as usize)
        } else {
            Err(PErr::NegativePrecendence)
        },
        Some((t, range)) => Err(unexpected_err(t, range, empty_named("UpperName"@))),
        None => Err(PErr::UnexpectedEnd),
    }
}

/// `infix assoc prec (op) = name`, with spaces and comments between the parts.
pub open spec fn infix_at(ts: Seq<SrcToken>, p: int) -> (Result<StmtView, PErr>, int) {
    let (r0, p1) = expect_at(ts, p, Token::Infix);
    let p2 = skip_end(ts, p1, Skip::Spaces);
    let assoc = associativity_at(ts, p2);
    let p3 = past(ts, p2);
    let p4 = skip_end(ts, p3, Skip::Spaces);
    let prec = precedence_at(ts, p4);
    let p5 = past(ts, p4);
    let p6 = skip_end(ts, p5, Skip::Spaces);
    let (r1, p7) = expect_at(ts, p6, Token::OpenParen);
    let op = operator_of(at(ts, p7));
    let p8 = past(ts, p7);
    let (r2, p9) = expect_at(ts, p8, Token::CloseParen);
    let p10 = skip_end(ts, p9, Skip::Spaces);
    let (r3, p11) = expect_at(ts, p10, Token::Equals);
    let p12 = skip_end(ts, p11, Skip::Spaces);
    let f = lower_name_at(ts, p12);
    let p13 = past(ts, p12);
    if r0 is Err {
        (Err(r0->Err_0), p1)
    } else if assoc is Err {
        (Err(assoc->Err_0), p3)
    } else if prec is Err {
        (Err(prec->Err_0), p5)
    } else if r1 is Err {
        (Err(r1->Err_0), p7)
    } else if op is Err {
        (Err(op->Err_0), p8)
    } else if r2 is Err {
        (Err(r2->Err_0), p9)
    } else if r3 is Err {
        (Err(r3->Err_0), p11)
    } else if f is Err {
        (Err(f->Err_0), p13)
    } else {
        (
            Ok(
                StmtView::Infix {
                    operator_name: op->Ok_0,
                    associativity: assoc->Ok_0,
                    precedence: prec->Ok_0,
                    function_name: lower_name_parts(f->Ok_0),
                },
            ),
            p13,
        )
    }
}

// ---------------------------------------------------------------------------------------------
// Functions and bindings
// ---------------------------------------------------------------------------------------------
/// `: type` after a name, with spaces and comments around the type.
pub open spec fn annotation_at(ts: Seq<SrcToken>, p: int, name: Seq<char>) -> (
    Result<AnnotationView, PErr>,
    int,
) {
    let (r0, p1) = expect_at(ts, p, Token::Colon);
    if r0 is Err {
        (Err(r0->Err_0), p1)
    } else {
        let (r1, p2) = type_at(ts, skip_end(ts, p1, Skip::Spaces), top());
        if r1 is Err {
            (Err(r1->Err_0), p2)
        } else {
            (Ok((name, r1->Ok_0)), skip_end(ts, p2, Skip::Spaces))
        }
    }
}

/// The argument names of a function from `q`, after those read so far, each followed by
/// whitespace to a token indented from `base`.
pub open spec fn fn_args_at(ts: Seq<SrcToken>, q: int, base: Indent, args: Seq<PatternView>) -> (
    Result<Seq<PatternView>, PErr>,
    int,
)
    decreases ts.len() - q,
{
    match at(ts, q) {
        Some((Token::LowerName(n), _)) => {
            let (r1, q2) = to_indented(base, ts, q + 1);
            if r1 is Err {
                (Err(r1->Err_0), q2)
            } else if !ahead(ts, q, q2) {
                (Err(PErr::Unknown), q2)
            } else {
                fn_args_at(ts, q2, base, args.push(PatternView::Name(n@)))
            }
        },
        _ => (Ok(args), q),
    }
}

/// `args = expression` after the name `name`: a binding without arguments, a function with.
pub open spec fn function_or_binding_at(
    ts: Seq<SrcToken>,
    p: int,
    name: Seq<char>,
    annotation: Option<AnnotationView>,
    base: Indent,
) -> (Result<StmtView, PErr>, int) {
    let (r0, q1) = fn_args_at(ts, p, base, Seq::empty());
    if r0 is Err {
        (Err(r0->Err_0), q1)
    } else {
        let args = r0->Ok_0;
        let (r1, q2) = expect_at(ts, q1, Token::Equals);
        if r1 is Err {
            (Err(r1->Err_0), q2)
        } else {
            let (r2, q3) = to_indented(base, ts, q2);
            if r2 is Err {
                (Err(r2->Err_0), q3)
            } else {
                let (r3, q4) = expression_at(ts, q3, base);
                if r3 is Err {
                    (Err(r3->Err_0), q4)
                } else if args.len() == 0 {
                    (
                        Ok(
                            StmtView::Binding {
                                type_annotation: annotation,
                                name,
                                expr: r3->Ok_0.0,
                            },
                        ),
                        q4,
                    )
                } else {
                    (
                        Ok(
                            StmtView::Function {
                                type_annotation: annotation,
                                name,
                                args,
                                expr: r3->Ok_0.0,
                            },
                        ),
                        q4,
                    )
                }
            }
        }
    }
}

/// A statement that starts with the name `name` at `p`: a function or binding, with a type
/// annotation first when a `:` follows the name.
pub open spec fn named_statement_at(ts: Seq<SrcToken>, p: int, name: Seq<char>) -> (
    Result<StmtView, PErr>,
    int,
) {
    let q1 = skip_end(ts, p + 1, Skip::Spaces);
    if at(ts, q1) matches Some((Token::Colon, _)) {
        let (r0, q2) = annotation_at(ts, q1, name);
        if r0 is Err {
            (Err(r0->Err_0), q2)
        } else {
            let (r1, q3) = to_line_start(top(), ts, q2);
            if r1 is Err {
                (Err(r1->Err_0), q3)
            } else {
                let r2 = lower_name_at(ts, q3);
                let q4 = past(ts, q3);
                if r2 is Err {
                    (Err(r2->Err_0), q4)
                } else {
                    let (r3, q5) = to_indented(top(), ts, q4);
                    if r3 is Err {
                        (Err(r3->Err_0), q5)
                    } else if r2->Ok_0 != name {
                        (Err(PErr::NameMismatch), q5)
                    } else {
                        function_or_binding_at(ts, q5, name, Some(r0->Ok_0), top())
                    }
                }
            }
        }
    } else {
        function_or_binding_at(ts, q1, name, None, top())
    }
}

/// A statement at `p`: a function or binding, a type declaration or an infix declaration.
pub open spec fn statement_at(ts: Seq<SrcToken>, p: int) -> (Result<StmtView, PErr>, int) {
    match at(ts, p) {
        Some((Token::LowerName(n), _)) => named_statement_at(ts, p, n@),
        Some((Token::Type, _)) => type_decl_at(ts, p, top()),
        Some((Token::Infix, _)) => infix_at(ts, p),
        Some((t, range)) => (Err(unexpected_err(t, range, "Expression token"@)), p),
        None => (Err(PErr::UnexpectedEnd), p),
    }
}

/// The statements from `q` to the end, after those read so far; each is followed by layout
/// up to a token at the start of its line.
pub open spec fn statements_at(ts: Seq<SrcToken>, q: int, acc: Seq<StmtView>) -> (
    Result<Seq<StmtView>, PErr>,
    int,
)
    decreases ts.len() - q,
{
    if at(ts, q) is None {
        (Ok(acc), q)
    } else {
        let (r0, q1) = statement_at(ts, q);
        if r0 is Err {
            (Err(r0->Err_0), q1)
        } else {
            let (r1, q2) = to_line_start(top(), ts, q1);
            if r1 is Err {
                (Err(r1->Err_0), q2)
            } else if !ahead(ts, q, q2) {
                (Err(PErr::Unknown), q2)
            } else {
                statements_at(ts, q2, acc.push(r0->Ok_0))
            }
        }
    }
}

// ---------------------------------------------------------------------------------------------
// Exposing lists and imports
// ---------------------------------------------------------------------------------------------
/// One item of an exposing list at `q`: `(op)` or a name.
pub open spec fn detail_at(ts: Seq<SrcToken>, q: int) -> (Result<ExposingDetailView, PErr>, int) {
    match at(ts, q) {
        Some((Token::OpenParen, _)) => {
            let op = operator_of(at(ts, q + 1));
            let q2 = past(ts, q + 1);
            if op is Err {
                (Err(op->Err_0), q2)
            } else {
                let (r1, q3) = expect_at(ts, q2, Token::CloseParen);
                if r1 is Err {
                    (Err(r1->Err_0), q3)
                } else {
                    (Ok(ExposingDetailView::Operator(op->Ok_0)), q3)
                }
            }
        },
        Some((Token::LowerName(n), _)) => (Ok(ExposingDetailView::Name(n@)), q + 1),
        other => (Err(PErr::UnknownExposing(peeked_spec(other))), q),
    }
}

/// The items of an exposing list from `q`, after those read so far, separated by commas, up
/// to its `)`.
pub open spec fn details_at(ts: Seq<SrcToken>, q: int, acc: Seq<ExposingDetailView>) -> (
    Result<Seq<ExposingDetailView>, PErr>,
    int,
)
    decreases ts.len() - q,
{
    let (r0, q1) = detail_at(ts, q);
    if r0 is Err {
        (Err(r0->Err_0), q1)
    } else {
        let acc2 = acc.push(r0->Ok_0);
        if at(ts, q1) matches Some((Token::CloseParen, _)) {
            (Ok(acc2), q1)
        } else {
            let (r1, q2) = expect_at(ts, q1, Token::Comma);
            if r1 is Err {
                (Err(r1->Err_0), q2)
            } else {
                let (r2, q3) = to_indented(top(), ts, q2);
                if r2 is Err {
                    (Err(r2->Err_0), q3)
                } else if !ahead(ts, q, q3) {
                    (Err(PErr::Unknown), q3)
                } else {
                    details_at(ts, q3, acc2)
                }
            }
        }
    }
}

/// `exposing (..)` or `exposing (items)`.
pub open spec fn exposing_at(ts: Seq<SrcToken>, p: int) -> (Result<ExposingView, PErr>, int) {
    let (r0, p1) = expect_at(ts, p, Token::Exposing);
    if r0 is Err {
        (Err(r0->Err_0), p1)
    } else {
        let (r1, p2) = to_indented(top(), ts, p1);
        if r1 is Err {
            (Err(r1->Err_0), p2)
        } else {
            let (r2, p3) = expect_at(ts, p2, Token::OpenParen);
            if r2 is Err {
                (Err(r2->Err_0), p3)
            } else {
                let (r3, p4) = to_indented(top(), ts, p3);
                if r3 is Err {
                    (Err(r3->Err_0), p4)
                } else {
                    let (r4, p5): (Result<ExposingView, PErr>, int) = match at(ts, p4) {
                        Some((Token::Ellipsis, _)) => (Ok(ExposingView::All), p4 + 1),
                        Some(_) => {
                            let (d, q) = details_at(ts, p4, Seq::empty());
                            if d is Err {
                                (Err(d->Err_0), q)
                            } else {
                                (Ok(ExposingView::List(d->Ok_0)), q)
                            }
                        },
                        None => (Err(PErr::UnknownExposing(peeked_spec(None))), p4),
                    };
                    if r4 is Err {
                        (Err(r4->Err_0), p5)
                    } else {
                        let (r5, p6) = expect_at(ts, p5, Token::CloseParen);
                        if r5 is Err {
                            (Err(r5->Err_0), p6)
                        } else {
                            (Ok(r4->Ok_0), p6)
                        }
                    }
                }
            }
        }
    }
}

/// `import Name` with what it exposes: an exposing list on the same line as the name, or
/// nothing when the next token starts a line (or no token is left).
pub open spec fn import_at(ts: Seq<SrcToken>, p: int) -> (Result<ImportView, PErr>, int) {
    let (r0, p1) = expect_at(ts, p, Token::Import);
    if r0 is Err {
        (Err(r0->Err_0), p1)
    } else {
        let (r1, p2) = to_indented(top(), ts, p1);
        if r1 is Err {
            (Err(r1->Err_0), p2)
        } else {
            let name = module_name_at(ts, p2);
            let p3 = past(ts, p2);
            if name is Err {
                (Err(name->Err_0), p3)
            } else {
                let (ind, p4) = consume_at(top(), ts, p3);
                match at(ts, p4) {
                    Some((Token::Exposing, range)) => if ind.1 == 0 {
                        (Err(PErr::Indent { range }), p4)
                    } else {
                        let (r2, p5) = exposing_at(ts, p4);
                        if r2 is Err {
                            (Err(r2->Err_0), p5)
                        } else {
                            let (r3, p6) = to_line_start(top(), ts, p5);
                            if r3 is Err {
                                (Err(r3->Err_0), p6)
                            } else {
                                (Ok((name->Ok_0, Some(r2->Ok_0))), p6)
                            }
                        }
                    },
                    Some((_, range)) => if ind.1 != 0 {
                        (Err(PErr::TokenNotAtLineStart(range)), p4)
                    } else {
                        (Ok((name->Ok_0, None)), p4)
                    },
                    None => (Ok((name->Ok_0, None)), p4),
                }
            }
        }
    }
}

/// The imports from `q`, after those read so far, while the token there is `import`.
pub open spec fn imports_at(ts: Seq<SrcToken>, q: int, acc: Seq<ImportView>) -> (
    Result<Seq<ImportView>, PErr>,
    int,
)
    decreases ts.len() - q,
{
    if at(ts, q) matches Some((Token::Import, _)) {
        let (r0, q1) = import_at(ts, q);
        if r0 is Err {
            (Err(r0->Err_0), q1)
        } else if !ahead(ts, q, q1) {
            (Err(PErr::Unknown), q1)
        } else {
            imports_at(ts, q1, acc.push(r0->Ok_0))
        }
    } else {
        (Ok(acc), q)
    }
}

// ---------------------------------------------------------------------------------------------
// Modules
// ---------------------------------------------------------------------------------------------
/// `module Name exposing (...)`, the imports, then the statements to the end of the tokens.
pub open spec fn module_at(ts: Seq<SrcToken>, p: int) -> (Result<ModuleView, PErr>, int) {
    let (r0, p1) = expect_at(ts, p, Token::Module);
    if r0 is Err {
        (Err(r0->Err_0), p1)
    } else {
        let (r1, p2) = to_indented(top(), ts, p1);
        if r1 is Err {
            (Err(r1->Err_0), p2)
        } else {
            let name = module_name_at(ts, p2);
            let p3 = past(ts, p2);
            if name is Err {
                (Err(name->Err_0), p3)
            } else {
                let (r2, p4) = to_indented(top(), ts, p3);
                if r2 is Err {
                    (Err(r2->Err_0), p4)
                } else {
                    let (r3, p5) = exposing_at(ts, p4);
                    if r3 is Err {
                        (Err(r3->Err_0), p5)
                    } else {
                        let (r4, p6) = to_line_start(top(), ts, p5);
                        if r4 is Err {
                            (Err(r4->Err_0), p6)
                        } else {
                            let (r5, p7) = imports_at(ts, p6, Seq::empty());
                            if r5 is Err {
                                (Err(r5->Err_0), p7)
                            } else {
                                let (r6, p8) = to_line_start(top(), ts, p7);
                                if r6 is Err {
                                    (Err(r6->Err_0), p8)
                                } else {
                                    let (r7, p9) = statements_at(ts, p8, Seq::empty());
                                    if r7 is Err {
                                        (Err(r7->Err_0), p9)
                                    } else {
                                        (
                                            Ok((name->Ok_0, r3->Ok_0, r5->Ok_0, r7->Ok_0)),
                                            p9,
                                        )
                                    }
                                }
                            }
                        }
                    }
                }
            }
        }
    }
}

/// A statement outcome as mathematical values.
pub open spec fn stmt_result(r: Result<Stmt, Error>) -> Result<StmtView, PErr> {
    match r {
        Ok(s) => Ok(stmt_view(s)),
        Err(e) => Err(perr(e)),
    }
}

/// A statements outcome as mathematical values.
pub open spec fn stmts_result(r: Result<Vec<std::rc::Rc<Stmt>>, Error>) -> Result<Seq<StmtView>, PErr> {
    match r {
        Ok(v) => Ok(stmts_view(v@)),
        Err(e) => Err(perr(e)),
    }
}

/// A type annotation outcome as mathematical values.
pub open spec fn annotation_result(r: Result<TypeAnnotation, Error>) -> Result<AnnotationView, PErr> {
    match r {
        Ok(a) => Ok(annotation_view(Some(a))->0),
        Err(e) => Err(perr(e)),
    }
}

/// An exposing-list outcome as mathematical values.
pub open spec fn exposing_result(r: Result<Exposing, Error>) -> Result<ExposingView, PErr> {
    match r {
        Ok(e) => Ok(exposing_view(e)),
        Err(e) => Err(perr(e)),
    }
}

/// An outcome of reading exposing items as mathematical values.
pub open spec fn details_result(r: Result<Vec<ExposingDetail>, Error>) -> Result<Seq<ExposingDetailView>, PErr> {
    match r {
        Ok(v) => Ok(details_view(v@)),
        Err(e) => Err(perr(e)),
    }
}

/// An imports outcome as mathematical values.
pub open spec fn imports_result(r: Result<Vec<Import>, Error>) -> Result<Seq<ImportView>, PErr> {
    match r {
        Ok(v) => Ok(imports_view(v@)),
        Err(e) => Err(perr(e)),
    }
}

/// A parse outcome as mathematical values.
pub open spec fn module_result(r: Result<Module, Error>) -> Result<ModuleView, PErr> {
    match r {
        Ok(m) => Ok(module_view(m)),
        Err(e) => Err(perr(e)),
    }
}

} // verus!
