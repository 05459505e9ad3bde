//! The parser: a token stream to an abstract syntax tree. A parenthesized
//! form is a list, a bracketed one a vector, and a symbol directly followed
//! by a colon and a type name is an annotated symbol. A form left open at
//! the end of the text is closed there.
use crate::ast::{ast_children_view, Ast, AstModel, TypeAst};
use crate::error::{CompileError, ErrModel, FormDefect};
use crate::lexer::{spec_tokenize, tokenize, Token, TokenModel};
use crate::util::str_eq;
use vstd::prelude::*;

verus! {

/// The type a surface annotation name stands for.
pub open spec fn spec_type_name(s: Seq<char>) -> Option<TypeAst> {
    if s == "i32"@ {
        Some(TypeAst::I32)
    } else if s == "f32"@ {
        Some(TypeAst::F32)
    } else if s == "bool"@ {
        Some(TypeAst::Bool)
    } else if s == "unit"@ {
        Some(TypeAst::Unit)
    } else {
        None
    }
}

/// Reads the type a surface annotation name stands for.
fn parse_type_name(name: &str) -> (r: Option<TypeAst>)
    ensures
        r == spec_type_name(name@),
{
    if str_eq(name, "i32") {
        Some(TypeAst::I32)
    } else if str_eq(name, "f32") {
        Some(TypeAst::F32)
    } else if str_eq(name, "bool") {
        Some(TypeAst::Bool)
    } else if str_eq(name, "unit") {
        Some(TypeAst::Unit)
    } else {
        None
    }
}

/// The form starting at token `i` and the position after it, or the first
/// error met.
pub open spec fn spec_parse_form(toks: Seq<TokenModel>, i: int) -> Result<(AstModel, int), ErrModel>
    decreases toks.len() - i, 0int,
{
    if i < 0 || i >= toks.len() {
        Err(ErrModel::MalformedForm(FormDefect::UnexpectedToken))
    } else {
        match toks[i] {
            TokenModel::LParen => match spec_parse_items(toks, i + 1, true) {
                Err(e) => Err(e),
                Ok(p) => Ok((AstModel::List(p.0), p.1)),
            },
            TokenModel::LBracket => match spec_parse_items(toks, i + 1, false) {
                Err(e) => Err(e),
                Ok(p) => Ok((AstModel::Vector(p.0), p.1)),
            },
            TokenModel::Plus => Ok((AstModel::Add, i + 1)),
            TokenModel::Minus => Ok((AstModel::Sub, i + 1)),
            TokenModel::Asterisk => Ok((AstModel::Mul, i + 1)),
            TokenModel::Slash => Ok((AstModel::Div, i + 1)),
            TokenModel::NumberLiteral(text) => Ok((AstModel::NumberLiteral(text), i + 1)),
            TokenModel::Symbol(name) => {
                if i + 1 < toks.len() && toks[i + 1] is Colon {
                    if i + 2 >= toks.len() {
                        Err(ErrModel::MalformedForm(FormDefect::MissingAnnotation))
                    } else {
                        match toks[i + 2] {
                            TokenModel::Symbol(tname) => match spec_type_name(tname) {
                                Some(t) => Ok((AstModel::SymbolWithAnnotation(name, t), i + 3)),
                                None => Err(ErrModel::MalformedForm(FormDefect::UnknownTypeName)),
                            },
                            _ => Err(ErrModel::MalformedForm(FormDefect::MissingAnnotation)),
                        }
                    }
                } else {
                    Ok((AstModel::Symbol(name), i + 1))
                }
            },
            _ => Err(ErrModel::MalformedForm(FormDefect::UnexpectedToken)),
        }
    }
}

/// The forms from token `i` up to the matching closer — a parenthesis when
/// `paren` holds, a bracket otherwise — or up to the end of the text, which
/// closes the form too; and the position after the closer.
pub open spec fn spec_parse_items(toks: Seq<TokenModel>, i: int, paren: bool) -> Result<
    (Seq<AstModel>, int),
    ErrModel,
>
    decreases toks.len() - i, 1int,
{
    if i < 0 || i >= toks.len() {
        Ok((Seq::empty(), i))
    } else if (paren && toks[i] is RParen) || (!paren && toks[i] is RBracket) {
        Ok((Seq::empty(), i + 1))
    } else {
        match spec_parse_form(toks, i) {
            Err(e) => Err(e),
            Ok(p) => {
                // a parsed form always ends after its start and within the
                // stream; the clamp only keeps the recursion visibly
                // well-founded
                let next = if p.1 <= i {
                    i + 1
                } else if p.1 > toks.len() {
                    toks.len() as int
                } else {
                    p.1
                };
                match spec_parse_items(toks, next, paren) {
                    Err(e) => Err(e),
                    Ok(rest) => Ok((seq![p.0] + rest.0, rest.1)),
                }
            },
        }
    }
}

/// The top-level forms from token `i` to the end of the stream.
pub open spec fn spec_parse_toplevels(toks: Seq<TokenModel>, i: int) -> Result<
    Seq<AstModel>,
    ErrModel,
>
    decreases toks.len() - i, 1int,
{
    if i < 0 || i >= toks.len() {
        Ok(Seq::empty())
    } else {
        match spec_parse_form(toks, i) {
            Err(e) => Err(e),
            Ok(p) => {
                let next = if p.1 <= i {
                    i + 1
                } else if p.1 > toks.len() {
                    toks.len() as int
                } else {
                    p.1
                };
                match spec_parse_toplevels(toks, next) {
                    Err(e) => Err(e),
                    Ok(rest) => Ok(seq![p.0] + rest),
                }
            },
        }
    }
}

/// The module a whole source text parses to: its token stream read as
/// top-level forms.
pub open spec fn spec_parse_source(s: Seq<char>) -> Result<AstModel, ErrModel> {
    match spec_parse_toplevels(spec_tokenize(s), 0) {
        Err(e) => Err(e),
        Ok(tops) => Ok(AstModel::Module(tops)),
    }
}

/// Reads one form starting at token `i`; on success the form and the
/// position after it.
fn parse_form(tokens: &Vec<Token>, i: usize) -> (r: Result<(Ast, usize), CompileError>)
    requires
        i < tokens@.len(),
    ensures
        (match r {
            Ok(p) => {
                &&& i < p.1 <= tokens@.len()
                &&& spec_parse_form(tokens@.map_values(|t: Token| t@), i as int) == Ok::<
                    (AstModel, int),
                    ErrModel,
                >((p.0@, p.1 as int))
            },
            Err(e) => spec_parse_form(tokens@.map_values(|t: Token| t@), i as int) == Err::<
                (AstModel, int),
                ErrModel,
            >(e@),
        }),
    decreases tokens@.len() - i, 0int,
{
    let n = tokens.len();
    let ghost toks = tokens@.map_values(|t: Token| t@);
    proof {
        assert(toks[i as int] == tokens@[i as int]@);
    }
    match &tokens[i] {
        Token::LParen => {
            let (items, next) = match parse_items(tokens, i + 1, true) {
                Ok(p) => p,
                Err(e) => {
                    return Err(e);
                },
            };
            Ok((Ast::List(items), next))
        },
        Token::LBracket => {
            let (items, next) = match parse_items(tokens, i + 1, false) {
                Ok(p) => p,
                Err(e) => {
                    return Err(e);
                },
            };
            Ok((Ast::Vector(items), next))
        },
        Token::Plus => Ok((Ast::Add, i + 1)),
        Token::Minus => Ok((Ast::Sub, i + 1)),
        Token::Asterisk => Ok((Ast::Mul, i + 1)),
        Token::Slash => Ok((Ast::Div, i + 1)),
        Token::NumberLiteral(text) => Ok((Ast::NumberLiteral(text.clone()), i + 1)),
        Token::Symbol(name) => {
            let annotated = if n - i > 1 {
                proof {
                    assert(toks[i + 1] == tokens@[i + 1]@);
                }
                match &tokens[i + 1] {
                    Token::Colon => true,
                    _ => false,
                }
            } else {
                false
            };
            if annotated {
                if n - i < 3 {
                    return Err(
                        CompileError::MalformedForm { defect: FormDefect::MissingAnnotation },
                    );
                }
                proof {
                    assert(toks[i + 2] == tokens@[i + 2]@);
                }
                let t = match &tokens[i + 2] {
                    Token::Symbol(tname) => match parse_type_name(tname.as_str()) {
                        Some(t) => t,
                        None => {
                            return Err(
                                CompileError::MalformedForm {
                                    defect: FormDefect::UnknownTypeName,
                                },
                            );
                        },
                    },
                    _ => {
                        return Err(
                            CompileError::MalformedForm { defect: FormDefect::MissingAnnotation },
                        );
                    },
                };
                Ok((Ast::SymbolWithAnnotation(name.clone(), t), i + 3))
            } else {
                Ok((Ast::Symbol(name.clone()), i + 1))
            }
        },
        Token::RParen | Token::RBracket | Token::Colon => Err(
            CompileError::MalformedForm { defect: FormDefect::UnexpectedToken },
        ),
    }
}

/// Reads forms until the matching closer (a parenthesis when `paren` holds,
/// a bracket otherwise) or the end of the text, which closes the form too.
fn parse_items(tokens: &Vec<Token>, i: usize, paren: bool) -> (r: Result<
    (Vec<Ast>, usize),
    CompileError,
>)
    requires
        i <= tokens@.len(),
    ensures
        (match r {
            Ok(p) => {
                &&& i <= p.1 <= tokens@.len()
                &&& spec_parse_items(tokens@.map_values(|t: Token| t@), i as int, paren) == Ok::<
                    (Seq<AstModel>, int),
                    ErrModel,
                >((ast_children_view(p.0), p.1 as int))
            },
            Err(e) => spec_parse_items(tokens@.map_values(|t: Token| t@), i as int, paren)
                == Err::<(Seq<AstModel>, int), ErrModel>(e@),
        }),
    decreases tokens@.len() - i, 1int,
{
    let ghost toks = tokens@.map_values(|t: Token| t@);
    if i >= tokens.len() {
        let items: Vec<Ast> = Vec::new();
        proof {
            assert(ast_children_view(items) =~= Seq::<AstModel>::empty());
        }
        return Ok((items, i));
    }
    proof {
        assert(toks[i as int] == tokens@[i as int]@);
    }
    let closes = match &tokens[i] {
        Token::RParen => paren,
        Token::RBracket => !paren,
        _ => false,
    };
    if closes {
        let items: Vec<Ast> = Vec::new();
        proof {
            assert(ast_children_view(items) =~= Seq::<AstModel>::empty());
        }
        return Ok((items, i + 1));
    }
    let (item, next) = match parse_form(tokens, i) {
        Ok(p) => p,
        Err(e) => {
            return Err(e);
        },
    };
    let (rest, after) = match parse_items(tokens, next, paren) {
        Ok(p) => p,
        Err(e) => {
            return Err(e);
        },
    };
    let mut items: Vec<Ast> = Vec::new();
    let ghost item_model = item@;
    items.push(item);
    let mut rest2 = rest;
    let ghost rest_model = ast_children_view(rest2);
    items.append(&mut rest2);
    proof {
        assert(ast_children_view(items) =~= seq![item_model] + rest_model);
    }
    Ok((items, after))
}

/// Reads the top-level forms to the end of the stream.
fn parse_toplevels(tokens: &Vec<Token>, i: usize) -> (r: Result<Vec<Ast>, CompileError>)
    requires
        i <= tokens@.len(),
    ensures
        (match r {
            Ok(tops) => spec_parse_toplevels(tokens@.map_values(|t: Token| t@), i as int) == Ok::<
                Seq<AstModel>,
                ErrModel,
            >(ast_children_view(tops)),
            Err(e) => spec_parse_toplevels(tokens@.map_values(|t: Token| t@), i as int) == Err::<
                Seq<AstModel>,
                ErrModel,
            >(e@),
        }),
    decreases tokens@.len() - i, 1int,
{
    if i >= tokens.len() {
        let tops: Vec<Ast> = Vec::new();
        proof {
            assert(ast_children_view(tops) =~= Seq::<AstModel>::empty());
        }
        return Ok(tops);
    }
    let (item, next) = match parse_form(tokens, i) {
        Ok(p) => p,
        Err(e) => {
            return Err(e);
        },
    };
    let rest = match parse_toplevels(tokens, next) {
        Ok(p) => p,
        Err(e) => {
            return Err(e);
        },
    };
    let mut tops: Vec<Ast> = Vec::new();
    let ghost item_model = item@;
    tops.push(item);
    let mut rest2 = rest;
    let ghost rest_model = ast_children_view(rest2);
    tops.append(&mut rest2);
    proof {
        assert(ast_children_view(tops) =~= seq![item_model] + rest_model);
    }
    Ok(tops)
}

/// Parses a whole source unit into a module of top-level forms.
pub fn parse_source(source: &str) -> (r: Result<Ast, CompileError>)
    ensures
        (match r {
            Ok(ast) => spec_parse_source(source@) == Ok::<AstModel, ErrModel>(ast@) && ast@
                is Module,
            Err(e) => spec_parse_source(source@) == Err::<AstModel, ErrModel>(e@),
        }),
{
    let tokens = match tokenize(source) {
        Ok(t) => t,
        Err(e) => {
            return Err(e);
        },
    };
    match parse_toplevels(&tokens, 0) {
        Ok(tops) => Ok(Ast::Module(tops)),
        Err(e) => Err(e),
    }
}

} // verus!
