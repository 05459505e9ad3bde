//! The lexer: source text to a token stream. Blanks, tabs, line breaks and
//! commas separate tokens; parentheses, brackets and the colon are tokens of
//! their own and also end a symbol; an operator character opens its own
//! token only at the start of one.
use crate::error::CompileError;
use crate::literal::spec_is_digit;
use vstd::prelude::*;

verus! {

/// One lexical token.
#[derive(Debug, Clone, PartialEq)]
pub enum Token {
    Symbol(String),
    NumberLiteral(String),
    Plus,
    Minus,
    Asterisk,
    Slash,
    LParen,
    RParen,
    LBracket,
    RBracket,
    Colon,
}

/// The model of a token, its text as a character sequence.
pub enum TokenModel {
    Symbol(Seq<char>),
    NumberLiteral(Seq<char>),
    Plus,
    Minus,
    Asterisk,
    Slash,
    LParen,
    RParen,
    LBracket,
    RBracket,
    Colon,
}

impl View for Token {
    type V = TokenModel;

    open spec fn view(&self) -> TokenModel {
        match self {
            Token::Symbol(s) => TokenModel::Symbol(s@),
            Token::NumberLiteral(s) => TokenModel::NumberLiteral(s@),
            Token::Plus => TokenModel::Plus,
            Token::Minus => TokenModel::Minus,
            Token::Asterisk => TokenModel::Asterisk,
            Token::Slash => TokenModel::Slash,
            Token::LParen => TokenModel::LParen,
            Token::RParen => TokenModel::RParen,
            Token::LBracket => TokenModel::LBracket,
            Token::RBracket => TokenModel::RBracket,
            Token::Colon => TokenModel::Colon,
        }
    }
}

/// A character that only separates tokens.
pub open spec fn spec_is_skip(c: char) -> bool {
    c == ' ' || c == '\t' || c == '\n' || c == '\r' || c == ','
}

/// A character that is a token of its own and ends a symbol.
pub open spec fn spec_is_special(c: char) -> bool {
    c == '(' || c == ')' || c == '[' || c == ']' || c == ':'
}

/// An operator character, a token of its own at the start of one.
pub open spec fn spec_is_operator(c: char) -> bool {
    c == '+' || c == '-' || c == '*' || c == '/'
}

/// The single-character token `c` stands for.
pub open spec fn spec_char_token(c: char) -> TokenModel {
    if c == '(' {
        TokenModel::LParen
    } else if c == ')' {
        TokenModel::RParen
    } else if c == '[' {
        TokenModel::LBracket
    } else if c == ']' {
        TokenModel::RBracket
    } else if c == ':' {
        TokenModel::Colon
    } else if c == '+' {
        TokenModel::Plus
    } else if c == '-' {
        TokenModel::Minus
    } else if c == '*' {
        TokenModel::Asterisk
    } else {
        TokenModel::Slash
    }
}

/// A character a number token may span: a digit or a dot.
pub open spec fn spec_is_number_char(c: char) -> bool {
    spec_is_digit(c) || c == '.'
}

/// A character a symbol token may span: anything that neither separates
/// tokens nor is a token of its own.
pub open spec fn spec_is_symbol_char(c: char) -> bool {
    !spec_is_skip(c) && !spec_is_special(c)
}

/// How many leading characters of `s` satisfy `f`.
pub open spec fn spec_scan(s: Seq<char>, f: spec_fn(char) -> bool) -> nat
    decreases s.len(),
{
    if s.len() == 0 || !f(s[0]) {
        0
    } else {
        (1 + spec_scan(s.drop_first(), f)) as nat
    }
}

/// A scan never runs past the end of the text.
pub proof fn lemma_scan_le_len(s: Seq<char>, f: spec_fn(char) -> bool)
    ensures
        spec_scan(s, f) <= s.len(),
    decreases s.len(),
{
    if s.len() > 0 && f(s[0]) {
        lemma_scan_le_len(s.drop_first(), f);
    }
}

/// A scan spans exactly the characters up to the first that fails `f`.
pub proof fn lemma_scan_exact(s: Seq<char>, f: spec_fn(char) -> bool, l: int)
    requires
        0 <= l <= s.len(),
        forall|k: int| 0 <= k < l ==> f(#[trigger] s[k]),
        l == s.len() || !f(s[l]),
    ensures
        spec_scan(s, f) == l,
    decreases l,
{
    if l == 0 {
    } else {
        assert(f(s[0]));
        lemma_scan_exact(s.drop_first(), f, l - 1);
    }
}

/// The token stream of `s`: separators dropped; single-character tokens for
/// parentheses, brackets, colon and leading operator characters; a maximal
/// run of digits and dots after a leading digit as one number literal; any
/// other maximal run of symbol characters as one symbol.
pub open spec fn spec_tokenize(s: Seq<char>) -> Seq<TokenModel>
    decreases s.len(),
    via spec_tokenize_decreases
{
    if s.len() == 0 {
        Seq::empty()
    } else {
        let c = s[0];
        if spec_is_skip(c) {
            spec_tokenize(s.drop_first())
        } else if spec_is_special(c) || spec_is_operator(c) {
            seq![spec_char_token(c)] + spec_tokenize(s.drop_first())
        } else if spec_is_digit(c) {
            let l = spec_scan(s, |ch: char| spec_is_number_char(ch));
            seq![TokenModel::NumberLiteral(s.take(l as int))] + spec_tokenize(s.skip(l as int))
        } else {
            let l = spec_scan(s, |ch: char| spec_is_symbol_char(ch));
            seq![TokenModel::Symbol(s.take(l as int))] + spec_tokenize(s.skip(l as int))
        }
    }
}

#[via_fn]
proof fn spec_tokenize_decreases(s: Seq<char>) {
    if s.len() > 0 {
        let c = s[0];
        if !spec_is_skip(c) && !(spec_is_special(c) || spec_is_operator(c)) {
            if spec_is_digit(c) {
                lemma_scan_le_len(s, |ch: char| spec_is_number_char(ch));
                assert((|ch: char| spec_is_number_char(ch))(s[0]));
            } else {
                lemma_scan_le_len(s, |ch: char| spec_is_symbol_char(ch));
                assert((|ch: char| spec_is_symbol_char(ch))(s[0]));
            }
        }
    }
}

/// Scans the number token starting at `i`: its end position.
fn scan_number_end(s: &str, i: usize, n: usize) -> (j: usize)
    requires
        n == s@.len(),
        i < n,
        spec_is_digit(s@[i as int]),
    ensures
        i <= j <= n,
        spec_scan(s@.skip(i as int), |ch: char| spec_is_number_char(ch)) == j - i,
{
    let mut j: usize = i;
    while j < n
        invariant
            i <= j <= n,
            n == s@.len(),
            forall|k: int| i <= k < j ==> spec_is_number_char(#[trigger] s@[k]),
        decreases n - j,
    {
        let c = s.get_char(j);
        if !((c >= '0' && c <= '9') || c == '.') {
            proof {
                let rest = s@.skip(i as int);
                assert forall|k: int| 0 <= k < j - i implies (|ch: char| spec_is_number_char(ch))(
                    #[trigger] rest[k],
                ) by {
                    assert(rest[k] == s@[i + k]);
                }
                assert(rest[j - i] == c);
                lemma_scan_exact(rest, |ch: char| spec_is_number_char(ch), j - i);
            }
            return j;
        }
        j = j + 1;
    }
    proof {
        let rest = s@.skip(i as int);
        assert forall|k: int| 0 <= k < j - i implies (|ch: char| spec_is_number_char(ch))(
            #[trigger] rest[k],
        ) by {
            assert(rest[k] == s@[i + k]);
        }
        lemma_scan_exact(rest, |ch: char| spec_is_number_char(ch), j - i);
    }
    j
}

/// Scans the symbol token starting at `i`: its end position.
fn scan_symbol_end(s: &str, i: usize, n: usize) -> (j: usize)
    requires
        n == s@.len(),
        i < n,
        spec_is_symbol_char(s@[i as int]),
    ensures
        i <= j <= n,
        spec_scan(s@.skip(i as int), |ch: char| spec_is_symbol_char(ch)) == j - i,
{
    let mut j: usize = i;
    while j < n
        invariant
            i <= j <= n,
            n == s@.len(),
            forall|k: int| i <= k < j ==> spec_is_symbol_char(#[trigger] s@[k]),
        decreases n - j,
    {
        let c = s.get_char(j);
        let stop = c == ' ' || c == '\t' || c == '\n' || c == '\r' || c == ',' || c == '(' || c
            == ')' || c == '[' || c == ']' || c == ':';
        if stop {
            proof {
                let rest = s@.skip(i as int);
                assert forall|k: int| 0 <= k < j - i implies (|ch: char| spec_is_symbol_char(ch))(
                    #[trigger] rest[k],
                ) by {
                    assert(rest[k] == s@[i + k]);
                }
                assert(rest[j - i] == c);
                lemma_scan_exact(rest, |ch: char| spec_is_symbol_char(ch), j - i);
            }
            return j;
        }
        j = j + 1;
    }
    proof {
        let rest = s@.skip(i as int);
        assert forall|k: int| 0 <= k < j - i implies (|ch: char| spec_is_symbol_char(ch))(
            #[trigger] rest[k],
        ) by {
            assert(rest[k] == s@[i + k]);
        }
        lemma_scan_exact(rest, |ch: char| spec_is_symbol_char(ch), j - i);
    }
    j
}

/// Turns source text into its token stream. Lexing is total: every text has
/// one.
pub fn tokenize(source: &str) -> (r: Result<Vec<Token>, CompileError>)
    ensures
        (match r {
            Ok(tokens) => tokens@.map_values(|t: Token| t@) == spec_tokenize(source@),
            Err(_) => false,
        }),
{
    let n = source.unicode_len();
    let mut out: Vec<Token> = Vec::new();
    let mut i: usize = 0;
    proof {
        assert(source@.skip(0) =~= source@);
        assert(out@.map_values(|t: Token| t@) =~= Seq::<TokenModel>::empty());
    }
    while i < n
        invariant
            i <= n,
            n == source@.len(),
            out@.map_values(|t: Token| t@) + spec_tokenize(source@.skip(i as int))
                == spec_tokenize(source@),
        decreases n - i,
    {
        let ghost rest = source@.skip(i as int);
        let ghost out0 = out@.map_values(|t: Token| t@);
        proof {
            assert(rest[0] == source@[i as int]);
            assert(rest.drop_first() =~= source@.skip(i + 1));
        }
        let c = source.get_char(i);
        if c == ' ' || c == '\t' || c == '\n' || c == '\r' || c == ',' {
            i = i + 1;
        } else if c == '(' || c == ')' || c == '[' || c == ']' || c == ':' || c == '+' || c == '-'
            || c == '*' || c == '/' {
            let tok = if c == '(' {
                Token::LParen
            } else if c == ')' {
                Token::RParen
            } else if c == '[' {
                Token::LBracket
            } else if c == ']' {
                Token::RBracket
            } else if c == ':' {
                Token::Colon
            } else if c == '+' {
                Token::Plus
            } else if c == '-' {
                Token::Minus
            } else if c == '*' {
                Token::Asterisk
            } else {
                Token::Slash
            };
            proof {
                assert(tok@ == spec_char_token(c));
            }
            out.push(tok);
            i = i + 1;
            proof {
                assert(out@.map_values(|t: Token| t@) =~= out0.push(tok@));
                assert(out0.push(tok@) =~= out0 + seq![spec_char_token(c)]);
            }
        } else if c >= '0' && c <= '9' {
            let j = scan_number_end(source, i, n);
            let ghost l = spec_scan(rest, |ch: char| spec_is_number_char(ch));
            proof {
                lemma_scan_le_len(rest, |ch: char| spec_is_number_char(ch));
                assert(l >= 1) by {
                    assert((|ch: char| spec_is_number_char(ch))(rest[0]));
                }
                assert(rest.take(l as int) =~= source@.subrange(i as int, j as int));
                assert(rest.skip(l as int) =~= source@.skip(j as int));
            }
            let text = source.substring_char(i, j).to_owned();
            let tok = Token::NumberLiteral(text);
            out.push(tok);
            proof {
                assert(out@.map_values(|t: Token| t@) =~= out0.push(tok@));
                assert(out0.push(tok@) =~= out0 + seq![
                    TokenModel::NumberLiteral(rest.take(l as int)),
                ]);
            }
            i = j;
        } else {
            let j = scan_symbol_end(source, i, n);
            let ghost l = spec_scan(rest, |ch: char| spec_is_symbol_char(ch));
            proof {
                lemma_scan_le_len(rest, |ch: char| spec_is_symbol_char(ch));
                assert(l >= 1) by {
                    assert((|ch: char| spec_is_symbol_char(ch))(rest[0]));
                }
                assert(rest.take(l as int) =~= source@.subrange(i as int, j as int));
                assert(rest.skip(l as int) =~= source@.skip(j as int));
            }
            let text = source.substring_char(i, j).to_owned();
            let tok = Token::Symbol(text);
            out.push(tok);
            proof {
                assert(out@.map_values(|t: Token| t@) =~= out0.push(tok@));
                assert(out0.push(tok@) =~= out0 + seq![TokenModel::Symbol(rest.take(l as int))]);
            }
            i = j;
        }
    }
    proof {
        assert(source@.skip(n as int) =~= Seq::<char>::empty());
        assert(out@.map_values(|t: Token| t@) + spec_tokenize(Seq::<char>::empty())
            =~= out@.map_values(|t: Token| t@));
    }
    Ok(out)
}

} // verus!
