//! The flat token model that a schema declaration is read from.
//!
//! A declaration arrives as the tokens of a macro call: identifiers,
//! single-character punctuation (with whether it is joined to the next one),
//! literals, and the opening and closing delimiters of groups.

use vstd::prelude::*;
use crate::text::eq_lit;

verus! {

/// The delimiter of a group.
#[derive(PartialEq, Eq, Structural, Clone, Copy, Debug)]
pub enum Delim {
    Paren,
    Brace,
    Bracket,
}

/// One token of a declaration.
#[derive(Debug)]
pub enum Token {
    /// An identifier or keyword, by its text.
    Ident(String),
    /// A punctuation character, and whether it is joined to the next token.
    Punct(char, bool),
    /// A literal, by its text.
    Literal(String),
    /// The start of a group.
    Open(Delim),
    /// The end of a group.
    Close(Delim),
}

impl Token {
    /// A copy of the token.
    pub fn duplicate(&self) -> (r: Token)
        ensures
            r == *self,
    {
        match self {
            Token::Ident(s) => Token::Ident(s.clone()),
            Token::Punct(c, j) => Token::Punct(*c, *j),
            Token::Literal(s) => Token::Literal(s.clone()),
            Token::Open(d) => Token::Open(*d),
            Token::Close(d) => Token::Close(*d),
        }
    }
}

/// The token is the punctuation character `c`.
pub open spec fn is_punct(t: Token, c: char) -> bool {
    t matches Token::Punct(x, _) && x == c
}

/// The token is the punctuation character `c`, joined to the next token.
pub open spec fn is_joint(t: Token, c: char) -> bool {
    t matches Token::Punct(x, j) && x == c && j
}

/// The token is the identifier `s`.
pub open spec fn ident_is(t: Token, s: Seq<char>) -> bool {
    t matches Token::Ident(x) && x@ == s
}

/// The text of an identifier token.
pub open spec fn ident_text(t: Token) -> Seq<char> {
    match t {
        Token::Ident(x) => x@,
        _ => Seq::empty(),
    }
}

/// The token is a literal whose text starts with a decimal digit (a number).
pub open spec fn is_number(t: Token) -> bool {
    t matches Token::Literal(x) && x@.len() > 0 && '0' <= x@[0] <= '9'
}

/// The words that cannot name a schema, a column or a constraint.
pub open spec fn is_keyword(s: Seq<char>) -> bool {
    s == "_"@
        || s == "abstract"@
        || s == "as"@
        || s == "async"@
        || s == "await"@
        || s == "become"@
        || s == "box"@
        || s == "break"@
        || s == "const"@
        || s == "continue"@
        || s == "crate"@
        || s == "do"@
        || s == "dyn"@
        || s == "else"@
        || s == "enum"@
        || s == "extern"@
        || s == "false"@
        || s == "final"@
        || s == "fn"@
        || s == "for"@
        || s == "if"@
        || s == "impl"@
        || s == "in"@
        || s == "let"@
        || s == "loop"@
        || s == "macro"@
        || s == "match"@
        || s == "mod"@
        || s == "move"@
        || s == "mut"@
        || s == "override"@
        || s == "priv"@
        || s == "pub"@
        || s == "ref"@
        || s == "return"@
        || s == "Self"@
        || s == "self"@
        || s == "static"@
        || s == "struct"@
        || s == "super"@
        || s == "trait"@
        || s == "true"@
        || s == "try"@
        || s == "type"@
        || s == "typeof"@
        || s == "unsafe"@
        || s == "unsized"@
        || s == "use"@
        || s == "virtual"@
        || s == "where"@
        || s == "while"@
        || s == "yield"@
}

/// Whether `s` is a keyword.
pub fn keyword(s: &String) -> (r: bool)
    ensures
        r == is_keyword(s@),
{
    eq_lit(s, "_")
        || eq_lit(s, "abstract")
        || eq_lit(s, "as")
        || eq_lit(s, "async")
        || eq_lit(s, "await")
        || eq_lit(s, "become")
        || eq_lit(s, "box")
        || eq_lit(s, "break")
        || eq_lit(s, "const")
        || eq_lit(s, "continue")
        || eq_lit(s, "crate")
        || eq_lit(s, "do")
        || eq_lit(s, "dyn")
        || eq_lit(s, "else")
        || eq_lit(s, "enum")
        || eq_lit(s, "extern")
        || eq_lit(s, "false")
        || eq_lit(s, "final")
        || eq_lit(s, "fn")
        || eq_lit(s, "for")
        || eq_lit(s, "if")
        || eq_lit(s, "impl")
        || eq_lit(s, "in")
        || eq_lit(s, "let")
        || eq_lit(s, "loop")
        || eq_lit(s, "macro")
        || eq_lit(s, "match")
        || eq_lit(s, "mod")
        || eq_lit(s, "move")
        || eq_lit(s, "mut")
        || eq_lit(s, "override")
        || eq_lit(s, "priv")
        || eq_lit(s, "pub")
        || eq_lit(s, "ref")
        || eq_lit(s, "return")
        || eq_lit(s, "Self")
        || eq_lit(s, "self")
        || eq_lit(s, "static")
        || eq_lit(s, "struct")
        || eq_lit(s, "super")
        || eq_lit(s, "trait")
        || eq_lit(s, "true")
        || eq_lit(s, "try")
        || eq_lit(s, "type")
        || eq_lit(s, "typeof")
        || eq_lit(s, "unsafe")
        || eq_lit(s, "unsized")
        || eq_lit(s, "use")
        || eq_lit(s, "virtual")
        || eq_lit(s, "where")
        || eq_lit(s, "while")
        || eq_lit(s, "yield")
}

/// Whether `t` is the punctuation character `c`.
pub fn punct_is(t: &Token, c: char) -> (r: bool)
    ensures
        r == is_punct(*t, c),
{
    match t {
        Token::Punct(x, _) => *x == c,
        _ => false,
    }
}

/// Whether `t` is the punctuation character `c`, joined to the next token.
pub fn joint_is(t: &Token, c: char) -> (r: bool)
    ensures
        r == is_joint(*t, c),
{
    match t {
        Token::Punct(x, j) => *x == c && *j,
        _ => false,
    }
}

/// Whether `t` is the identifier `s`.
pub fn ident_eq(t: &Token, s: &str) -> (r: bool)
    ensures
        r == ident_is(*t, s@),
{
    match t {
        Token::Ident(x) => eq_lit(x, s),
        _ => false,
    }
}

/// Whether `t` is a literal that starts with a decimal digit.
pub fn number_is(t: &Token) -> (r: bool)
    ensures
        r == is_number(*t),
{
    match t {
        Token::Literal(x) => {
            let s = x.as_str();
            if s.unicode_len() == 0 {
                false
            } else {
                let c = s.get_char(0);
                '0' <= c && c <= '9'
            }
        },
        _ => false,
    }
}


/// The token at `i` is the punctuation character `c`.
pub open spec fn punct_at(toks: Seq<Token>, i: int, c: char) -> bool {
    0 <= i < toks.len() && is_punct(toks[i], c)
}

/// The token at `i` is the identifier `s`.
pub open spec fn kw_at(toks: Seq<Token>, i: int, s: Seq<char>) -> bool {
    0 <= i < toks.len() && ident_is(toks[i], s)
}

/// The token at `i` opens a group with delimiter `d`.
pub open spec fn open_at(toks: Seq<Token>, i: int, d: Delim) -> bool {
    0 <= i < toks.len() && toks[i] == Token::Open(d)
}

/// The token at `i` is a literal.
pub open spec fn literal_at(toks: Seq<Token>, i: int) -> bool {
    0 <= i < toks.len() && toks[i] is Literal
}

/// The token at `i` is an identifier.
pub open spec fn ident_at(toks: Seq<Token>, i: int) -> bool {
    0 <= i < toks.len() && toks[i] is Ident
}

/// The token at `i` closes a group.
pub open spec fn close_at(toks: Seq<Token>, i: int) -> bool {
    0 <= i < toks.len() && toks[i] is Close
}

/// The tokens at `i` form `::`.
pub open spec fn colon2_at(toks: Seq<Token>, i: int) -> bool {
    0 <= i && i + 1 < toks.len() && is_joint(toks[i], ':') && is_punct(toks[i + 1], ':')
}

/// The tokens at `i` form `->`.
pub open spec fn arrow_at(toks: Seq<Token>, i: int) -> bool {
    0 <= i && i + 1 < toks.len() && is_joint(toks[i], '-') && is_punct(toks[i + 1], '>')
}

/// The tokens at `i` form a lifetime `'name`.
pub open spec fn lifetime_at(toks: Seq<Token>, i: int) -> bool {
    0 <= i && i + 1 < toks.len() && is_joint(toks[i], '\'') && toks[i + 1] is Ident
}

/// Whether the token at `i` is the punctuation character `c`.
pub fn punct_here(toks: &Vec<Token>, i: usize, c: char) -> (r: bool)
    ensures
        r == punct_at(toks@, i as int, c),
{
    i < toks.len() && punct_is(&toks[i], c)
}

/// Whether the token at `i` is the identifier `s`.
pub fn kw_here(toks: &Vec<Token>, i: usize, s: &str) -> (r: bool)
    ensures
        r == kw_at(toks@, i as int, s@),
{
    i < toks.len() && ident_eq(&toks[i], s)
}

/// Whether the token at `i` opens a group with delimiter `d`.
pub fn open_here(toks: &Vec<Token>, i: usize, d: Delim) -> (r: bool)
    ensures
        r == open_at(toks@, i as int, d),
{
    i < toks.len() && match &toks[i] {
        Token::Open(x) => *x == d,
        _ => false,
    }
}

/// Whether the token at `i` is a literal.
pub fn literal_here(toks: &Vec<Token>, i: usize) -> (r: bool)
    ensures
        r == literal_at(toks@, i as int),
{
    i < toks.len() && match &toks[i] {
        Token::Literal(_) => true,
        _ => false,
    }
}

/// Whether the token at `i` is an identifier.
pub fn ident_here(toks: &Vec<Token>, i: usize) -> (r: bool)
    ensures
        r == ident_at(toks@, i as int),
{
    i < toks.len() && match &toks[i] {
        Token::Ident(_) => true,
        _ => false,
    }
}

/// Whether the token at `i` closes a group.
pub fn close_here(toks: &Vec<Token>, i: usize) -> (r: bool)
    ensures
        r == close_at(toks@, i as int),
{
    i < toks.len() && match &toks[i] {
        Token::Close(_) => true,
        _ => false,
    }
}

/// Whether the tokens at `i` form `::`.
pub fn colon2_here(toks: &Vec<Token>, i: usize) -> (r: bool)
    ensures
        r == colon2_at(toks@, i as int),
{
    i < toks.len() && toks.len() - i > 1 && joint_is(&toks[i], ':') && punct_is(&toks[i + 1], ':')
}

/// Whether the tokens at `i` form `->`.
pub fn arrow_here(toks: &Vec<Token>, i: usize) -> (r: bool)
    ensures
        r == arrow_at(toks@, i as int),
{
    i < toks.len() && toks.len() - i > 1 && joint_is(&toks[i], '-') && punct_is(&toks[i + 1], '>')
}

/// Whether the tokens at `i` form a lifetime.
pub fn lifetime_here(toks: &Vec<Token>, i: usize) -> (r: bool)
    ensures
        r == lifetime_at(toks@, i as int),
{
    i < toks.len() && toks.len() - i > 1 && joint_is(&toks[i], '\'') && match &toks[i + 1] {
        Token::Ident(_) => true,
        _ => false,
    }
}

/// The words refused as names are exactly Rust's strict and reserved
/// keywords and `_`: any other identifier can name a schema, a column or a
/// constraint.
pub proof fn law_keywords_are_rust_keywords(s: Seq<char>)
    ensures
        is_keyword(s) <==> (
            s == seq!['_']
            || s == seq!['a', 'b', 's', 't', 'r', 'a', 'c', 't']
            || s == seq!['a', 's']
            || s == seq!['a', 's', 'y', 'n', 'c']
            || s == seq!['a', 'w', 'a', 'i', 't']
            || s == seq!['b', 'e', 'c', 'o', 'm', 'e']
            || s == seq!['b', 'o', 'x']
            || s == seq!['b', 'r', 'e', 'a', 'k']
            || s == seq!['c', 'o', 'n', 's', 't']
            || s == seq!['c', 'o', 'n', 't', 'i', 'n', 'u', 'e']
            || s == seq!['c', 'r', 'a', 't', 'e']
            || s == seq!['d', 'o']
            || s == seq!['d', 'y', 'n']
            || s == seq!['e', 'l', 's', 'e']
            || s == seq!['e', 'n', 'u', 'm']
            || s == seq!['e', 'x', 't', 'e', 'r', 'n']
            || s == seq!['f', 'a', 'l', 's', 'e']
            || s == seq!['f', 'i', 'n', 'a', 'l']
            || s == seq!['f', 'n']
            || s == seq!['f', 'o', 'r']
            || s == seq!['i', 'f']
            || s == seq!['i', 'm', 'p', 'l']
            || s == seq!['i', 'n']
            || s == seq!['l', 'e', 't']
            || s == seq!['l', 'o', 'o', 'p']
            || s == seq!['m', 'a', 'c', 'r', 'o']
            || s == seq!['m', 'a', 't', 'c', 'h']
            || s == seq!['m', 'o', 'd']
            || s == seq!['m', 'o', 'v', 'e']
            || s == seq!['m', 'u', 't']
            || s == seq!['o', 'v', 'e', 'r', 'r', 'i', 'd', 'e']
            || s == seq!['p', 'r', 'i', 'v']
            || s == seq!['p', 'u', 'b']
            || s == seq!['r', 'e', 'f']
            || s == seq!['r', 'e', 't', 'u', 'r', 'n']
            || s == seq!['S', 'e', 'l', 'f']
            || s == seq!['s', 'e', 'l', 'f']
            || s == seq!['s', 't', 'a', 't', 'i', 'c']
            || s == seq!['s', 't', 'r', 'u', 'c', 't']
            || s == seq!['s', 'u', 'p', 'e', 'r']
            || s == seq!['t', 'r', 'a', 'i', 't']
            || s == seq!['t', 'r', 'u', 'e']
            || s == seq!['t', 'r', 'y']
            || s == seq!['t', 'y', 'p', 'e']
            || s == seq!['t', 'y', 'p', 'e', 'o', 'f']
            || s == seq!['u', 'n', 's', 'a', 'f', 'e']
            || s == seq!['u', 'n', 's', 'i', 'z', 'e', 'd']
            || s == seq!['u', 's', 'e']
            || s == seq!['v', 'i', 'r', 't', 'u', 'a', 'l']
            || s == seq!['w', 'h', 'e', 'r', 'e']
            || s == seq!['w', 'h', 'i', 'l', 'e']
            || s == seq!['y', 'i', 'e', 'l', 'd']
        ),
{
    reveal_strlit("_");
    assert("_"@ =~= seq!['_']);
    reveal_strlit("abstract");
    assert("abstract"@ =~= seq!['a', 'b', 's', 't', 'r', 'a', 'c', 't']);
    reveal_strlit("as");
    assert("as"@ =~= seq!['a', 's']);
    reveal_strlit("async");
    assert("async"@ =~= seq!['a', 's', 'y', 'n', 'c']);
    reveal_strlit("await");
    assert("await"@ =~= seq!['a', 'w', 'a', 'i', 't']);
    reveal_strlit("become");
    assert("become"@ =~= seq!['b', 'e', 'c', 'o', 'm', 'e']);
    reveal_strlit("box");
    assert("box"@ =~= seq!['b', 'o', 'x']);
    reveal_strlit("break");
    assert("break"@ =~= seq!['b', 'r', 'e', 'a', 'k']);
    reveal_strlit("const");
    assert("const"@ =~= seq!['c', 'o', 'n', 's', 't']);
    reveal_strlit("continue");
    assert("continue"@ =~= seq!['c', 'o', 'n', 't', 'i', 'n', 'u', 'e']);
    reveal_strlit("crate");
    assert("crate"@ =~= seq!['c', 'r', 'a', 't', 'e']);
    reveal_strlit("do");
    assert("do"@ =~= seq!['d', 'o']);
    reveal_strlit("dyn");
    assert("dyn"@ =~= seq!['d', 'y', 'n']);
    reveal_strlit("else");
    assert("else"@ =~= seq!['e', 'l', 's', 'e']);
    reveal_strlit("enum");
    assert("enum"@ =~= seq!['e', 'n', 'u', 'm']);
    reveal_strlit("extern");
    assert("extern"@ =~= seq!['e', 'x', 't', 'e', 'r', 'n']);
    reveal_strlit("false");
    assert("false"@ =~= seq!['f', 'a', 'l', 's', 'e']);
    reveal_strlit("final");
    assert("final"@ =~= seq!['f', 'i', 'n', 'a', 'l']);
    reveal_strlit("fn");
    assert("fn"@ =~= seq!['f', 'n']);
    reveal_strlit("for");
    assert("for"@ =~= seq!['f', 'o', 'r']);
    reveal_strlit("if");
    assert("if"@ =~= seq!['i', 'f']);
    reveal_strlit("impl");
    assert("impl"@ =~= seq!['i', 'm', 'p', 'l']);
    reveal_strlit("in");
    assert("in"@ =~= seq!['i', 'n']);
    reveal_strlit("let");
    assert("let"@ =~= seq!['l', 'e', 't']);
    reveal_strlit("loop");
    assert("loop"@ =~= seq!['l', 'o', 'o', 'p']);
    reveal_strlit("macro");
    assert("macro"@ =~= seq!['m', 'a', 'c', 'r', 'o']);
    reveal_strlit("match");
    assert("match"@ =~= seq!['m', 'a', 't', 'c', 'h']);
    reveal_strlit("mod");
    assert("mod"@ =~= seq!['m', 'o', 'd']);
    reveal_strlit("move");
    assert("move"@ =~= seq!['m', 'o', 'v', 'e']);
    reveal_strlit("mut");
    assert("mut"@ =~= seq!['m', 'u', 't']);
    reveal_strlit("override");
    assert("override"@ =~= seq!['o', 'v', 'e', 'r', 'r', 'i', 'd', 'e']);
    reveal_strlit("priv");
    assert("priv"@ =~= seq!['p', 'r', 'i', 'v']);
    reveal_strlit("pub");
    assert("pub"@ =~= seq!['p', 'u', 'b']);
    reveal_strlit("ref");
    assert("ref"@ =~= seq!['r', 'e', 'f']);
    reveal_strlit("return");
    assert("return"@ =~= seq!['r', 'e', 't', 'u', 'r', 'n']);
    reveal_strlit("Self");
    assert("Self"@ =~= seq!['S', 'e', 'l', 'f']);
    reveal_strlit("self");
    assert("self"@ =~= seq!['s', 'e', 'l', 'f']);
    reveal_strlit("static");
    assert("static"@ =~= seq!['s', 't', 'a', 't', 'i', 'c']);
    reveal_strlit("struct");
    assert("struct"@ =~= seq!['s', 't', 'r', 'u', 'c', 't']);
    reveal_strlit("super");
    assert("super"@ =~= seq!['s', 'u', 'p', 'e', 'r']);
    reveal_strlit("trait");
    assert("trait"@ =~= seq!['t', 'r', 'a', 'i', 't']);
    reveal_strlit("true");
    assert("true"@ =~= seq!['t', 'r', 'u', 'e']);
    reveal_strlit("try");
    assert("try"@ =~= seq!['t', 'r', 'y']);
    reveal_strlit("type");
    assert("type"@ =~= seq!['t', 'y', 'p', 'e']);
    reveal_strlit("typeof");
    assert("typeof"@ =~= seq!['t', 'y', 'p', 'e', 'o', 'f']);
    reveal_strlit("unsafe");
    assert("unsafe"@ =~= seq!['u', 'n', 's', 'a', 'f', 'e']);
    reveal_strlit("unsized");
    assert("unsized"@ =~= seq!['u', 'n', 's', 'i', 'z', 'e', 'd']);
    reveal_strlit("use");
    assert("use"@ =~= seq!['u', 's', 'e']);
    reveal_strlit("virtual");
    assert("virtual"@ =~= seq!['v', 'i', 'r', 't', 'u', 'a', 'l']);
    reveal_strlit("where");
    assert("where"@ =~= seq!['w', 'h', 'e', 'r', 'e']);
    reveal_strlit("while");
    assert("while"@ =~= seq!['w', 'h', 'i', 'l', 'e']);
    reveal_strlit("yield");
    assert("yield"@ =~= seq!['y', 'i', 'e', 'l', 'd']);
}

} // verus!
