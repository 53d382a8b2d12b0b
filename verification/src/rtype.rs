//! The grammar of a Rust type, as a column declares it, over the flat token
//! model, with what the expansion needs to know of a parsed type: whether it
//! is a path, and the name and generic arguments of the path's first
//! segment.
//!
//! ```text
//! type      := binder (bare-fn | type-path ['!' GROUP | '+' bounds])
//!            | '(' ')' | '(' bounds ')' | '(' '?' trait-bound ')' ('+' bound)*
//!            | '(' type ')' ['+' bound ('+' bound)*] | '(' type ',' types ')'
//!            | bare-fn | type-path ['!' GROUP | '+' bounds]
//!            | 'dyn' ['*'] bounds | 'impl' bounds | LIFETIME bounds
//!            | '[' type [';' ...] ']' | '*' ('const' | 'mut') type-no-plus
//!            | '&' [LIFETIME] ['mut'] type-no-plus | '!' | '_'
//! bare-fn   := ['unsafe'] ['extern' [LITERAL]] 'fn' '(' ... ')' ['->' type-no-plus]
//! binder    := 'for' '<' (LIFETIME [':' LIFETIME ('+' LIFETIME)*]) separated by ',' '>'
//! type-path := '<' type ['as' path] '>' '::' segments | path
//! path      := ['::'] segments          (a `::` before a parenthesis ends it)
//! segment   := NAME [['::'] '<' (arg (',' arg)* [','])? '>']
//! arg       := LIFETIME | LITERAL | '{' ... '}' | type ['=' (LITERAL | '{' ... '}' | type)]
//!            | type ':' [bound ('+' bound)* ['+']]
//! bounds    := bound ('+' bound)* ['+']
//! bound     := LIFETIME | 'use' '<' captures '>' | '(' trait-bound ')' | trait-bound
//! trait-bound := [binder] [('[' 'const' ']' | 'const')] ['?'] path ['(' ... ')' ['->' type-no-plus]]
//! ```
//!
//! A segment's name is an identifier that is not a keyword, or one of `self`,
//! `super`, `crate`, `try` (which take no generic arguments) and `Self`.
//! A `+` after a type-path (where `+` is allowed), or a binder before it,
//! makes the type a trait object, and so not a path.
//!
//! `const` and `[const]` markers are allowed on the bounds of an `impl` type
//! and of an associated type's constraint, and `use<..>` lists on those of an
//! `impl` type. A trait object needs a trait among its bounds: lifetimes
//! alone (`dyn 'a`) are refused. Binders with type or const parameters or
//! with attributes are refused, which a Rust type parser accepts.

use vstd::prelude::*;
use crate::token::{
    Token, Delim, is_keyword, ident_text, punct_at, kw_at, open_at, literal_at, ident_at,
    close_at, colon2_at, arrow_at, lifetime_at, keyword, punct_here, kw_here, open_here,
    literal_here, ident_here, close_here, colon2_here, arrow_here, lifetime_here,
};
use crate::text::eq_lit;

verus! {

/// How many generic arguments, counting up to two.
#[derive(PartialEq, Eq, Structural, Clone, Copy, Debug)]
pub enum ArgCount {
    Zero,
    One,
    Many,
}

/// The arguments of a path segment: none, or angle-bracketed ones, with their
/// count and, when the first argument is a type that is a single plain name,
/// that name's token.
#[derive(Debug)]
pub enum ArgsInfo {
    Plain,
    Angle(ArgCount, Option<Token>),
}

/// What the expansion needs to know of a type path.
#[derive(Debug)]
pub struct PathInfo {
    /// It has a qualified self: `<T>::..` or `<T as Tr>::..`.
    pub qualified: bool,
    /// It starts with `::` (a qualified path without `as` counts as such).
    pub leading: bool,
    /// It has one segment.
    pub single: bool,
    /// The first segment's name.
    pub first: Token,
    /// The first segment's arguments.
    pub first_args: ArgsInfo,
    /// No segment has arguments.
    pub mod_style: bool,
    /// The last segment has no arguments.
    pub last_plain: bool,
}

/// What the expansion needs to know of a type: whether it is a path.
#[derive(Debug)]
pub enum TyKind {
    Path(PathInfo),
    Other,
}

/// A parse that consumed nothing fails.
pub open spec fn progress<X>(r: Result<(X, int), int>, i: int) -> Result<(X, int), int> {
    match r {
        Ok((x, j)) => if j > i {
            Ok((x, j))
        } else {
            Err(i)
        },
        Err(e) => Err(e),
    }
}

/// A parse of a position that consumed nothing fails.
pub open spec fn progress_pos(r: Result<int, int>, i: int) -> Result<int, int> {
    match r {
        Ok(j) => if j > i {
            Ok(j)
        } else {
            Err(i)
        },
        Err(e) => Err(e),
    }
}

/// The position of the group close that matches depth `d`, searched from `k`;
/// -1 when there is none.
pub open spec fn close_from(t: Seq<Token>, k: int, d: nat) -> int
    decreases t.len() - k,
{
    if k < 0 || k >= t.len() {
        -1
    } else if t[k] is Open {
        close_from(t, k + 1, d + 1)
    } else if t[k] is Close {
        if d == 0 {
            k
        } else {
            close_from(t, k + 1, (d - 1) as nat)
        }
    } else {
        close_from(t, k + 1, d)
    }
}

/// The position after the group that opens at `i`.
pub open spec fn group_end(t: Seq<Token>, i: int) -> Result<int, int> {
    if 0 <= i < t.len() && t[i] is Open {
        let c = close_from(t, i + 1, 0);
        if c < 0 {
            Err(t.len() as int)
        } else {
            Ok(c + 1)
        }
    } else {
        Err(i)
    }
}

/// A matching close lies after the search start, within the tokens.
pub proof fn lemma_close_from(t: Seq<Token>, k: int, d: nat)
    ensures
        close_from(t, k, d) == -1 || (k <= close_from(t, k, d) < t.len() && close_at(
            t,
            close_from(t, k, d),
        )),
    decreases t.len() - k,
{
    if 0 <= k < t.len() {
        if t[k] is Open {
            lemma_close_from(t, k + 1, d + 1);
        } else if t[k] is Close {
            if d != 0 {
                lemma_close_from(t, k + 1, (d - 1) as nat);
            }
        } else {
            lemma_close_from(t, k + 1, d);
        }
    }
}

/// A group ends after it opens.
pub proof fn lemma_group_end(t: Seq<Token>, i: int)
    ensures
        group_end(t, i) matches Ok(e) ==> i < e <= t.len(),
{
    if 0 <= i < t.len() && t[i] is Open {
        lemma_close_from(t, i + 1, 0);
    }
}

/// The bounds of a lifetime parameter from `k`: lifetimes joined by `+`, up
/// to a comma or a `>`.
pub open spec fn lt_bounds(t: Seq<Token>, k: int) -> Result<int, int>
    decreases t.len() - k,
{
    if k < 0 || k >= t.len() || punct_at(t, k, ',') || punct_at(t, k, '>') {
        Ok(k)
    } else if lifetime_at(t, k) {
        if punct_at(t, k + 2, '+') {
            lt_bounds(t, k + 3)
        } else {
            Ok(k + 2)
        }
    } else {
        Err(k)
    }
}

/// The lifetime parameters of a binder from `k`, up to and past its `>`.
pub open spec fn lt_params(t: Seq<Token>, k: int) -> Result<int, int>
    decreases t.len() - k,
{
    if k < 0 || k >= t.len() {
        Err(k)
    } else if punct_at(t, k, '>') {
        Ok(k + 1)
    } else if lifetime_at(t, k) {
        let e = if punct_at(t, k + 2, ':') {
            lt_bounds(t, k + 3)
        } else {
            Ok(k + 2)
        };
        match e {
            Err(x) => Err(x),
            Ok(e) => if punct_at(t, e, '>') {
                Ok(e + 1)
            } else if punct_at(t, e, ',') {
                proof {
                    lemma_lt_bounds(t, k + 3);
                }
                lt_params(t, e + 1)
            } else {
                Err(e)
            },
        }
    } else {
        Err(k)
    }
}

/// A binder `for<'a, ..>` at `i`: the position after it.
pub open spec fn binder(t: Seq<Token>, i: int) -> Result<int, int> {
    if !kw_at(t, i, "for"@) {
        Err(i)
    } else if !punct_at(t, i + 1, '<') {
        Err(i + 1)
    } else {
        lt_params(t, i + 2)
    }
}

/// The bounds of a lifetime parameter end within the tokens, not before they
/// start.
pub proof fn lemma_lt_bounds(t: Seq<Token>, k: int)
    ensures
        lt_bounds(t, k) matches Ok(e) ==> (k <= e && (0 <= k <= t.len() ==> e <= t.len())),
    decreases t.len() - k,
{
    if 0 <= k < t.len() && !punct_at(t, k, ',') && !punct_at(t, k, '>') && lifetime_at(t, k)
        && punct_at(t, k + 2, '+') {
        lemma_lt_bounds(t, k + 3);
    }
}

/// The lifetime parameters of a binder end after they start, within the
/// tokens.
pub proof fn lemma_lt_params(t: Seq<Token>, k: int)
    ensures
        lt_params(t, k) matches Ok(e) ==> k < e <= t.len(),
    decreases t.len() - k,
{
    if 0 <= k < t.len() && !punct_at(t, k, '>') && lifetime_at(t, k) {
        lemma_lt_bounds(t, k + 3);
        let e = if punct_at(t, k + 2, ':') {
            lt_bounds(t, k + 3)
        } else {
            Ok(k + 2)
        };
        if let Ok(e) = e {
            if !punct_at(t, e, '>') && punct_at(t, e, ',') {
                lemma_lt_params(t, e + 1);
            }
        }
    }
}

/// A binder ends after it starts, within the tokens.
pub proof fn lemma_binder(t: Seq<Token>, i: int)
    ensures
        binder(t, i) matches Ok(e) ==> i < e <= t.len(),
{
    lemma_lt_params(t, i + 2);
}

/// The names that a path segment accepts although they are keywords.
pub open spec fn special_segment(x: Seq<char>) -> bool {
    x == "self"@ || x == "super"@ || x == "crate"@ || x == "try"@ || x == "Self"@
}

/// The names of segments that take no generic arguments.
pub open spec fn no_args_segment(x: Seq<char>) -> bool {
    x == "self"@ || x == "super"@ || x == "crate"@ || x == "try"@
}

/// The token at `i` can name a path segment.
pub open spec fn seg_ident(t: Seq<Token>, i: int) -> bool {
    ident_at(t, i) && (!is_keyword(ident_text(t[i])) || special_segment(ident_text(t[i])))
}

/// A bound can start at `k`; `cst` tells whether `const` bounds are allowed.
pub open spec fn bound_start(t: Seq<Token>, k: int, cst: bool) -> bool {
    ident_at(t, k) || colon2_at(t, k) || punct_at(t, k, '?') || lifetime_at(t, k) || open_at(
        t,
        k,
        Delim::Paren,
    ) || (cst && (open_at(t, k, Delim::Bracket) || kw_at(t, k, "const"@)))
}

/// The type is a path that could name an associated item: no qualified self,
/// no leading `::`, one segment.
pub open spec fn assoc_candidate(k: TyKind) -> bool {
    k matches TyKind::Path(p) && !p.qualified && !p.leading && p.single
}

/// The type is a single plain name (`Path::get_ident`): its token.
pub open spec fn plain_name(k: TyKind) -> Option<Token> {
    match k {
        TyKind::Path(p) => if !p.leading && p.single && p.first_args is Plain {
            Some(p.first)
        } else {
            None
        },
        TyKind::Other => None,
    }
}

/// The type that starts at `i`; `plus` tells whether `+` may continue it.
pub open spec fn ty_at(t: Seq<Token>, i: int, plus: bool) -> Result<(TyKind, int), int>
    decreases t.len() - i, 11nat,
{
    if i < 0 || i >= t.len() {
        Err(i)
    } else if kw_at(t, i, "for"@) {
        match binder(t, i) {
            Err(x) => Err(x),
            Ok(b) => {
                proof {
                    lemma_binder(t, i);
                }
                bound_ty(t, b, plus)
            },
        }
    } else if open_at(t, i, Delim::Paren) {
        paren_ty(t, i, plus)
    } else if kw_at(t, i, "fn"@) || kw_at(t, i, "unsafe"@) || kw_at(t, i, "extern"@) {
        match bare_fn(t, i) {
            Ok(e) => Ok((TyKind::Other, e)),
            Err(x) => Err(x),
        }
    } else if seg_ident(t, i) || colon2_at(t, i) || punct_at(t, i, '<') {
        match progress(type_path(t, i), i) {
            Err(x) => Err(x),
            Ok((p, j)) => if p.qualified {
                Ok((TyKind::Path(p), j))
            } else if punct_at(t, j, '!') && p.mod_style {
                match group_end(t, j + 1) {
                    Ok(e) => Ok((TyKind::Other, e)),
                    Err(x) => Err(x),
                }
            } else if plus && punct_at(t, j, '+') {
                match plus_tail(t, j, false) {
                    Ok(e) => Ok((TyKind::Other, e)),
                    Err(x) => Err(x),
                }
            } else {
                Ok((TyKind::Path(p), j))
            },
        }
    } else if kw_at(t, i, "dyn"@) {
        let k = if punct_at(t, i + 1, '*') {
            i + 2
        } else {
            i + 1
        };
        match bounds(t, k, plus, false) {
            Ok(e) => if lifetimes_only(t, k, e) {
                Err(i)
            } else {
                Ok((TyKind::Other, e))
            },
            Err(x) => Err(x),
        }
    } else if open_at(t, i, Delim::Bracket) {
        bracket_ty(t, i)
    } else if punct_at(t, i, '*') {
        if kw_at(t, i + 1, "const"@) || kw_at(t, i + 1, "mut"@) {
            match ty_at(t, i + 2, false) {
                Ok((_, e)) => Ok((TyKind::Other, e)),
                Err(x) => Err(x),
            }
        } else {
            Err(i + 1)
        }
    } else if punct_at(t, i, '&') {
        let k1 = if lifetime_at(t, i + 1) {
            i + 3
        } else {
            i + 1
        };
        let k2 = if kw_at(t, k1, "mut"@) {
            k1 + 1
        } else {
            k1
        };
        match ty_at(t, k2, false) {
            Ok((_, e)) => Ok((TyKind::Other, e)),
            Err(x) => Err(x),
        }
    } else if punct_at(t, i, '!') {
        Ok((TyKind::Other, i + 1))
    } else if kw_at(t, i, "impl"@) {
        match bounds(t, i + 1, plus, true) {
            Ok(e) => if no_trait(t, i + 1, e) {
                Err(i)
            } else {
                Ok((TyKind::Other, e))
            },
            Err(x) => Err(x),
        }
    } else if kw_at(t, i, "_"@) {
        Ok((TyKind::Other, i + 1))
    } else if lifetime_at(t, i) {
        match bounds(t, i, plus, false) {
            Ok(e) => if lifetimes_only(t, i, e) {
                Err(i)
            } else {
                Ok((TyKind::Other, e))
            },
            Err(x) => Err(x),
        }
    } else {
        Err(i)
    }
}

/// The captured parameters of a `use<..>` list from `k`, up to and past its
/// `>`: lifetimes, names and `Self`, separated by commas.
pub open spec fn cap_list(t: Seq<Token>, k: int) -> Result<int, int>
    decreases t.len() - k,
{
    if k < 0 || k >= t.len() {
        Err(k)
    } else if punct_at(t, k, '>') {
        Ok(k + 1)
    } else {
        let a = if lifetime_at(t, k) {
            k + 2
        } else if ident_at(t, k) && (!is_keyword(ident_text(t[k])) || ident_text(t[k])
            == "Self"@) {
            k + 1
        } else {
            k
        };
        if a == k {
            Err(k)
        } else if punct_at(t, a, '>') {
            Ok(a + 1)
        } else if punct_at(t, a, ',') {
            cap_list(t, a + 1)
        } else {
            Err(a)
        }
    }
}

/// A `use<..>` list at `k`: the position after it.
pub open spec fn precise(t: Seq<Token>, k: int) -> Result<int, int> {
    if !kw_at(t, k, "use"@) {
        Err(k)
    } else if !punct_at(t, k + 1, '<') {
        Err(k + 1)
    } else {
        cap_list(t, k + 2)
    }
}

/// A `use<..>` list ends after it starts, within the tokens.
pub proof fn lemma_precise(t: Seq<Token>, k: int)
    ensures
        precise(t, k) matches Ok(e) ==> k < e <= t.len(),
{
    lemma_cap_list(t, k + 2);
}

/// The captured parameters end after they start, within the tokens.
pub proof fn lemma_cap_list(t: Seq<Token>, k: int)
    ensures
        cap_list(t, k) matches Ok(e) ==> k < e <= t.len(),
    decreases t.len() - k,
{
    if 0 <= k < t.len() && !punct_at(t, k, '>') {
        let a = if lifetime_at(t, k) {
            k + 2
        } else if ident_at(t, k) && (!is_keyword(ident_text(t[k])) || ident_text(t[k])
            == "Self"@) {
            k + 1
        } else {
            k
        };
        if a != k && !punct_at(t, a, '>') && punct_at(t, a, ',') {
            lemma_cap_list(t, a + 1);
        }
    }
}

/// The bounds from `k` up to `e` hold no trait: lifetimes and `use<..>`
/// lists only.
pub open spec fn no_trait(t: Seq<Token>, k: int, e: int) -> bool
    decreases e - k,
{
    if k >= e {
        true
    } else {
        let n = if lifetime_at(t, k) {
            k + 2
        } else {
            match precise(t, k) {
                Ok(x) => x,
                Err(_) => k,
            }
        };
        if n <= k {
            false
        } else if n >= e {
            true
        } else if punct_at(t, n, '+') {
            no_trait(t, n + 1, e)
        } else {
            false
        }
    }
}

/// The bounds from `k` up to `e` are lifetimes only, with no trait.
pub open spec fn lifetimes_only(t: Seq<Token>, k: int, e: int) -> bool
    decreases e - k,
{
    if k >= e {
        true
    } else if !lifetime_at(t, k) {
        false
    } else if k + 2 >= e {
        true
    } else if punct_at(t, k + 2, '+') {
        lifetimes_only(t, k + 3, e)
    } else {
        false
    }
}

/// The names that may follow a binder besides identifiers that are not
/// keywords.
pub open spec fn binder_word(x: Seq<char>) -> bool {
    x == "super"@ || x == "self"@ || x == "Self"@ || x == "crate"@
}

/// The type at `b`, after a binder: a function pointer type, a trait object
/// whose first trait is a path, or a macro.
pub open spec fn bound_ty(t: Seq<Token>, b: int, plus: bool) -> Result<(TyKind, int), int>
    decreases t.len() - b, 12nat,
{
    if b < 0 || b >= t.len() {
        Err(b)
    } else if kw_at(t, b, "fn"@) || kw_at(t, b, "unsafe"@) || kw_at(t, b, "extern"@) {
        match bare_fn(t, b) {
            Ok(e) => Ok((TyKind::Other, e)),
            Err(x) => Err(x),
        }
    } else if ident_at(t, b) && (!is_keyword(ident_text(t[b])) || binder_word(ident_text(t[b]))) {
        match progress(type_path(t, b), b) {
            Err(x) => Err(x),
            Ok((p, j)) => if punct_at(t, j, '!') && p.mod_style {
                match group_end(t, j + 1) {
                    Ok(e) => Ok((TyKind::Other, e)),
                    Err(x) => Err(x),
                }
            } else if plus && punct_at(t, j, '+') {
                match plus_tail(t, j, false) {
                    Ok(e) => Ok((TyKind::Other, e)),
                    Err(x) => Err(x),
                }
            } else {
                Ok((TyKind::Other, j))
            },
        }
    } else {
        Err(b)
    }
}

/// A type in parentheses at `i`: the unit type, a tuple, a parenthesized type
/// or trait object.
pub open spec fn paren_ty(t: Seq<Token>, i: int, plus: bool) -> Result<(TyKind, int), int>
    decreases t.len() - i, 10nat,
{
    let c = close_from(t, i + 1, 0);
    if i < 0 || i >= t.len() || c < 0 {
        Err(t.len() as int)
    } else if c == i + 1 {
        Ok((TyKind::Other, c + 1))
    } else if lifetime_at(t, i + 1) {
        match bounds(t, i + 1, true, false) {
            Ok(e) => if e != c {
                Err(e)
            } else if lifetimes_only(t, i + 1, c) {
                Err(i + 1)
            } else {
                Ok((TyKind::Other, c + 1))
            },
            Err(x) => Err(x),
        }
    } else if punct_at(t, i + 1, '?') {
        match progress_pos(trait_bound(t, i + 1, false), i + 1) {
            Err(x) => Err(x),
            Ok(e) => if e != c {
                Err(e)
            } else {
                proof {
                    lemma_close_from(t, i + 1, 0);
                }
                match plus_all(t, c + 1) {
                    Ok(f) => Ok((TyKind::Other, f)),
                    Err(x) => Err(x),
                }
            },
        }
    } else {
        match progress(ty_at(t, i + 1, true), i + 1) {
            Err(x) => Err(x),
            Ok((k, j)) => if punct_at(t, j, ',') {
                match ty_list(t, j + 1) {
                    Ok(e) => if e == c {
                        Ok((TyKind::Other, c + 1))
                    } else {
                        Err(e)
                    },
                    Err(x) => Err(x),
                }
            } else if j != c {
                Err(j)
            } else if plus && punct_at(t, c + 1, '+') && ((k matches TyKind::Path(p)
                && !p.qualified) || one_bound_object(t, i + 1, c)) {
                proof {
                    lemma_close_from(t, i + 1, 0);
                }
                match plus_all(t, c + 1) {
                    Ok(e) => Ok((TyKind::Other, e)),
                    Err(x) => Err(x),
                }
            } else {
                Ok((TyKind::Other, c + 1))
            },
        }
    }
}

/// The tokens from `s` up to `c` are a trait object of one bound: a binder
/// followed by a type path, and nothing else.
pub open spec fn one_bound_object(t: Seq<Token>, s: int, c: int) -> bool
    decreases t.len() - s, 9nat,
{
    if s < 0 || s >= t.len() || !kw_at(t, s, "for"@) {
        false
    } else {
        match binder(t, s) {
            Err(_) => false,
            Ok(b) => {
                proof {
                    lemma_binder(t, s);
                }
                !(kw_at(t, b, "fn"@) || kw_at(t, b, "unsafe"@) || kw_at(t, b, "extern"@))
                    && ident_at(t, b) && match progress(type_path(t, b), b) {
                    Ok((_, j)) => j == c,
                    Err(_) => false,
                }
            },
        }
    }
}

/// The rest of a tuple's types from `k`, up to its close.
pub open spec fn ty_list(t: Seq<Token>, k: int) -> Result<int, int>
    decreases t.len() - k, 14nat,
{
    if k < 0 || k >= t.len() {
        Err(k)
    } else if t[k] is Close {
        Ok(k)
    } else {
        match progress(ty_at(t, k, true), k) {
            Err(x) => Err(x),
            Ok((_, j)) => if close_at(t, j) {
                Ok(j)
            } else if punct_at(t, j, ',') {
                ty_list(t, j + 1)
            } else {
                Err(j)
            },
        }
    }
}

/// An array or slice type at `i`.
pub open spec fn bracket_ty(t: Seq<Token>, i: int) -> Result<(TyKind, int), int>
    decreases t.len() - i, 10nat,
{
    let c = close_from(t, i + 1, 0);
    if i < 0 || i >= t.len() || c < 0 {
        Err(t.len() as int)
    } else {
        match ty_at(t, i + 1, true) {
            Err(x) => Err(x),
            Ok((_, j)) => if j == c || (punct_at(t, j, ';') && j + 1 < c) {
                Ok((TyKind::Other, c + 1))
            } else {
                Err(j)
            },
        }
    }
}

/// A function pointer type at `i`.
pub open spec fn bare_fn(t: Seq<Token>, i: int) -> Result<int, int>
    decreases t.len() - i, 10nat,
{
    let k1 = if kw_at(t, i, "unsafe"@) {
        i + 1
    } else {
        i
    };
    let k2 = if kw_at(t, k1, "extern"@) {
        if literal_at(t, k1 + 1) {
            k1 + 2
        } else {
            k1 + 1
        }
    } else {
        k1
    };
    if i < 0 || !kw_at(t, k2, "fn"@) || !open_at(t, k2 + 1, Delim::Paren) {
        Err(k2)
    } else {
        match group_end(t, k2 + 1) {
            Err(x) => Err(x),
            Ok(e) => {
                proof {
                    lemma_group_end(t, k2 + 1);
                }
                if arrow_at(t, e) {
                    match ty_at(t, e + 2, false) {
                        Ok((_, f)) => Ok(f),
                        Err(x) => Err(x),
                    }
                } else {
                    Ok(e)
                }
            },
        }
    }
}

/// A type path at `i`, with or without a qualified self.
pub open spec fn type_path(t: Seq<Token>, i: int) -> Result<(PathInfo, int), int>
    decreases t.len() - i, 8nat,
{
    if i < 0 || i >= t.len() {
        Err(i)
    } else if punct_at(t, i, '<') {
        match progress(ty_at(t, i + 1, true), i + 1) {
            Err(x) => Err(x),
            Ok((_, j)) => if kw_at(t, j, "as"@) {
                match progress(path(t, j + 1), j + 1) {
                    Err(x) => Err(x),
                    Ok((tp, k)) => if !punct_at(t, k, '>') {
                        Err(k)
                    } else if !colon2_at(t, k + 1) {
                        Err(k + 1)
                    } else {
                        match seg_list(t, k + 3, false) {
                            Err(x) => Err(x),
                            Ok((r, e)) => Ok(
                                (
                                    PathInfo {
                                        qualified: true,
                                        leading: tp.leading,
                                        single: false,
                                        first: tp.first,
                                        first_args: tp.first_args,
                                        mod_style: tp.mod_style && r.mod_style,
                                        last_plain: r.last_plain,
                                    },
                                    e,
                                ),
                            ),
                        }
                    },
                }
            } else if !punct_at(t, j, '>') {
                Err(j)
            } else if !colon2_at(t, j + 1) {
                Err(j + 1)
            } else {
                match seg_list(t, j + 3, false) {
                    Err(x) => Err(x),
                    Ok((r, e)) => Ok(
                        (
                            PathInfo {
                                qualified: true,
                                leading: true,
                                single: r.single,
                                first: r.first,
                                first_args: r.first_args,
                                mod_style: r.mod_style,
                                last_plain: r.last_plain,
                            },
                            e,
                        ),
                    ),
                }
            },
        }
    } else {
        path(t, i)
    }
}

/// A path at `i`: an optional leading `::` and its segments.
pub open spec fn path(t: Seq<Token>, i: int) -> Result<(PathInfo, int), int>
    decreases t.len() - i, 6nat,
{
    if i < 0 || i >= t.len() {
        Err(i)
    } else if colon2_at(t, i) {
        match seg_list(t, i + 2, true) {
            Ok((p, e)) => Ok(
                (
                    PathInfo {
                        qualified: false,
                        leading: true,
                        single: p.single,
                        first: p.first,
                        first_args: p.first_args,
                        mod_style: p.mod_style,
                        last_plain: p.last_plain,
                    },
                    e,
                ),
            ),
            Err(x) => Err(x),
        }
    } else {
        seg_list(t, i, true)
    }
}

/// The segments from `k`, separated by `::`; with `stop_at_paren`, a `::`
/// followed by a parenthesis ends them.
pub open spec fn seg_list(t: Seq<Token>, k: int, stop_at_paren: bool) -> Result<
    (PathInfo, int),
    int,
>
    decreases t.len() - k, 5nat,
{
    if k < 0 || k >= t.len() {
        Err(k)
    } else {
        match progress(segment(t, k), k) {
            Err(x) => Err(x),
            Ok(((name, args), e)) => if colon2_at(t, e) && !(stop_at_paren && open_at(
                t,
                e + 2,
                Delim::Paren,
            )) {
                match seg_list(t, e + 2, stop_at_paren) {
                    Ok((r, f)) => Ok(
                        (
                            PathInfo {
                                qualified: false,
                                leading: false,
                                single: false,
                                first: name,
                                first_args: args,
                                mod_style: args is Plain && r.mod_style,
                                last_plain: r.last_plain,
                            },
                            f,
                        ),
                    ),
                    Err(x) => Err(x),
                }
            } else {
                Ok(
                    (
                        PathInfo {
                            qualified: false,
                            leading: false,
                            single: true,
                            first: name,
                            first_args: args,
                            mod_style: args is Plain,
                            last_plain: args is Plain,
                        },
                        e,
                    ),
                )
            },
        }
    }
}

/// A path segment at `i`: its name's token and its arguments.
pub open spec fn segment(t: Seq<Token>, i: int) -> Result<((Token, ArgsInfo), int), int>
    decreases t.len() - i, 4nat,
{
    if !seg_ident(t, i) {
        Err(i)
    } else if no_args_segment(ident_text(t[i])) {
        Ok(((t[i], ArgsInfo::Plain), i + 1))
    } else if punct_at(t, i + 1, '<') {
        match args(t, i + 1) {
            Ok((a, e)) => Ok(((t[i], a), e)),
            Err(x) => Err(x),
        }
    } else if colon2_at(t, i + 1) && punct_at(t, i + 3, '<') {
        match args(t, i + 3) {
            Ok((a, e)) => Ok(((t[i], a), e)),
            Err(x) => Err(x),
        }
    } else {
        Ok(((t[i], ArgsInfo::Plain), i + 1))
    }
}

/// Angle-bracketed arguments whose `<` is at `i`.
pub open spec fn args(t: Seq<Token>, i: int) -> Result<(ArgsInfo, int), int>
    decreases t.len() - i, 3nat,
{
    if i < 0 || i >= t.len() {
        Err(i)
    } else {
        match arg_list(t, i + 1) {
            Ok(((n, first), e)) => Ok((ArgsInfo::Angle(n, first), e)),
            Err(x) => Err(x),
        }
    }
}

/// The arguments from `k` up to and past the closing `>`: their count and the
/// plain name of the first.
pub open spec fn arg_list(t: Seq<Token>, k: int) -> Result<((ArgCount, Option<Token>), int), int>
    decreases t.len() - k, 13nat,
{
    if k < 0 || k >= t.len() {
        Err(k)
    } else if punct_at(t, k, '>') {
        Ok(((ArgCount::Zero, None), k + 1))
    } else {
        match progress(arg(t, k), k) {
            Err(x) => Err(x),
            Ok((a, j)) => if punct_at(t, j, '>') {
                Ok(((ArgCount::One, a), j + 1))
            } else if punct_at(t, j, ',') {
                match arg_list(t, j + 1) {
                    Ok(((n, _), e)) => Ok(
                        (
                            (
                                if n == ArgCount::Zero {
                                    ArgCount::One
                                } else {
                                    ArgCount::Many
                                },
                                a,
                            ),
                            e,
                        ),
                    ),
                    Err(x) => Err(x),
                }
            } else {
                Err(j)
            },
        }
    }
}

/// One generic argument at `k`, with its plain name when it is a type that is
/// a single plain name.
pub open spec fn arg(t: Seq<Token>, k: int) -> Result<(Option<Token>, int), int>
    decreases t.len() - k, 12nat,
{
    if k < 0 || k >= t.len() {
        Err(k)
    } else if lifetime_at(t, k) && !punct_at(t, k + 2, '+') {
        Ok((None, k + 2))
    } else if literal_at(t, k) {
        Ok((None, k + 1))
    } else if open_at(t, k, Delim::Brace) {
        match group_end(t, k) {
            Ok(e) => Ok((None, e)),
            Err(x) => Err(x),
        }
    } else {
        match progress(ty_at(t, k, true), k) {
            Err(x) => Err(x),
            Ok((ty, j)) => arg_rest(t, k, ty, j),
        }
    }
}

/// The rest of a generic argument that starts at `k` with the type `ty`,
/// which ends at `j`: an associated type's binding or bounds, or nothing.
pub open spec fn arg_rest(t: Seq<Token>, k: int, ty: TyKind, j: int) -> Result<
    (Option<Token>, int),
    int,
>
    decreases t.len() - k, 11nat,
{
    if j <= k || k < 0 || k >= t.len() {
        Err(k)
    } else if assoc_candidate(ty) && punct_at(t, j, '=') {
        if literal_at(t, j + 1) {
            Ok((None, j + 2))
        } else if open_at(t, j + 1, Delim::Brace) {
            match group_end(t, j + 1) {
                Ok(e) => Ok((None, e)),
                Err(x) => Err(x),
            }
        } else {
            match ty_at(t, j + 1, true) {
                Ok((_, e)) => Ok((None, e)),
                Err(x) => Err(x),
            }
        }
    } else if assoc_candidate(ty) && punct_at(t, j, ':') && !colon2_at(t, j) {
        match cbounds(t, j + 1) {
            Ok(e) => Ok((None, e)),
            Err(x) => Err(x),
        }
    } else {
        Ok((plain_name(ty), j))
    }
}

/// Bounds from `i`: one, then more after `+` where `plus` allows it; `cst`
/// tells whether `const` bounds and `use<..>` are allowed.
pub open spec fn bounds(t: Seq<Token>, i: int, plus: bool, cst: bool) -> Result<int, int>
    decreases t.len() - i, 9nat,
{
    if i < 0 || i >= t.len() {
        Err(i)
    } else {
        match progress_pos(bound(t, i, cst), i) {
            Err(x) => Err(x),
            Ok(e) => if plus && e <= t.len() {
                plus_tail(t, e, cst)
            } else {
                Ok(e)
            },
        }
    }
}

/// More bounds after a `+` at `j`; a `+` followed by no bound ends them.
pub open spec fn plus_tail(t: Seq<Token>, j: int, cst: bool) -> Result<int, int>
    decreases t.len() - j, 3nat,
{
    if j < 0 || j >= t.len() || !punct_at(t, j, '+') {
        Ok(j)
    } else if bound_start(t, j + 1, cst) {
        match progress_pos(bound(t, j + 1, cst), j + 1) {
            Ok(e) => if e <= t.len() {
                plus_tail(t, e, cst)
            } else {
                Ok(e)
            },
            Err(x) => Err(x),
        }
    } else {
        Ok(j + 1)
    }
}

/// The bounds of an associated type's constraint from `k`: none, or bounds
/// joined by `+`, up to a comma or a `>`.
pub open spec fn cbounds(t: Seq<Token>, k: int) -> Result<int, int>
    decreases t.len() - k, 9nat,
{
    if k < 0 || k >= t.len() {
        Err(k)
    } else if punct_at(t, k, ',') || punct_at(t, k, '>') {
        Ok(k)
    } else {
        match progress_pos(bound(t, k, true), k) {
            Err(x) => Err(x),
            Ok(e) => if punct_at(t, e, '+') {
                cbounds(t, e + 1)
            } else {
                Ok(e)
            },
        }
    }
}

/// One bound at `k`: a lifetime, a `use<..>` list where `cst` allows it, a
/// trait bound, or a trait bound in parentheses.
pub open spec fn bound(t: Seq<Token>, k: int, cst: bool) -> Result<int, int>
    decreases t.len() - k, 8nat,
{
    if k < 0 || k >= t.len() {
        Err(k)
    } else if lifetime_at(t, k) {
        Ok(k + 2)
    } else if kw_at(t, k, "use"@) {
        if cst {
            precise(t, k)
        } else {
            Err(k)
        }
    } else if open_at(t, k, Delim::Paren) {
        let c = close_from(t, k + 1, 0);
        if c < 0 {
            Err(t.len() as int)
        } else {
            match progress_pos(trait_bound(t, k + 1, cst), k + 1) {
                Err(x) => Err(x),
                Ok(e) => if e == c {
                    Ok(c + 1)
                } else {
                    Err(e)
                },
            }
        }
    } else {
        trait_bound(t, k, cst)
    }
}

/// Where a `const` marker that starts at `k` ends: `[const]` or `const`
/// where `cst` allows them; `k` itself when there is none.
pub open spec fn const_end(t: Seq<Token>, k: int, cst: bool) -> int {
    if cst && open_at(t, k, Delim::Bracket) && kw_at(t, k + 1, "const"@) && close_at(t, k + 2) {
        k + 3
    } else if cst && kw_at(t, k, "const"@) {
        k + 1
    } else {
        k
    }
}

/// A trait bound at `k`: a binder, a `const` marker where `cst` allows it, a
/// `?` (not together with a binder), a path, and for a path whose last
/// segment has no arguments, parenthesized arguments with an optional return
/// type.
pub open spec fn trait_bound(t: Seq<Token>, k: int, cst: bool) -> Result<int, int>
    decreases t.len() - k, 7nat,
{
    if k < 0 || k >= t.len() {
        Err(k)
    } else {
        let b = if kw_at(t, k, "for"@) {
            binder(t, k)
        } else {
            Ok(k)
        };
        let start = match b {
            Err(x) => Err(x),
            Ok(k0) => {
                let c = const_end(t, k0, cst);
                if !punct_at(t, c, '?') {
                    Ok(c)
                } else if k0 > k {
                    Err(c)
                } else if kw_at(t, c + 1, "for"@) {
                    Err(c + 1)
                } else {
                    Ok(c + 1)
                }
            },
        };
        match start {
            Err(x) => Err(x),
            Ok(k1) => {
                proof {
                    lemma_binder(t, k);
                }
                match progress(path(t, k1), k1) {
                    Err(x) => Err(x),
                    Ok((p, e)) => if p.last_plain && (open_at(t, e, Delim::Paren) || (colon2_at(
                        t,
                        e,
                    ) && open_at(t, e + 2, Delim::Paren))) {
                        let g = if open_at(t, e, Delim::Paren) {
                            e
                        } else {
                            e + 2
                        };
                        match group_end(t, g) {
                            Err(x) => Err(x),
                            Ok(f) => {
                                proof {
                                    lemma_group_end(t, g);
                                }
                                if arrow_at(t, f) {
                                    match ty_at(t, f + 2, false) {
                                        Ok((_, h)) => Ok(h),
                                        Err(x) => Err(x),
                                    }
                                } else {
                                    Ok(f)
                                }
                            },
                        }
                    } else {
                        Ok(e)
                    },
                }
            },
        }
    }
}

/// Bounds after a `+` at `j`, each `+` followed by a bound.
pub open spec fn plus_all(t: Seq<Token>, j: int) -> Result<int, int>
    decreases t.len() - j, 3nat,
{
    if j < 0 || j >= t.len() || !punct_at(t, j, '+') {
        Ok(j)
    } else {
        match progress_pos(bound(t, j + 1, false), j + 1) {
            Ok(e) => if e <= t.len() {
                plus_all(t, e)
            } else {
                Ok(e)
            },
            Err(x) => Err(x),
        }
    }
}

// ------------------------------------------------------------- the parser

/// The position of the group close that matches the group open before `k`.
fn close_x(t: &Vec<Token>, k: usize) -> (r: Option<usize>)
    requires
        k <= t@.len(),
    ensures
        match r {
            Some(c) => close_from(t@, k as int, 0) == c as int && c < t@.len(),
            None => close_from(t@, k as int, 0) == -1,
        },
{
    let n = t.len();
    let mut j = k;
    let mut d: usize = 0;
    while j < n
        invariant
            n == t@.len(),
            k <= j <= n,
            d <= j - k,
            close_from(t@, k as int, 0) == close_from(t@, j as int, d as nat),
        decreases n - j,
    {
        match &t[j] {
            Token::Open(_) => {
                d = d + 1;
            },
            Token::Close(_) => {
                if d == 0 {
                    return Some(j);
                }
                d = d - 1;
            },
            _ => {},
        }
        j = j + 1;
    }
    None
}

/// The position after the group that opens at `i`.
fn group_end_x(t: &Vec<Token>, i: usize) -> (r: Result<usize, usize>)
    requires
        i <= t@.len(),
    ensures
        match r {
            Ok(e) => group_end(t@, i as int) == Ok::<int, int>(e as int) && i < e <= t@.len(),
            Err(x) => group_end(t@, i as int) == Err::<int, int>(x as int),
        },
{
    let n = t.len();
    let open = i < n && match &t[i] {
        Token::Open(_) => true,
        _ => false,
    };
    if !open {
        return Err(i);
    }
    proof {
        lemma_close_from(t@, i + 1, 0);
    }
    match close_x(t, i + 1) {
        Some(c) => Ok(c + 1),
        None => Err(n),
    }
}

/// The captured parameters of a `use<..>` list from `k`.
fn cap_list_x(t: &Vec<Token>, k: usize) -> (r: Result<usize, usize>)
    requires
        t@.len() <= usize::MAX - 4,
        k <= t@.len(),
    ensures
        match r {
            Ok(e) => cap_list(t@, k as int) == Ok::<int, int>(e as int),
            Err(x) => cap_list(t@, k as int) == Err::<int, int>(x as int),
        },
    decreases t@.len() - k,
{
    if k >= t.len() {
        return Err(k);
    }
    if punct_here(t, k, '>') {
        return Ok(k + 1);
    }
    let a = if lifetime_here(t, k) {
        k + 2
    } else {
        let named = match &t[k] {
            Token::Ident(x) => !keyword(x) || eq_lit(x, "Self"),
            _ => false,
        };
        if named {
            k + 1
        } else {
            k
        }
    };
    if a == k {
        return Err(k);
    }
    if punct_here(t, a, '>') {
        return Ok(a + 1);
    }
    if punct_here(t, a, ',') {
        return cap_list_x(t, a + 1);
    }
    Err(a)
}

/// A `use<..>` list at `k`.
fn precise_x(t: &Vec<Token>, k: usize) -> (r: Result<usize, usize>)
    requires
        t@.len() <= usize::MAX - 4,
        k <= t@.len(),
    ensures
        match r {
            Ok(e) => precise(t@, k as int) == Ok::<int, int>(e as int) && k < e <= t@.len(),
            Err(x) => precise(t@, k as int) == Err::<int, int>(x as int),
        },
{
    proof {
        lemma_precise(t@, k as int);
    }
    if !kw_here(t, k, "use") {
        return Err(k);
    }
    if !punct_here(t, k + 1, '<') {
        return Err(k + 1);
    }
    cap_list_x(t, k + 2)
}

/// Whether the bounds from `k` up to `e` hold no trait.
fn no_trait_x(t: &Vec<Token>, k: usize, e: usize) -> (r: bool)
    requires
        t@.len() <= usize::MAX - 4,
        e <= t@.len(),
    ensures
        r == no_trait(t@, k as int, e as int),
    decreases e - k,
{
    if k >= e {
        return true;
    }
    let n = if lifetime_here(t, k) {
        k + 2
    } else {
        match precise_x(t, k) {
            Ok(x) => x,
            Err(_) => k,
        }
    };
    if n <= k {
        return false;
    }
    if n >= e {
        return true;
    }
    if punct_here(t, n, '+') {
        return no_trait_x(t, n + 1, e);
    }
    false
}

/// Whether the bounds from `k` up to `e` are lifetimes only.
fn lifetimes_only_x(t: &Vec<Token>, k: usize, e: usize) -> (r: bool)
    requires
        e <= t@.len(),
    ensures
        r == lifetimes_only(t@, k as int, e as int),
    decreases e - k,
{
    if k >= e {
        return true;
    }
    if !lifetime_here(t, k) {
        return false;
    }
    if e - k <= 2 {
        return true;
    }
    if punct_here(t, k + 2, '+') {
        return lifetimes_only_x(t, k + 3, e);
    }
    false
}

/// The bounds of a lifetime parameter from `k`.
fn lt_bounds_x(t: &Vec<Token>, k: usize) -> (r: Result<usize, usize>)
    requires
        t@.len() <= usize::MAX - 4,
        k <= t@.len(),
    ensures
        match r {
            Ok(e) => lt_bounds(t@, k as int) == Ok::<int, int>(e as int),
            Err(x) => lt_bounds(t@, k as int) == Err::<int, int>(x as int),
        },
    decreases t@.len() - k,
{
    if k >= t.len() || punct_here(t, k, ',') || punct_here(t, k, '>') {
        return Ok(k);
    }
    if lifetime_here(t, k) {
        if punct_here(t, k + 2, '+') {
            return lt_bounds_x(t, k + 3);
        }
        return Ok(k + 2);
    }
    Err(k)
}

/// The lifetime parameters of a binder from `k`.
fn lt_params_x(t: &Vec<Token>, k: usize) -> (r: Result<usize, usize>)
    requires
        t@.len() <= usize::MAX - 4,
        k <= t@.len(),
    ensures
        match r {
            Ok(e) => lt_params(t@, k as int) == Ok::<int, int>(e as int),
            Err(x) => lt_params(t@, k as int) == Err::<int, int>(x as int),
        },
    decreases t@.len() - k,
{
    if k >= t.len() {
        return Err(k);
    }
    if punct_here(t, k, '>') {
        return Ok(k + 1);
    }
    if !lifetime_here(t, k) {
        return Err(k);
    }
    proof {
        lemma_lt_bounds(t@, k + 3);
    }
    let e = if punct_here(t, k + 2, ':') {
        match lt_bounds_x(t, k + 3) {
            Ok(e) => e,
            Err(x) => {
                return Err(x);
            },
        }
    } else {
        k + 2
    };
    if punct_here(t, e, '>') {
        return Ok(e + 1);
    }
    if punct_here(t, e, ',') {
        return lt_params_x(t, e + 1);
    }
    Err(e)
}

/// A binder `for<..>` at `i`.
fn binder_x(t: &Vec<Token>, i: usize) -> (r: Result<usize, usize>)
    requires
        t@.len() <= usize::MAX - 4,
        i <= t@.len(),
    ensures
        match r {
            Ok(e) => binder(t@, i as int) == Ok::<int, int>(e as int) && i < e <= t@.len(),
            Err(x) => binder(t@, i as int) == Err::<int, int>(x as int),
        },
{
    proof {
        lemma_binder(t@, i as int);
    }
    if !kw_here(t, i, "for") {
        return Err(i);
    }
    if !punct_here(t, i + 1, '<') {
        return Err(i + 1);
    }
    lt_params_x(t, i + 2)
}

/// Whether the token at `i` can name a path segment.
fn seg_ident_x(t: &Vec<Token>, i: usize) -> (r: bool)
    ensures
        r == seg_ident(t@, i as int),
{
    if i < t.len() {
        match &t[i] {
            Token::Ident(x) => !keyword(x) || eq_lit(x, "self") || eq_lit(x, "super") || eq_lit(
                x,
                "crate",
            ) || eq_lit(x, "try") || eq_lit(x, "Self"),
            _ => false,
        }
    } else {
        false
    }
}

/// Whether a bound can start at `k`.
fn bound_start_x(t: &Vec<Token>, k: usize, cst: bool) -> (r: bool)
    ensures
        r == bound_start(t@, k as int, cst),
{
    ident_here(t, k) || colon2_here(t, k) || punct_here(t, k, '?') || lifetime_here(t, k)
        || open_here(t, k, Delim::Paren) || (cst && (open_here(t, k, Delim::Bracket) || kw_here(
        t,
        k,
        "const",
    )))
}

/// The type that starts at `i`; `plus` tells whether `+` may continue it.
pub fn ty_x(t: &Vec<Token>, i: usize, plus: bool) -> (r: Result<(TyKind, usize), usize>)
    requires
        t@.len() <= usize::MAX - 4,
        i <= t@.len(),
    ensures
        match r {
            Ok((k, j)) => ty_at(t@, i as int, plus) == Ok::<(TyKind, int), int>((k, j as int))
                && j <= t@.len(),
            Err(x) => ty_at(t@, i as int, plus) == Err::<(TyKind, int), int>(x as int),
        },
    decreases t@.len() - i, 11nat,
{
    let n = t.len();
    if i >= n {
        return Err(i);
    }
    if kw_here(t, i, "for") {
        return match binder_x(t, i) {
            Ok(b) => bound_ty_x(t, b, plus),
            Err(x) => Err(x),
        };
    }
    if open_here(t, i, Delim::Paren) {
        return paren_x(t, i, plus);
    }
    if kw_here(t, i, "fn") || kw_here(t, i, "unsafe") || kw_here(t, i, "extern") {
        return match bare_fn_x(t, i) {
            Ok(e) => Ok((TyKind::Other, e)),
            Err(x) => Err(x),
        };
    }
    if seg_ident_x(t, i) || colon2_here(t, i) || punct_here(t, i, '<') {
        let (p, j) = match type_path_x(t, i) {
            Ok(x) => x,
            Err(x) => {
                return Err(x);
            },
        };
        if j <= i {
            return Err(i);
        }
        if p.qualified {
            return Ok((TyKind::Path(p), j));
        }
        if punct_here(t, j, '!') && p.mod_style {
            return match group_end_x(t, j + 1) {
                Ok(e) => Ok((TyKind::Other, e)),
                Err(x) => Err(x),
            };
        }
        if plus && punct_here(t, j, '+') {
            return match plus_tail_x(t, j, false) {
                Ok(e) => Ok((TyKind::Other, e)),
                Err(x) => Err(x),
            };
        }
        return Ok((TyKind::Path(p), j));
    }
    if kw_here(t, i, "dyn") {
        let k = if punct_here(t, i + 1, '*') {
            i + 2
        } else {
            i + 1
        };
        return match bounds_x(t, k, plus, false) {
            Ok(e) => if lifetimes_only_x(t, k, e) {
                Err(i)
            } else {
                Ok((TyKind::Other, e))
            },
            Err(x) => Err(x),
        };
    }
    if open_here(t, i, Delim::Bracket) {
        return bracket_x(t, i);
    }
    if punct_here(t, i, '*') {
        if kw_here(t, i + 1, "const") || kw_here(t, i + 1, "mut") {
            return match ty_x(t, i + 2, false) {
                Ok((_, e)) => Ok((TyKind::Other, e)),
                Err(x) => Err(x),
            };
        }
        return Err(i + 1);
    }
    if punct_here(t, i, '&') {
        let k1 = if lifetime_here(t, i + 1) {
            i + 3
        } else {
            i + 1
        };
        let k2 = if kw_here(t, k1, "mut") {
            k1 + 1
        } else {
            k1
        };
        return match ty_x(t, k2, false) {
            Ok((_, e)) => Ok((TyKind::Other, e)),
            Err(x) => Err(x),
        };
    }
    if punct_here(t, i, '!') {
        return Ok((TyKind::Other, i + 1));
    }
    if kw_here(t, i, "impl") {
        return match bounds_x(t, i + 1, plus, true) {
            Ok(e) => if no_trait_x(t, i + 1, e) {
                Err(i)
            } else {
                Ok((TyKind::Other, e))
            },
            Err(x) => Err(x),
        };
    }
    if kw_here(t, i, "_") {
        return Ok((TyKind::Other, i + 1));
    }
    if lifetime_here(t, i) {
        return match bounds_x(t, i, plus, false) {
            Ok(e) => if lifetimes_only_x(t, i, e) {
                Err(i)
            } else {
                Ok((TyKind::Other, e))
            },
            Err(x) => Err(x),
        };
    }
    Err(i)
}

/// A type in parentheses at `i`.
fn paren_x(t: &Vec<Token>, i: usize, plus: bool) -> (r: Result<(TyKind, usize), usize>)
    requires
        t@.len() <= usize::MAX - 4,
        i < t@.len(),
    ensures
        match r {
            Ok((k, j)) => paren_ty(t@, i as int, plus) == Ok::<(TyKind, int), int>((k, j as int))
                && j <= t@.len(),
            Err(x) => paren_ty(t@, i as int, plus) == Err::<(TyKind, int), int>(x as int),
        },
    decreases t@.len() - i, 10nat,
{
    let n = t.len();
    let c = match close_x(t, i + 1) {
        Some(c) => c,
        None => {
            return Err(n);
        },
    };
    proof {
        lemma_close_from(t@, i + 1, 0);
    }
    if c == i + 1 {
        return Ok((TyKind::Other, c + 1));
    }
    if lifetime_here(t, i + 1) {
        return match bounds_x(t, i + 1, true, false) {
            Ok(e) => if e != c {
                Err(e)
            } else if lifetimes_only_x(t, i + 1, c) {
                Err(i + 1)
            } else {
                Ok((TyKind::Other, c + 1))
            },
            Err(x) => Err(x),
        };
    }
    if punct_here(t, i + 1, '?') {
        let e = match trait_bound_x(t, i + 1, false) {
            Ok(e) => e,
            Err(x) => {
                return Err(x);
            },
        };
        if e <= i + 1 {
            return Err(i + 1);
        }
        if e != c {
            return Err(e);
        }
        return match plus_all_x(t, c + 1) {
            Ok(f) => Ok((TyKind::Other, f)),
            Err(x) => Err(x),
        };
    }
    let (k, j) = match ty_x(t, i + 1, true) {
        Ok(x) => x,
        Err(x) => {
            return Err(x);
        },
    };
    if j <= i + 1 {
        return Err(i + 1);
    }
    if punct_here(t, j, ',') {
        return match ty_list_x(t, j + 1) {
            Ok(e) => if e == c {
                Ok((TyKind::Other, c + 1))
            } else {
                Err(e)
            },
            Err(x) => Err(x),
        };
    }
    if j != c {
        return Err(j);
    }
    let path = match &k {
        TyKind::Path(p) => !p.qualified,
        TyKind::Other => false,
    };
    if plus && punct_here(t, c + 1, '+') && (path || one_bound_object_x(t, i + 1, c)) {
        return match plus_all_x(t, c + 1) {
            Ok(e) => Ok((TyKind::Other, e)),
            Err(x) => Err(x),
        };
    }
    Ok((TyKind::Other, c + 1))
}

/// Whether the tokens from `s` up to `c` are a trait object of one bound.
fn one_bound_object_x(t: &Vec<Token>, s: usize, c: usize) -> (r: bool)
    requires
        t@.len() <= usize::MAX - 4,
        s <= t@.len(),
    ensures
        r == one_bound_object(t@, s as int, c as int),
    decreases t@.len() - s, 9nat,
{
    if s >= t.len() || !kw_here(t, s, "for") {
        return false;
    }
    let b = match binder_x(t, s) {
        Ok(b) => b,
        Err(_) => {
            return false;
        },
    };
    if kw_here(t, b, "fn") || kw_here(t, b, "unsafe") || kw_here(t, b, "extern") || !ident_here(
        t,
        b,
    ) {
        return false;
    }
    match type_path_x(t, b) {
        Ok((_, j)) => j > b && j == c,
        Err(_) => false,
    }
}

/// The rest of a tuple's types from `k`, up to its close.
fn ty_list_x(t: &Vec<Token>, k: usize) -> (r: Result<usize, usize>)
    requires
        t@.len() <= usize::MAX - 4,
        k <= t@.len(),
    ensures
        match r {
            Ok(e) => ty_list(t@, k as int) == Ok::<int, int>(e as int) && e <= t@.len(),
            Err(x) => ty_list(t@, k as int) == Err::<int, int>(x as int),
        },
    decreases t@.len() - k, 14nat,
{
    if k >= t.len() {
        return Err(k);
    }
    if close_here(t, k) {
        return Ok(k);
    }
    let j = match ty_x(t, k, true) {
        Ok((_, j)) => j,
        Err(x) => {
            return Err(x);
        },
    };
    if j <= k {
        return Err(k);
    }
    if close_here(t, j) {
        return Ok(j);
    }
    if punct_here(t, j, ',') {
        return ty_list_x(t, j + 1);
    }
    Err(j)
}

/// An array or slice type at `i`.
fn bracket_x(t: &Vec<Token>, i: usize) -> (r: Result<(TyKind, usize), usize>)
    requires
        t@.len() <= usize::MAX - 4,
        i < t@.len(),
    ensures
        match r {
            Ok((k, j)) => bracket_ty(t@, i as int) == Ok::<(TyKind, int), int>((k, j as int))
                && j <= t@.len(),
            Err(x) => bracket_ty(t@, i as int) == Err::<(TyKind, int), int>(x as int),
        },
    decreases t@.len() - i, 10nat,
{
    let n = t.len();
    let c = match close_x(t, i + 1) {
        Some(c) => c,
        None => {
            return Err(n);
        },
    };
    let j = match ty_x(t, i + 1, true) {
        Ok((_, j)) => j,
        Err(x) => {
            return Err(x);
        },
    };
    if j == c || (punct_here(t, j, ';') && j + 1 < c) {
        Ok((TyKind::Other, c + 1))
    } else {
        Err(j)
    }
}

/// A function pointer type at `i`.
fn bare_fn_x(t: &Vec<Token>, i: usize) -> (r: Result<usize, usize>)
    requires
        t@.len() <= usize::MAX - 4,
        i <= t@.len(),
    ensures
        match r {
            Ok(e) => bare_fn(t@, i as int) == Ok::<int, int>(e as int) && e <= t@.len(),
            Err(x) => bare_fn(t@, i as int) == Err::<int, int>(x as int),
        },
    decreases t@.len() - i, 10nat,
{
    let k1 = if kw_here(t, i, "unsafe") {
        i + 1
    } else {
        i
    };
    let k2 = if kw_here(t, k1, "extern") {
        if literal_here(t, k1 + 1) {
            k1 + 2
        } else {
            k1 + 1
        }
    } else {
        k1
    };
    if !kw_here(t, k2, "fn") || !open_here(t, k2 + 1, Delim::Paren) {
        return Err(k2);
    }
    let e = match group_end_x(t, k2 + 1) {
        Ok(e) => e,
        Err(x) => {
            return Err(x);
        },
    };
    if arrow_here(t, e) {
        match ty_x(t, e + 2, false) {
            Ok((_, f)) => Ok(f),
            Err(x) => Err(x),
        }
    } else {
        Ok(e)
    }
}

/// A type path at `i`, with or without a qualified self.
fn type_path_x(t: &Vec<Token>, i: usize) -> (r: Result<(PathInfo, usize), usize>)
    requires
        t@.len() <= usize::MAX - 4,
        i <= t@.len(),
    ensures
        match r {
            Ok((p, j)) => type_path(t@, i as int) == Ok::<(PathInfo, int), int>((p, j as int))
                && j <= t@.len(),
            Err(x) => type_path(t@, i as int) == Err::<(PathInfo, int), int>(x as int),
        },
    decreases t@.len() - i, 8nat,
{
    if i >= t.len() {
        return Err(i);
    }
    if !punct_here(t, i, '<') {
        return path_x(t, i);
    }
    let j = match ty_x(t, i + 1, true) {
        Ok((_, j)) => j,
        Err(x) => {
            return Err(x);
        },
    };
    if j <= i + 1 {
        return Err(i + 1);
    }
    if kw_here(t, j, "as") {
        let (tp, k) = match path_x(t, j + 1) {
            Ok(x) => x,
            Err(x) => {
                return Err(x);
            },
        };
        if k <= j + 1 {
            return Err(j + 1);
        }
        if !punct_here(t, k, '>') {
            return Err(k);
        }
        if !colon2_here(t, k + 1) {
            return Err(k + 1);
        }
        match seg_list_x(t, k + 3, false) {
            Err(x) => Err(x),
            Ok((rest, e)) => Ok(
                (
                    PathInfo {
                        qualified: true,
                        leading: tp.leading,
                        single: false,
                        first: tp.first,
                        first_args: tp.first_args,
                        mod_style: tp.mod_style && rest.mod_style,
                        last_plain: rest.last_plain,
                    },
                    e,
                ),
            ),
        }
    } else if !punct_here(t, j, '>') {
        Err(j)
    } else if !colon2_here(t, j + 1) {
        Err(j + 1)
    } else {
        match seg_list_x(t, j + 3, false) {
            Err(x) => Err(x),
            Ok((rest, e)) => Ok(
                (
                    PathInfo {
                        qualified: true,
                        leading: true,
                        single: rest.single,
                        first: rest.first,
                        first_args: rest.first_args,
                        mod_style: rest.mod_style,
                        last_plain: rest.last_plain,
                    },
                    e,
                ),
            ),
        }
    }
}

/// A path at `i`.
fn path_x(t: &Vec<Token>, i: usize) -> (r: Result<(PathInfo, usize), usize>)
    requires
        t@.len() <= usize::MAX - 4,
        i <= t@.len(),
    ensures
        match r {
            Ok((p, j)) => path(t@, i as int) == Ok::<(PathInfo, int), int>((p, j as int)) && j
                <= t@.len(),
            Err(x) => path(t@, i as int) == Err::<(PathInfo, int), int>(x as int),
        },
    decreases t@.len() - i, 6nat,
{
    if i >= t.len() {
        return Err(i);
    }
    if colon2_here(t, i) {
        match seg_list_x(t, i + 2, true) {
            Ok((p, e)) => Ok(
                (
                    PathInfo {
                        qualified: false,
                        leading: true,
                        single: p.single,
                        first: p.first,
                        first_args: p.first_args,
                        mod_style: p.mod_style,
                        last_plain: p.last_plain,
                    },
                    e,
                ),
            ),
            Err(x) => Err(x),
        }
    } else {
        seg_list_x(t, i, true)
    }
}

/// The segments from `k`, separated by `::`.
fn seg_list_x(t: &Vec<Token>, k: usize, stop_at_paren: bool) -> (r: Result<(PathInfo, usize), usize>)
    requires
        t@.len() <= usize::MAX - 4,
        k <= t@.len(),
    ensures
        match r {
            Ok((p, j)) => seg_list(t@, k as int, stop_at_paren) == Ok::<(PathInfo, int), int>(
                (p, j as int),
            ) && j <= t@.len(),
            Err(x) => seg_list(t@, k as int, stop_at_paren) == Err::<(PathInfo, int), int>(
                x as int,
            ),
        },
    decreases t@.len() - k, 5nat,
{
    if k >= t.len() {
        return Err(k);
    }
    let ((name, args), e) = match segment_x(t, k) {
        Ok(x) => x,
        Err(x) => {
            return Err(x);
        },
    };
    if e <= k {
        return Err(k);
    }
    let plain = match &args {
        ArgsInfo::Plain => true,
        _ => false,
    };
    if colon2_here(t, e) && !(stop_at_paren && open_here(t, e + 2, Delim::Paren)) {
        match seg_list_x(t, e + 2, stop_at_paren) {
            Ok((rest, f)) => Ok(
                (
                    PathInfo {
                        qualified: false,
                        leading: false,
                        single: false,
                        first: name,
                        first_args: args,
                        mod_style: plain && rest.mod_style,
                        last_plain: rest.last_plain,
                    },
                    f,
                ),
            ),
            Err(x) => Err(x),
        }
    } else {
        Ok(
            (
                PathInfo {
                    qualified: false,
                    leading: false,
                    single: true,
                    first: name,
                    first_args: args,
                    mod_style: plain,
                    last_plain: plain,
                },
                e,
            ),
        )
    }
}

/// A path segment at `i`.
fn segment_x(t: &Vec<Token>, i: usize) -> (r: Result<((Token, ArgsInfo), usize), usize>)
    requires
        t@.len() <= usize::MAX - 4,
        i <= t@.len(),
    ensures
        match r {
            Ok((s, j)) => segment(t@, i as int) == Ok::<((Token, ArgsInfo), int), int>(
                (s, j as int),
            ) && j <= t@.len(),
            Err(x) => segment(t@, i as int) == Err::<((Token, ArgsInfo), int), int>(x as int),
        },
    decreases t@.len() - i, 4nat,
{
    if !seg_ident_x(t, i) {
        return Err(i);
    }
    let name = t[i].duplicate();
    let no_args = match &t[i] {
        Token::Ident(x) => eq_lit(x, "self") || eq_lit(x, "super") || eq_lit(x, "crate")
            || eq_lit(x, "try"),
        _ => false,
    };
    if no_args {
        return Ok(((name, ArgsInfo::Plain), i + 1));
    }
    if punct_here(t, i + 1, '<') {
        return match args_x(t, i + 1) {
            Ok((a, e)) => Ok(((name, a), e)),
            Err(x) => Err(x),
        };
    }
    if colon2_here(t, i + 1) && punct_here(t, i + 3, '<') {
        return match args_x(t, i + 3) {
            Ok((a, e)) => Ok(((name, a), e)),
            Err(x) => Err(x),
        };
    }
    Ok(((name, ArgsInfo::Plain), i + 1))
}

/// Angle-bracketed arguments whose `<` is at `i`.
fn args_x(t: &Vec<Token>, i: usize) -> (r: Result<(ArgsInfo, usize), usize>)
    requires
        t@.len() <= usize::MAX - 4,
        i <= t@.len(),
    ensures
        match r {
            Ok((a, j)) => args(t@, i as int) == Ok::<(ArgsInfo, int), int>((a, j as int)) && j
                <= t@.len(),
            Err(x) => args(t@, i as int) == Err::<(ArgsInfo, int), int>(x as int),
        },
    decreases t@.len() - i, 3nat,
{
    if i >= t.len() {
        return Err(i);
    }
    match arg_list_x(t, i + 1) {
        Ok(((n, first), e)) => Ok((ArgsInfo::Angle(n, first), e)),
        Err(x) => Err(x),
    }
}

/// The arguments from `k` up to and past the closing `>`.
fn arg_list_x(t: &Vec<Token>, k: usize) -> (r: Result<((ArgCount, Option<Token>), usize), usize>)
    requires
        t@.len() <= usize::MAX - 4,
        k <= t@.len(),
    ensures
        match r {
            Ok((a, j)) => arg_list(t@, k as int) == Ok::<((ArgCount, Option<Token>), int), int>(
                (a, j as int),
            ) && j <= t@.len(),
            Err(x) => arg_list(t@, k as int) == Err::<((ArgCount, Option<Token>), int), int>(
                x as int,
            ),
        },
    decreases t@.len() - k, 13nat,
{
    if k >= t.len() {
        return Err(k);
    }
    if punct_here(t, k, '>') {
        return Ok(((ArgCount::Zero, None), k + 1));
    }
    let (a, j) = match arg_x(t, k) {
        Ok(x) => x,
        Err(x) => {
            return Err(x);
        },
    };
    if j <= k {
        return Err(k);
    }
    if punct_here(t, j, '>') {
        return Ok(((ArgCount::One, a), j + 1));
    }
    if punct_here(t, j, ',') {
        return match arg_list_x(t, j + 1) {
            Ok(((n, _), e)) => Ok(
                (
                    (
                        if n == ArgCount::Zero {
                            ArgCount::One
                        } else {
                            ArgCount::Many
                        },
                        a,
                    ),
                    e,
                ),
            ),
            Err(x) => Err(x),
        };
    }
    Err(j)
}

/// One generic argument at `k`.
fn arg_x(t: &Vec<Token>, k: usize) -> (r: Result<(Option<Token>, usize), usize>)
    requires
        t@.len() <= usize::MAX - 4,
        k <= t@.len(),
    ensures
        match r {
            Ok((a, j)) => arg(t@, k as int) == Ok::<(Option<Token>, int), int>((a, j as int)) && j
                <= t@.len(),
            Err(x) => arg(t@, k as int) == Err::<(Option<Token>, int), int>(x as int),
        },
    decreases t@.len() - k, 12nat,
{
    if k >= t.len() {
        return Err(k);
    }
    if lifetime_here(t, k) && !punct_here(t, k + 2, '+') {
        return Ok((None, k + 2));
    }
    if literal_here(t, k) {
        return Ok((None, k + 1));
    }
    if open_here(t, k, Delim::Brace) {
        return match group_end_x(t, k) {
            Ok(e) => Ok((None, e)),
            Err(x) => Err(x),
        };
    }
    let (ty, j) = match ty_x(t, k, true) {
        Ok(x) => x,
        Err(x) => {
            return Err(x);
        },
    };
    if j <= k {
        return Err(k);
    }
    arg_rest_x(t, k, ty, j)
}

/// The rest of a generic argument that starts at `k` with the type `ty`,
/// which ends at `j`.
#[verifier::rlimit(40)]
fn arg_rest_x(t: &Vec<Token>, k: usize, ty: TyKind, j: usize) -> (r: Result<
    (Option<Token>, usize),
    usize,
>)
    requires
        t@.len() <= usize::MAX - 4,
        k < j <= t@.len(),
    ensures
        match r {
            Ok((a, e)) => arg_rest(t@, k as int, ty, j as int) == Ok::<(Option<Token>, int), int>(
                (a, e as int),
            ) && e <= t@.len(),
            Err(x) => arg_rest(t@, k as int, ty, j as int) == Err::<(Option<Token>, int), int>(
                x as int,
            ),
        },
    decreases t@.len() - k, 11nat,
{
    let candidate = match &ty {
        TyKind::Path(p) => !p.qualified && !p.leading && p.single,
        TyKind::Other => false,
    };
    assert(candidate == assoc_candidate(ty));
    if candidate && punct_here(t, j, '=') {
        if literal_here(t, j + 1) {
            return Ok((None, j + 2));
        }
        if open_here(t, j + 1, Delim::Brace) {
            return match group_end_x(t, j + 1) {
                Ok(e) => Ok((None, e)),
                Err(x) => Err(x),
            };
        }
        return match ty_x(t, j + 1, true) {
            Ok((_, e)) => Ok((None, e)),
            Err(x) => Err(x),
        };
    }
    if candidate && punct_here(t, j, ':') && !colon2_here(t, j) {
        return match cbounds_x(t, j + 1) {
            Ok(e) => Ok((None, e)),
            Err(x) => Err(x),
        };
    }
    let name = match ty {
        TyKind::Path(p) => {
            let plain = match &p.first_args {
                ArgsInfo::Plain => true,
                _ => false,
            };
            if !p.leading && p.single && plain {
                Some(p.first)
            } else {
                None
            }
        },
        TyKind::Other => None,
    };
    Ok((name, j))
}

/// Bounds from `i`.
fn bounds_x(t: &Vec<Token>, i: usize, plus: bool, cst: bool) -> (r: Result<usize, usize>)
    requires
        t@.len() <= usize::MAX - 4,
        i <= t@.len(),
    ensures
        match r {
            Ok(e) => bounds(t@, i as int, plus, cst) == Ok::<int, int>(e as int) && e <= t@.len(),
            Err(x) => bounds(t@, i as int, plus, cst) == Err::<int, int>(x as int),
        },
    decreases t@.len() - i, 9nat,
{
    if i >= t.len() {
        return Err(i);
    }
    let e = match bound_x(t, i, cst) {
        Ok(e) => e,
        Err(x) => {
            return Err(x);
        },
    };
    if e <= i {
        return Err(i);
    }
    if plus {
        plus_tail_x(t, e, cst)
    } else {
        Ok(e)
    }
}

/// More bounds after a `+` at `j`.
fn plus_tail_x(t: &Vec<Token>, j: usize, cst: bool) -> (r: Result<usize, usize>)
    requires
        t@.len() <= usize::MAX - 4,
        j <= t@.len(),
    ensures
        match r {
            Ok(e) => plus_tail(t@, j as int, cst) == Ok::<int, int>(e as int) && e <= t@.len(),
            Err(x) => plus_tail(t@, j as int, cst) == Err::<int, int>(x as int),
        },
    decreases t@.len() - j, 3nat,
{
    if j >= t.len() || !punct_here(t, j, '+') {
        return Ok(j);
    }
    if bound_start_x(t, j + 1, cst) {
        let e = match bound_x(t, j + 1, cst) {
            Ok(e) => e,
            Err(x) => {
                return Err(x);
            },
        };
        if e <= j + 1 {
            return Err(j + 1);
        }
        plus_tail_x(t, e, cst)
    } else {
        Ok(j + 1)
    }
}

/// The bounds of an associated type's constraint from `k`.
fn cbounds_x(t: &Vec<Token>, k: usize) -> (r: Result<usize, usize>)
    requires
        t@.len() <= usize::MAX - 4,
        k <= t@.len(),
    ensures
        match r {
            Ok(e) => cbounds(t@, k as int) == Ok::<int, int>(e as int) && e <= t@.len(),
            Err(x) => cbounds(t@, k as int) == Err::<int, int>(x as int),
        },
    decreases t@.len() - k, 9nat,
{
    if k >= t.len() {
        return Err(k);
    }
    if punct_here(t, k, ',') || punct_here(t, k, '>') {
        return Ok(k);
    }
    let e = match bound_x(t, k, true) {
        Ok(e) => e,
        Err(x) => {
            return Err(x);
        },
    };
    if e <= k {
        return Err(k);
    }
    if punct_here(t, e, '+') {
        return cbounds_x(t, e + 1);
    }
    Ok(e)
}

/// One bound at `k`.
fn bound_x(t: &Vec<Token>, k: usize, cst: bool) -> (r: Result<usize, usize>)
    requires
        t@.len() <= usize::MAX - 4,
        k <= t@.len(),
    ensures
        match r {
            Ok(e) => bound(t@, k as int, cst) == Ok::<int, int>(e as int) && e <= t@.len(),
            Err(x) => bound(t@, k as int, cst) == Err::<int, int>(x as int),
        },
    decreases t@.len() - k, 8nat,
{
    if k >= t.len() {
        return Err(k);
    }
    if lifetime_here(t, k) {
        return Ok(k + 2);
    }
    if kw_here(t, k, "use") {
        if cst {
            return precise_x(t, k);
        }
        return Err(k);
    }
    if open_here(t, k, Delim::Paren) {
        let c = match close_x(t, k + 1) {
            Some(c) => c,
            None => {
                return Err(t.len());
            },
        };
        proof {
            lemma_close_from(t@, k + 1, 0);
        }
        let e = match trait_bound_x(t, k + 1, cst) {
            Ok(e) => e,
            Err(x) => {
                return Err(x);
            },
        };
        if e <= k + 1 {
            return Err(k + 1);
        }
        if e == c {
            return Ok(c + 1);
        }
        return Err(e);
    }
    trait_bound_x(t, k, cst)
}

/// A trait bound at `k`.
#[verifier::rlimit(40)]
fn trait_bound_x(t: &Vec<Token>, k: usize, cst: bool) -> (r: Result<usize, usize>)
    requires
        t@.len() <= usize::MAX - 4,
        k <= t@.len(),
    ensures
        match r {
            Ok(e) => trait_bound(t@, k as int, cst) == Ok::<int, int>(e as int) && e <= t@.len(),
            Err(x) => trait_bound(t@, k as int, cst) == Err::<int, int>(x as int),
        },
    decreases t@.len() - k, 7nat,
{
    if k >= t.len() {
        return Err(k);
    }
    let k0 = if kw_here(t, k, "for") {
        match binder_x(t, k) {
            Ok(b) => b,
            Err(x) => {
                return Err(x);
            },
        }
    } else {
        k
    };
    let c = if cst && open_here(t, k0, Delim::Bracket) && kw_here(t, k0 + 1, "const")
        && close_here(t, k0 + 2) {
        k0 + 3
    } else if cst && kw_here(t, k0, "const") {
        k0 + 1
    } else {
        k0
    };
    let k1 = if !punct_here(t, c, '?') {
        c
    } else if k0 > k {
        return Err(c);
    } else if kw_here(t, c + 1, "for") {
        return Err(c + 1);
    } else {
        c + 1
    };
    let (p, e) = match path_x(t, k1) {
        Ok(x) => x,
        Err(x) => {
            return Err(x);
        },
    };
    if e <= k1 {
        return Err(k1);
    }
    if p.last_plain && (open_here(t, e, Delim::Paren) || (colon2_here(t, e) && open_here(
        t,
        e + 2,
        Delim::Paren,
    ))) {
        let g = if open_here(t, e, Delim::Paren) {
            e
        } else {
            e + 2
        };
        let f = match group_end_x(t, g) {
            Ok(f) => f,
            Err(x) => {
                return Err(x);
            },
        };
        if arrow_here(t, f) {
            match ty_x(t, f + 2, false) {
                Ok((_, h)) => Ok(h),
                Err(x) => Err(x),
            }
        } else {
            Ok(f)
        }
    } else {
        Ok(e)
    }
}

/// Bounds after a `+` at `j`, each `+` followed by a bound.
fn plus_all_x(t: &Vec<Token>, j: usize) -> (r: Result<usize, usize>)
    requires
        t@.len() <= usize::MAX - 4,
        j <= t@.len(),
    ensures
        match r {
            Ok(e) => plus_all(t@, j as int) == Ok::<int, int>(e as int) && e <= t@.len(),
            Err(x) => plus_all(t@, j as int) == Err::<int, int>(x as int),
        },
    decreases t@.len() - j, 3nat,
{
    if j >= t.len() || !punct_here(t, j, '+') {
        return Ok(j);
    }
    let e = match bound_x(t, j + 1, false) {
        Ok(e) => e,
        Err(x) => {
            return Err(x);
        },
    };
    if e <= j + 1 {
        return Err(j + 1);
    }
    plus_all_x(t, e)
}

/// The type at `b`, after a binder.
fn bound_ty_x(t: &Vec<Token>, b: usize, plus: bool) -> (r: Result<(TyKind, usize), usize>)
    requires
        t@.len() <= usize::MAX - 4,
        b <= t@.len(),
    ensures
        match r {
            Ok((k, j)) => bound_ty(t@, b as int, plus) == Ok::<(TyKind, int), int>(
                (k, j as int),
            ) && j <= t@.len(),
            Err(x) => bound_ty(t@, b as int, plus) == Err::<(TyKind, int), int>(x as int),
        },
    decreases t@.len() - b, 12nat,
{
    if b >= t.len() {
        return Err(b);
    }
    if kw_here(t, b, "fn") || kw_here(t, b, "unsafe") || kw_here(t, b, "extern") {
        return match bare_fn_x(t, b) {
            Ok(e) => Ok((TyKind::Other, e)),
            Err(x) => Err(x),
        };
    }
    let named = match &t[b] {
        Token::Ident(x) => !keyword(x) || eq_lit(x, "super") || eq_lit(x, "self") || eq_lit(
            x,
            "Self",
        ) || eq_lit(x, "crate"),
        _ => false,
    };
    if !named {
        return Err(b);
    }
    let (p, j) = match type_path_x(t, b) {
        Ok(x) => x,
        Err(x) => {
            return Err(x);
        },
    };
    if j <= b {
        return Err(b);
    }
    if punct_here(t, j, '!') && p.mod_style {
        return match group_end_x(t, j + 1) {
            Ok(e) => Ok((TyKind::Other, e)),
            Err(x) => Err(x),
        };
    }
    if plus && punct_here(t, j, '+') {
        return match plus_tail_x(t, j, false) {
            Ok(e) => Ok((TyKind::Other, e)),
            Err(x) => Err(x),
        };
    }
    Ok((TyKind::Other, j))
}

} // verus!
