//! How an accessor of a generated record turns a stored JSON value into the
//! column's type, decided from the tokens of that type.
//!
//! * one of `UncoId`, `i64`, `u64`, `f64`, `bool`: deserialize it, or take
//!   the type's default;
//! * `String`: the text of a JSON string, or the empty string;
//! * any other single name `T`: deserialize it, or build it with `T::from`;
//! * `Vec<T>` with `T` a single name: deserialize the vector, or take it empty;
//! * any other path whose first segment has generic arguments that are not
//!   exactly one argument, or one that is a single name; and any type that is
//!   not a path (a tuple, a reference, a trait object, ...): the text
//!   conversion of a string;
//! * the remaining paths are not supported: a first segment without generic
//!   arguments (in a path that is not a single name), one generic argument
//!   that is not a single name, or a `Vec` without exactly one single-name
//!   argument.

use vstd::prelude::*;
use crate::text::eq_lit;
use crate::rtype::{TyKind, ArgsInfo, ArgCount};
use crate::token::{Token, ident_text};

verus! {

/// The conversion, as text.
pub enum ConversionV {
    Typed(Seq<char>),
    Text,
    Convert(Seq<char>),
    List(Seq<char>),
    Fallback,
}

/// The conversion an accessor applies to a stored value.
#[derive(Debug)]
pub enum Conversion {
    /// Deserialize as the named type, or take its default.
    Typed(String),
    /// The text of a JSON string, or the empty string.
    Text,
    /// Deserialize as the named type, or build it from the value with `from`.
    Convert(String),
    /// Deserialize as a vector of the named type, or take an empty vector.
    List(String),
    /// Deserialize as a string, or convert the value into one.
    Fallback,
}

impl View for Conversion {
    type V = ConversionV;

    open spec fn view(&self) -> ConversionV {
        match self {
            Conversion::Typed(s) => ConversionV::Typed(s@),
            Conversion::Text => ConversionV::Text,
            Conversion::Convert(s) => ConversionV::Convert(s@),
            Conversion::List(s) => ConversionV::List(s@),
            Conversion::Fallback => ConversionV::Fallback,
        }
    }
}

/// The names that are deserialized or defaulted.
pub open spec fn typed_word(x: Seq<char>) -> bool {
    x == "UncoId"@ || x == "i64"@ || x == "u64"@ || x == "f64"@ || x == "bool"@
}

/// The conversion for a column whose type has the shape `k`, if supported.
pub open spec fn conversion_of(k: TyKind) -> Option<ConversionV> {
    match k {
        TyKind::Other => Some(ConversionV::Fallback),
        TyKind::Path(p) => if !p.leading && p.single && p.first_args is Plain {
            let x = ident_text(p.first);
            if typed_word(x) {
                Some(ConversionV::Typed(x))
            } else if x == "String"@ {
                Some(ConversionV::Text)
            } else {
                Some(ConversionV::Convert(x))
            }
        } else {
            match p.first_args {
                ArgsInfo::Plain => None,
                ArgsInfo::Angle(n, name) => if ident_text(p.first) == "Vec"@ {
                    if n == ArgCount::One && name is Some {
                        Some(ConversionV::List(ident_text(name->0)))
                    } else {
                        None
                    }
                } else if n == ArgCount::One && name is None {
                    None
                } else {
                    Some(ConversionV::Fallback)
                },
            }
        },
    }
}

/// The text of an identifier token.
fn text_of(t: &Token) -> (r: String)
    ensures
        r@ == ident_text(*t),
{
    match t {
        Token::Ident(x) => x.clone(),
        _ => String::new(),
    }
}

/// The conversion for a column whose type has the shape `k`, or `None` when
/// that shape is not supported.
pub fn classify(k: &TyKind) -> (r: Option<Conversion>)
    ensures
        match r {
            Some(c) => conversion_of(*k) == Some(c@),
            None => conversion_of(*k) is None,
        },
{
    match k {
        TyKind::Other => Some(Conversion::Fallback),
        TyKind::Path(p) => {
            let plain = match &p.first_args {
                ArgsInfo::Plain => true,
                _ => false,
            };
            let x = text_of(&p.first);
            if !p.leading && p.single && plain {
                if eq_lit(&x, "UncoId") || eq_lit(&x, "i64") || eq_lit(&x, "u64") || eq_lit(
                    &x,
                    "f64",
                ) || eq_lit(&x, "bool") {
                    Some(Conversion::Typed(x))
                } else if eq_lit(&x, "String") {
                    Some(Conversion::Text)
                } else {
                    Some(Conversion::Convert(x))
                }
            } else {
                match &p.first_args {
                    ArgsInfo::Plain => None,
                    ArgsInfo::Angle(n, name) => {
                        if eq_lit(&x, "Vec") {
                            match name {
                                Some(t) => if *n == ArgCount::One {
                                    Some(Conversion::List(text_of(t)))
                                } else {
                                    None
                                },
                                None => None,
                            }
                        } else if *n == ArgCount::One && name.is_none() {
                            None
                        } else {
                            Some(Conversion::Fallback)
                        }
                    },
                }
            }
        },
    }
}

/// A column whose type is a single plain name `x` is converted by
/// deserializing (falling back to the default) exactly when `x` is one of
/// `UncoId`, `i64`, `u64`, `f64` and `bool`; by taking the text of a JSON
/// string when `x` is `String`; and by deserializing or converting with
/// `x::from` for any other name.
pub proof fn law_single_name_conversion(k: TyKind)
    requires
        k matches TyKind::Path(p) && !p.leading && p.single && p.first_args is Plain,
    ensures
        ({
            let x = ident_text(k->Path_0.first);
            let typed = x == "UncoId"@ || x == "i64"@ || x == "u64"@ || x == "f64"@ || x
                == "bool"@;
            &&& typed ==> conversion_of(k) == Some(ConversionV::Typed(x))
            &&& x == "String"@ ==> conversion_of(k) == Some(ConversionV::Text)
            &&& !typed && x != "String"@ ==> conversion_of(k) == Some(ConversionV::Convert(x))
        }),
{
    reveal_strlit("UncoId");
    reveal_strlit("i64");
    reveal_strlit("u64");
    reveal_strlit("f64");
    reveal_strlit("bool");
    reveal_strlit("String");
    let x = ident_text(k->Path_0.first);
    if x == "String"@ {
        assert(x.len() == 6 && x[0] == 'S');
        assert(x != "UncoId"@) by {
            assert("UncoId"@[0] == 'U');
        }
        assert(!typed_word(x));
    }
}

} // verus!
