//! Identifier derivation: case conversion (through `heck`) and escaping of
//! names that collide with a reserved word of the emitted representation.

use vstd::prelude::*;
use heck::ToSnakeCase;
use heck::ToUpperCamelCase;

verus! {

/// What `heck`'s snake-case conversion returns for a given text; the result
/// depends on the characters of the input alone.
pub uninterp spec fn snake_of(s: Seq<char>) -> Seq<char>;

/// What `heck`'s upper-camel-case conversion returns for a given text; the
/// result depends on the characters of the input alone.
pub uninterp spec fn upper_camel_of(s: Seq<char>) -> Seq<char>;

/// Relies on `heck::ToSnakeCase` for `str`: a pure conversion determined by
/// the characters of the input.
#[verifier::external_body]
pub fn to_snake_case(s: &str) -> (r: String)
    ensures
        r@ == snake_of(s@),
{
    ToSnakeCase::to_snake_case(s)
}

/// Relies on `heck::ToUpperCamelCase` for `str`: a pure conversion determined
/// by the characters of the input.
#[verifier::external_body]
pub fn to_upper_camel_case(s: &str) -> (r: String)
    ensures
        r@ == upper_camel_of(s@),
{
    ToUpperCamelCase::to_upper_camel_case(s)
}

/// The reserved words of the emitted representation: an identifier equal to
/// one of these must be escaped before it can name a field or parameter.
pub open spec fn is_reserved_word(s: Seq<char>) -> bool {
    ||| s == "as"@
    ||| s == "async"@
    ||| s == "await"@
    ||| s == "become"@
    ||| s == "box"@
    ||| s == "break"@
    ||| s == "const"@
    ||| s == "continue"@
    ||| s == "do"@
    ||| s == "dyn"@
    ||| s == "else"@
    ||| s == "enum"@
    ||| s == "false"@
    ||| s == "fn"@
    ||| s == "for"@
    ||| s == "if"@
    ||| s == "impl"@
    ||| s == "in"@
    ||| s == "let"@
    ||| s == "loop"@
    ||| s == "macro"@
    ||| s == "match"@
    ||| s == "mod"@
    ||| s == "move"@
    ||| s == "mut"@
    ||| s == "override"@
    ||| s == "priv"@
    ||| s == "pub"@
    ||| s == "ref"@
    ||| s == "return"@
    ||| s == "static"@
    ||| s == "struct"@
    ||| s == "trait"@
    ||| s == "true"@
    ||| s == "try"@
    ||| s == "type"@
    ||| s == "typeof"@
    ||| s == "unsized"@
    ||| s == "use"@
    ||| s == "virtual"@
    ||| s == "where"@
    ||| s == "while"@
    ||| s == "yield"@
    ||| s == "abstract"@
}

pub fn is_reserved(s: &str) -> (r: bool)
    ensures
        r == is_reserved_word(s@),
{
    let o = s.to_owned();
    o == "as".to_owned() || o == "async".to_owned() || o == "await".to_owned()
        || o == "become".to_owned() || o == "box".to_owned() || o == "break".to_owned()
        || o == "const".to_owned() || o == "continue".to_owned() || o == "do".to_owned()
        || o == "dyn".to_owned() || o == "else".to_owned() || o == "enum".to_owned()
        || o == "false".to_owned() || o == "fn".to_owned() || o == "for".to_owned()
        || o == "if".to_owned() || o == "impl".to_owned() || o == "in".to_owned()
        || o == "let".to_owned() || o == "loop".to_owned() || o == "macro".to_owned()
        || o == "match".to_owned() || o == "mod".to_owned() || o == "move".to_owned()
        || o == "mut".to_owned() || o == "override".to_owned() || o == "priv".to_owned()
        || o == "pub".to_owned() || o == "ref".to_owned() || o == "return".to_owned()
        || o == "static".to_owned() || o == "struct".to_owned() || o == "trait".to_owned()
        || o == "true".to_owned() || o == "try".to_owned() || o == "type".to_owned()
        || o == "typeof".to_owned() || o == "unsized".to_owned() || o == "use".to_owned()
        || o == "virtual".to_owned() || o == "where".to_owned() || o == "while".to_owned()
        || o == "yield".to_owned() || o == "abstract".to_owned()
}

/// The identifier-safe form of a name: unchanged unless it collides with a
/// reserved word, in which case it is exposed under the escaped spelling while
/// the original name is kept separately for wire mapping.
pub open spec fn spec_safe_name(s: Seq<char>) -> Seq<char> {
    if is_reserved_word(s) {
        "r#"@ + s
    } else {
        s
    }
}

pub fn safe_name(s: &str) -> (r: String)
    ensures
        r@ == spec_safe_name(s@),
{
    if is_reserved(s) {
        let mut o = String::from_str("r#");
        o.append(s);
        o
    } else {
        s.to_owned()
    }
}

} // verus!
