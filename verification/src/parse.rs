//! The resource text notation: recursive-descent parsing into [`Entry`]
//! nodes.
//!
//! The notation: `<name 'value'>` declares an entity; values are quoted
//! strings (with `{{ expr }}` interpolation) or `{ key: value, ... }`
//! hashes; `<name($a) { expr }>` declares a macro; `name: value` pairs
//! after an entity's value declare attributes; `[expr, ...]` after a name
//! gives the selector-index chain; `/* ... */` is a comment.
//!
//! The grammar is stated by the specification-level parser (`sp_parse` and
//! its companions), a definitional function from the text to the as-parsed
//! entry models: the executable parser returns exactly what it says, model
//! for model, and never panics.  Recursion is bounded by a step budget
//! derived from the text length; exhaustion reports a parse failure.

use vstd::prelude::*;

use crate::ast::{AccessType, Attr, BinOp, Entry, Expr, UnOp, Value};
use crate::model::{
    attrs_model_p, entries_model_p, entry_model_p, expr_model, exprs_model, hash_pairs_model_p,
    value_model, value_model_p, vp_to_value, SpecAttrP, SpecEntryP, SpecExpr, SpecValue,
    SpecValueP,
};

verus! {

/// A parse failure, with the character position at which it was noticed.
#[derive(Debug, Clone, Copy, PartialEq, Eq, Structural)]
pub struct ParseError {
    /// Character offset into the resource text.
    pub pos: usize,
}

/// Relies on `String::push`: appends exactly the given character.
#[verifier::external_body]
fn push_char(s: &mut String, c: char)
    ensures
        final(s)@ == old(s)@ + seq![c],
{
    s.push(c);
}

/// The characters of a string slice, in order.
fn str_to_chars(s: &str) -> (v: Vec<char>)
    ensures
        v@ == s@,
{
    let n = s.unicode_len();
    let mut v: Vec<char> = Vec::new();
    for i in 0..n
        invariant
            n == s@.len(),
            v@ == s@.take(i as int),
        decreases n - i,
    {
        let c = s.get_char(i);
        v.push(c);
        proof {
            assert(s@.take(i + 1) =~= s@.take(i as int).push(s@[i as int]));
        }
    }
    proof {
        assert(s@.take(n as int) =~= s@);
    }
    v
}

/// Whitespace of the notation.
pub open spec fn sp_is_ws(c: char) -> bool {
    c == ' ' || c == '\t' || c == '\n' || c == '\r'
}

/// A decimal digit.
pub open spec fn sp_is_digit(c: char) -> bool {
    48 <= c as u32 && c as u32 <= 57
}

/// A character that may start an identifier.
pub open spec fn sp_is_ident_start(c: char) -> bool {
    (97 <= c as u32 && c as u32 <= 122) || (65 <= c as u32 && c as u32 <= 90) || c == '_'
}

/// A character that may continue an identifier.
pub open spec fn sp_is_ident_char(c: char) -> bool {
    sp_is_ident_start(c) || sp_is_digit(c)
}

/// The given position holds the given character.
pub open spec fn sp_peek(cs: Seq<char>, pos: int, c: char) -> bool {
    0 <= pos < cs.len() && cs[pos] == c
}

/// The first non-whitespace position at or after `pos`.
pub open spec fn sp_skip_ws(cs: Seq<char>, pos: int) -> int
    decreases cs.len() - pos,
{
    if 0 <= pos < cs.len() && sp_is_ws(cs[pos]) {
        sp_skip_ws(cs, pos + 1)
    } else {
        pos
    }
}

/// Consumes one expected character.
pub open spec fn sp_expect(cs: Seq<char>, pos: int, c: char) -> Result<int, int> {
    if sp_peek(cs, pos, c) {
        Ok(pos + 1)
    } else {
        Err(pos)
    }
}

/// The longest identifier continuation from `pos`, appended to `acc`.
pub open spec fn sp_ident_tail(cs: Seq<char>, acc: Seq<char>, pos: int) -> (Seq<char>, int)
    decreases cs.len() - pos,
{
    if 0 <= pos < cs.len() && sp_is_ident_char(cs[pos]) {
        sp_ident_tail(cs, acc + seq![cs[pos]], pos + 1)
    } else {
        (acc, pos)
    }
}

/// An identifier: an identifier-start character followed by identifier
/// characters.
pub open spec fn sp_ident(cs: Seq<char>, pos: int) -> Result<(Seq<char>, int), int> {
    if 0 <= pos < cs.len() && sp_is_ident_start(cs[pos]) {
        Ok(sp_ident_tail(cs, Seq::empty(), pos))
    } else {
        Err(pos)
    }
}

/// Decimal digits accumulated into a number; a number outside the machine
/// range is a parse failure.
pub open spec fn sp_number_tail(cs: Seq<char>, acc: i64, pos: int) -> Result<(i64, int), int>
    decreases cs.len() - pos,
{
    if 0 <= pos < cs.len() && sp_is_digit(cs[pos]) {
        let d = ((cs[pos] as u32) - 48) as i64;
        match acc.checked_mul(10) {
            None => Err(pos),
            Some(scaled) => match scaled.checked_add(d) {
                None => Err(pos),
                Some(acc2) => sp_number_tail(cs, acc2, pos + 1),
            },
        }
    } else {
        Ok((acc, pos))
    }
}

/// A numeric literal.
pub open spec fn sp_number(cs: Seq<char>, pos: int) -> Result<(i64, int), int> {
    if 0 <= pos < cs.len() && sp_is_digit(cs[pos]) {
        sp_number_tail(cs, 0, pos)
    } else {
        Err(pos)
    }
}

/// A comment's text, up to the closing `*/`.
pub open spec fn sp_comment_tail(cs: Seq<char>, acc: Seq<char>, pos: int) -> Result<
    (SpecEntryP, int),
    int,
>
    decreases cs.len() - pos,
{
    if 0 <= pos && pos + 1 < cs.len() {
        if cs[pos] == '*' && cs[pos + 1] == '/' {
            Ok((SpecEntryP::Comment(acc), pos + 2))
        } else {
            sp_comment_tail(cs, acc + seq![cs[pos]], pos + 1)
        }
    } else {
        Err(pos)
    }
}

/// One step of a quoted string: a closing quote finishes it, a backslash
/// escapes the next character, `{{` opens an interpolated expression, and
/// any other character joins the literal piece.
pub open spec fn sp_string_tail(
    cs: Seq<char>,
    parts: Seq<SpecExpr>,
    buf: Seq<char>,
    interp: bool,
    pos: int,
    quote: char,
    fuel: nat,
) -> Result<(SpecValueP, int), int>
    decreases fuel, 1nat,
{
    if fuel == 0 {
        Err(pos)
    } else if !(0 <= pos < cs.len()) {
        Err(pos)
    } else {
        let c = cs[pos];
        if c == quote {
            if !interp {
                Ok((SpecValueP::Str(buf), pos + 1))
            } else if buf.len() > 0 {
                Ok(
                    (
                        SpecValueP::ComplexStr(
                            parts.push(SpecExpr::Val(Box::new(SpecValue::Str(buf)))),
                        ),
                        pos + 1,
                    ),
                )
            } else {
                Ok((SpecValueP::ComplexStr(parts), pos + 1))
            }
        } else if c == '\\' {
            if pos + 1 >= cs.len() {
                Err(pos)
            } else {
                sp_string_tail(
                    cs,
                    parts,
                    buf + seq![cs[pos + 1]],
                    interp,
                    pos + 2,
                    quote,
                    (fuel - 1) as nat,
                )
            }
        } else if c == '{' && pos + 1 < cs.len() && cs[pos + 1] == '{' {
            let parts2 = if buf.len() > 0 {
                parts.push(SpecExpr::Val(Box::new(SpecValue::Str(buf))))
            } else {
                parts
            };
            let p = sp_skip_ws(cs, pos + 2);
            match sp_expr(cs, p, (fuel - 1) as nat) {
                Err(e) => Err(e),
                Ok((ex, p2)) => {
                    let p3 = sp_skip_ws(cs, p2);
                    match sp_expect(cs, p3, '}') {
                        Err(e) => Err(e),
                        Ok(p4) => match sp_expect(cs, p4, '}') {
                            Err(e) => Err(e),
                            Ok(p5) => sp_string_tail(
                                cs,
                                parts2.push(ex),
                                Seq::empty(),
                                true,
                                p5,
                                quote,
                                (fuel - 1) as nat,
                            ),
                        },
                    }
                },
            }
        } else {
            sp_string_tail(cs, parts, buf + seq![c], interp, pos + 1, quote, (fuel - 1) as nat)
        }
    }
}

/// A quoted string value, after its opening quote.
pub open spec fn sp_string(cs: Seq<char>, pos: int, quote: char, fuel: nat) -> Result<
    (SpecValueP, int),
    int,
>
    decreases fuel, 2nat,
{
    sp_string_tail(cs, Seq::empty(), Seq::empty(), false, pos, quote, fuel)
}

/// One `key: value` pair of a hash body; a `*` before the key marks the
/// literal default key.
pub open spec fn sp_hash_tail(
    cs: Seq<char>,
    entries: Seq<(Seq<char>, SpecValueP)>,
    def_key: Option<Seq<char>>,
    pos: int,
    fuel: nat,
) -> Result<(SpecValueP, int), int>
    decreases fuel, 1nat,
{
    if fuel == 0 {
        Err(pos)
    } else if sp_peek(cs, pos, '}') {
        Ok((SpecValueP::Hash(entries, def_key, None), pos + 1))
    } else {
        let starred = sp_peek(cs, pos, '*');
        let p0 = if starred {
            pos + 1
        } else {
            pos
        };
        match sp_ident(cs, p0) {
            Err(e) => Err(e),
            Ok((key, p1)) => {
                let p2 = sp_skip_ws(cs, p1);
                match sp_expect(cs, p2, ':') {
                    Err(e) => Err(e),
                    Ok(p3) => {
                        let p4 = sp_skip_ws(cs, p3);
                        match sp_value(cs, p4, (fuel - 1) as nat) {
                            Err(e) => Err(e),
                            Ok((v, p5)) => {
                                let dk2 = if starred {
                                    Some(key)
                                } else {
                                    def_key
                                };
                                let p6 = sp_skip_ws(cs, p5);
                                let p7 = if sp_peek(cs, p6, ',') {
                                    sp_skip_ws(cs, p6 + 1)
                                } else {
                                    p6
                                };
                                sp_hash_tail(cs, entries.push((key, v)), dk2, p7, (fuel - 1) as nat)
                            },
                        }
                    },
                }
            },
        }
    }
}

/// A hash value, after its opening brace.
pub open spec fn sp_hash(cs: Seq<char>, pos: int, fuel: nat) -> Result<(SpecValueP, int), int>
    decreases fuel, 2nat,
{
    sp_hash_tail(cs, Seq::empty(), None, sp_skip_ws(cs, pos), fuel)
}

/// A value: a quoted string or a hash.
pub open spec fn sp_value(cs: Seq<char>, pos: int, fuel: nat) -> Result<(SpecValueP, int), int>
    decreases fuel, 3nat,
{
    if fuel == 0 {
        Err(pos)
    } else if sp_peek(cs, pos, '\'') {
        sp_string(cs, pos + 1, '\'', fuel)
    } else if sp_peek(cs, pos, '"') {
        sp_string(cs, pos + 1, '"', fuel)
    } else if sp_peek(cs, pos, '{') {
        sp_hash(cs, pos + 1, fuel)
    } else {
        Err(pos)
    }
}

/// One element of a comma-separated expression list, up to the closing
/// character.
pub open spec fn sp_expr_list_tail(
    cs: Seq<char>,
    items: Seq<SpecExpr>,
    pos: int,
    close: char,
    fuel: nat,
) -> Result<(Seq<SpecExpr>, int), int>
    decreases fuel, 1nat,
{
    if fuel == 0 {
        Err(pos)
    } else if sp_peek(cs, pos, close) {
        Ok((items, pos + 1))
    } else {
        match sp_expr(cs, pos, (fuel - 1) as nat) {
            Err(e) => Err(e),
            Ok((e, p2)) => {
                let p3 = sp_skip_ws(cs, p2);
                let p4 = if sp_peek(cs, p3, ',') {
                    sp_skip_ws(cs, p3 + 1)
                } else {
                    p3
                };
                sp_expr_list_tail(cs, items.push(e), p4, close, (fuel - 1) as nat)
            },
        }
    }
}

/// A comma-separated expression list, up to the closing character.
pub open spec fn sp_expr_list(cs: Seq<char>, pos: int, close: char, fuel: nat) -> Result<
    (Seq<SpecExpr>, int),
    int,
>
    decreases fuel, 2nat,
{
    sp_expr_list_tail(cs, Seq::empty(), sp_skip_ws(cs, pos), close, fuel)
}

/// A full expression: a conditional over the binary-operator ladder.
pub open spec fn sp_expr(cs: Seq<char>, pos: int, fuel: nat) -> Result<(SpecExpr, int), int>
    decreases fuel, 20nat,
{
    if fuel == 0 {
        Err(pos)
    } else {
        match sp_or(cs, pos, fuel) {
            Err(e) => Err(e),
            Ok((c, p2)) => {
                let p = sp_skip_ws(cs, p2);
                if sp_peek(cs, p, '?') {
                    let p3 = sp_skip_ws(cs, p + 1);
                    match sp_expr(cs, p3, (fuel - 1) as nat) {
                        Err(e) => Err(e),
                        Ok((t, p4)) => {
                            let p5 = sp_skip_ws(cs, p4);
                            match sp_expect(cs, p5, ':') {
                                Err(e) => Err(e),
                                Ok(p6) => {
                                    let p7 = sp_skip_ws(cs, p6);
                                    match sp_expr(cs, p7, (fuel - 1) as nat) {
                                        Err(e) => Err(e),
                                        Ok((alt, p8)) => Ok(
                                            (
                                                SpecExpr::Cond(
                                                    Box::new(c),
                                                    Box::new(t),
                                                    Box::new(alt),
                                                ),
                                                p8,
                                            ),
                                        ),
                                    }
                                },
                            }
                        },
                    }
                } else {
                    Ok((c, p2))
                }
            },
        }
    }
}

/// Trailing `||` operands.
pub open spec fn sp_or_tail(cs: Seq<char>, e: SpecExpr, pos: int, fuel: nat) -> Result<
    (SpecExpr, int),
    int,
>
    decreases fuel, 18nat,
{
    if fuel == 0 {
        Err(pos)
    } else {
        let q = sp_skip_ws(cs, pos);
        if sp_peek(cs, q, '|') && sp_peek(cs, q + 1, '|') {
            let q2 = sp_skip_ws(cs, q + 2);
            match sp_and(cs, q2, (fuel - 1) as nat) {
                Err(err) => Err(err),
                Ok((rhs, p3)) => sp_or_tail(
                    cs,
                    SpecExpr::Bin(Box::new(e), BinOp::BiOr, Box::new(rhs)),
                    p3,
                    (fuel - 1) as nat,
                ),
            }
        } else {
            Ok((e, pos))
        }
    }
}

/// The `||` level.
pub open spec fn sp_or(cs: Seq<char>, pos: int, fuel: nat) -> Result<(SpecExpr, int), int>
    decreases fuel, 19nat,
{
    match sp_and(cs, pos, fuel) {
        Err(e) => Err(e),
        Ok((e, p)) => sp_or_tail(cs, e, p, fuel),
    }
}

/// Trailing `&&` operands.
pub open spec fn sp_and_tail(cs: Seq<char>, e: SpecExpr, pos: int, fuel: nat) -> Result<
    (SpecExpr, int),
    int,
>
    decreases fuel, 16nat,
{
    if fuel == 0 {
        Err(pos)
    } else {
        let q = sp_skip_ws(cs, pos);
        if sp_peek(cs, q, '&') && sp_peek(cs, q + 1, '&') {
            let q2 = sp_skip_ws(cs, q + 2);
            match sp_eq(cs, q2, (fuel - 1) as nat) {
                Err(err) => Err(err),
                Ok((rhs, p3)) => sp_and_tail(
                    cs,
                    SpecExpr::Bin(Box::new(e), BinOp::BiAnd, Box::new(rhs)),
                    p3,
                    (fuel - 1) as nat,
                ),
            }
        } else {
            Ok((e, pos))
        }
    }
}

/// The `&&` level.
pub open spec fn sp_and(cs: Seq<char>, pos: int, fuel: nat) -> Result<(SpecExpr, int), int>
    decreases fuel, 17nat,
{
    match sp_eq(cs, pos, fuel) {
        Err(e) => Err(e),
        Ok((e, p)) => sp_and_tail(cs, e, p, fuel),
    }
}

/// The `==`/`!=` operator at a position, if any.
pub open spec fn sp_eq_op(cs: Seq<char>, q: int) -> Option<BinOp> {
    if sp_peek(cs, q, '=') && sp_peek(cs, q + 1, '=') {
        Some(BinOp::BiEq)
    } else if sp_peek(cs, q, '!') && sp_peek(cs, q + 1, '=') {
        Some(BinOp::BiNe)
    } else {
        None
    }
}

/// Trailing equality operands.
pub open spec fn sp_eq_tail(cs: Seq<char>, e: SpecExpr, pos: int, fuel: nat) -> Result<
    (SpecExpr, int),
    int,
>
    decreases fuel, 14nat,
{
    if fuel == 0 {
        Err(pos)
    } else {
        let q = sp_skip_ws(cs, pos);
        match sp_eq_op(cs, q) {
            Some(op) => {
                let q2 = sp_skip_ws(cs, q + 2);
                match sp_rel(cs, q2, (fuel - 1) as nat) {
                    Err(err) => Err(err),
                    Ok((rhs, p3)) => sp_eq_tail(
                        cs,
                        SpecExpr::Bin(Box::new(e), op, Box::new(rhs)),
                        p3,
                        (fuel - 1) as nat,
                    ),
                }
            },
            None => Ok((e, pos)),
        }
    }
}

/// The equality level.
pub open spec fn sp_eq(cs: Seq<char>, pos: int, fuel: nat) -> Result<(SpecExpr, int), int>
    decreases fuel, 15nat,
{
    match sp_rel(cs, pos, fuel) {
        Err(e) => Err(e),
        Ok((e, p)) => sp_eq_tail(cs, e, p, fuel),
    }
}

/// The ordering operator at a position, with its width, if any.
pub open spec fn sp_rel_op(cs: Seq<char>, q: int) -> Option<(BinOp, int)> {
    if sp_peek(cs, q, '<') && sp_peek(cs, q + 1, '=') {
        Some((BinOp::BiLe, 2))
    } else if sp_peek(cs, q, '>') && sp_peek(cs, q + 1, '=') {
        Some((BinOp::BiGe, 2))
    } else if sp_peek(cs, q, '<') {
        Some((BinOp::BiLt, 1))
    } else if sp_peek(cs, q, '>') {
        Some((BinOp::BiGt, 1))
    } else {
        None
    }
}

/// Trailing ordering operands.
pub open spec fn sp_rel_tail(cs: Seq<char>, e: SpecExpr, pos: int, fuel: nat) -> Result<
    (SpecExpr, int),
    int,
>
    decreases fuel, 12nat,
{
    if fuel == 0 {
        Err(pos)
    } else {
        let q = sp_skip_ws(cs, pos);
        match sp_rel_op(cs, q) {
            Some((op, width)) => {
                let q2 = sp_skip_ws(cs, q + width);
                match sp_add(cs, q2, (fuel - 1) as nat) {
                    Err(err) => Err(err),
                    Ok((rhs, p3)) => sp_rel_tail(
                        cs,
                        SpecExpr::Bin(Box::new(e), op, Box::new(rhs)),
                        p3,
                        (fuel - 1) as nat,
                    ),
                }
            },
            None => Ok((e, pos)),
        }
    }
}

/// The ordering level.
pub open spec fn sp_rel(cs: Seq<char>, pos: int, fuel: nat) -> Result<(SpecExpr, int), int>
    decreases fuel, 13nat,
{
    match sp_add(cs, pos, fuel) {
        Err(e) => Err(e),
        Ok((e, p)) => sp_rel_tail(cs, e, p, fuel),
    }
}

/// The additive operator at a position, if any.
pub open spec fn sp_add_op(cs: Seq<char>, q: int) -> Option<BinOp> {
    if sp_peek(cs, q, '+') {
        Some(BinOp::BiAdd)
    } else if sp_peek(cs, q, '-') {
        Some(BinOp::BiSub)
    } else {
        None
    }
}

/// Trailing additive operands.
pub open spec fn sp_add_tail(cs: Seq<char>, e: SpecExpr, pos: int, fuel: nat) -> Result<
    (SpecExpr, int),
    int,
>
    decreases fuel, 10nat,
{
    if fuel == 0 {
        Err(pos)
    } else {
        let q = sp_skip_ws(cs, pos);
        match sp_add_op(cs, q) {
            Some(op) => {
                let q2 = sp_skip_ws(cs, q + 1);
                match sp_mul(cs, q2, (fuel - 1) as nat) {
                    Err(err) => Err(err),
                    Ok((rhs, p3)) => sp_add_tail(
                        cs,
                        SpecExpr::Bin(Box::new(e), op, Box::new(rhs)),
                        p3,
                        (fuel - 1) as nat,
                    ),
                }
            },
            None => Ok((e, pos)),
        }
    }
}

/// The additive level.
pub open spec fn sp_add(cs: Seq<char>, pos: int, fuel: nat) -> Result<(SpecExpr, int), int>
    decreases fuel, 11nat,
{
    match sp_mul(cs, pos, fuel) {
        Err(e) => Err(e),
        Ok((e, p)) => sp_add_tail(cs, e, p, fuel),
    }
}

/// The multiplicative operator at a position, if any.
pub open spec fn sp_mul_op(cs: Seq<char>, q: int) -> Option<BinOp> {
    if sp_peek(cs, q, '*') {
        Some(BinOp::BiMul)
    } else if sp_peek(cs, q, '/') {
        Some(BinOp::BiDiv)
    } else if sp_peek(cs, q, '%') {
        Some(BinOp::BiRem)
    } else {
        None
    }
}

/// Trailing multiplicative operands.
pub open spec fn sp_mul_tail(cs: Seq<char>, e: SpecExpr, pos: int, fuel: nat) -> Result<
    (SpecExpr, int),
    int,
>
    decreases fuel, 8nat,
{
    if fuel == 0 {
        Err(pos)
    } else {
        let q = sp_skip_ws(cs, pos);
        match sp_mul_op(cs, q) {
            Some(op) => {
                let q2 = sp_skip_ws(cs, q + 1);
                match sp_unary(cs, q2, (fuel - 1) as nat) {
                    Err(err) => Err(err),
                    Ok((rhs, p3)) => sp_mul_tail(
                        cs,
                        SpecExpr::Bin(Box::new(e), op, Box::new(rhs)),
                        p3,
                        (fuel - 1) as nat,
                    ),
                }
            },
            None => Ok((e, pos)),
        }
    }
}

/// The multiplicative level.
pub open spec fn sp_mul(cs: Seq<char>, pos: int, fuel: nat) -> Result<(SpecExpr, int), int>
    decreases fuel, 9nat,
{
    if fuel == 0 {
        Err(pos)
    } else {
        match sp_unary(cs, pos, (fuel - 1) as nat) {
            Err(e) => Err(e),
            Ok((e, p)) => sp_mul_tail(cs, e, p, fuel),
        }
    }
}

/// The unary operator at a position, if any.
pub open spec fn sp_un_op(cs: Seq<char>, pos: int) -> Option<UnOp> {
    if sp_peek(cs, pos, '+') {
        Some(UnOp::UnAdd)
    } else if sp_peek(cs, pos, '-') {
        Some(UnOp::UnSub)
    } else if sp_peek(cs, pos, '!') {
        Some(UnOp::UnNot)
    } else {
        None
    }
}

/// The unary level.
pub open spec fn sp_unary(cs: Seq<char>, pos: int, fuel: nat) -> Result<(SpecExpr, int), int>
    decreases fuel, 7nat,
{
    if fuel == 0 {
        Err(pos)
    } else {
        match sp_un_op(cs, pos) {
            Some(op) => {
                let p = sp_skip_ws(cs, pos + 1);
                match sp_unary(cs, p, (fuel - 1) as nat) {
                    Err(e) => Err(e),
                    Ok((e, p2)) => Ok((SpecExpr::Un(op, Box::new(e)), p2)),
                }
            },
            None => sp_member(cs, pos, fuel),
        }
    }
}

/// Trailing member accesses: `.key`, `[expr]`, `::key`, `::[expr]`, or a
/// call's `(args)`.
pub open spec fn sp_member_tail(cs: Seq<char>, e: SpecExpr, pos: int, fuel: nat) -> Result<
    (SpecExpr, int),
    int,
>
    decreases fuel, 5nat,
{
    if fuel == 0 {
        Err(pos)
    } else if sp_peek(cs, pos, '.') && pos + 1 < cs.len() && sp_is_ident_start(cs[pos + 1]) {
        match sp_ident(cs, pos + 1) {
            Err(err) => Err(err),
            Ok((name, p2)) => sp_member_tail(
                cs,
                SpecExpr::Prop(Box::new(e), Box::new(SpecExpr::Ident(name)), AccessType::Static),
                p2,
                (fuel - 1) as nat,
            ),
        }
    } else if sp_peek(cs, pos, '[') {
        let q = sp_skip_ws(cs, pos + 1);
        match sp_expr(cs, q, (fuel - 1) as nat) {
            Err(err) => Err(err),
            Ok((k, p2)) => {
                let q2 = sp_skip_ws(cs, p2);
                match sp_expect(cs, q2, ']') {
                    Err(err) => Err(err),
                    Ok(q3) => sp_member_tail(
                        cs,
                        SpecExpr::Prop(Box::new(e), Box::new(k), AccessType::Computed),
                        q3,
                        (fuel - 1) as nat,
                    ),
                }
            },
        }
    } else if sp_peek(cs, pos, ':') && sp_peek(cs, pos + 1, ':') {
        if sp_peek(cs, pos + 2, '[') {
            let q = sp_skip_ws(cs, pos + 3);
            match sp_expr(cs, q, (fuel - 1) as nat) {
                Err(err) => Err(err),
                Ok((k, p2)) => {
                    let q2 = sp_skip_ws(cs, p2);
                    match sp_expect(cs, q2, ']') {
                        Err(err) => Err(err),
                        Ok(q3) => sp_member_tail(
                            cs,
                            SpecExpr::Attrib(Box::new(e), Box::new(k), AccessType::Computed),
                            q3,
                            (fuel - 1) as nat,
                        ),
                    }
                },
            }
        } else {
            match sp_ident(cs, pos + 2) {
                Err(err) => Err(err),
                Ok((name, p2)) => sp_member_tail(
                    cs,
                    SpecExpr::Attrib(
                        Box::new(e),
                        Box::new(SpecExpr::Ident(name)),
                        AccessType::Static,
                    ),
                    p2,
                    (fuel - 1) as nat,
                ),
            }
        }
    } else if sp_peek(cs, pos, '(') {
        match sp_expr_list(cs, pos + 1, ')', (fuel - 1) as nat) {
            Err(err) => Err(err),
            Ok((args, p2)) => sp_member_tail(
                cs,
                SpecExpr::Call(Box::new(e), args),
                p2,
                (fuel - 1) as nat,
            ),
        }
    } else {
        Ok((e, pos))
    }
}

/// The member level: a primary expression with member accesses.
pub open spec fn sp_member(cs: Seq<char>, pos: int, fuel: nat) -> Result<(SpecExpr, int), int>
    decreases fuel, 6nat,
{
    if fuel == 0 {
        Err(pos)
    } else {
        match sp_primary(cs, pos, (fuel - 1) as nat) {
            Err(e) => Err(e),
            Ok((e, p)) => sp_member_tail(cs, e, p, fuel),
        }
    }
}

/// A primary expression: a number, `$var`, an identifier, a quoted string,
/// or a parenthesized expression.
pub open spec fn sp_primary(cs: Seq<char>, pos: int, fuel: nat) -> Result<(SpecExpr, int), int>
    decreases fuel, 4nat,
{
    if fuel == 0 {
        Err(pos)
    } else if !(0 <= pos < cs.len()) {
        Err(pos)
    } else {
        let c = cs[pos];
        if sp_is_digit(c) {
            match sp_number(cs, pos) {
                Err(e) => Err(e),
                Ok((n, p)) => Ok((SpecExpr::Num(n), p)),
            }
        } else if c == '$' {
            match sp_ident(cs, pos + 1) {
                Err(e) => Err(e),
                Ok((name, p)) => Ok((SpecExpr::Var(name), p)),
            }
        } else if sp_is_ident_start(c) {
            match sp_ident(cs, pos) {
                Err(e) => Err(e),
                Ok((name, p)) => Ok((SpecExpr::Ident(name), p)),
            }
        } else if c == '\'' {
            match sp_string(cs, pos + 1, '\'', (fuel - 1) as nat) {
                Err(e) => Err(e),
                Ok((v, p)) => Ok((SpecExpr::Val(Box::new(vp_to_value(v))), p)),
            }
        } else if c == '"' {
            match sp_string(cs, pos + 1, '"', (fuel - 1) as nat) {
                Err(e) => Err(e),
                Ok((v, p)) => Ok((SpecExpr::Val(Box::new(vp_to_value(v))), p)),
            }
        } else if c == '(' {
            let q = sp_skip_ws(cs, pos + 1);
            match sp_expr(cs, q, (fuel - 1) as nat) {
                Err(e) => Err(e),
                Ok((e, p2)) => {
                    let q2 = sp_skip_ws(cs, p2);
                    match sp_expect(cs, q2, ')') {
                        Err(err) => Err(err),
                        Ok(p3) => Ok((e, p3)),
                    }
                },
            }
        } else {
            Err(pos)
        }
    }
}

/// One `$name` parameter of a macro's parameter list.
pub open spec fn sp_params_tail(
    cs: Seq<char>,
    params: Seq<SpecExpr>,
    pos: int,
    fuel: nat,
) -> Result<(Seq<SpecExpr>, int), int>
    decreases fuel, 1nat,
{
    if fuel == 0 {
        Err(pos)
    } else if sp_peek(cs, pos, ')') {
        Ok((params, pos + 1))
    } else {
        match sp_expect(cs, pos, '$') {
            Err(e) => Err(e),
            Ok(p) => match sp_ident(cs, p) {
                Err(e) => Err(e),
                Ok((pname, p2)) => {
                    let p3 = sp_skip_ws(cs, p2);
                    let p4 = if sp_peek(cs, p3, ',') {
                        sp_skip_ws(cs, p3 + 1)
                    } else {
                        p3
                    };
                    sp_params_tail(cs, params.push(SpecExpr::Var(pname)), p4, (fuel - 1) as nat)
                },
            },
        }
    }
}

/// One `name[indices]: value` attribute after an entity's value.
pub open spec fn sp_attrs_tail(
    cs: Seq<char>,
    name: Seq<char>,
    value: SpecValueP,
    indices: Seq<SpecExpr>,
    attrs: Seq<SpecAttrP>,
    pos: int,
    fuel: nat,
) -> Result<(SpecEntryP, int), int>
    decreases fuel, 1nat,
{
    if fuel == 0 {
        Err(pos)
    } else if sp_peek(cs, pos, '>') {
        Ok((SpecEntryP::Entity(name, value, indices, attrs), pos + 1))
    } else {
        match sp_ident(cs, pos) {
            Err(e) => Err(e),
            Ok((aname, p2)) => {
                if sp_peek(cs, p2, '[') {
                    match sp_expr_list(cs, p2 + 1, ']', (fuel - 1) as nat) {
                        Err(e) => Err(e),
                        Ok((ai, p3)) => sp_attr_rest(
                            cs,
                            name,
                            value,
                            indices,
                            attrs,
                            aname,
                            ai,
                            p3,
                            fuel,
                        ),
                    }
                } else {
                    sp_attr_rest(cs, name, value, indices, attrs, aname, Seq::empty(), p2, fuel)
                }
            },
        }
    }
}

/// The `: value` of one attribute.
pub open spec fn sp_attr_rest(
    cs: Seq<char>,
    name: Seq<char>,
    value: SpecValueP,
    indices: Seq<SpecExpr>,
    attrs: Seq<SpecAttrP>,
    aname: Seq<char>,
    aindices: Seq<SpecExpr>,
    pos: int,
    fuel: nat,
) -> Result<(SpecEntryP, int), int>
    decreases fuel, 0nat,
{
    if fuel == 0 {
        Err(pos)
    } else {
        match sp_expect(cs, pos, ':') {
            Err(e) => Err(e),
            Ok(p) => {
                let p2 = sp_skip_ws(cs, p);
                match sp_value(cs, p2, (fuel - 1) as nat) {
                    Err(e) => Err(e),
                    Ok((av, p3)) => {
                        let p4 = sp_skip_ws(cs, p3);
                        sp_attrs_tail(
                            cs,
                            name,
                            value,
                            indices,
                            attrs.push(SpecAttrP { name: aname, value: av, indices: aindices }),
                            p4,
                            (fuel - 1) as nat,
                        )
                    },
                }
            },
        }
    }
}

/// An entity's value and attributes, after the name and optional
/// selector-index chain.
pub open spec fn sp_entity_rest(
    cs: Seq<char>,
    name: Seq<char>,
    indices: Seq<SpecExpr>,
    pos: int,
    fuel: nat,
) -> Result<(SpecEntryP, int), int>
    decreases fuel, 2nat,
{
    if fuel == 0 {
        Err(pos)
    } else {
        let p = sp_skip_ws(cs, pos);
        match sp_value(cs, p, (fuel - 1) as nat) {
            Err(e) => Err(e),
            Ok((v, p2)) => {
                let p3 = sp_skip_ws(cs, p2);
                sp_attrs_tail(cs, name, v, indices, Seq::empty(), p3, fuel)
            },
        }
    }
}

/// One `<...>` declaration: a macro (name followed by a parameter list) or
/// an entity (name, optional selector-index chain, value, attributes); or a
/// comment.
pub open spec fn sp_entry(cs: Seq<char>, pos: int, fuel: nat) -> Result<(SpecEntryP, int), int>
    decreases fuel, 3nat,
{
    if fuel == 0 {
        Err(pos)
    } else if sp_peek(cs, pos, '/') {
        if sp_peek(cs, pos + 1, '*') {
            sp_comment_tail(cs, Seq::empty(), pos + 2)
        } else {
            Err(pos)
        }
    } else {
        match sp_expect(cs, pos, '<') {
            Err(e) => Err(e),
            Ok(p) => match sp_ident(cs, p) {
                Err(e) => Err(e),
                Ok((name, p2)) => {
                    if sp_peek(cs, p2, '(') {
                        match sp_params_tail(
                            cs,
                            Seq::empty(),
                            sp_skip_ws(cs, p2 + 1),
                            (fuel - 1) as nat,
                        ) {
                            Err(e) => Err(e),
                            Ok((params, p3)) => {
                                let p4 = sp_skip_ws(cs, p3);
                                match sp_expect(cs, p4, '{') {
                                    Err(e) => Err(e),
                                    Ok(p5) => {
                                        let p6 = sp_skip_ws(cs, p5);
                                        match sp_expr(cs, p6, (fuel - 1) as nat) {
                                            Err(e) => Err(e),
                                            Ok((body, p7)) => {
                                                let p8 = sp_skip_ws(cs, p7);
                                                match sp_expect(cs, p8, '}') {
                                                    Err(e) => Err(e),
                                                    Ok(p9) => {
                                                        let p10 = sp_skip_ws(cs, p9);
                                                        match sp_expect(cs, p10, '>') {
                                                            Err(e) => Err(e),
                                                            Ok(p11) => Ok(
                                                                (
                                                                    SpecEntryP::Macro(
                                                                        name,
                                                                        params,
                                                                        Box::new(body),
                                                                    ),
                                                                    p11,
                                                                ),
                                                            ),
                                                        }
                                                    },
                                                }
                                            },
                                        }
                                    },
                                }
                            },
                        }
                    } else if sp_peek(cs, p2, '[') {
                        match sp_expr_list(cs, p2 + 1, ']', (fuel - 1) as nat) {
                            Err(e) => Err(e),
                            Ok((idx, p3)) => sp_entity_rest(cs, name, idx, p3, fuel),
                        }
                    } else {
                        sp_entity_rest(cs, name, Seq::empty(), p2, fuel)
                    }
                },
            },
        }
    }
}

/// The step budget handed to each entry: one more than the text length.
pub open spec fn sp_budget(n: nat) -> nat {
    if n + 1 <= u64::MAX {
        (n + 1) as nat
    } else {
        u64::MAX as nat
    }
}

/// One entry after another, skipping whitespace; an entry that consumes no
/// text is refused rather than repeated forever.
pub open spec fn sp_parse_tail(
    cs: Seq<char>,
    acc: Seq<SpecEntryP>,
    pos: int,
    fuel: nat,
) -> Result<Seq<SpecEntryP>, int>
    decreases fuel,
{
    if fuel == 0 {
        Err(pos)
    } else {
        let p = sp_skip_ws(cs, pos);
        if p >= cs.len() {
            Ok(acc)
        } else {
            match sp_entry(cs, p, sp_budget(cs.len())) {
                Err(e) => Err(e),
                Ok((entry, p2)) => if p2 <= p {
                    Err(p)
                } else {
                    sp_parse_tail(cs, acc.push(entry), p2, (fuel - 1) as nat)
                },
            }
        }
    }
}

/// What parsing a resource text returns: the as-parsed entry models in
/// order, or the position of the first offending character.
pub open spec fn sp_parse(cs: Seq<char>) -> Result<Seq<SpecEntryP>, int> {
    sp_parse_tail(cs, Seq::empty(), 0, sp_budget(cs.len()))
}

fn is_ws(c: char) -> (r: bool)
    ensures
        r == sp_is_ws(c),
{
    c == ' ' || c == '\t' || c == '\n' || c == '\r'
}

fn is_digit(c: char) -> (r: bool)
    ensures
        r == sp_is_digit(c),
{
    let u = c as u32;
    48 <= u && u <= 57
}

fn is_ident_start(c: char) -> (r: bool)
    ensures
        r == sp_is_ident_start(c),
{
    let u = c as u32;
    (97 <= u && u <= 122) || (65 <= u && u <= 90) || c == '_'
}

fn is_ident_char(c: char) -> (r: bool)
    ensures
        r == sp_is_ident_char(c),
{
    is_ident_start(c) || is_digit(c)
}

fn skip_ws(cs: &Vec<char>, pos: usize) -> (r: usize)
    ensures
        r as int == sp_skip_ws(cs@, pos as int),
    decreases cs@.len() - pos,
{
    if pos < cs.len() && is_ws(cs[pos]) {
        skip_ws(cs, pos + 1)
    } else {
        pos
    }
}

fn peek_is(cs: &Vec<char>, pos: usize, c: char) -> (r: bool)
    ensures
        r == sp_peek(cs@, pos as int, c),
        cs@.len() <= usize::MAX,
{
    pos < cs.len() && cs[pos] == c
}

fn expect(cs: &Vec<char>, pos: usize, c: char) -> (r: Result<usize, ParseError>)
    ensures
        match r {
            Ok(p) => sp_expect(cs@, pos as int, c) == Ok::<int, int>(p as int),
            Err(e) => sp_expect(cs@, pos as int, c) == Err::<int, int>(e.pos as int),
        },
        cs@.len() <= usize::MAX,
{
    if pos < cs.len() && cs[pos] == c {
        Ok(pos + 1)
    } else {
        Err(ParseError { pos })
    }
}

fn p_ident_tail(cs: &Vec<char>, acc: String, pos: usize) -> (r: (String, usize))
    ensures
        (r.0@, r.1 as int) == sp_ident_tail(cs@, acc@, pos as int),
    decreases cs@.len() - pos,
{
    if pos < cs.len() && is_ident_char(cs[pos]) {
        let mut acc = acc;
        push_char(&mut acc, cs[pos]);
        p_ident_tail(cs, acc, pos + 1)
    } else {
        (acc, pos)
    }
}

fn p_ident(cs: &Vec<char>, pos: usize) -> (r: Result<(String, usize), ParseError>)
    ensures
        match r {
            Ok(t) => sp_ident(cs@, pos as int) == Ok::<(Seq<char>, int), int>((t.0@, t.1 as int)),
            Err(e) => sp_ident(cs@, pos as int) == Err::<(Seq<char>, int), int>(e.pos as int),
        },
{
    if pos < cs.len() && is_ident_start(cs[pos]) {
        Ok(p_ident_tail(cs, String::new(), pos))
    } else {
        Err(ParseError { pos })
    }
}

fn p_number_tail(cs: &Vec<char>, acc: i64, pos: usize) -> (r: Result<(i64, usize), ParseError>)
    ensures
        match r {
            Ok(t) => sp_number_tail(cs@, acc, pos as int) == Ok::<(i64, int), int>(
                (t.0, t.1 as int),
            ),
            Err(e) => sp_number_tail(cs@, acc, pos as int) == Err::<(i64, int), int>(e.pos as int),
        },
    decreases cs@.len() - pos,
{
    if pos < cs.len() && is_digit(cs[pos]) {
        let d = ((cs[pos] as u32) - 48) as i64;
        match acc.checked_mul(10) {
            None => Err(ParseError { pos }),
            Some(scaled) => match scaled.checked_add(d) {
                None => Err(ParseError { pos }),
                Some(acc2) => p_number_tail(cs, acc2, pos + 1),
            },
        }
    } else {
        Ok((acc, pos))
    }
}

fn p_number(cs: &Vec<char>, pos: usize) -> (r: Result<(i64, usize), ParseError>)
    ensures
        match r {
            Ok(t) => sp_number(cs@, pos as int) == Ok::<(i64, int), int>((t.0, t.1 as int)),
            Err(e) => sp_number(cs@, pos as int) == Err::<(i64, int), int>(e.pos as int),
        },
{
    if pos < cs.len() && is_digit(cs[pos]) {
        p_number_tail(cs, 0, pos)
    } else {
        Err(ParseError { pos })
    }
}

fn p_comment_tail(cs: &Vec<char>, acc: String, pos: usize) -> (r: Result<
    (Entry, usize),
    ParseError,
>)
    ensures
        match r {
            Ok(t) => sp_comment_tail(cs@, acc@, pos as int) == Ok::<(SpecEntryP, int), int>(
                (entry_model_p(t.0), t.1 as int),
            ),
            Err(e) => sp_comment_tail(cs@, acc@, pos as int) == Err::<(SpecEntryP, int), int>(
                e.pos as int,
            ),
        },
    decreases cs@.len() - pos,
{
    if pos < cs.len() && pos + 1 < cs.len() {
        if cs[pos] == '*' && cs[pos + 1] == '/' {
            Ok((Entry::Comment(acc), pos + 2))
        } else {
            let mut acc = acc;
            push_char(&mut acc, cs[pos]);
            p_comment_tail(cs, acc, pos + 1)
        }
    } else {
        Err(ParseError { pos })
    }
}

fn p_string_tail(
    cs: &Vec<char>,
    parts: Vec<Expr>,
    buf: String,
    interp: bool,
    pos: usize,
    quote: char,
    fuel: u64,
) -> (r: Result<(Value, usize), ParseError>)
    ensures
        match r {
            Ok(t) => sp_string_tail(cs@, exprs_model(parts@), buf@, interp, pos as int, quote, fuel as nat)
                == Ok::<(SpecValueP, int), int>((value_model_p(t.0), t.1 as int)),
            Err(e) => sp_string_tail(cs@, exprs_model(parts@), buf@, interp, pos as int, quote, fuel as nat)
                == Err::<(SpecValueP, int), int>(e.pos as int),
        },
    decreases fuel, 1nat,
{
    if fuel == 0 {
        return Err(ParseError { pos });
    }
    if pos >= cs.len() {
        return Err(ParseError { pos });
    }
    let c = cs[pos];
    if c == quote {
        if !interp {
            return Ok((Value::Str(buf), pos + 1));
        }
        let mut parts = parts;
        if buf.as_str().unicode_len() > 0 {
            let ghost pv0 = parts@;
            let ghost bufm = buf@;
            let piece = Expr::ValExpr(Value::Str(buf));
            proof {
                assert(expr_model(piece) == SpecExpr::Val(Box::new(SpecValue::Str(bufm)))) by {
                    assert(value_model(piece->ValExpr_0) == SpecValue::Str(bufm));
                }
            }
            let ghost pm = expr_model(piece);
            parts.push(piece);
            proof {
                assert(parts@.drop_last() =~= pv0);
                assert(exprs_model(parts@) == exprs_model(pv0).push(pm));
            }
            return Ok((Value::ComplexStr(parts), pos + 1));
        }
        return Ok((Value::ComplexStr(parts), pos + 1));
    }
    if c == '\\' {
        if pos + 1 >= cs.len() {
            return Err(ParseError { pos });
        }
        let mut buf = buf;
        push_char(&mut buf, cs[pos + 1]);
        p_string_tail(cs, parts, buf, interp, pos + 2, quote, fuel - 1)
    } else if c == '{' && pos + 1 < cs.len() && cs[pos + 1] == '{' {
        let mut parts = parts;
        let ghost pv0 = parts@;
        if buf.as_str().unicode_len() > 0 {
            let ghost bufm = buf@;
            let piece = Expr::ValExpr(Value::Str(buf));
            proof {
                assert(expr_model(piece) == SpecExpr::Val(Box::new(SpecValue::Str(bufm)))) by {
                    assert(value_model(piece->ValExpr_0) == SpecValue::Str(bufm));
                }
            }
            let ghost pm = expr_model(piece);
            parts.push(piece);
            proof {
                assert(parts@.drop_last() =~= pv0);
                assert(exprs_model(parts@) == exprs_model(pv0).push(pm));
            }
        }
        let p = skip_ws(cs, pos + 2);
        match p_expr(cs, p, fuel - 1) {
            Err(e) => Err(e),
            Ok((ex, p2)) => {
                let p3 = skip_ws(cs, p2);
                match expect(cs, p3, '}') {
                    Err(e) => Err(e),
                    Ok(p4) => match expect(cs, p4, '}') {
                        Err(e) => Err(e),
                        Ok(p5) => {
                            let ghost pv1 = parts@;
                            let ghost exm = expr_model(ex);
                            parts.push(ex);
                            proof {
                                assert(parts@.drop_last() =~= pv1);
                                assert(exprs_model(parts@) == exprs_model(pv1).push(exm));
                            }
                            p_string_tail(cs, parts, String::new(), true, p5, quote, fuel - 1)
                        },
                    },
                }
            },
        }
    } else {
        let mut buf = buf;
        push_char(&mut buf, c);
        p_string_tail(cs, parts, buf, interp, pos + 1, quote, fuel - 1)
    }
}

fn p_string(cs: &Vec<char>, pos: usize, quote: char, fuel: u64) -> (r: Result<
    (Value, usize),
    ParseError,
>)
    ensures
        match r {
            Ok(t) => sp_string(cs@, pos as int, quote, fuel as nat) == Ok::<(SpecValueP, int), int>(
                (value_model_p(t.0), t.1 as int),
            ),
            Err(e) => sp_string(cs@, pos as int, quote, fuel as nat) == Err::<
                (SpecValueP, int),
                int,
            >(e.pos as int),
        },
    decreases fuel, 2nat,
{
    p_string_tail(cs, Vec::new(), String::new(), false, pos, quote, fuel)
}

fn p_hash_tail(
    cs: &Vec<char>,
    entries: Vec<(String, Value)>,
    def_key: Option<String>,
    pos: usize,
    fuel: u64,
) -> (r: Result<(Value, usize), ParseError>)
    ensures
        match r {
            Ok(t) => sp_hash_tail(
                cs@,
                hash_pairs_model_p(entries@),
                match def_key {
                    Some(k) => Some(k@),
                    None => None::<Seq<char>>,
                },
                pos as int,
                fuel as nat,
            ) == Ok::<(SpecValueP, int), int>((value_model_p(t.0), t.1 as int)),
            Err(e) => sp_hash_tail(
                cs@,
                hash_pairs_model_p(entries@),
                match def_key {
                    Some(k) => Some(k@),
                    None => None::<Seq<char>>,
                },
                pos as int,
                fuel as nat,
            ) == Err::<(SpecValueP, int), int>(e.pos as int),
        },
    decreases fuel, 1nat,
{
    if fuel == 0 {
        return Err(ParseError { pos });
    }
    if peek_is(cs, pos, '}') {
        return Ok((Value::Hash(entries, def_key, None), pos + 1));
    }
    let starred = peek_is(cs, pos, '*');
    let p0 = if starred {
        pos + 1
    } else {
        pos
    };
    match p_ident(cs, p0) {
        Err(e) => Err(e),
        Ok((key, p1)) => {
            let p2 = skip_ws(cs, p1);
            match expect(cs, p2, ':') {
                Err(e) => Err(e),
                Ok(p3) => {
                    let p4 = skip_ws(cs, p3);
                    match p_value(cs, p4, fuel - 1) {
                        Err(e) => Err(e),
                        Ok((v, p5)) => {
                            let dk2 = if starred {
                                Some(key.clone())
                            } else {
                                def_key
                            };
                            let p6 = skip_ws(cs, p5);
                            let p7 = if peek_is(cs, p6, ',') {
                                skip_ws(cs, p6 + 1)
                            } else {
                                p6
                            };
                            let mut entries = entries;
                            let ghost ev0 = entries@;
                            entries.push((key, v));
                            proof {
                                assert(entries@.drop_last() =~= ev0);
                            }
                            p_hash_tail(cs, entries, dk2, p7, fuel - 1)
                        },
                    }
                },
            }
        },
    }
}

fn p_hash(cs: &Vec<char>, pos: usize, fuel: u64) -> (r: Result<(Value, usize), ParseError>)
    ensures
        match r {
            Ok(t) => sp_hash(cs@, pos as int, fuel as nat) == Ok::<(SpecValueP, int), int>(
                (value_model_p(t.0), t.1 as int),
            ),
            Err(e) => sp_hash(cs@, pos as int, fuel as nat) == Err::<(SpecValueP, int), int>(
                e.pos as int,
            ),
        },
    decreases fuel, 2nat,
{
    let p = skip_ws(cs, pos);
    p_hash_tail(cs, Vec::new(), None, p, fuel)
}

fn p_value(cs: &Vec<char>, pos: usize, fuel: u64) -> (r: Result<(Value, usize), ParseError>)
    ensures
        match r {
            Ok(t) => sp_value(cs@, pos as int, fuel as nat) == Ok::<(SpecValueP, int), int>(
                (value_model_p(t.0), t.1 as int),
            ),
            Err(e) => sp_value(cs@, pos as int, fuel as nat) == Err::<(SpecValueP, int), int>(
                e.pos as int,
            ),
        },
    decreases fuel, 3nat,
{
    if fuel == 0 {
        Err(ParseError { pos })
    } else if peek_is(cs, pos, '\'') {
        p_string(cs, pos + 1, '\'', fuel)
    } else if peek_is(cs, pos, '"') {
        p_string(cs, pos + 1, '"', fuel)
    } else if peek_is(cs, pos, '{') {
        p_hash(cs, pos + 1, fuel)
    } else {
        Err(ParseError { pos })
    }
}

fn p_expr_list_tail(
    cs: &Vec<char>,
    items: Vec<Expr>,
    pos: usize,
    close: char,
    fuel: u64,
) -> (r: Result<(Vec<Expr>, usize), ParseError>)
    ensures
        match r {
            Ok(t) => sp_expr_list_tail(cs@, exprs_model(items@), pos as int, close, fuel as nat)
                == Ok::<(Seq<SpecExpr>, int), int>((exprs_model(t.0@), t.1 as int)),
            Err(e) => sp_expr_list_tail(cs@, exprs_model(items@), pos as int, close, fuel as nat)
                == Err::<(Seq<SpecExpr>, int), int>(e.pos as int),
        },
    decreases fuel, 1nat,
{
    if fuel == 0 {
        return Err(ParseError { pos });
    }
    if peek_is(cs, pos, close) {
        return Ok((items, pos + 1));
    }
    match p_expr(cs, pos, fuel - 1) {
        Err(e) => Err(e),
        Ok((e, p2)) => {
            let p3 = skip_ws(cs, p2);
            let p4 = if peek_is(cs, p3, ',') {
                skip_ws(cs, p3 + 1)
            } else {
                p3
            };
            let mut items = items;
            let ghost iv0 = items@;
            items.push(e);
            proof {
                assert(items@.drop_last() =~= iv0);
            }
            p_expr_list_tail(cs, items, p4, close, fuel - 1)
        },
    }
}

fn p_expr_list(cs: &Vec<char>, pos: usize, close: char, fuel: u64) -> (r: Result<
    (Vec<Expr>, usize),
    ParseError,
>)
    ensures
        match r {
            Ok(t) => sp_expr_list(cs@, pos as int, close, fuel as nat) == Ok::<
                (Seq<SpecExpr>, int),
                int,
            >((exprs_model(t.0@), t.1 as int)),
            Err(e) => sp_expr_list(cs@, pos as int, close, fuel as nat) == Err::<
                (Seq<SpecExpr>, int),
                int,
            >(e.pos as int),
        },
    decreases fuel, 2nat,
{
    let p = skip_ws(cs, pos);
    p_expr_list_tail(cs, Vec::new(), p, close, fuel)
}

fn p_expr(cs: &Vec<char>, pos: usize, fuel: u64) -> (r: Result<(Expr, usize), ParseError>)
    ensures
        match r {
            Ok(t) => sp_expr(cs@, pos as int, fuel as nat) == Ok::<(SpecExpr, int), int>(
                (expr_model(t.0), t.1 as int),
            ),
            Err(e) => sp_expr(cs@, pos as int, fuel as nat) == Err::<(SpecExpr, int), int>(
                e.pos as int,
            ),
        },
    decreases fuel, 20nat,
{
    if fuel == 0 {
        return Err(ParseError { pos });
    }
    match p_or(cs, pos, fuel) {
        Err(e) => Err(e),
        Ok((c, p2)) => {
            let p = skip_ws(cs, p2);
            if peek_is(cs, p, '?') {
                let p3 = skip_ws(cs, p + 1);
                match p_expr(cs, p3, fuel - 1) {
                    Err(e) => Err(e),
                    Ok((t, p4)) => {
                        let p5 = skip_ws(cs, p4);
                        match expect(cs, p5, ':') {
                            Err(e) => Err(e),
                            Ok(p6) => {
                                let p7 = skip_ws(cs, p6);
                                match p_expr(cs, p7, fuel - 1) {
                                    Err(e) => Err(e),
                                    Ok((alt, p8)) => Ok(
                                        (
                                            Expr::CondExpr(
                                                Box::new(c),
                                                Box::new(t),
                                                Box::new(alt),
                                            ),
                                            p8,
                                        ),
                                    ),
                                }
                            },
                        }
                    },
                }
            } else {
                Ok((c, p2))
            }
        },
    }
}

fn p_or_tail(cs: &Vec<char>, e: Expr, pos: usize, fuel: u64) -> (r: Result<
    (Expr, usize),
    ParseError,
>)
    ensures
        match r {
            Ok(t) => sp_or_tail(cs@, expr_model(e), pos as int, fuel as nat) == Ok::<
                (SpecExpr, int),
                int,
            >((expr_model(t.0), t.1 as int)),
            Err(err) => sp_or_tail(cs@, expr_model(e), pos as int, fuel as nat) == Err::<
                (SpecExpr, int),
                int,
            >(err.pos as int),
        },
    decreases fuel, 18nat,
{
    if fuel == 0 {
        return Err(ParseError { pos });
    }
    let q = skip_ws(cs, pos);
    if peek_is(cs, q, '|') && peek_is(cs, q + 1, '|') {
        let q2 = skip_ws(cs, q + 2);
        match p_and(cs, q2, fuel - 1) {
            Err(err) => Err(err),
            Ok((rhs, p3)) => p_or_tail(
                cs,
                Expr::BinExpr(Box::new(e), BinOp::BiOr, Box::new(rhs)),
                p3,
                fuel - 1,
            ),
        }
    } else {
        Ok((e, pos))
    }
}

fn p_or(cs: &Vec<char>, pos: usize, fuel: u64) -> (r: Result<(Expr, usize), ParseError>)
    ensures
        match r {
            Ok(t) => sp_or(cs@, pos as int, fuel as nat) == Ok::<(SpecExpr, int), int>(
                (expr_model(t.0), t.1 as int),
            ),
            Err(e) => sp_or(cs@, pos as int, fuel as nat) == Err::<(SpecExpr, int), int>(
                e.pos as int,
            ),
        },
    decreases fuel, 19nat,
{
    match p_and(cs, pos, fuel) {
        Err(e) => Err(e),
        Ok((e, p)) => p_or_tail(cs, e, p, fuel),
    }
}

fn p_and_tail(cs: &Vec<char>, e: Expr, pos: usize, fuel: u64) -> (r: Result<
    (Expr, usize),
    ParseError,
>)
    ensures
        match r {
            Ok(t) => sp_and_tail(cs@, expr_model(e), pos as int, fuel as nat) == Ok::<
                (SpecExpr, int),
                int,
            >((expr_model(t.0), t.1 as int)),
            Err(err) => sp_and_tail(cs@, expr_model(e), pos as int, fuel as nat) == Err::<
                (SpecExpr, int),
                int,
            >(err.pos as int),
        },
    decreases fuel, 16nat,
{
    if fuel == 0 {
        return Err(ParseError { pos });
    }
    let q = skip_ws(cs, pos);
    if peek_is(cs, q, '&') && peek_is(cs, q + 1, '&') {
        let q2 = skip_ws(cs, q + 2);
        match p_eq(cs, q2, fuel - 1) {
            Err(err) => Err(err),
            Ok((rhs, p3)) => p_and_tail(
                cs,
                Expr::BinExpr(Box::new(e), BinOp::BiAnd, Box::new(rhs)),
                p3,
                fuel - 1,
            ),
        }
    } else {
        Ok((e, pos))
    }
}

fn p_and(cs: &Vec<char>, pos: usize, fuel: u64) -> (r: Result<(Expr, usize), ParseError>)
    ensures
        match r {
            Ok(t) => sp_and(cs@, pos as int, fuel as nat) == Ok::<(SpecExpr, int), int>(
                (expr_model(t.0), t.1 as int),
            ),
            Err(e) => sp_and(cs@, pos as int, fuel as nat) == Err::<(SpecExpr, int), int>(
                e.pos as int,
            ),
        },
    decreases fuel, 17nat,
{
    match p_eq(cs, pos, fuel) {
        Err(e) => Err(e),
        Ok((e, p)) => p_and_tail(cs, e, p, fuel),
    }
}

fn p_eq_tail(cs: &Vec<char>, e: Expr, pos: usize, fuel: u64) -> (r: Result<
    (Expr, usize),
    ParseError,
>)
    ensures
        match r {
            Ok(t) => sp_eq_tail(cs@, expr_model(e), pos as int, fuel as nat) == Ok::<
                (SpecExpr, int),
                int,
            >((expr_model(t.0), t.1 as int)),
            Err(err) => sp_eq_tail(cs@, expr_model(e), pos as int, fuel as nat) == Err::<
                (SpecExpr, int),
                int,
            >(err.pos as int),
        },
    decreases fuel, 14nat,
{
    if fuel == 0 {
        return Err(ParseError { pos });
    }
    let q = skip_ws(cs, pos);
    let op = if peek_is(cs, q, '=') && peek_is(cs, q + 1, '=') {
        Some(BinOp::BiEq)
    } else if peek_is(cs, q, '!') && peek_is(cs, q + 1, '=') {
        Some(BinOp::BiNe)
    } else {
        None
    };
    match op {
        Some(op) => {
            let q2 = skip_ws(cs, q + 2);
            match p_rel(cs, q2, fuel - 1) {
                Err(err) => Err(err),
                Ok((rhs, p3)) => p_eq_tail(
                    cs,
                    Expr::BinExpr(Box::new(e), op, Box::new(rhs)),
                    p3,
                    fuel - 1,
                ),
            }
        },
        None => Ok((e, pos)),
    }
}

fn p_eq(cs: &Vec<char>, pos: usize, fuel: u64) -> (r: Result<(Expr, usize), ParseError>)
    ensures
        match r {
            Ok(t) => sp_eq(cs@, pos as int, fuel as nat) == Ok::<(SpecExpr, int), int>(
                (expr_model(t.0), t.1 as int),
            ),
            Err(e) => sp_eq(cs@, pos as int, fuel as nat) == Err::<(SpecExpr, int), int>(
                e.pos as int,
            ),
        },
    decreases fuel, 15nat,
{
    match p_rel(cs, pos, fuel) {
        Err(e) => Err(e),
        Ok((e, p)) => p_eq_tail(cs, e, p, fuel),
    }
}

fn p_rel_tail(cs: &Vec<char>, e: Expr, pos: usize, fuel: u64) -> (r: Result<
    (Expr, usize),
    ParseError,
>)
    ensures
        match r {
            Ok(t) => sp_rel_tail(cs@, expr_model(e), pos as int, fuel as nat) == Ok::<
                (SpecExpr, int),
                int,
            >((expr_model(t.0), t.1 as int)),
            Err(err) => sp_rel_tail(cs@, expr_model(e), pos as int, fuel as nat) == Err::<
                (SpecExpr, int),
                int,
            >(err.pos as int),
        },
    decreases fuel, 12nat,
{
    if fuel == 0 {
        return Err(ParseError { pos });
    }
    let q = skip_ws(cs, pos);
    let (op, width): (Option<BinOp>, usize) = if peek_is(cs, q, '<') && peek_is(cs, q + 1, '=') {
        (Some(BinOp::BiLe), 2)
    } else if peek_is(cs, q, '>') && peek_is(cs, q + 1, '=') {
        (Some(BinOp::BiGe), 2)
    } else if peek_is(cs, q, '<') {
        (Some(BinOp::BiLt), 1)
    } else if peek_is(cs, q, '>') {
        (Some(BinOp::BiGt), 1)
    } else {
        (None, 0)
    };
    match op {
        Some(op) => {
            let q2 = skip_ws(cs, q + width);
            match p_add(cs, q2, fuel - 1) {
                Err(err) => Err(err),
                Ok((rhs, p3)) => p_rel_tail(
                    cs,
                    Expr::BinExpr(Box::new(e), op, Box::new(rhs)),
                    p3,
                    fuel - 1,
                ),
            }
        },
        None => Ok((e, pos)),
    }
}

fn p_rel(cs: &Vec<char>, pos: usize, fuel: u64) -> (r: Result<(Expr, usize), ParseError>)
    ensures
        match r {
            Ok(t) => sp_rel(cs@, pos as int, fuel as nat) == Ok::<(SpecExpr, int), int>(
                (expr_model(t.0), t.1 as int),
            ),
            Err(e) => sp_rel(cs@, pos as int, fuel as nat) == Err::<(SpecExpr, int), int>(
                e.pos as int,
            ),
        },
    decreases fuel, 13nat,
{
    match p_add(cs, pos, fuel) {
        Err(e) => Err(e),
        Ok((e, p)) => p_rel_tail(cs, e, p, fuel),
    }
}

fn p_add_tail(cs: &Vec<char>, e: Expr, pos: usize, fuel: u64) -> (r: Result<
    (Expr, usize),
    ParseError,
>)
    ensures
        match r {
            Ok(t) => sp_add_tail(cs@, expr_model(e), pos as int, fuel as nat) == Ok::<
                (SpecExpr, int),
                int,
            >((expr_model(t.0), t.1 as int)),
            Err(err) => sp_add_tail(cs@, expr_model(e), pos as int, fuel as nat) == Err::<
                (SpecExpr, int),
                int,
            >(err.pos as int),
        },
    decreases fuel, 10nat,
{
    if fuel == 0 {
        return Err(ParseError { pos });
    }
    let q = skip_ws(cs, pos);
    let op = if peek_is(cs, q, '+') {
        Some(BinOp::BiAdd)
    } else if peek_is(cs, q, '-') {
        Some(BinOp::BiSub)
    } else {
        None
    };
    match op {
        Some(op) => {
            let q2 = skip_ws(cs, q + 1);
            match p_mul(cs, q2, fuel - 1) {
                Err(err) => Err(err),
                Ok((rhs, p3)) => p_add_tail(
                    cs,
                    Expr::BinExpr(Box::new(e), op, Box::new(rhs)),
                    p3,
                    fuel - 1,
                ),
            }
        },
        None => Ok((e, pos)),
    }
}

fn p_add(cs: &Vec<char>, pos: usize, fuel: u64) -> (r: Result<(Expr, usize), ParseError>)
    ensures
        match r {
            Ok(t) => sp_add(cs@, pos as int, fuel as nat) == Ok::<(SpecExpr, int), int>(
                (expr_model(t.0), t.1 as int),
            ),
            Err(e) => sp_add(cs@, pos as int, fuel as nat) == Err::<(SpecExpr, int), int>(
                e.pos as int,
            ),
        },
    decreases fuel, 11nat,
{
    match p_mul(cs, pos, fuel) {
        Err(e) => Err(e),
        Ok((e, p)) => p_add_tail(cs, e, p, fuel),
    }
}

fn p_mul_tail(cs: &Vec<char>, e: Expr, pos: usize, fuel: u64) -> (r: Result<
    (Expr, usize),
    ParseError,
>)
    ensures
        match r {
            Ok(t) => sp_mul_tail(cs@, expr_model(e), pos as int, fuel as nat) == Ok::<
                (SpecExpr, int),
                int,
            >((expr_model(t.0), t.1 as int)),
            Err(err) => sp_mul_tail(cs@, expr_model(e), pos as int, fuel as nat) == Err::<
                (SpecExpr, int),
                int,
            >(err.pos as int),
        },
    decreases fuel, 8nat,
{
    if fuel == 0 {
        return Err(ParseError { pos });
    }
    let q = skip_ws(cs, pos);
    let op = if peek_is(cs, q, '*') {
        Some(BinOp::BiMul)
    } else if peek_is(cs, q, '/') {
        Some(BinOp::BiDiv)
    } else if peek_is(cs, q, '%') {
        Some(BinOp::BiRem)
    } else {
        None
    };
    match op {
        Some(op) => {
            let q2 = skip_ws(cs, q + 1);
            match p_unary(cs, q2, fuel - 1) {
                Err(err) => Err(err),
                Ok((rhs, p3)) => p_mul_tail(
                    cs,
                    Expr::BinExpr(Box::new(e), op, Box::new(rhs)),
                    p3,
                    fuel - 1,
                ),
            }
        },
        None => Ok((e, pos)),
    }
}

fn p_mul(cs: &Vec<char>, pos: usize, fuel: u64) -> (r: Result<(Expr, usize), ParseError>)
    ensures
        match r {
            Ok(t) => sp_mul(cs@, pos as int, fuel as nat) == Ok::<(SpecExpr, int), int>(
                (expr_model(t.0), t.1 as int),
            ),
            Err(e) => sp_mul(cs@, pos as int, fuel as nat) == Err::<(SpecExpr, int), int>(
                e.pos as int,
            ),
        },
    decreases fuel, 9nat,
{
    if fuel == 0 {
        return Err(ParseError { pos });
    }
    match p_unary(cs, pos, fuel - 1) {
        Err(e) => Err(e),
        Ok((e, p)) => p_mul_tail(cs, e, p, fuel),
    }
}

fn p_unary(cs: &Vec<char>, pos: usize, fuel: u64) -> (r: Result<(Expr, usize), ParseError>)
    ensures
        match r {
            Ok(t) => sp_unary(cs@, pos as int, fuel as nat) == Ok::<(SpecExpr, int), int>(
                (expr_model(t.0), t.1 as int),
            ),
            Err(e) => sp_unary(cs@, pos as int, fuel as nat) == Err::<(SpecExpr, int), int>(
                e.pos as int,
            ),
        },
    decreases fuel, 7nat,
{
    if fuel == 0 {
        return Err(ParseError { pos });
    }
    let op = if peek_is(cs, pos, '+') {
        Some(UnOp::UnAdd)
    } else if peek_is(cs, pos, '-') {
        Some(UnOp::UnSub)
    } else if peek_is(cs, pos, '!') {
        Some(UnOp::UnNot)
    } else {
        None
    };
    match op {
        Some(op) => {
            let p = skip_ws(cs, pos + 1);
            match p_unary(cs, p, fuel - 1) {
                Err(e) => Err(e),
                Ok((e, p2)) => Ok((Expr::UnExpr(op, Box::new(e)), p2)),
            }
        },
        None => p_member(cs, pos, fuel),
    }
}

#[verifier::rlimit(60)]
fn p_member_tail(cs: &Vec<char>, e: Expr, pos: usize, fuel: u64) -> (r: Result<
    (Expr, usize),
    ParseError,
>)
    ensures
        match r {
            Ok(t) => sp_member_tail(cs@, expr_model(e), pos as int, fuel as nat) == Ok::<
                (SpecExpr, int),
                int,
            >((expr_model(t.0), t.1 as int)),
            Err(err) => sp_member_tail(cs@, expr_model(e), pos as int, fuel as nat) == Err::<
                (SpecExpr, int),
                int,
            >(err.pos as int),
        },
    decreases fuel, 5nat,
{
    if fuel == 0 {
        return Err(ParseError { pos });
    }
    if peek_is(cs, pos, '.') && pos + 1 < cs.len() && is_ident_start(cs[pos + 1]) {
        match p_ident(cs, pos + 1) {
            Err(err) => Err(err),
            Ok((name, p2)) => {
                let ghost nm = name@;
                let key = Expr::IdentExpr(name);
                proof {
                    assert(expr_model(key) == SpecExpr::Ident(nm));
                }
                p_member_tail(
                    cs,
                    Expr::PropExpr(Box::new(e), Box::new(key), AccessType::Static),
                    p2,
                    fuel - 1,
                )
            },
        }
    } else if peek_is(cs, pos, '[') {
        let q = skip_ws(cs, pos + 1);
        match p_expr(cs, q, fuel - 1) {
            Err(err) => Err(err),
            Ok((k, p2)) => {
                let q2 = skip_ws(cs, p2);
                match expect(cs, q2, ']') {
                    Err(err) => Err(err),
                    Ok(q3) => p_member_tail(
                        cs,
                        Expr::PropExpr(Box::new(e), Box::new(k), AccessType::Computed),
                        q3,
                        fuel - 1,
                    ),
                }
            },
        }
    } else if peek_is(cs, pos, ':') && peek_is(cs, pos + 1, ':') {
        if peek_is(cs, pos + 2, '[') {
            let q = skip_ws(cs, pos + 3);
            match p_expr(cs, q, fuel - 1) {
                Err(err) => Err(err),
                Ok((k, p2)) => {
                    let q2 = skip_ws(cs, p2);
                    match expect(cs, q2, ']') {
                        Err(err) => Err(err),
                        Ok(q3) => p_member_tail(
                            cs,
                            Expr::AttrExpr(Box::new(e), Box::new(k), AccessType::Computed),
                            q3,
                            fuel - 1,
                        ),
                    }
                },
            }
        } else {
            match p_ident(cs, pos + 2) {
                Err(err) => Err(err),
                Ok((name, p2)) => {
                    let ghost nm = name@;
                    let key = Expr::IdentExpr(name);
                    proof {
                        assert(expr_model(key) == SpecExpr::Ident(nm));
                    }
                    p_member_tail(
                        cs,
                        Expr::AttrExpr(Box::new(e), Box::new(key), AccessType::Static),
                        p2,
                        fuel - 1,
                    )
                },
            }
        }
    } else if peek_is(cs, pos, '(') {
        match p_expr_list(cs, pos + 1, ')', fuel - 1) {
            Err(err) => Err(err),
            Ok((args, p2)) => p_member_tail(cs, Expr::CallExpr(Box::new(e), args), p2, fuel - 1),
        }
    } else {
        Ok((e, pos))
    }
}

fn p_member(cs: &Vec<char>, pos: usize, fuel: u64) -> (r: Result<(Expr, usize), ParseError>)
    ensures
        match r {
            Ok(t) => sp_member(cs@, pos as int, fuel as nat) == Ok::<(SpecExpr, int), int>(
                (expr_model(t.0), t.1 as int),
            ),
            Err(e) => sp_member(cs@, pos as int, fuel as nat) == Err::<(SpecExpr, int), int>(
                e.pos as int,
            ),
        },
    decreases fuel, 6nat,
{
    if fuel == 0 {
        return Err(ParseError { pos });
    }
    match p_primary(cs, pos, fuel - 1) {
        Err(e) => Err(e),
        Ok((e, p)) => p_member_tail(cs, e, p, fuel),
    }
}

fn p_primary(cs: &Vec<char>, pos: usize, fuel: u64) -> (r: Result<(Expr, usize), ParseError>)
    ensures
        match r {
            Ok(t) => sp_primary(cs@, pos as int, fuel as nat) == Ok::<(SpecExpr, int), int>(
                (expr_model(t.0), t.1 as int),
            ),
            Err(e) => sp_primary(cs@, pos as int, fuel as nat) == Err::<(SpecExpr, int), int>(
                e.pos as int,
            ),
        },
    decreases fuel, 4nat,
{
    if fuel == 0 {
        return Err(ParseError { pos });
    }
    if pos >= cs.len() {
        return Err(ParseError { pos });
    }
    let c = cs[pos];
    if is_digit(c) {
        match p_number(cs, pos) {
            Err(e) => Err(e),
            Ok((n, p)) => Ok((Expr::NumExpr(n), p)),
        }
    } else if c == '$' {
        match p_ident(cs, pos + 1) {
            Err(e) => Err(e),
            Ok((name, p)) => Ok((Expr::VarExpr(name), p)),
        }
    } else if is_ident_start(c) {
        match p_ident(cs, pos) {
            Err(e) => Err(e),
            Ok((name, p)) => Ok((Expr::IdentExpr(name), p)),
        }
    } else if c == '\'' {
        match p_string(cs, pos + 1, '\'', fuel - 1) {
            Err(e) => Err(e),
            Ok((v, p)) => {
                proof {
                    crate::model::lemma_vp_to_value(v);
                }
                Ok((Expr::ValExpr(v), p))
            },
        }
    } else if c == '"' {
        match p_string(cs, pos + 1, '"', fuel - 1) {
            Err(e) => Err(e),
            Ok((v, p)) => {
                proof {
                    crate::model::lemma_vp_to_value(v);
                }
                Ok((Expr::ValExpr(v), p))
            },
        }
    } else if c == '(' {
        let q = skip_ws(cs, pos + 1);
        match p_expr(cs, q, fuel - 1) {
            Err(e) => Err(e),
            Ok((e, p2)) => {
                let q2 = skip_ws(cs, p2);
                match expect(cs, q2, ')') {
                    Err(err) => Err(err),
                    Ok(p3) => Ok((e, p3)),
                }
            },
        }
    } else {
        Err(ParseError { pos })
    }
}

fn p_params_tail(cs: &Vec<char>, params: Vec<Expr>, pos: usize, fuel: u64) -> (r: Result<
    (Vec<Expr>, usize),
    ParseError,
>)
    ensures
        match r {
            Ok(t) => sp_params_tail(cs@, exprs_model(params@), pos as int, fuel as nat) == Ok::<
                (Seq<SpecExpr>, int),
                int,
            >((exprs_model(t.0@), t.1 as int)),
            Err(e) => sp_params_tail(cs@, exprs_model(params@), pos as int, fuel as nat) == Err::<
                (Seq<SpecExpr>, int),
                int,
            >(e.pos as int),
        },
    decreases fuel, 1nat,
{
    if fuel == 0 {
        return Err(ParseError { pos });
    }
    if peek_is(cs, pos, ')') {
        return Ok((params, pos + 1));
    }
    match expect(cs, pos, '$') {
        Err(e) => Err(e),
        Ok(p) => match p_ident(cs, p) {
            Err(e) => Err(e),
            Ok((pname, p2)) => {
                let p3 = skip_ws(cs, p2);
                let p4 = if peek_is(cs, p3, ',') {
                    skip_ws(cs, p3 + 1)
                } else {
                    p3
                };
                let mut params = params;
                let ghost pv0 = params@;
                let ghost pnm = pname@;
                let pexpr = Expr::VarExpr(pname);
                proof {
                    assert(expr_model(pexpr) == SpecExpr::Var(pnm));
                }
                params.push(pexpr);
                proof {
                    assert(params@.drop_last() =~= pv0);
                }
                p_params_tail(cs, params, p4, fuel - 1)
            },
        },
    }
}

fn p_attr_rest(
    cs: &Vec<char>,
    name: String,
    value: Value,
    indices: Vec<Expr>,
    attrs: Vec<Attr>,
    aname: String,
    aindices: Vec<Expr>,
    pos: usize,
    fuel: u64,
) -> (r: Result<(Entry, usize), ParseError>)
    ensures
        match r {
            Ok(t) => sp_attr_rest(
                cs@,
                name@,
                value_model_p(value),
                exprs_model(indices@),
                attrs_model_p(attrs@),
                aname@,
                exprs_model(aindices@),
                pos as int,
                fuel as nat,
            ) == Ok::<(SpecEntryP, int), int>((entry_model_p(t.0), t.1 as int)),
            Err(e) => sp_attr_rest(
                cs@,
                name@,
                value_model_p(value),
                exprs_model(indices@),
                attrs_model_p(attrs@),
                aname@,
                exprs_model(aindices@),
                pos as int,
                fuel as nat,
            ) == Err::<(SpecEntryP, int), int>(e.pos as int),
        },
    decreases fuel, 0nat,
{
    if fuel == 0 {
        return Err(ParseError { pos });
    }
    match expect(cs, pos, ':') {
        Err(e) => Err(e),
        Ok(p) => {
            let p2 = skip_ws(cs, p);
            match p_value(cs, p2, fuel - 1) {
                Err(e) => Err(e),
                Ok((av, p3)) => {
                    let p4 = skip_ws(cs, p3);
                    let mut attrs = attrs;
                    let ghost av0 = attrs@;
                    attrs.push(Attr(aname, av, aindices));
                    proof {
                        assert(attrs@.drop_last() =~= av0);
                    }
                    p_attrs_tail(cs, name, value, indices, attrs, p4, fuel - 1)
                },
            }
        },
    }
}

fn p_attrs_tail(
    cs: &Vec<char>,
    name: String,
    value: Value,
    indices: Vec<Expr>,
    attrs: Vec<Attr>,
    pos: usize,
    fuel: u64,
) -> (r: Result<(Entry, usize), ParseError>)
    ensures
        match r {
            Ok(t) => sp_attrs_tail(
                cs@,
                name@,
                value_model_p(value),
                exprs_model(indices@),
                attrs_model_p(attrs@),
                pos as int,
                fuel as nat,
            ) == Ok::<(SpecEntryP, int), int>((entry_model_p(t.0), t.1 as int)),
            Err(e) => sp_attrs_tail(
                cs@,
                name@,
                value_model_p(value),
                exprs_model(indices@),
                attrs_model_p(attrs@),
                pos as int,
                fuel as nat,
            ) == Err::<(SpecEntryP, int), int>(e.pos as int),
        },
    decreases fuel, 1nat,
{
    if fuel == 0 {
        return Err(ParseError { pos });
    }
    if peek_is(cs, pos, '>') {
        return Ok((Entry::Entity(name, value, indices, attrs), pos + 1));
    }
    match p_ident(cs, pos) {
        Err(e) => Err(e),
        Ok((aname, p2)) => {
            if peek_is(cs, p2, '[') {
                match p_expr_list(cs, p2 + 1, ']', fuel - 1) {
                    Err(e) => Err(e),
                    Ok((ai, p3)) => p_attr_rest(cs, name, value, indices, attrs, aname, ai, p3, fuel),
                }
            } else {
                let empty: Vec<Expr> = Vec::new();
                proof {
                    assert(exprs_model(empty@) =~= Seq::<SpecExpr>::empty());
                }
                p_attr_rest(cs, name, value, indices, attrs, aname, empty, p2, fuel)
            }
        },
    }
}

fn p_entity_rest(
    cs: &Vec<char>,
    name: String,
    indices: Vec<Expr>,
    pos: usize,
    fuel: u64,
) -> (r: Result<(Entry, usize), ParseError>)
    ensures
        match r {
            Ok(t) => sp_entity_rest(cs@, name@, exprs_model(indices@), pos as int, fuel as nat)
                == Ok::<(SpecEntryP, int), int>((entry_model_p(t.0), t.1 as int)),
            Err(e) => sp_entity_rest(cs@, name@, exprs_model(indices@), pos as int, fuel as nat)
                == Err::<(SpecEntryP, int), int>(e.pos as int),
        },
    decreases fuel, 2nat,
{
    if fuel == 0 {
        return Err(ParseError { pos });
    }
    let p = skip_ws(cs, pos);
    match p_value(cs, p, fuel - 1) {
        Err(e) => Err(e),
        Ok((v, p2)) => {
            let p3 = skip_ws(cs, p2);
            let empty: Vec<Attr> = Vec::new();
            proof {
                assert(attrs_model_p(empty@) =~= Seq::<SpecAttrP>::empty());
            }
            p_attrs_tail(cs, name, v, indices, empty, p3, fuel)
        },
    }
}

fn p_entry(cs: &Vec<char>, pos: usize, fuel: u64) -> (r: Result<(Entry, usize), ParseError>)
    ensures
        match r {
            Ok(t) => sp_entry(cs@, pos as int, fuel as nat) == Ok::<(SpecEntryP, int), int>(
                (entry_model_p(t.0), t.1 as int),
            ),
            Err(e) => sp_entry(cs@, pos as int, fuel as nat) == Err::<(SpecEntryP, int), int>(
                e.pos as int,
            ),
        },
    decreases fuel, 3nat,
{
    if fuel == 0 {
        return Err(ParseError { pos });
    }
    if peek_is(cs, pos, '/') {
        if peek_is(cs, pos + 1, '*') {
            return p_comment_tail(cs, String::new(), pos + 2);
        }
        return Err(ParseError { pos });
    }
    match expect(cs, pos, '<') {
        Err(e) => Err(e),
        Ok(p) => match p_ident(cs, p) {
            Err(e) => Err(e),
            Ok((name, p2)) => {
                if peek_is(cs, p2, '(') {
                    let q = skip_ws(cs, p2 + 1);
                    let empty: Vec<Expr> = Vec::new();
                    proof {
                        assert(exprs_model(empty@) =~= Seq::<SpecExpr>::empty());
                    }
                    match p_params_tail(cs, empty, q, fuel - 1) {
                        Err(e) => Err(e),
                        Ok((params, p3)) => {
                            let p4 = skip_ws(cs, p3);
                            match expect(cs, p4, '{') {
                                Err(e) => Err(e),
                                Ok(p5) => {
                                    let p6 = skip_ws(cs, p5);
                                    match p_expr(cs, p6, fuel - 1) {
                                        Err(e) => Err(e),
                                        Ok((body, p7)) => {
                                            let p8 = skip_ws(cs, p7);
                                            match expect(cs, p8, '}') {
                                                Err(e) => Err(e),
                                                Ok(p9) => {
                                                    let p10 = skip_ws(cs, p9);
                                                    match expect(cs, p10, '>') {
                                                        Err(e) => Err(e),
                                                        Ok(p11) => Ok(
                                                            (
                                                                Entry::Macro(
                                                                    name,
                                                                    params,
                                                                    Box::new(body),
                                                                ),
                                                                p11,
                                                            ),
                                                        ),
                                                    }
                                                },
                                            }
                                        },
                                    }
                                },
                            }
                        },
                    }
                } else if peek_is(cs, p2, '[') {
                    match p_expr_list(cs, p2 + 1, ']', fuel - 1) {
                        Err(e) => Err(e),
                        Ok((idx, p3)) => p_entity_rest(cs, name, idx, p3, fuel),
                    }
                } else {
                    let empty: Vec<Expr> = Vec::new();
                    proof {
                        assert(exprs_model(empty@) =~= Seq::<SpecExpr>::empty());
                    }
                    p_entity_rest(cs, name, empty, p2, fuel)
                }
            },
        },
    }
}

fn entry_budget(cs: &Vec<char>) -> (r: u64)
    ensures
        r as nat == sp_budget(cs@.len()),
{
    let n = cs.len();
    match (n as u64).checked_add(1) {
        Some(x) => x,
        None => u64::MAX,
    }
}

fn parse_tail(cs: &Vec<char>, acc: Vec<Entry>, pos: usize, fuel: u64) -> (r: Result<
    Vec<Entry>,
    ParseError,
>)
    ensures
        match r {
            Ok(es) => sp_parse_tail(cs@, entries_model_p(acc@), pos as int, fuel as nat) == Ok::<
                Seq<SpecEntryP>,
                int,
            >(entries_model_p(es@)),
            Err(e) => sp_parse_tail(cs@, entries_model_p(acc@), pos as int, fuel as nat) == Err::<
                Seq<SpecEntryP>,
                int,
            >(e.pos as int),
        },
    decreases fuel,
{
    if fuel == 0 {
        return Err(ParseError { pos });
    }
    let p = skip_ws(cs, pos);
    if p >= cs.len() {
        return Ok(acc);
    }
    let budget = entry_budget(cs);
    match p_entry(cs, p, budget) {
        Err(e) => Err(e),
        Ok((entry, p2)) => {
            if p2 <= p {
                Err(ParseError { pos: p })
            } else {
                let mut acc = acc;
                let ghost av0 = acc@;
                acc.push(entry);
                proof {
                    assert(acc@.drop_last() =~= av0);
                }
                parse_tail(cs, acc, p2, fuel - 1)
            }
        },
    }
}

/// Parses resource text into its entries: exactly what [`sp_parse`] says of
/// the text, or the position of the first offending character.  Parsing is
/// total and never panics.
pub fn parse(source: &str) -> (r: Result<Vec<Entry>, ParseError>)
    ensures
        match r {
            Ok(es) => sp_parse(source@) == Ok::<Seq<SpecEntryP>, int>(entries_model_p(es@)),
            Err(e) => sp_parse(source@) == Err::<Seq<SpecEntryP>, int>(e.pos as int),
        },
{
    let cs = str_to_chars(source);
    let fuel = entry_budget(&cs);
    let empty: Vec<Entry> = Vec::new();
    proof {
        assert(entries_model_p(empty@) =~= Seq::<SpecEntryP>::empty());
    }
    parse_tail(&cs, empty, 0, fuel)
}

} // verus!
