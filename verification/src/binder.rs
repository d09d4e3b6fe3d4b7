//! The textual fallback for binding parameters: each value is rendered as an
//! SQL literal and put in the place of a `?` of the query template, and what
//! the template quotes is never touched.
//!
//! A float is not turned into text here. Its decimal text comes with the
//! value, and stands in the query only where the float is finite and the
//! text is made of the characters of a number; `NULL` stands there
//! otherwise.

use vstd::prelude::*;
use vstd::string::*;
use crate::json::{json_text, json_to_text};
use crate::text::{
    check_number_text, hex, is_number_text, push_hex, push_quoted, push_signed_decimal, quoted,
    signed_decimal,
};
use crate::value::{SpecValue, Value};

verus! {

/// Whether the 64-bit IEEE number with these bits is finite: its exponent
/// field is not all ones.
pub open spec fn is_finite64(bits: u64) -> bool {
    bits / 0x10_0000_0000_0000 % 2048 != 2047
}

/// Whether the 32-bit IEEE number with these bits is finite.
pub open spec fn is_finite32(bits: u32) -> bool {
    bits / 0x80_0000 % 256 != 255
}

/// The literal of a number: the `i`-th of the decimal texts at hand, where
/// the number is finite and that text is there and is the text of a number;
/// `NULL` otherwise.
pub open spec fn number_literal(finite: bool, decimals: Seq<Seq<char>>, i: int) -> Seq<char> {
    if finite && 0 <= i < decimals.len() && is_number_text(decimals[i]) {
        decimals[i]
    } else {
        "NULL"@
    }
}

/// The literals of the components of a vector, with a comma between each
/// two.
pub open spec fn vector_list(components: Seq<u32>, decimals: Seq<Seq<char>>) -> Seq<char>
    decreases components.len(),
{
    if components.len() == 0 {
        Seq::empty()
    } else {
        let i = components.len() - 1;
        let item = number_literal(is_finite32(components[i]), decimals, i);
        if i == 0 {
            item
        } else {
            vector_list(components.drop_last(), decimals) + seq![','] + item
        }
    }
}

/// The SQL literal of a value. `decimals` holds the decimal text of each
/// float of the value, in order: one for a `Float`, one for each component
/// of a `Vector`, two for a `GeoPoint`.
pub open spec fn literal(v: SpecValue, decimals: Seq<Seq<char>>) -> Seq<char> {
    match v {
        SpecValue::Null => "NULL"@,
        SpecValue::Integer(i) => signed_decimal(i as int),
        SpecValue::Float(bits) => number_literal(is_finite64(bits), decimals, 0),
        SpecValue::Text(s) => quoted(s),
        SpecValue::Blob(b) => seq!['X', '\''] + hex(b) + seq!['\''],
        SpecValue::Boolean(b) => if b {
            seq!['1']
        } else {
            seq!['0']
        },
        SpecValue::Jsonb(doc) => quoted(json_text(doc)),
        SpecValue::Vector(c) => quoted(seq!['['] + vector_list(c, decimals) + seq![']']),
        SpecValue::Timestamp(t) => signed_decimal(t as int),
        SpecValue::GeoPoint(lat, lon) => "POINT("@ + number_literal(
            is_finite64(lat),
            decimals,
            0,
        ) + seq![','] + number_literal(is_finite64(lon), decimals, 1) + seq![')'],
    }
}

/// What each text of `texts` holds.
pub open spec fn text_views(texts: Seq<String>) -> Seq<Seq<char>> {
    texts.map_values(|t: String| t@)
}

/// Tells whether the 64-bit IEEE number with these bits is finite.
fn finite64(bits: u64) -> (b: bool)
    ensures
        b == is_finite64(bits),
{
    bits / 0x10_0000_0000_0000 % 2048 != 2047
}

/// Tells whether the 32-bit IEEE number with these bits is finite.
fn finite32(bits: u32) -> (b: bool)
    ensures
        b == is_finite32(bits),
{
    bits / 0x80_0000 % 256 != 255
}

/// Appends the literal of a number to `out`.
fn push_number(out: &mut String, finite: bool, decimals: &[String], i: usize)
    ensures
        final(out)@ == old(out)@ + number_literal(finite, text_views(decimals@), i as int),
{
    if finite && i < decimals.len() && check_number_text(decimals[i].as_str()) {
        out.append(decimals[i].as_str());
    } else {
        out.append("NULL");
    }
}

/// Appends the SQL literal of `v` to `out`.
pub fn push_literal(out: &mut String, v: &Value, decimals: &[String])
    ensures
        final(out)@ == old(out)@ + literal(v@, text_views(decimals@)),
{
    let ghost texts = text_views(decimals@);
    match v {
        Value::Null => {
            out.append("NULL");
        },
        Value::Integer(i) => {
            push_signed_decimal(out, *i);
        },
        Value::Float(bits) => {
            push_number(out, finite64(*bits), decimals, 0);
        },
        Value::Text(s) => {
            push_quoted(out, s.as_str());
        },
        Value::Blob(b) => {
            out.push('X');
            out.push('\'');
            push_hex(out, b.as_slice());
            out.push('\'');
            assert(out@ =~= old(out)@ + literal(v@, texts));
        },
        Value::Boolean(b) => {
            out.push(if *b { '1' } else { '0' });
            assert(out@ =~= old(out)@ + literal(v@, texts));
        },
        Value::Jsonb(j) => {
            let s = json_to_text(j);
            push_quoted(out, s.as_str());
        },
        Value::Vector(c) => {
            let mut list = String::new();
            list.push('[');
            let mut i: usize = 0;
            while i < c.len()
                invariant
                    i <= c.len(),
                    texts == text_views(decimals@),
                    list@ == seq!['['] + vector_list(c@.take(i as int), texts),
                decreases c.len() - i,
            {
                if i > 0 {
                    list.push(',');
                }
                push_number(&mut list, finite32(c[i]), decimals, i);
                proof {
                    let now = c@.take(i + 1);
                    assert(now.drop_last() =~= c@.take(i as int));
                    assert(now[i as int] == c@[i as int]);
                    assert(list@ =~= seq!['['] + vector_list(now, texts));
                }
                i += 1;
            }
            assert(c@.take(c.len() as int) =~= c@);
            list.push(']');
            assert(list@ =~= seq!['['] + vector_list(c@, texts) + seq![']']);
            push_quoted(out, list.as_str());
        },
        Value::Timestamp(t) => {
            push_signed_decimal(out, *t);
        },
        Value::GeoPoint(lat, lon) => {
            out.append("POINT(");
            push_number(out, finite64(*lat), decimals, 0);
            out.push(',');
            push_number(out, finite64(*lon), decimals, 1);
            out.push(')');
            assert(out@ =~= old(out)@ + literal(v@, texts));
        },
    }
}

/// Renders `v` as an SQL literal. `decimals` holds the decimal text of each
/// float of `v`, in order; a float that is not finite, or whose text is
/// missing or is not the text of a number, is rendered as `NULL`.
pub fn sql_literal(v: &Value, decimals: &[String]) -> (s: String)
    ensures
        s@ == literal(v@, text_views(decimals@)),
{
    let mut s = String::new();
    push_literal(&mut s, v, decimals);
    assert(s@ =~= literal(v@, text_views(decimals@)));
    s
}

/// The number of single quotes in `s`.
pub open spec fn quotes_in(s: Seq<char>) -> nat
    decreases s.len(),
{
    if s.len() == 0 {
        0
    } else if s.last() == '\'' {
        quotes_in(s.drop_last()) + 1
    } else {
        quotes_in(s.drop_last())
    }
}

/// Whether the character at `i` of `sql` is a placeholder: a `?` that no
/// quoted literal holds, which is one with an even number of single quotes
/// before it.
pub open spec fn is_placeholder(sql: Seq<char>, i: int) -> bool {
    sql[i] == '?' && quotes_in(sql.take(i)) % 2 == 0
}

/// The number of placeholders among the first `n` characters of `sql`.
pub open spec fn placeholders_in(sql: Seq<char>, n: nat) -> nat
    decreases n,
{
    if n == 0 {
        0
    } else if is_placeholder(sql, n - 1) {
        placeholders_in(sql, (n - 1) as nat) + 1
    } else {
        placeholders_in(sql, (n - 1) as nat)
    }
}

/// What binding makes of the first `n` characters of `sql`: each is copied,
/// but for the placeholders, in whose place the literals of `lits` stand, in
/// order, as long as there are any.
pub open spec fn bound_prefix(sql: Seq<char>, n: nat, lits: Seq<Seq<char>>) -> Seq<char>
    decreases n,
{
    if n == 0 {
        Seq::empty()
    } else {
        let i = n - 1;
        let k = placeholders_in(sql, i as nat);
        if is_placeholder(sql, i) && k < lits.len() {
            bound_prefix(sql, i as nat, lits) + lits[k as int]
        } else {
            bound_prefix(sql, i as nat, lits).push(sql[i])
        }
    }
}

/// The query that binding `lits` to the template `sql` gives.
pub open spec fn bound(sql: Seq<char>, lits: Seq<Seq<char>>) -> Seq<char> {
    bound_prefix(sql, sql.len(), lits)
}

/// The decimal texts that go with the `i`-th parameter: those at `i` of
/// `decimals`, and none where `decimals` is shorter.
pub open spec fn decimals_for(decimals: Seq<Vec<String>>, i: int) -> Seq<Seq<char>> {
    if 0 <= i < decimals.len() {
        text_views(decimals[i]@)
    } else {
        Seq::empty()
    }
}

/// The literals of `params`, each rendered with the decimal texts that go
/// with it.
pub open spec fn literals(params: Seq<Value>, decimals: Seq<Vec<String>>) -> Seq<Seq<char>> {
    Seq::new(params.len(), |i: int| literal(params[i]@, decimals_for(decimals, i)))
}

/// Binds `params` to the placeholders of `sql`, in order. A `?` inside a
/// quoted literal of `sql` is no placeholder, a doubled quote inside one does
/// not end it, and a literal that the end of `sql` cuts off is copied as it
/// is. A placeholder for which no parameter is left stays a `?`.
/// `decimals[i]` holds the decimal texts of the floats of `params[i]`.
pub fn bind_params(sql: &str, params: &[Value], decimals: &[Vec<String>]) -> (out: String)
    ensures
        out@ == bound(sql@, literals(params@, decimals@)),
{
    let ghost lits = literals(params@, decimals@);
    let mut out = String::new();
    let mut in_quotes: bool = false;
    let mut k: usize = 0;
    let none: Vec<String> = Vec::new();
    assert(quotes_in(sql@.take(0)) == 0);
    for c in it: sql.chars()
        invariant
            it.seq() == sql@,
            lits == literals(params@, decimals@),
            none@.len() == 0,
            in_quotes == (quotes_in(sql@.take(it.index() as int)) % 2 == 1),
            k <= params@.len(),
            k == placeholders_in(sql@, it.index() as nat) || (k == params@.len() && k
                < placeholders_in(sql@, it.index() as nat)),
            out@ == bound_prefix(sql@, it.index() as nat, lits),
    {
        proof {
            let now = sql@.take(it.index() + 1);
            assert(now.drop_last() =~= sql@.take(it.index() as int));
            assert(now.last() == c);
        }
        if c == '\'' {
            in_quotes = !in_quotes;
            out.push(c);
        } else if c == '?' && !in_quotes && k < params.len() {
            let texts: &Vec<String> = if k < decimals.len() {
                &decimals[k]
            } else {
                &none
            };
            assert(text_views(texts@) =~= decimals_for(decimals@, k as int));
            push_literal(&mut out, &params[k], texts.as_slice());
            k += 1;
        } else {
            out.push(c);
        }
    }
    out
}

} // verus!
