//! What holds of quoted literals and of binding: reading a quoted literal
//! back gives the text that was quoted, and no value, whatever it holds, can
//! put a placeholder or an open quote into a query.

use vstd::prelude::*;
use crate::binder::{
    bound, bound_prefix, is_finite64, is_placeholder, literal, literals, number_literal,
    placeholders_in, quotes_in, vector_list,
};
use crate::json::json_text;
use crate::text::{decimal, doubled, hex, quoted, signed_decimal};
use crate::value::{SpecValue, Value};

verus! {

/// The text that the rest of a quoted literal stands for, where `body` is
/// what follows the opening quote: up to the closing quote, which has to be
/// the last character, with each doubled quote read as one.
pub open spec fn unquoted_body(body: Seq<char>) -> Option<Seq<char>>
    decreases body.len(),
{
    if body.len() == 0 {
        None
    } else if body[0] != '\'' {
        match unquoted_body(body.skip(1)) {
            Some(t) => Some(seq![body[0]] + t),
            None => None,
        }
    } else if body.len() == 1 {
        Some(Seq::empty())
    } else if body[1] == '\'' {
        match unquoted_body(body.skip(2)) {
            Some(t) => Some(seq!['\''] + t),
            None => None,
        }
    } else {
        None
    }
}

/// The text that a quoted literal stands for, where `lit` is one.
pub open spec fn unquoted(lit: Seq<char>) -> Option<Seq<char>> {
    if lit.len() > 0 && lit[0] == '\'' {
        unquoted_body(lit.skip(1))
    } else {
        None
    }
}

/// How one character stands in a quoted literal.
pub open spec fn doubled_char(c: char) -> Seq<char> {
    if c == '\'' {
        seq!['\'', '\'']
    } else {
        seq![c]
    }
}

/// Doubling goes character by character, from the front as from the back.
pub proof fn lemma_doubled_front(s: Seq<char>)
    requires
        s.len() > 0,
    ensures
        doubled(s) == doubled_char(s[0]) + doubled(s.drop_first()),
    decreases s.len(),
{
    let init = s.drop_last();
    assert(doubled(s) =~= doubled(init) + doubled_char(s.last()));
    if init.len() == 0 {
        assert(s.drop_first() =~= Seq::<char>::empty());
        assert(doubled(init) =~= Seq::<char>::empty());
        assert(doubled(s) =~= doubled_char(s[0]) + doubled(s.drop_first()));
    } else {
        lemma_doubled_front(init);
        let rest = s.drop_first();
        assert(rest.drop_last() =~= init.drop_first());
        assert(rest.last() == s.last());
        assert(doubled(rest) =~= doubled(init.drop_first()) + doubled_char(s.last()));
        assert(doubled(s) =~= doubled_char(s[0]) + doubled(rest));
    }
}

/// What follows the opening quote of a quoted literal reads back as the
/// text that was quoted.
proof fn lemma_unquoted_body(s: Seq<char>)
    ensures
        unquoted_body(doubled(s) + seq!['\'']) == Some(s),
    decreases s.len(),
{
    let body = doubled(s) + seq!['\''];
    if s.len() == 0 {
        assert(body =~= seq!['\'']);
        assert(s =~= Seq::<char>::empty());
    } else {
        let rest = s.drop_first();
        lemma_doubled_front(s);
        lemma_unquoted_body(rest);
        let tail = doubled(rest) + seq!['\''];
        if s[0] == '\'' {
            assert(body =~= seq!['\'', '\''] + tail);
            assert(body.skip(2) =~= tail);
            assert(seq!['\''] + rest =~= s);
        } else {
            assert(body =~= seq![s[0]] + tail);
            assert(body.skip(1) =~= tail);
            assert(seq![s[0]] + rest =~= s);
        }
    }
}

/// Reading a quoted literal back gives the text that was quoted, whatever
/// quotes that text holds.
pub proof fn theorem_quoted_reads_back(s: Seq<char>)
    ensures
        unquoted(quoted(s)) == Some(s),
{
    lemma_unquoted_body(s);
    assert(quoted(s).skip(1) =~= doubled(s) + seq!['\'']);
}

/// The literal of a text value reads back as that text.
pub proof fn theorem_text_literal_reads_back(s: Seq<char>, decimals: Seq<Seq<char>>)
    ensures
        unquoted(literal(SpecValue::Text(s), decimals)) == Some(s),
{
    theorem_quoted_reads_back(s);
}

/// Whether a text that begins inside a quoted literal, or outside one as
/// `inside` says, ends inside one.
pub open spec fn ends_inside(s: Seq<char>, inside: bool) -> bool {
    inside != (quotes_in(s) % 2 == 1)
}

/// The number of `?` of `s` that no quoted literal holds, where `s` begins
/// inside a quoted literal or outside one, as `inside` says.
pub open spec fn holes(s: Seq<char>, inside: bool) -> nat
    decreases s.len(),
{
    if s.len() == 0 {
        0
    } else if s.last() == '?' && !ends_inside(s.drop_last(), inside) {
        holes(s.drop_last(), inside) + 1
    } else {
        holes(s.drop_last(), inside)
    }
}

/// Whether `s` can stand in a query without a trace: it closes every quote
/// that it opens, and holds no `?` outside of quotes.
pub open spec fn sealed(s: Seq<char>) -> bool {
    quotes_in(s) % 2 == 0 && holes(s, false) == 0
}

/// Whether `s` holds neither a quote nor a `?`.
pub open spec fn plain(s: Seq<char>) -> bool {
    forall|i: int| 0 <= i < s.len() ==> #[trigger] s[i] != '\'' && s[i] != '?'
}

/// The quotes of two texts in a row are those of the one and of the other.
pub proof fn lemma_quotes_concat(a: Seq<char>, b: Seq<char>)
    ensures
        quotes_in(a + b) == quotes_in(a) + quotes_in(b),
    decreases b.len(),
{
    if b.len() == 0 {
        assert(a + b =~= a);
    } else {
        lemma_quotes_concat(a, b.drop_last());
        assert((a + b).drop_last() =~= a + b.drop_last());
    }
}

/// The holes of two texts in a row are those of the one and, from where the
/// one ends, those of the other.
pub proof fn lemma_holes_concat(a: Seq<char>, b: Seq<char>, inside: bool)
    ensures
        holes(a + b, inside) == holes(a, inside) + holes(b, ends_inside(a, inside)),
    decreases b.len(),
{
    if b.len() == 0 {
        assert(a + b =~= a);
    } else {
        lemma_holes_concat(a, b.drop_last(), inside);
        lemma_quotes_concat(a, b.drop_last());
        assert((a + b).drop_last() =~= a + b.drop_last());
    }
}

/// A text without quote and without `?` has no quote and no hole.
pub proof fn lemma_plain(s: Seq<char>, inside: bool)
    requires
        plain(s),
    ensures
        quotes_in(s) == 0,
        holes(s, inside) == 0,
    decreases s.len(),
{
    if s.len() > 0 {
        assert(s.last() == s[s.len() - 1]);
        lemma_plain(s.drop_last(), inside);
    }
}

/// The placeholders among the first characters of a template are the holes
/// of those characters.
pub proof fn lemma_placeholders_are_holes(sql: Seq<char>, n: nat)
    requires
        n <= sql.len(),
    ensures
        placeholders_in(sql, n) == holes(sql.take(n as int), false),
    decreases n,
{
    if n > 0 {
        lemma_placeholders_are_holes(sql, (n - 1) as nat);
        assert(sql.take(n as int).drop_last() =~= sql.take(n - 1));
        assert(sql.take(n as int).last() == sql[n - 1]);
    }
}

/// The quotes and the holes of a text of one character.
proof fn lemma_single(c: char, inside: bool)
    ensures
        quotes_in(seq![c]) == (if c == '\'' {
            1nat
        } else {
            0nat
        }),
        holes(seq![c], inside) == (if c == '?' && !inside {
            1nat
        } else {
            0nat
        }),
{
    let s = seq![c];
    assert(s.drop_last() =~= Seq::<char>::empty());
    assert(s.last() == c);
    assert(quotes_in(s.drop_last()) == 0);
    assert(holes(s.drop_last(), inside) == 0);
}

/// A number in decimal holds neither a quote nor a `?`.
proof fn lemma_decimal_plain(n: nat)
    ensures
        plain(decimal(n)),
    decreases n,
{
    if n >= 10 {
        lemma_decimal_plain(n / 10);
    }
}

/// Bytes in hexadecimal hold neither a quote nor a `?`.
proof fn lemma_hex_plain(b: Seq<u8>)
    ensures
        plain(hex(b)),
    decreases b.len(),
{
    if b.len() > 0 {
        lemma_hex_plain(b.drop_last());
    }
}

/// The literal of a number holds neither a quote nor a `?`.
proof fn lemma_number_plain(finite: bool, decimals: Seq<Seq<char>>, i: int)
    ensures
        plain(number_literal(finite, decimals, i)),
{
    reveal_strlit("NULL");
}

/// A doubled text has twice the quotes, and no hole where it stands inside
/// a quoted literal.
proof fn lemma_doubled_sealed(s: Seq<char>)
    ensures
        quotes_in(doubled(s)) == 2 * quotes_in(s),
        holes(doubled(s), true) == 0,
    decreases s.len(),
{
    if s.len() > 0 {
        let init = doubled(s.drop_last());
        let last = doubled_char(s.last());
        lemma_doubled_sealed(s.drop_last());
        assert(doubled(s) =~= init + last);
        lemma_quotes_concat(init, last);
        lemma_holes_concat(init, last, true);
        assert(ends_inside(init, true));
        if s.last() == '\'' {
            let q = seq!['\''];
            assert(last =~= q + q);
            lemma_single('\'', true);
            lemma_single('\'', false);
            lemma_quotes_concat(q, q);
            lemma_holes_concat(q, q, true);
        } else {
            lemma_single(s.last(), true);
        }
    }
}

/// A quoted literal is sealed, whatever text it quotes.
pub proof fn lemma_quoted_sealed(s: Seq<char>)
    ensures
        sealed(quoted(s)),
{
    let q = seq!['\''];
    lemma_single('\'', true);
    lemma_single('\'', false);
    lemma_doubled_sealed(s);
    lemma_quotes_concat(q, doubled(s));
    lemma_quotes_concat(q + doubled(s), q);
    lemma_holes_concat(q, doubled(s), false);
    lemma_holes_concat(q + doubled(s), q, false);
}

/// The literal of a value is sealed, whatever the value holds and whatever
/// decimal texts come with it.
pub proof fn theorem_literal_sealed(v: SpecValue, decimals: Seq<Seq<char>>)
    ensures
        sealed(literal(v, decimals)),
{
    match v {
        SpecValue::Null => {
            reveal_strlit("NULL");
            lemma_plain("NULL"@, false);
        },
        SpecValue::Integer(i) => {
            lemma_signed_decimal_plain(i as int);
            lemma_plain(signed_decimal(i as int), false);
        },
        SpecValue::Float(bits) => {
            lemma_number_plain(is_finite64(bits), decimals, 0);
            lemma_plain(literal(v, decimals), false);
        },
        SpecValue::Text(s) => {
            lemma_quoted_sealed(s);
        },
        SpecValue::Blob(b) => {
            let open = seq!['X', '\''];
            let close = seq!['\''];
            assert(open =~= seq!['X'] + close);
            lemma_single('X', false);
            lemma_single('\'', false);
            lemma_single('\'', true);
            lemma_quotes_concat(seq!['X'], close);
            lemma_holes_concat(seq!['X'], close, false);
            lemma_hex_plain(b);
            lemma_plain(hex(b), true);
            lemma_quotes_concat(open, hex(b));
            lemma_quotes_concat(open + hex(b), close);
            lemma_holes_concat(open, hex(b), false);
            lemma_holes_concat(open + hex(b), close, false);
        },
        SpecValue::Boolean(b) => {
            lemma_plain(literal(v, decimals), false);
        },
        SpecValue::Jsonb(doc) => {
            lemma_quoted_sealed(json_text(doc));
        },
        SpecValue::Vector(c) => {
            lemma_quoted_sealed(seq!['['] + vector_list(c, decimals) + seq![']']);
        },
        SpecValue::Timestamp(t) => {
            lemma_signed_decimal_plain(t as int);
            lemma_plain(signed_decimal(t as int), false);
        },
        SpecValue::GeoPoint(lat, lon) => {
            reveal_strlit("POINT(");
            lemma_number_plain(is_finite64(lat), decimals, 0);
            lemma_number_plain(is_finite64(lon), decimals, 1);
            lemma_plain(literal(v, decimals), false);
        },
    }
}

/// A signed number in decimal holds neither a quote nor a `?`.
proof fn lemma_signed_decimal_plain(i: int)
    ensures
        plain(signed_decimal(i)),
{
    if i < 0 {
        lemma_decimal_plain((-i) as nat);
    } else {
        lemma_decimal_plain(i as nat);
    }
}

/// The number of placeholders that binding `count` literals leaves of
/// `found`.
pub open spec fn left_over(found: nat, count: nat) -> nat {
    if found <= count {
        0
    } else {
        (found - count) as nat
    }
}

/// What binding makes of the first characters of a template has an even
/// number of quotes where those characters have, and of their placeholders
/// those for which no literal was left.
proof fn lemma_bound_prefix(sql: Seq<char>, n: nat, lits: Seq<Seq<char>>)
    requires
        n <= sql.len(),
        forall|k: int| 0 <= k < lits.len() ==> sealed(#[trigger] lits[k]),
    ensures
        quotes_in(bound_prefix(sql, n, lits)) % 2 == quotes_in(sql.take(n as int)) % 2,
        holes(bound_prefix(sql, n, lits), false) == left_over(
            placeholders_in(sql, n),
            lits.len(),
        ),
    decreases n,
{
    if n > 0 {
        let i = (n - 1) as nat;
        let before = bound_prefix(sql, i, lits);
        let k = placeholders_in(sql, i);
        lemma_bound_prefix(sql, i, lits);
        assert(sql.take(n as int).drop_last() =~= sql.take(i as int));
        assert(sql.take(n as int).last() == sql[i as int]);
        if is_placeholder(sql, i as int) && k < lits.len() {
            let l = lits[k as int];
            assert(sealed(l));
            lemma_quotes_concat(before, l);
            lemma_holes_concat(before, l, false);
        } else {
            let now = before.push(sql[i as int]);
            assert(now.drop_last() =~= before);
            assert(now.last() == sql[i as int]);
        }
    }
}

/// Binding fills placeholders and makes none: of the placeholders of a
/// template, those for which there is a literal are gone from the bound
/// query, the others are still there, and nothing that a literal holds has
/// become one. The quotes of the bound query are balanced where those of
/// the template are.
pub proof fn theorem_binding_makes_no_placeholder(sql: Seq<char>, lits: Seq<Seq<char>>)
    requires
        forall|k: int| 0 <= k < lits.len() ==> sealed(#[trigger] lits[k]),
    ensures
        holes(bound(sql, lits), false) == left_over(holes(sql, false), lits.len()),
        quotes_in(bound(sql, lits)) % 2 == quotes_in(sql) % 2,
{
    lemma_bound_prefix(sql, sql.len(), lits);
    lemma_placeholders_are_holes(sql, sql.len());
    assert(sql.take(sql.len() as int) =~= sql);
}

/// Binding values makes no placeholder: whatever the parameters hold, the
/// bound query has only those placeholders of the template for which no
/// parameter was left, and its quotes are balanced where those of the
/// template are.
pub proof fn theorem_bound_values_make_no_placeholder(
    sql: Seq<char>,
    params: Seq<Value>,
    decimals: Seq<Vec<String>>,
)
    ensures
        holes(bound(sql, literals(params, decimals)), false) == left_over(
            holes(sql, false),
            params.len(),
        ),
        quotes_in(bound(sql, literals(params, decimals))) % 2 == quotes_in(sql) % 2,
{
    let lits = literals(params, decimals);
    assert forall|k: int| 0 <= k < lits.len() implies sealed(#[trigger] lits[k]) by {
        theorem_literal_sealed(params[k]@, crate::binder::decimals_for(decimals, k));
    }
    theorem_binding_makes_no_placeholder(sql, lits);
}

/// Binding as a scanner does it, from the character at `i` on: outside of
/// quotes a quote opens a literal and a `?` takes the next literal of
/// `lits`, the `k`-th, if there is one; inside of quotes a doubled quote is
/// copied and goes on, a single one is copied and closes, and anything else
/// is copied.
pub open spec fn scanned(sql: Seq<char>, i: int, inside: bool, lits: Seq<Seq<char>>, k: nat) -> Seq<
    char,
>
    decreases sql.len() - i,
{
    if i < 0 || i >= sql.len() {
        Seq::empty()
    } else if inside {
        if sql[i] != '\'' {
            seq![sql[i]] + scanned(sql, i + 1, true, lits, k)
        } else if i + 1 < sql.len() && sql[i + 1] == '\'' {
            seq!['\'', '\''] + scanned(sql, i + 2, true, lits, k)
        } else {
            seq!['\''] + scanned(sql, i + 1, false, lits, k)
        }
    } else if sql[i] == '\'' {
        seq!['\''] + scanned(sql, i + 1, true, lits, k)
    } else if sql[i] == '?' && k < lits.len() {
        lits[k as int] + scanned(sql, i + 1, false, lits, (k + 1) as nat)
    } else {
        seq![sql[i]] + scanned(sql, i + 1, false, lits, k)
    }
}

/// What is bound of the first characters, then what the scanner makes of
/// the rest, is the bound query.
proof fn lemma_scanned(sql: Seq<char>, n: nat, lits: Seq<Seq<char>>, k: nat)
    requires
        n <= sql.len(),
        k == placeholders_in(sql, n) || (k >= lits.len() && placeholders_in(sql, n) >= lits.len()),
    ensures
        bound_prefix(sql, n, lits) + scanned(
            sql,
            n as int,
            quotes_in(sql.take(n as int)) % 2 == 1,
            lits,
            k,
        ) == bound(sql, lits),
    decreases sql.len() - n,
{
    let i = n as int;
    let inside = quotes_in(sql.take(i)) % 2 == 1;
    let done = bound_prefix(sql, n, lits);
    let rest = scanned(sql, i, inside, lits, k);
    if n == sql.len() {
        assert(done + rest =~= done);
    } else {
        assert(sql.take(i + 1).drop_last() =~= sql.take(i));
        assert(sql.take(i + 1).last() == sql[i]);
        if inside && sql[i] == '\'' && i + 1 < sql.len() && sql[i + 1] == '\'' {
            assert(sql.take(i + 2).drop_last() =~= sql.take(i + 1));
            assert(sql.take(i + 2).last() == sql[i + 1]);
            lemma_scanned(sql, n + 2, lits, k);
            let next = scanned(sql, i + 2, true, lits, k);
            assert(bound_prefix(sql, n + 2, lits) =~= done + seq!['\'', '\'']);
            assert(done + rest =~= (done + seq!['\'', '\'']) + next);
        } else if !inside && sql[i] == '?' && k < lits.len() {
            lemma_scanned(sql, n + 1, lits, (k + 1) as nat);
            let next = scanned(sql, i + 1, false, lits, (k + 1) as nat);
            assert(done + rest =~= (done + lits[k as int]) + next);
        } else {
            let after = quotes_in(sql.take(i + 1)) % 2 == 1;
            lemma_scanned(sql, n + 1, lits, k);
            let next = scanned(sql, i + 1, after, lits, k);
            assert(bound_prefix(sql, n + 1, lits) =~= done.push(sql[i]));
            assert(done + rest =~= done.push(sql[i]) + next);
        }
    }
}

/// Binding is what a scanner does that knows of the doubled quote: to
/// count the quotes before a `?` and to follow each literal to its closing
/// quote come to the same query, also where the end of the template cuts a
/// literal off.
pub proof fn theorem_bound_is_scanned(sql: Seq<char>, lits: Seq<Seq<char>>)
    ensures
        bound(sql, lits) == scanned(sql, 0, false, lits, 0),
{
    lemma_scanned(sql, 0, lits, 0);
    assert(sql.take(0) =~= Seq::<char>::empty());
    assert(bound_prefix(sql, 0, lits) + scanned(sql, 0, false, lits, 0) =~= scanned(
        sql,
        0,
        false,
        lits,
        0,
    ));
}

} // verus!
