//! Reading s-expressions from text.
//!
//! The text of a structure is an atom or a parenthesized list of structures,
//! separated by white space. An atom is a decimal integer (with an optional
//! leading `-`) when it fits in an `i64`, a string between double quotes, or
//! else a symbol.

use vstd::prelude::*;

use crate::primitive::{Number, Primitive, Symbol};
use crate::sexp::{spec_list, Cons, Sexp};
use crate::text::chars_of;

verus! {

broadcast use vstd::string::group_string_axioms;

/// Why a text is not the text of a structure.
#[derive(Clone, Copy, Debug, PartialEq, Eq, Structural)]
pub enum ParseError {
    /// The text holds no structure.
    Empty,
    /// A list is not closed.
    MissingClose,
    /// A list is closed that was not opened.
    UnexpectedClose,
    /// Text follows the structure.
    ExtraInput,
    /// A string is not closed.
    UnterminatedString,
}

pub open spec fn is_space(c: char) -> bool {
    c == ' ' || c == '\n' || c == '\t' || c == '\r'
}

/// Characters that end an atom.
pub open spec fn is_delimiter(c: char) -> bool {
    is_space(c) || c == '(' || c == ')' || c == '"'
}

pub open spec fn is_digit(c: char) -> bool {
    '0' <= c && c <= '9'
}

pub open spec fn all_digits(d: Seq<char>) -> bool {
    forall|i: int| 0 <= i < d.len() ==> is_digit(#[trigger] d[i])
}

/// The value of a run of decimal digits.
pub open spec fn digits_value(d: Seq<char>) -> int
    decreases d.len(),
{
    if d.len() == 0 {
        0
    } else {
        digits_value(d.drop_last()) * 10 + (d.last() as int - '0' as int)
    }
}

/// The integer that an atom denotes, if it is a decimal integer.
pub open spec fn integer_value(t: Seq<char>) -> Option<int> {
    if t.len() >= 2 && t[0] == '-' && all_digits(t.drop_first()) {
        Some(-digits_value(t.drop_first()))
    } else if t.len() >= 1 && all_digits(t) {
        Some(digits_value(t))
    } else {
        None
    }
}

/// Whether `t` is the text of an integer that fits in an `i64`.
pub open spec fn is_integer_atom(t: Seq<char>) -> bool {
    integer_value(t) matches Some(v) && i64::MIN <= v <= i64::MAX
}

/// What the text of a structure fixes of it: integers, symbols and strings
/// by their values, and lists cell by cell.
pub enum Shape {
    Integer(i64),
    Symbol(Seq<char>),
    Text(Seq<char>),
    /// A primitive that no text denotes.
    Other,
    Cell(Option<Box<Shape>>, Option<Box<Shape>>),
}

/// The shape of a structure.
pub open spec fn shape(s: Sexp) -> Shape
    decreases s,
{
    match s {
        Sexp::Primitive(Primitive::Number(Number::Integer(v))) => Shape::Integer(v),
        Sexp::Primitive(Primitive::Symbol(sym)) => Shape::Symbol(sym@),
        Sexp::Primitive(Primitive::LangString(t)) => Shape::Text(t@),
        Sexp::Primitive(_) => Shape::Other,
        Sexp::Cons(c) => Shape::Cell(
            match c.car {
                Some(a) => Some(Box::new(shape(*a))),
                None => None,
            },
            match c.cdr {
                Some(d) => Some(Box::new(shape(*d))),
                None => None,
            },
        ),
    }
}

/// The shapes of a sequence of structures.
pub open spec fn shapes(v: Seq<Sexp>) -> Seq<Shape> {
    v.map_values(|e: Sexp| shape(e))
}

/// The shape of the proper list of the given shapes.
pub open spec fn shape_list(es: Seq<Shape>) -> Shape
    decreases es.len(),
{
    if es.len() == 0 {
        Shape::Cell(None, None)
    } else {
        Shape::Cell(
            Some(Box::new(es[0])),
            if es.len() == 1 {
                None
            } else {
                Some(Box::new(shape_list(es.drop_first())))
            },
        )
    }
}

/// The list of some structures has the list shape of their shapes.
pub proof fn lemma_shape_list(v: Seq<Sexp>)
    ensures
        shape(spec_list(v)) == shape_list(shapes(v)),
    decreases v.len(),
{
    if v.len() > 1 {
        lemma_shape_list(v.drop_first());
        assert(shapes(v.drop_first()) =~= shapes(v).drop_first());
    }
}

/// The first position at or after `p` that does not hold white space.
pub open spec fn skip_ws(c: Seq<char>, p: int) -> int
    decreases c.len() - p,
{
    if 0 <= p < c.len() && is_space(c[p]) {
        skip_ws(c, p + 1)
    } else {
        p
    }
}

/// The first position at or after `p` that holds a delimiter.
pub open spec fn atom_stop(c: Seq<char>, p: int) -> int
    decreases c.len() - p,
{
    if 0 <= p < c.len() && !is_delimiter(c[p]) {
        atom_stop(c, p + 1)
    } else {
        p
    }
}

/// The first position at or after `p` that holds a double quote.
pub open spec fn quote_stop(c: Seq<char>, p: int) -> int
    decreases c.len() - p,
{
    if 0 <= p < c.len() && c[p] != '"' {
        quote_stop(c, p + 1)
    } else {
        p
    }
}

/// Skipping white space stays within the text and stops at a character
/// that is not white space.
pub proof fn lemma_skip_ws(c: Seq<char>, p: int)
    requires
        0 <= p <= c.len(),
    ensures
        p <= skip_ws(c, p) <= c.len(),
        skip_ws(c, p) < c.len() ==> !is_space(c[skip_ws(c, p)]),
    decreases c.len() - p,
{
    if p < c.len() && is_space(c[p]) {
        lemma_skip_ws(c, p + 1);
    }
}

proof fn lemma_atom_stop(c: Seq<char>, p: int)
    requires
        0 <= p <= c.len(),
    ensures
        p <= atom_stop(c, p) <= c.len(),
    decreases c.len() - p,
{
    if p < c.len() && !is_delimiter(c[p]) {
        lemma_atom_stop(c, p + 1);
    }
}

/// The shape of the atom whose text is `t`: its integer where it is the
/// text of one that fits in an `i64`, else the symbol named `t`.
pub open spec fn atom_shape(t: Seq<char>) -> Shape {
    if is_integer_atom(t) {
        Shape::Integer(integer_value(t)->0 as i64)
    } else {
        Shape::Symbol(t)
    }
}

/// The structure whose text starts at `p` of `c`, and the position after
/// it.
pub open spec fn parse_item(c: Seq<char>, p: int) -> Result<(Shape, int), ParseError>
    decreases c.len() - p, 0int,
{
    if !(0 <= p < c.len()) {
        Err(ParseError::Empty)
    } else if c[p] == '(' {
        match parse_items(c, p + 1, Seq::empty()) {
            Ok((es, next)) => Ok((shape_list(es), next)),
            Err(e) => Err(e),
        }
    } else if c[p] == ')' {
        Err(ParseError::UnexpectedClose)
    } else if c[p] == '"' {
        let q = quote_stop(c, p + 1);
        if q >= c.len() {
            Err(ParseError::UnterminatedString)
        } else {
            Ok((Shape::Text(c.subrange(p + 1, q)), q + 1))
        }
    } else {
        let end = atom_stop(c, p);
        Ok((atom_shape(c.subrange(p, end)), end))
    }
}

/// The elements of a list whose text goes on at `p`, after the elements
/// `acc`, and the position after its closing parenthesis.
pub open spec fn parse_items(c: Seq<char>, p: int, acc: Seq<Shape>) -> Result<
    (Seq<Shape>, int),
    ParseError,
>
    decreases c.len() - p, 1int,
{
    if !(0 <= p <= c.len()) {
        Err(ParseError::MissingClose)
    } else {
        proof {
            lemma_skip_ws(c, p);
        }
        let q = skip_ws(c, p);
        if q >= c.len() {
            Err(ParseError::MissingClose)
        } else if c[q] == ')' {
            Ok((acc, q + 1))
        } else {
            match parse_item(c, q) {
                Ok((e, next)) => if q < next <= c.len() {
                    parse_items(c, next, acc.push(e))
                } else {
                    Err(ParseError::MissingClose)
                },
                Err(err) => Err(err),
            }
        }
    }
}

/// The structure that the text `c` is the text of.
pub open spec fn parse_text(c: Seq<char>) -> Result<Shape, ParseError> {
    let p = skip_ws(c, 0);
    if p >= c.len() {
        Err(ParseError::Empty)
    } else {
        match parse_item(c, p) {
            Ok((e, next)) => if skip_ws(c, next) < c.len() {
                Err(ParseError::ExtraInput)
            } else {
                Ok(e)
            },
            Err(err) => Err(err),
        }
    }
}

/// The structures that the text `c` holds from `p` on, one after another,
/// after those of `acc`.
pub open spec fn parse_all(c: Seq<char>, p: int, acc: Seq<Shape>) -> Result<Seq<Shape>, ParseError>
    decreases c.len() - p,
{
    if !(0 <= p <= c.len()) {
        Ok(acc)
    } else {
        proof {
            lemma_skip_ws(c, p);
        }
        let q = skip_ws(c, p);
        if q >= c.len() {
            Ok(acc)
        } else {
            match parse_item(c, q) {
                Ok((e, next)) => if q < next <= c.len() {
                    parse_all(c, next, acc.push(e))
                } else {
                    Ok(acc)
                },
                Err(err) => Err(err),
            }
        }
    }
}

proof fn lemma_digits_nonneg(d: Seq<char>)
    requires
        all_digits(d),
    ensures
        digits_value(d) >= 0,
    decreases d.len(),
{
    if d.len() > 0 {
        assert(all_digits(d.drop_last()));
        lemma_digits_nonneg(d.drop_last());
    }
}

/// Appending digits never makes the value smaller.
proof fn lemma_digits_grow(d: Seq<char>, k: int)
    requires
        all_digits(d),
        0 <= k <= d.len(),
    ensures
        digits_value(d.subrange(0, k)) <= digits_value(d),
    decreases d.len() - k,
{
    if k < d.len() {
        lemma_digits_grow(d, k + 1);
        let p = d.subrange(0, k + 1);
        assert(p.drop_last() =~= d.subrange(0, k));
        assert(all_digits(p.drop_last()));
        lemma_digits_nonneg(p.drop_last());
    } else {
        assert(d.subrange(0, k) =~= d);
    }
}

/// The list holding the given elements.
pub fn list_from_vec(elems: Vec<Sexp>) -> (res: Sexp)
    ensures
        res == spec_list(elems@),
{
    let ghost all = elems@;
    let n = elems.len();
    if n == 0 {
        return Sexp::Cons(Cons::new(None, None));
    }
    let mut elems = elems;
    let mut tail: Option<Box<Sexp>> = None;
    let mut i: usize = n;
    while i > 0
        invariant
            n == all.len(),
            n > 0,
            i <= n,
            elems@ == all.take(i as int),
            i < n ==> tail == Some(Box::new(spec_list(all.skip(i as int)))),
            i == n ==> tail is None,
        decreases i,
    {
        let e = elems.pop().unwrap();
        i = i - 1;
        assert(e == all[i as int]);
        assert(elems@ =~= all.take(i as int));
        let ghost rest = all.skip(i as int);
        assert(rest[0] == all[i as int]);
        assert(rest.drop_first() =~= all.skip(i + 1));
        let cell = Sexp::Cons(Cons::new(Some(Box::new(e)), tail));
        proof {
            if i + 1 == n {
                assert(rest.len() == 1);
            }
            assert(cell == spec_list(rest));
        }
        tail = Some(Box::new(cell));
    }
    assert(all.skip(0) =~= all);
    *tail.unwrap()
}

/// The first position at or after `pos` that does not hold white space.
fn skip_space(c: &Vec<char>, pos: usize) -> (res: usize)
    requires
        pos <= c@.len(),
    ensures
        res == skip_ws(c@, pos as int),
        pos <= res <= c@.len(),
        res < c@.len() ==> !is_space(c@[res as int]),
{
    let mut p = pos;
    while p < c.len() && (c[p] == ' ' || c[p] == '\n' || c[p] == '\t' || c[p] == '\r')
        invariant
            pos <= p <= c@.len(),
            skip_ws(c@, p as int) == skip_ws(c@, pos as int),
        decreases c@.len() - p,
    {
        p = p + 1;
    }
    p
}

/// The end of the atom that starts at `pos`.
fn atom_end(c: &Vec<char>, pos: usize) -> (res: usize)
    requires
        pos < c@.len(),
    ensures
        res == atom_stop(c@, pos as int),
        pos <= res <= c@.len(),
{
    let mut p = pos;
    while p < c.len() && !(c[p] == ' ' || c[p] == '\n' || c[p] == '\t' || c[p] == '\r' || c[p]
        == '(' || c[p] == ')' || c[p] == '"')
        invariant
            pos <= p <= c@.len(),
            atom_stop(c@, p as int) == atom_stop(c@, pos as int),
        decreases c@.len() - p,
    {
        p = p + 1;
    }
    p
}

/// The integer that `c[start..end]` denotes, if it is a decimal integer
/// that fits in an `i64`.
fn parse_integer(c: &Vec<char>, start: usize, end: usize) -> (res: Option<i64>)
    requires
        start <= end <= c@.len(),
    ensures
        ({
            let t = c@.subrange(start as int, end as int);
            match integer_value(t) {
                Some(v) => if i64::MIN <= v <= i64::MAX {
                    res == Some(v as i64)
                } else {
                    res is None
                },
                None => res is None,
            }
        }),
{
    let ghost t = c@.subrange(start as int, end as int);
    if start == end {
        return None;
    }
    let negative = c[start] == '-';
    let first = if negative { start + 1 } else { start };
    if first == end {
        return None;
    }
    let ghost d = c@.subrange(first as int, end as int);
    proof {
        if negative {
            assert(t.drop_first() =~= d);
        } else {
            assert(t =~= d);
        }
    }
    let bound: i128 = 10_000_000_000_000_000_000;
    let mut acc: i128 = 0;
    let mut i: usize = first;
    while i < end
        invariant
            start <= first <= i <= end <= c@.len(),
            first < end,
            d == c@.subrange(first as int, end as int),
            t == c@.subrange(start as int, end as int),
            negative == (c@[start as int] == '-'),
            first == (if negative { start + 1 } else { start as int }),
            negative ==> t.drop_first() == d,
            !negative ==> t == d,
            forall|k: int| first <= k < i ==> is_digit(#[trigger] c@[k]),
            bound == 10_000_000_000_000_000_000i128,
            0 <= acc <= bound,
            acc == digits_value(c@.subrange(first as int, i as int)),
        decreases end - i,
    {
        let ch = c[i];
        if !('0' <= ch && ch <= '9') {
            proof {
                assert(!is_digit(d[i - first]));
                assert(!all_digits(d));
                if negative {
                    assert(t[0] == '-');
                    assert(!all_digits(t)) by {
                        assert(!is_digit(t[0]));
                    }
                } else {
                    assert(!all_digits(t));
                }
            }
            return None;
        }
        let digit: i128 = (ch as u32 - '0' as u32) as i128;
        proof {
            let p = c@.subrange(first as int, i + 1);
            assert(p.drop_last() =~= c@.subrange(first as int, i as int));
            assert(p.last() == ch);
        }
        assert(0 <= digit <= 9);
        assert(acc * 10 <= 100_000_000_000_000_000_000) by (nonlinear_arith)
            requires
                0 <= acc <= 10_000_000_000_000_000_000i128,
        ;
        acc = acc * 10 + digit;
        i = i + 1;
        if acc > bound {
            // Too large for an i64 whichever the sign; the rest must still be
            // checked for being digits.
            let mut j: usize = i;
            while j < end
                invariant
                    start <= first < i <= j <= end <= c@.len(),
                    d == c@.subrange(first as int, end as int),
                    t == c@.subrange(start as int, end as int),
                    negative == (c@[start as int] == '-'),
                    first == (if negative { start + 1 } else { start as int }),
                    negative ==> t.drop_first() == d,
                    !negative ==> t == d,
                    forall|k: int| first <= k < j ==> is_digit(#[trigger] c@[k]),
                    bound == 10_000_000_000_000_000_000i128,
                    acc > bound,
                    acc == digits_value(c@.subrange(first as int, i as int)),
                decreases end - j,
            {
                if !('0' <= c[j] && c[j] <= '9') {
                    proof {
                        assert(!is_digit(d[j - first]));
                        if negative {
                            assert(!all_digits(t)) by {
                                assert(!is_digit(t[0]));
                            }
                        } else {
                            assert(!all_digits(t));
                        }
                    }
                    return None;
                }
                j = j + 1;
            }
            proof {
                assert(all_digits(d)) by {
                    assert forall|k: int| 0 <= k < d.len() implies is_digit(#[trigger] d[k]) by {
                        assert(d[k] == c@[first + k]);
                    }
                }
                assert(d.subrange(0, i - first) =~= c@.subrange(first as int, i as int));
                lemma_digits_grow(d, i - first);
            }
            return None;
        }
    }
    proof {
        assert(c@.subrange(first as int, i as int) =~= d);
        assert(all_digits(d)) by {
            assert forall|k: int| 0 <= k < d.len() implies is_digit(#[trigger] d[k]) by {
                assert(d[k] == c@[first + k]);
            }
        }
    }
    if negative {
        if acc <= 9_223_372_036_854_775_808 {
            Some((-acc) as i64)
        } else {
            None
        }
    } else if acc <= 9_223_372_036_854_775_807 {
        Some(acc as i64)
    } else {
        None
    }
}

/// The structure whose text starts at `pos`, and the position after it.
fn parse_at(s: &str, c: &Vec<char>, pos: usize) -> (res: Result<(Sexp, usize), ParseError>)
    requires
        c@ == s@,
        pos < c@.len(),
        !is_space(c@[pos as int]),
    ensures
        res matches Ok((_, next)) ==> pos < next <= c@.len(),
        match parse_item(c@, pos as int) {
            Ok((sh, next)) => res matches Ok((e, n)) && shape(e) == sh && n == next,
            Err(err) => res == Err::<(Sexp, usize), ParseError>(err),
        },
    decreases c@.len() - pos,
{
    let _ = c.len();
    let ch = c[pos];
    if ch == '(' {
        let mut elems: Vec<Sexp> = Vec::new();
        let mut p: usize = pos + 1;
        assert(shapes(elems@) =~= Seq::<Shape>::empty());
        loop
            invariant
                c@ == s@,
                pos < p <= c@.len(),
                c@[pos as int] == '(',
                parse_item(c@, pos as int) == match parse_items(c@, p as int, shapes(elems@)) {
                    Ok((es, next)) => Ok((shape_list(es), next)),
                    Err(e) => Err(e),
                },
            decreases c@.len() - p,
        {
            let q = skip_space(c, p);
            if q >= c.len() {
                return Err(ParseError::MissingClose);
            }
            if c[q] == ')' {
                let ghost v = elems@;
                let list = list_from_vec(elems);
                proof {
                    lemma_shape_list(v);
                }
                return Ok((list, q + 1));
            }
            match parse_at(s, c, q) {
                Ok((e, next)) => {
                    proof {
                        assert(shapes(elems@.push(e)) =~= shapes(elems@).push(shape(e)));
                    }
                    elems.push(e);
                    p = next;
                },
                Err(err) => {
                    return Err(err);
                },
            }
        }
    } else if ch == ')' {
        Err(ParseError::UnexpectedClose)
    } else if ch == '"' {
        let mut p: usize = pos + 1;
        while p < c.len() && c[p] != '"'
            invariant
                pos < p <= c@.len(),
                quote_stop(c@, p as int) == quote_stop(c@, pos + 1),
            decreases c@.len() - p,
        {
            p = p + 1;
        }
        if p >= c.len() {
            return Err(ParseError::UnterminatedString);
        }
        let text = s.substring_char(pos + 1, p).to_owned();
        Ok((Sexp::Primitive(Primitive::LangString(text)), p + 1))
    } else {
        let end = atom_end(c, pos);
        proof {
            assert(!is_delimiter(c@[pos as int]));
            lemma_atom_stop(c@, pos + 1);
        }
        match parse_integer(c, pos, end) {
            Some(v) => Ok((Sexp::Primitive(Primitive::Number(Number::Integer(v))), end)),
            None => {
                let name = s.substring_char(pos, end).to_owned();
                Ok((Sexp::Primitive(Primitive::Symbol(Symbol::new(name))), end))
            },
        }
    }
}

/// Reads the structure that `s` is the text of.
pub fn parse_sexp(s: &str) -> (res: Result<Sexp, ParseError>)
    ensures
        match parse_text(s@) {
            Ok(sh) => res matches Ok(e) && shape(e) == sh,
            Err(err) => res == Err::<Sexp, ParseError>(err),
        },
{
    let c = chars_of(s);
    let p = skip_space(&c, 0);
    if p == c.len() {
        return Err(ParseError::Empty);
    }
    match parse_at(s, &c, p) {
        Ok((e, next)) => {
            let q = skip_space(&c, next);
            if q < c.len() {
                Err(ParseError::ExtraInput)
            } else {
                Ok(e)
            }
        },
        Err(err) => Err(err),
    }
}

/// Reads the structures that `s` holds one after another, in order: the
/// first error stops reading.
pub fn parse_sections(s: &str) -> (res: Result<Vec<Sexp>, ParseError>)
    ensures
        match parse_all(s@, 0, Seq::empty()) {
            Ok(shs) => res matches Ok(v) && shapes(v@) == shs,
            Err(err) => res == Err::<Vec<Sexp>, ParseError>(err),
        },
{
    let c = chars_of(s);
    let mut sections: Vec<Sexp> = Vec::new();
    let mut p: usize = 0;
    assert(shapes(sections@) =~= Seq::<Shape>::empty());
    loop
        invariant
            c@ == s@,
            p <= c@.len(),
            parse_all(s@, 0, Seq::empty()) == parse_all(s@, p as int, shapes(sections@)),
        decreases c@.len() - p,
    {
        let q = skip_space(&c, p);
        if q >= c.len() {
            return Ok(sections);
        }
        match parse_at(s, &c, q) {
            Ok((e, next)) => {
                proof {
                    assert(shapes(sections@.push(e)) =~= shapes(sections@).push(shape(e)));
                }
                sections.push(e);
                p = next;
            },
            Err(err) => {
                return Err(err);
            },
        }
    }
}

impl std::str::FromStr for Sexp {
    type Err = ParseError;

    /// Reads the structure that `s` is the text of, as `parse_sexp` does.
    fn from_str(s: &str) -> (res: Result<Sexp, ParseError>)
        ensures
            match parse_text(s@) {
                Ok(sh) => res matches Ok(e) && shape(e) == sh,
                Err(err) => res == Err::<Sexp, ParseError>(err),
            },
    {
        parse_sexp(s)
    }
}


/// An atom never runs over a tab: from any position up to a tab, the atom
/// stops at the tab at the latest.
pub proof fn lemma_atom_stops_at_tab(c: Seq<char>, q: int, p: int)
    requires
        0 <= q <= p < c.len(),
        c[p] == '\t',
    ensures
        atom_stop(c, q) <= p,
    decreases p - q,
{
    if q < p && !is_delimiter(c[q]) {
        lemma_atom_stops_at_tab(c, q + 1, p);
    }
}

/// A tab separates like a space: reading the elements of a list, or a run
/// of structures, from a tab gives what reading from just after it gives.
pub proof fn lemma_tab_is_space(c: Seq<char>, p: int, acc: Seq<Shape>)
    requires
        0 <= p < c.len(),
        c[p] == '\t',
    ensures
        skip_ws(c, p) == skip_ws(c, p + 1),
        parse_items(c, p, acc) == parse_items(c, p + 1, acc),
        parse_all(c, p, acc) == parse_all(c, p + 1, acc),
{
}

} // verus!
