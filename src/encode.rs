//! The encoding of expressions and types as fact terms.
//!
//! A value that is not a single scalar is decomposed: an enumerated set gives
//! one term per element, an array one term per element and position. Each
//! term ends up as an argument of its own fact.
use crate::model::{Domain, Element, Expr, Literal, Scalar, SetExpr};
use crate::text::{int_text, int_text_round_trip, int_to_text, parse_int, quote, quoted, usize_to_text};
use vstd::prelude::*;

verus! {

/// The text of each string of a sequence.
pub open spec fn texts(v: Seq<String>) -> Seq<Seq<char>> {
    v.map_values(|s: String| s@)
}

/// Each term put between `pre` and `post`.
pub open spec fn wrap_all(terms: Seq<Seq<char>>, pre: Seq<char>, post: Seq<char>) -> Seq<Seq<char>> {
    terms.map_values(|t: Seq<char>| pre + t + post)
}

/// The decimal text of each integer.
pub open spec fn int_texts(v: Seq<i128>) -> Seq<Seq<char>> {
    v.map_values(|x: i128| int_text(x as int))
}

/// The encoding of a literal: `true`/`false`, decimal digits, or a float's
/// text in quotes.
pub open spec fn literal_text(l: Literal) -> Seq<char> {
    match l {
        Literal::Bool(b) => if b {
            "true"@
        } else {
            "false"@
        },
        Literal::Int(n) => int_text(n as int),
        Literal::Float(t) => quoted(t@),
    }
}

/// The encoding of a scalar expression: `value,<literal>` or `var,"name"`.
pub open spec fn scalar_term(s: Scalar) -> Seq<char> {
    match s {
        Scalar::Value(l) => "value,"@ + literal_text(l),
        Scalar::Var(id) => "var,"@ + quoted(id@),
    }
}

/// The terms of a set expression. A range stays one term; an enumerated set
/// gives one term per element, or the single term `empty_set`.
pub open spec fn set_terms(s: SetExpr) -> Seq<Seq<char>> {
    match s {
        SetExpr::Range(lo, hi) => seq!["range,("@ + scalar_term(lo) + ","@ + scalar_term(hi) + ")"@],
        SetExpr::Bounds(lo, hi) => seq![
            "bounds,("@ + scalar_term(lo) + ","@ + scalar_term(hi) + ")"@,
        ],
        SetExpr::Elements(v) => if v@.len() == 0 {
            seq!["empty_set"@]
        } else {
            wrap_all(v@.map_values(|x: Scalar| scalar_term(x)), "set,("@, ")"@)
        },
        SetExpr::Var(id) => seq!["var,"@ + quoted(id@)],
    }
}

/// The terms of one value of an expression.
pub open spec fn element_terms(e: Element) -> Seq<Seq<char>> {
    match e {
        Element::Scalar(s) => seq![scalar_term(s)],
        Element::SetExpr(s) => set_terms(s),
    }
}

/// The terms of an array literal: those of each element, in order, each as
/// `array,(<position>,<term>)` with positions counted from zero.
pub open spec fn array_terms(v: Seq<Element>) -> Seq<Seq<char>>
    decreases v.len(),
{
    if v.len() == 0 {
        seq![]
    } else {
        array_terms(v.drop_last()) + wrap_all(
            element_terms(v.last()),
            "array,("@ + int_text(v.len() - 1) + ","@,
            ")"@,
        )
    }
}

/// The terms of an expression.
pub open spec fn expr_terms(e: Expr) -> Seq<Seq<char>> {
    match e {
        Expr::Single(x) => element_terms(x),
        Expr::Array(v) => array_terms(v@),
    }
}

/// The terms of a type: one term, or one per element of a finite domain.
pub open spec fn domain_terms(d: Domain) -> Seq<Seq<char>> {
    match d {
        Domain::Bool => seq!["bool"@],
        Domain::Int => seq!["int"@],
        Domain::Float => seq!["float"@],
        Domain::SetOfInt => seq!["set_of_int"@],
        Domain::IntRange(lo, hi) => seq![
            "int,range,(value,"@ + int_text(lo as int) + ",value,"@ + int_text(hi as int) + ")"@,
        ],
        Domain::IntSet(v) => wrap_all(int_texts(v@), "int,set,(value,"@, ")"@),
        Domain::FloatBounds(lo, hi) => seq![
            "float,(bounds,value,"@ + quoted(lo@) + ",value,"@ + quoted(hi@) + ")"@,
        ],
        Domain::FloatSet(v) => wrap_all(texts(v@), "float_in_set(\""@, "\")"@),
        Domain::SetOfIntRange(lo, hi) => seq![
            "set_of_int,range,(value,"@ + int_text(lo as int) + ",value,"@ + int_text(hi as int)
                + ")"@,
        ],
        Domain::SetOfIntSet(v) => wrap_all(int_texts(v@), "set_of_int,set,(value,"@, ")"@),
    }
}

/// Pushes `pre + t + post` for each term `t`, in order.
pub fn wrap_each(out: &mut Vec<String>, pre: &str, terms: &Vec<String>, post: &str)
    ensures
        texts(final(out)@) == texts(old(out)@) + wrap_all(texts(terms@), pre@, post@),
{
    let ghost start = texts(out@);
    let mut i: usize = 0;
    while i < terms.len()
        invariant
            i <= terms.len(),
            texts(out@) == start + wrap_all(texts(terms@.take(i as int)), pre@, post@),
        decreases terms.len() - i,
    {
        let mut s = String::from_str(pre);
        s.append(terms[i].as_str());
        s.append(post);
        let ghost before = out@;
        out.push(s);
        proof {
            assert(texts(terms@.take(i + 1)) =~= texts(terms@.take(i as int)).push(terms@[i as int]@));
            assert(texts(out@) =~= texts(before).push(s@));
            assert(wrap_all(texts(terms@.take(i + 1)), pre@, post@) =~= wrap_all(
                texts(terms@.take(i as int)),
                pre@,
                post@,
            ).push(pre@ + terms@[i as int]@ + post@));
        }
        i = i + 1;
    }
    assert(terms@.take(terms@.len() as int) =~= terms@);
}

/// The encoding of a literal.
pub fn literal_to_text(l: &Literal) -> (r: String)
    ensures
        r@ == literal_text(*l),
{
    match l {
        Literal::Bool(b) => if *b {
            String::from_str("true")
        } else {
            String::from_str("false")
        },
        Literal::Int(n) => int_to_text(*n),
        Literal::Float(t) => quote(t.as_str()),
    }
}

/// The encoding of a scalar expression.
pub fn scalar_to_term(s: &Scalar) -> (r: String)
    ensures
        r@ == scalar_term(*s),
{
    match s {
        Scalar::Value(l) => {
            let mut r = String::from_str("value,");
            r.append(literal_to_text(l).as_str());
            r
        },
        Scalar::Var(id) => {
            let mut r = String::from_str("var,");
            r.append(quote(id.as_str()).as_str());
            r
        },
    }
}

/// `<pre><lo>,<hi>)`
fn pair_term(pre: &str, lo: &Scalar, hi: &Scalar) -> (r: String)
    ensures
        r@ == pre@ + scalar_term(*lo) + ","@ + scalar_term(*hi) + ")"@,
{
    let mut r = String::from_str(pre);
    r.append(scalar_to_term(lo).as_str());
    r.append(",");
    r.append(scalar_to_term(hi).as_str());
    r.append(")");
    r
}

/// The terms of a set expression.
pub fn set_to_terms(s: &SetExpr) -> (r: Vec<String>)
    ensures
        texts(r@) == set_terms(*s),
        r@.len() >= 1,
{
    let mut r: Vec<String> = Vec::new();
    match s {
        SetExpr::Range(lo, hi) => {
            r.push(pair_term("range,(", lo, hi));
            assert(texts(r@) =~= set_terms(*s));
        },
        SetExpr::Bounds(lo, hi) => {
            r.push(pair_term("bounds,(", lo, hi));
            assert(texts(r@) =~= set_terms(*s));
        },
        SetExpr::Elements(v) => {
            if v.len() == 0 {
                r.push(String::from_str("empty_set"));
                assert(texts(r@) =~= set_terms(*s));
            } else {
                let mut scalars: Vec<String> = Vec::new();
                let mut i: usize = 0;
                while i < v.len()
                    invariant
                        i <= v@.len(),
                        texts(scalars@) == v@.take(i as int).map_values(|x: Scalar| scalar_term(x)),
                    decreases v.len() - i,
                {
                    scalars.push(scalar_to_term(&v[i]));
                    assert(v@.take(i + 1).map_values(|x: Scalar| scalar_term(x))
                        =~= v@.take(i as int).map_values(|x: Scalar| scalar_term(x)).push(
                        scalar_term(v@[i as int]),
                    ));
                    assert(texts(scalars@) =~= texts(scalars@.drop_last()).push(
                        scalars@.last()@,
                    ));
                    i = i + 1;
                }
                assert(v@.take(v@.len() as int) =~= v@);
                wrap_each(&mut r, "set,(", &scalars, ")");
                assert(texts(Seq::<String>::empty()) =~= Seq::<Seq<char>>::empty());
                assert(texts(r@) =~= set_terms(*s));
            }
        },
        SetExpr::Var(id) => {
            let mut t = String::from_str("var,");
            t.append(quote(id.as_str()).as_str());
            r.push(t);
            assert(texts(r@) =~= set_terms(*s));
        },
    }
    r
}

/// The terms of one value of an expression.
pub fn element_to_terms(e: &Element) -> (r: Vec<String>)
    ensures
        texts(r@) == element_terms(*e),
{
    match e {
        Element::Scalar(x) => {
            let mut r: Vec<String> = Vec::new();
            r.push(scalar_to_term(x));
            assert(texts(r@) =~= element_terms(*e));
            r
        },
        Element::SetExpr(x) => set_to_terms(x),
    }
}

/// The terms of an array literal, element by element.
pub fn array_to_terms(v: &Vec<Element>) -> (r: Vec<String>)
    ensures
        texts(r@) == array_terms(v@),
{
    let mut r: Vec<String> = Vec::new();
    let mut pos: usize = 0;
    assert(texts(r@) =~= array_terms(v@.take(0)));
    while pos < v.len()
        invariant
            pos <= v@.len(),
            texts(r@) == array_terms(v@.take(pos as int)),
        decreases v.len() - pos,
    {
        let terms = element_to_terms(&v[pos]);
        let mut pre = String::from_str("array,(");
        pre.append(usize_to_text(pos).as_str());
        pre.append(",");
        wrap_each(&mut r, pre.as_str(), &terms, ")");
        assert(v@.take(pos + 1).drop_last() =~= v@.take(pos as int));
        pos = pos + 1;
    }
    assert(v@.take(v@.len() as int) =~= v@);
    r
}

/// The terms of an expression.
pub fn expr_to_terms(e: &Expr) -> (r: Vec<String>)
    ensures
        texts(r@) == expr_terms(*e),
{
    match e {
        Expr::Single(x) => element_to_terms(x),
        Expr::Array(v) => array_to_terms(v),
    }
}

/// The decimal text of each integer.
fn ints_to_texts(v: &Vec<i128>) -> (r: Vec<String>)
    ensures
        texts(r@) == int_texts(v@),
{
    let mut r: Vec<String> = Vec::new();
    let mut i: usize = 0;
    while i < v.len()
        invariant
            i <= v@.len(),
            texts(r@) == int_texts(v@.take(i as int)),
        decreases v.len() - i,
    {
        r.push(int_to_text(v[i]));
        assert(int_texts(v@.take(i + 1)) =~= int_texts(v@.take(i as int)).push(
            int_text(v@[i as int] as int),
        ));
        assert(texts(r@) =~= texts(r@.drop_last()).push(r@.last()@));
        i = i + 1;
    }
    assert(v@.take(v@.len() as int) =~= v@);
    r
}

/// `<pre><lo>,value,<hi>)` for an integer range.
fn int_range_term(pre: &str, lo: i128, hi: i128) -> (r: String)
    ensures
        r@ == pre@ + int_text(lo as int) + ",value,"@ + int_text(hi as int) + ")"@,
{
    let mut r = String::from_str(pre);
    r.append(int_to_text(lo).as_str());
    r.append(",value,");
    r.append(int_to_text(hi).as_str());
    r.append(")");
    r
}

/// A vector holding one string.
fn single(s: String) -> (r: Vec<String>)
    ensures
        texts(r@) == seq![s@],
{
    let mut r: Vec<String> = Vec::new();
    r.push(s);
    assert(texts(r@) =~= seq![s@]);
    r
}

/// The terms of a type.
pub fn domain_to_terms(d: &Domain) -> (r: Vec<String>)
    ensures
        texts(r@) == domain_terms(*d),
{
    let mut r: Vec<String> = Vec::new();
    match d {
        Domain::Bool => single(String::from_str("bool")),
        Domain::Int => single(String::from_str("int")),
        Domain::Float => single(String::from_str("float")),
        Domain::SetOfInt => single(String::from_str("set_of_int")),
        Domain::IntRange(lo, hi) => single(int_range_term("int,range,(value,", *lo, *hi)),
        Domain::IntSet(v) => {
            wrap_each(&mut r, "int,set,(value,", &ints_to_texts(v), ")");
            assert(texts(r@) =~= domain_terms(*d));
            r
        },
        Domain::FloatBounds(lo, hi) => {
            let mut t = String::from_str("float,(bounds,value,");
            t.append(quote(lo.as_str()).as_str());
            t.append(",value,");
            t.append(quote(hi.as_str()).as_str());
            t.append(")");
            single(t)
        },
        Domain::FloatSet(v) => {
            wrap_each(&mut r, "float_in_set(\"", v, "\")");
            assert(texts(r@) =~= domain_terms(*d));
            r
        },
        Domain::SetOfIntRange(lo, hi) => single(
            int_range_term("set_of_int,range,(value,", *lo, *hi),
        ),
        Domain::SetOfIntSet(v) => {
            wrap_each(&mut r, "set_of_int,set,(value,", &ints_to_texts(v), ")");
            assert(texts(r@) =~= domain_terms(*d));
            r
        },
    }
}

/// The encoding of an integer literal reads back as that integer.
pub proof fn int_literal_round_trip(n: i128)
    ensures
        parse_int(literal_text(Literal::Int(n))) == n,
{
    int_text_round_trip(n as int);
}

/// A float literal is encoded as its text in double quotes, never as a bare
/// number.
pub proof fn float_literal_is_quoted(t: String)
    ensures
        ({
            let e = literal_text(Literal::Float(t));
            &&& e.len() == t@.len() + 2
            &&& e[0] == '"'
            &&& e.last() == '"'
            &&& e.subrange(1, e.len() - 1) == t@
        }),
{
    let e = literal_text(Literal::Float(t));
    assert(e.subrange(1, e.len() - 1) =~= t@);
}

/// An enumerated set of k > 0 elements decomposes into exactly k terms, one
/// per element in order; the empty set into the single term `empty_set`.
pub proof fn set_decomposition(v: Vec<Scalar>)
    ensures
        v@.len() == 0 ==> set_terms(SetExpr::Elements(v)) == seq!["empty_set"@],
        v@.len() > 0 ==> set_terms(SetExpr::Elements(v)).len() == v@.len(),
        forall|i: int|
            0 <= i < v@.len() ==> #[trigger] set_terms(SetExpr::Elements(v))[i] == "set,("@
                + scalar_term(v@[i]) + ")"@,
{
}

} // verus!
