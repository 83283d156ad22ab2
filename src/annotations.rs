//! The output annotations of variable declarations.
//!
//! Only `output_var` and `output_array` are read; every other annotation is
//! passed over.
use crate::encode::texts;
use crate::facts::{fact, fact_text, push_fact};
use crate::model::{AnnArg, Annotation, Element, Expr, Literal, Scalar, SetExpr};
use crate::text::{int_text, int_to_text, quote, quoted, usize_to_text};
use vstd::prelude::*;

verus! {

/// The first annotation named `name`, if any.
pub open spec fn find_anno(annos: Seq<Annotation>, name: Seq<char>) -> Option<Annotation>
    decreases annos.len(),
{
    if annos.len() == 0 {
        None
    } else if annos[0].id@ == name {
        Some(annos[0])
    } else {
        find_anno(annos.drop_first(), name)
    }
}

/// `output_var("id").` when the declaration is marked `output_var`.
pub open spec fn output_var_facts(id: Seq<char>, annos: Seq<Annotation>) -> Seq<Seq<char>> {
    if find_anno(annos, "output_var"@) is Some {
        seq![fact("output_var"@, quoted(id))]
    } else {
        seq![]
    }
}

/// Whether an expression element is an integer range with literal bounds.
pub open spec fn is_index_range(e: Element) -> bool {
    match e {
        Element::SetExpr(SetExpr::Range(Scalar::Value(Literal::Int(_)), Scalar::Value(Literal::Int(_)))) => true,
        _ => false,
    }
}

/// `output_array("id",pos,(lo,hi)).` for the index range `e` at `pos`.
pub open spec fn range_fact(id: Seq<char>, pos: int, e: Element) -> Seq<char> {
    match e {
        Element::SetExpr(SetExpr::Range(Scalar::Value(Literal::Int(lo)), Scalar::Value(Literal::Int(hi)))) => fact(
            "output_array"@,
            quoted(id) + ","@ + int_text(pos) + ",("@ + int_text(lo as int) + ","@ + int_text(
                hi as int,
            ) + ")"@,
        ),
        _ => seq![],
    }
}

/// The index ranges that an `output_array` annotation lists: its first
/// argument, which must be an array of integer ranges.
pub open spec fn index_ranges(a: Annotation) -> Option<Seq<Element>> {
    if a.args@.len() > 0 {
        match a.args@[0] {
            AnnArg::Expr(Expr::Array(v)) => if forall|i: int|
                0 <= i < v@.len() ==> is_index_range(#[trigger] v@[i]) {
                Some(v@)
            } else {
                None
            },
            _ => None,
        }
    } else {
        None
    }
}

/// One `output_array` fact per index range when the declaration is marked
/// `output_array`; `None` when that annotation is malformed.
pub open spec fn output_array_facts(id: Seq<char>, annos: Seq<Annotation>) -> Option<
    Seq<Seq<char>>,
> {
    match find_anno(annos, "output_array"@) {
        None => Some(seq![]),
        Some(a) => match index_ranges(a) {
            None => None,
            Some(v) => Some(Seq::new(v.len(), |i: int| range_fact(id, i, v[i]))),
        },
    }
}

/// The position of the first annotation named `name`, or the length of the
/// list when there is none.
fn find_position(annos: &Vec<Annotation>, name: &String) -> (r: usize)
    ensures
        r <= annos@.len(),
        r == annos@.len() ==> find_anno(annos@, name@) is None,
        r < annos@.len() ==> find_anno(annos@, name@) == Some(annos@[r as int]),
{
    let mut i: usize = 0;
    assert(annos@.subrange(0, annos@.len() as int) =~= annos@);
    while i < annos.len()
        invariant
            i <= annos@.len(),
            find_anno(annos@, name@) == find_anno(annos@.subrange(i as int, annos@.len() as int), name@),
        decreases annos.len() - i,
    {
        let ghost rest = annos@.subrange(i as int, annos@.len() as int);
        if annos[i].id == *name {
            return i;
        }
        assert(rest.drop_first() =~= annos@.subrange(i + 1, annos@.len() as int));
        i = i + 1;
    }
    assert(annos@.subrange(i as int, annos@.len() as int) =~= Seq::<Annotation>::empty());
    i
}

/// Pushes `output_var("id").` when the declaration is marked `output_var`.
pub fn write_output_var(out: &mut Vec<String>, id: &String, annos: &Vec<Annotation>)
    ensures
        texts(final(out)@) == texts(old(out)@) + output_var_facts(id@, annos@),
{
    let ghost start = texts(out@);
    let name = String::from_str("output_var");
    if find_position(annos, &name) < annos.len() {
        push_fact(out, "output_var", quote(id.as_str()).as_str());
        assert(texts(out@) =~= start + output_var_facts(id@, annos@));
    } else {
        assert(texts(out@) =~= start + output_var_facts(id@, annos@));
    }
}

/// The `output_array` facts of a declaration, or `None` when its
/// `output_array` annotation does not list integer ranges.
pub fn output_array_lines(id: &String, annos: &Vec<Annotation>) -> (r: Option<Vec<String>>)
    ensures
        match output_array_facts(id@, annos@) {
            None => r is None,
            Some(f) => r is Some && texts(r->Some_0@) == f,
        },
{
    let mut lines: Vec<String> = Vec::new();
    let name = String::from_str("output_array");
    let k = find_position(annos, &name);
    if k == annos.len() {
        assert(texts(lines@) =~= Seq::<Seq<char>>::empty());
        return Some(lines);
    }
    let a = &annos[k];
    if a.args.len() == 0 {
        return None;
    }
    let v = match &a.args[0] {
        AnnArg::Expr(Expr::Array(v)) => v,
        _ => {
            return None;
        },
    };
    assert(a.args@[0] == AnnArg::Expr(Expr::Array(*v)));
    let quoted_id = quote(id.as_str());
    let mut pos: usize = 0;
    while pos < v.len()
        invariant
            pos <= v@.len(),
            quoted_id@ == quoted(id@),
            name@ == "output_array"@,
            find_anno(annos@, name@) == Some(*a),
            a.args@.len() > 0,
            a.args@[0] == AnnArg::Expr(Expr::Array(*v)),
            forall|i: int| 0 <= i < pos ==> is_index_range(#[trigger] v@[i]),
            texts(lines@) == Seq::new(pos as nat, |i: int| range_fact(id@, i, v@[i])),
        decreases v.len() - pos,
    {
        match &v[pos] {
            Element::SetExpr(SetExpr::Range(Scalar::Value(Literal::Int(lo)), Scalar::Value(Literal::Int(hi)))) => {
                let mut args = quoted_id.clone();
                args.append(",");
                args.append(usize_to_text(pos).as_str());
                args.append(",(");
                args.append(int_to_text(*lo).as_str());
                args.append(",");
                args.append(int_to_text(*hi).as_str());
                args.append(")");
                assert(v@[pos as int] == Element::SetExpr(
                    SetExpr::Range(Scalar::Value(Literal::Int(*lo)), Scalar::Value(Literal::Int(*hi))),
                ));
                let ghost before = lines@;
                lines.push(fact_text("output_array", args.as_str()));
                assert(texts(lines@) =~= texts(before).push(range_fact(id@, pos as int, v@[pos as int])));
                assert(texts(lines@) =~= Seq::new((pos + 1) as nat, |i: int| range_fact(id@, i, v@[i])));
            },
            _ => {
                assert(!is_index_range(v@[pos as int]));
                return None;
            },
        }
        pos = pos + 1;
    }
    Some(lines)
}

} // verus!
