//! The facts of each kind of statement.
use crate::encode::{
    domain_terms, domain_to_terms, element_terms, element_to_terms, expr_terms, expr_to_terms,
    set_decomposition, texts, wrap_all, wrap_each,
};
use crate::model::{
    ConstraintDecl, Direction, Element, Expr, Goal, ParDecl, ParamType, PredIndex, PredParam,
    PredicateDecl, Scalar, SetExpr,
};
use crate::text::{int_text, int_to_text, quote, quoted, usize_to_text};
use vstd::prelude::*;

verus! {

/// A fact `name(args).`
pub open spec fn fact(name: Seq<char>, args: Seq<char>) -> Seq<char> {
    name + "("@ + args + ")."@
}

/// One fact `name(first,t).` for each term `t`.
pub open spec fn facts_about(name: Seq<char>, first: Seq<char>, terms: Seq<Seq<char>>) -> Seq<
    Seq<char>,
> {
    wrap_all(terms, name + "("@ + first + ","@, ")."@)
}

/// Pushes one fact `name(first,t).` for each term `t`.
pub(crate) fn push_facts(out: &mut Vec<String>, name: &str, first: &str, terms: &Vec<String>)
    ensures
        texts(final(out)@) == texts(old(out)@) + facts_about(name@, first@, texts(terms@)),
{
    let mut pre = String::from_str(name);
    pre.append("(");
    pre.append(first);
    pre.append(",");
    wrap_each(out, pre.as_str(), terms, ").");
}

/// The fact `name(args).`
pub(crate) fn fact_text(name: &str, args: &str) -> (r: String)
    ensures
        r@ == fact(name@, args@),
{
    let mut s = String::from_str(name);
    s.append("(");
    s.append(args);
    s.append(").");
    s
}

/// Pushes the fact `name(args).`
pub(crate) fn push_fact(out: &mut Vec<String>, name: &str, args: &str)
    ensures
        texts(final(out)@) == texts(old(out)@).push(fact(name@, args@)),
{
    let s = fact_text(name, args);
    let ghost before = out@;
    out.push(s);
    assert(texts(out@) =~= texts(before).push(fact(name@, args@)));
}

// ---------------------------------------------------------------- predicates

/// The text of the index set of an array parameter of a predicate.
pub open spec fn index_text(ix: PredIndex) -> Seq<char> {
    match ix {
        PredIndex::Upto(n) => int_text(n as int),
        PredIndex::Int => "int"@,
    }
}

/// `array(<index>,<t>)` for each term `t`.
pub open spec fn array_type_terms(index: Seq<char>, terms: Seq<Seq<char>>) -> Seq<Seq<char>> {
    wrap_all(terms, "array("@ + index + ","@, ")"@)
}

/// The type terms of a parameter of a predicate.
pub open spec fn param_type_terms(t: ParamType) -> Seq<Seq<char>> {
    match t {
        ParamType::Basic(d) => domain_terms(d),
        ParamType::Array(ix, d) => array_type_terms(index_text(ix), domain_terms(d)),
    }
}

/// The `predicate_parameter` facts of the parameters of predicate `pred`,
/// by position.
pub open spec fn params_facts(pred: Seq<char>, ps: Seq<PredParam>) -> Seq<Seq<char>>
    decreases ps.len(),
{
    if ps.len() == 0 {
        seq![]
    } else {
        params_facts(pred, ps.drop_last()) + facts_about(
            "predicate_parameter"@,
            quoted(pred) + ","@ + int_text(ps.len() - 1) + ","@ + quoted(ps.last().id@),
            param_type_terms(ps.last().ty),
        )
    }
}

/// The facts of a predicate declaration.
pub open spec fn predicate_facts(p: PredicateDecl) -> Seq<Seq<char>> {
    seq![fact("predicate"@, quoted(p.id@))] + params_facts(p.id@, p.params@)
}

/// The type terms of a parameter of a predicate.
fn param_type_to_terms(t: &ParamType) -> (r: Vec<String>)
    ensures
        texts(r@) == param_type_terms(*t),
{
    match t {
        ParamType::Basic(d) => domain_to_terms(d),
        ParamType::Array(ix, d) => {
            let mut pre = String::from_str("array(");
            match ix {
                PredIndex::Upto(n) => pre.append(int_to_text(*n).as_str()),
                PredIndex::Int => pre.append("int"),
            }
            pre.append(",");
            let mut r: Vec<String> = Vec::new();
            wrap_each(&mut r, pre.as_str(), &domain_to_terms(d), ")");
            assert(texts(r@) =~= param_type_terms(*t));
            r
        },
    }
}

/// Pushes the facts of a predicate declaration.
pub fn write_predicate(out: &mut Vec<String>, p: &PredicateDecl)
    ensures
        texts(final(out)@) == texts(old(out)@) + predicate_facts(*p),
{
    let ghost start = texts(out@);
    let pred = quote(p.id.as_str());
    push_fact(out, "predicate", pred.as_str());
    let mut pos: usize = 0;
    assert(p.params@.take(0) =~= Seq::<PredParam>::empty());
    while pos < p.params.len()
        invariant
            pos <= p.params@.len(),
            pred@ == quoted(p.id@),
            texts(out@) == start + seq![fact("predicate"@, quoted(p.id@))] + params_facts(
                p.id@,
                p.params@.take(pos as int),
            ),
        decreases p.params.len() - pos,
    {
        let param = &p.params[pos];
        let mut first = pred.clone();
        first.append(",");
        first.append(usize_to_text(pos).as_str());
        first.append(",");
        first.append(quote(param.id.as_str()).as_str());
        push_facts(out, "predicate_parameter", first.as_str(), &param_type_to_terms(&param.ty));
        assert(p.params@.take(pos + 1).drop_last() =~= p.params@.take(pos as int));
        pos = pos + 1;
    }
    assert(p.params@.take(p.params@.len() as int) =~= p.params@);
    assert(texts(out@) =~= start + predicate_facts(*p));
}

// ---------------------------------------------------------------- parameters

/// The facts of a parameter declaration: one `parameter_value` fact per term
/// of its value.
pub open spec fn parameter_facts(p: ParDecl) -> Seq<Seq<char>> {
    facts_about("parameter_value"@, quoted(p.id@), expr_terms(p.value))
}

/// Pushes the facts of a parameter declaration.
pub fn write_par_decl_item(out: &mut Vec<String>, p: &ParDecl)
    ensures
        texts(final(out)@) == texts(old(out)@) + parameter_facts(*p),
{
    push_facts(out, "parameter_value", quote(p.id.as_str()).as_str(), &expr_to_terms(&p.value));
}

// ---------------------------------------------------------------- constraints

/// The name of the constraint with identifier `cid`: `c<cid>`.
pub open spec fn constraint_name(cid: int) -> Seq<char> {
    "c"@ + int_text(cid)
}

/// The `constraint_value` facts of the arguments of constraint `cid`, by
/// position.
pub open spec fn args_facts(cid: int, args: Seq<Expr>) -> Seq<Seq<char>>
    decreases args.len(),
{
    if args.len() == 0 {
        seq![]
    } else {
        args_facts(cid, args.drop_last()) + facts_about(
            "constraint_value"@,
            constraint_name(cid) + ","@ + int_text(args.len() - 1),
            expr_terms(args.last()),
        )
    }
}

/// The facts of constraint `c` under identifier `cid`.
pub open spec fn constraint_facts(c: ConstraintDecl, cid: int) -> Seq<Seq<char>> {
    seq![fact("constraint"@, constraint_name(cid) + ","@ + quoted(c.id@))] + args_facts(
        cid,
        c.args@,
    )
}

/// Pushes the facts of constraint `c` under identifier `cid`.
pub fn write_constraint(out: &mut Vec<String>, c: &ConstraintDecl, cid: usize)
    ensures
        texts(final(out)@) == texts(old(out)@) + constraint_facts(*c, cid as int),
{
    let ghost start = texts(out@);
    let mut name = String::from_str("c");
    name.append(usize_to_text(cid).as_str());
    let mut head = name.clone();
    head.append(",");
    head.append(quote(c.id.as_str()).as_str());
    push_fact(out, "constraint", head.as_str());
    let mut pos: usize = 0;
    assert(c.args@.take(0) =~= Seq::<Expr>::empty());
    while pos < c.args.len()
        invariant
            pos <= c.args@.len(),
            name@ == constraint_name(cid as int),
            texts(out@) == start + seq![
                fact("constraint"@, constraint_name(cid as int) + ","@ + quoted(c.id@)),
            ] + args_facts(cid as int, c.args@.take(pos as int)),
        decreases c.args.len() - pos,
    {
        let mut first = name.clone();
        first.append(",");
        first.append(usize_to_text(pos).as_str());
        push_facts(out, "constraint_value", first.as_str(), &expr_to_terms(&c.args[pos]));
        assert(c.args@.take(pos + 1).drop_last() =~= c.args@.take(pos as int));
        pos = pos + 1;
    }
    assert(c.args@.take(c.args@.len() as int) =~= c.args@);
    assert(texts(out@) =~= start + constraint_facts(*c, cid as int));
}

// ---------------------------------------------------------------- solve items

/// The word of an objective's direction.
pub open spec fn direction_text(d: Direction) -> Seq<char> {
    match d {
        Direction::Minimize => "minimize"@,
        Direction::Maximize => "maximize"@,
    }
}

/// The facts of a solve goal: `solve(satisfy).`, or one `solve` fact per term
/// of the objective.
pub open spec fn goal_facts(g: Goal) -> Seq<Seq<char>> {
    match g {
        Goal::Satisfy => seq![fact("solve"@, "satisfy"@)],
        Goal::Optimize(d, e) => facts_about("solve"@, direction_text(d), element_terms(e)),
    }
}

/// Pushes the facts of a solve goal.
pub fn write_solve_item(out: &mut Vec<String>, g: &Goal)
    ensures
        texts(final(out)@) == texts(old(out)@) + goal_facts(*g),
{
    match g {
        Goal::Satisfy => {
            let ghost start = texts(out@);
            push_fact(out, "solve", "satisfy");
            assert(texts(out@) =~= start + goal_facts(*g));
        },
        Goal::Optimize(d, e) => {
            let word = match d {
                Direction::Minimize => "minimize",
                Direction::Maximize => "maximize",
            };
            push_facts(out, "solve", word, &element_to_terms(e));
        },
    }
}

/// A set parameter whose value enumerates k > 0 elements has exactly k
/// fact lines, one per element; with the empty set it has exactly one line,
/// `parameter_value("id",empty_set).`
pub proof fn set_parameter_lines(id: String, v: Vec<Scalar>)
    ensures
        ({
            let f = parameter_facts(ParDecl { id, value: Expr::Single(Element::SetExpr(SetExpr::Elements(v))) });
            &&& v@.len() > 0 ==> f.len() == v@.len()
            &&& v@.len() == 0 ==> f == seq![
                "parameter_value"@ + "("@ + quoted(id@) + ","@ + "empty_set"@ + ")."@,
            ]
        }),
{
    set_decomposition(v);
    let f = parameter_facts(ParDecl { id, value: Expr::Single(Element::SetExpr(SetExpr::Elements(v))) });
    if v@.len() == 0 {
        assert(f =~= seq!["parameter_value"@ + "("@ + quoted(id@) + ","@ + "empty_set"@ + ")."@]);
    }
}

} // verus!
