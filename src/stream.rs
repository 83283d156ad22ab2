//! The run state: statement order, constraint identifiers, and the
//! translation of one statement after another.
use crate::encode::texts;
use crate::facts::{
    constraint_facts, goal_facts, parameter_facts, predicate_facts, write_constraint,
    write_par_decl_item, write_predicate, write_solve_item,
};
use crate::model::{FlatZincError, OrderCheck, Statement};
use crate::variables::{variable_facts, write_var_decl_item};
use vstd::prelude::*;

verus! {

/// The rank of a statement kind in the expected order: predicates,
/// parameters, variables, constraints, solve item. Comments have none.
pub open spec fn rank(s: Statement) -> int {
    match s {
        Statement::Comment(_) => 0,
        Statement::Predicate(_) => 1,
        Statement::Parameter(_) => 2,
        Statement::Variable(_) => 3,
        Statement::Constraint(_) => 4,
        Statement::Solve(_) => 5,
    }
}

/// The facts of a statement; a constraint is named by `cid`. `None` for a
/// variable declaration with a malformed `output_array` annotation.
pub open spec fn statement_facts(s: Statement, cid: int) -> Option<Seq<Seq<char>>> {
    match s {
        Statement::Comment(t) => Some(seq!["%"@ + t@]),
        Statement::Predicate(p) => Some(predicate_facts(p)),
        Statement::Parameter(p) => Some(parameter_facts(p)),
        Statement::Variable(v) => variable_facts(v),
        Statement::Constraint(c) => Some(constraint_facts(c, cid)),
        Statement::Solve(g) => Some(goal_facts(g)),
    }
}

/// Whether a statement has facts whatever the constraint identifier.
pub open spec fn well_formed(s: Statement) -> bool {
    statement_facts(s, 0) is Some
}

/// Whether a statement comes after a later kind than its own.
pub open spec fn is_out_of_order(level: int, s: Statement) -> bool {
    !(s is Comment) && level > rank(s)
}

/// The level after a statement: raised to its rank, never lowered.
pub open spec fn next_level(level: int, s: Statement) -> int {
    if s is Comment || level > rank(s) {
        level
    } else {
        rank(s)
    }
}

/// The constraint counter after a statement: one more after a constraint.
pub open spec fn next_counter(counter: int, s: Statement) -> int {
    if s is Constraint {
        counter + 1
    } else {
        counter
    }
}

/// The error that a statement ends a run with, if any: a solve item after
/// one was seen, or a structural defect.
pub open spec fn step_error(level: int, counter: int, s: Statement) -> Option<FlatZincError> {
    if s is Solve && level >= 5 {
        Some(FlatZincError::MultipleSolveItems)
    } else if statement_facts(s, next_counter(counter, s)) is None {
        Some(FlatZincError::StructuralDefect)
    } else {
        None
    }
}

/// Translates one statement: checks its place in the statement order,
/// assigns a constraint its identifier (one more than the last), and
/// appends its facts to `out`.
///
/// A second solve item fails with `MultipleSolveItems`, a malformed
/// `output_array` annotation with `StructuralDefect`; on failure nothing
/// changes. A statement out of order is translated all the same, and
/// reported as `OutOfOrder`.
pub fn write_fz_stmt(
    out: &mut Vec<String>,
    stmt: &Statement,
    constraint_counter: &mut usize,
    level: &mut i32,
) -> (r: Result<OrderCheck, FlatZincError>)
    requires
        *stmt is Constraint ==> *old(constraint_counter) < usize::MAX,
    ensures
        match step_error(*old(level) as int, *old(constraint_counter) as int, *stmt) {
            Some(e) => {
                &&& r == Err::<OrderCheck, FlatZincError>(e)
                &&& final(out)@ == old(out)@
                &&& *final(level) == *old(level)
                &&& *final(constraint_counter) == *old(constraint_counter)
            },
            None => {
                &&& r == Ok::<OrderCheck, FlatZincError>(
                    if is_out_of_order(*old(level) as int, *stmt) {
                        OrderCheck::OutOfOrder
                    } else {
                        OrderCheck::InOrder
                    },
                )
                &&& texts(final(out)@) == texts(old(out)@) + statement_facts(
                    *stmt,
                    next_counter(*old(constraint_counter) as int, *stmt),
                )->Some_0
                &&& *final(level) as int == next_level(*old(level) as int, *stmt)
                &&& *final(constraint_counter) as int == next_counter(
                    *old(constraint_counter) as int,
                    *stmt,
                )
            },
        },
{
    let rank: i32 = match stmt {
        Statement::Comment(_) => 0,
        Statement::Predicate(_) => 1,
        Statement::Parameter(_) => 2,
        Statement::Variable(_) => 3,
        Statement::Constraint(_) => 4,
        Statement::Solve(_) => 5,
    };
    if rank == 5 && *level >= 5 {
        return Err(FlatZincError::MultipleSolveItems);
    }
    let order = if rank > 0 && *level > rank {
        OrderCheck::OutOfOrder
    } else {
        OrderCheck::InOrder
    };
    match stmt {
        Statement::Comment(t) => {
            let ghost start = texts(out@);
            let mut line = String::from_str("%");
            line.append(t.as_str());
            out.push(line);
            assert(texts(out@) =~= start + seq!["%"@ + t@]);
        },
        Statement::Predicate(p) => write_predicate(out, p),
        Statement::Parameter(p) => write_par_decl_item(out, p),
        Statement::Variable(v) => {
            let written = write_var_decl_item(out, v);
            if written.is_err() {
                return Err(FlatZincError::StructuralDefect);
            }
        },
        Statement::Constraint(c) => {
            *constraint_counter = *constraint_counter + 1;
            write_constraint(out, c, *constraint_counter);
        },
        Statement::Solve(g) => write_solve_item(out, g),
    }
    if rank > 0 && *level <= rank {
        *level = rank;
    }
    Ok(order)
}

/// The end of a run: without a solve item it fails with `NoSolveItem`.
pub fn finish_run(level: i32) -> (r: Result<(), FlatZincError>)
    ensures
        r == (if level < 5 {
            Err::<(), FlatZincError>(FlatZincError::NoSolveItem)
        } else {
            Ok::<(), FlatZincError>(())
        }),
{
    if level < 5 {
        Err(FlatZincError::NoSolveItem)
    } else {
        Ok(())
    }
}

/// What a sequence of statements comes to.
pub struct Run {
    /// The fact lines appended, in order.
    pub facts: Seq<Seq<char>>,
    /// How many statements were reported out of order.
    pub warnings: nat,
    pub level: int,
    pub counter: int,
    /// How many statements were translated before the run stopped.
    pub processed: nat,
    /// The identifiers given to the constraints, in order.
    pub constraint_ids: Seq<int>,
    /// The error that stopped the run, if any.
    pub error: Option<FlatZincError>,
}

/// Translating `stmts` one after another from the given level and counter,
/// as repeated calls of `write_fz_stmt` do, until the first error.
pub open spec fn run_from(stmts: Seq<Statement>, level: int, counter: int) -> Run
    decreases stmts.len(),
{
    if stmts.len() == 0 {
        Run {
            facts: seq![],
            warnings: 0,
            level,
            counter,
            processed: 0,
            constraint_ids: seq![],
            error: None,
        }
    } else {
        let s = stmts[0];
        match step_error(level, counter, s) {
            Some(e) => Run {
                facts: seq![],
                warnings: 0,
                level,
                counter,
                processed: 0,
                constraint_ids: seq![],
                error: Some(e),
            },
            None => {
                let rest = run_from(stmts.drop_first(), next_level(level, s), next_counter(counter, s));
                Run {
                    facts: statement_facts(s, next_counter(counter, s))->Some_0 + rest.facts,
                    warnings: (if is_out_of_order(level, s) {
                        1nat
                    } else {
                        0nat
                    }) + rest.warnings,
                    level: rest.level,
                    counter: rest.counter,
                    processed: rest.processed + 1,
                    constraint_ids: (if s is Constraint {
                        seq![counter + 1]
                    } else {
                        seq![]
                    }) + rest.constraint_ids,
                    error: rest.error,
                }
            },
        }
    }
}

/// A whole run: from level 1 and counter 0, then the end-of-input check of
/// `finish_run`.
pub open spec fn translate(stmts: Seq<Statement>) -> Run {
    let r = run_from(stmts, 1, 0);
    if r.error is None && r.level < 5 {
        Run { error: Some(FlatZincError::NoSolveItem), ..r }
    } else {
        r
    }
}

/// The number of constraint declarations among `stmts`.
pub open spec fn constraint_count(stmts: Seq<Statement>) -> nat
    decreases stmts.len(),
{
    if stmts.len() == 0 {
        0
    } else {
        (if stmts[0] is Constraint {
            1nat
        } else {
            0nat
        }) + constraint_count(stmts.drop_first())
    }
}

/// Constraint identifiers run 1, 2, 3, ... from the counter's start, one per
/// constraint declaration in order of appearance, whatever other statements
/// stand between them.
pub proof fn constraint_ids_consecutive(stmts: Seq<Statement>, level: int, counter: int)
    ensures
        ({
            let r = run_from(stmts, level, counter);
            &&& r.processed <= stmts.len()
            &&& r.constraint_ids.len() == constraint_count(stmts.take(r.processed as int))
            &&& forall|k: int|
                0 <= k < r.constraint_ids.len() ==> #[trigger] r.constraint_ids[k] == counter + k + 1
            &&& r.counter == counter + r.constraint_ids.len()
        }),
    decreases stmts.len(),
{
    let r = run_from(stmts, level, counter);
    if stmts.len() == 0 {
        assert(stmts.take(0) =~= Seq::<Statement>::empty());
    } else {
        let s = stmts[0];
        if step_error(level, counter, s) is Some {
            assert(stmts.take(0) =~= Seq::<Statement>::empty());
        } else {
            let c2 = next_counter(counter, s);
            constraint_ids_consecutive(stmts.drop_first(), next_level(level, s), c2);
            let rest = run_from(stmts.drop_first(), next_level(level, s), c2);
            assert(stmts.take(r.processed as int).drop_first() =~= stmts.drop_first().take(
                rest.processed as int,
            ));
            assert(stmts.take(r.processed as int)[0] == s);
        }
    }
}

/// Translating `a` then `b` is translating `a + b`, when `a` raises no error.
pub proof fn run_split(a: Seq<Statement>, b: Seq<Statement>, level: int, counter: int)
    requires
        run_from(a, level, counter).error is None,
    ensures
        ({
            let ra = run_from(a, level, counter);
            let rb = run_from(b, ra.level, ra.counter);
            let r = run_from(a + b, level, counter);
            &&& ra.processed == a.len()
            &&& r.facts == ra.facts + rb.facts
            &&& r.warnings == ra.warnings + rb.warnings
            &&& r.level == rb.level
            &&& r.counter == rb.counter
            &&& r.processed == ra.processed + rb.processed
            &&& r.constraint_ids == ra.constraint_ids + rb.constraint_ids
            &&& r.error == rb.error
        }),
    decreases a.len(),
{
    if a.len() == 0 {
        assert(a + b =~= b);
        let rb = run_from(b, level, counter);
        assert(rb.facts =~= Seq::<Seq<char>>::empty() + rb.facts);
        assert(rb.constraint_ids =~= Seq::<int>::empty() + rb.constraint_ids);
    } else {
        let s = a[0];
        assert((a + b)[0] == s);
        assert((a + b).drop_first() =~= a.drop_first() + b);
        run_split(a.drop_first(), b, next_level(level, s), next_counter(counter, s));
        let ra = run_from(a, level, counter);
        let rb = run_from(b, ra.level, ra.counter);
        let r = run_from(a + b, level, counter);
        assert(r.facts =~= ra.facts + rb.facts);
        assert(r.constraint_ids =~= ra.constraint_ids + rb.constraint_ids);
    }
}

/// Whether the statements come in the expected order of kinds (comments
/// anywhere).
pub open spec fn in_expected_order(stmts: Seq<Statement>) -> bool {
    forall|i: int, j: int|
        0 <= i < j < stmts.len() && !(stmts[i] is Comment) && !(stmts[j] is Comment) ==> rank(
            #[trigger] stmts[i],
        ) <= rank(#[trigger] stmts[j])
}

proof fn ordered_run_has_no_warnings(stmts: Seq<Statement>, level: int, counter: int)
    requires
        in_expected_order(stmts),
        forall|i: int| 0 <= i < stmts.len() && !(stmts[i] is Comment) ==> level <= rank(#[trigger] stmts[i]),
    ensures
        run_from(stmts, level, counter).warnings == 0,
    decreases stmts.len(),
{
    if stmts.len() > 0 {
        let s = stmts[0];
        if step_error(level, counter, s) is None {
            let rest = stmts.drop_first();
            let l2 = next_level(level, s);
            assert forall|i: int| 0 <= i < rest.len() && !(rest[i] is Comment) implies l2 <= rank(
                #[trigger] rest[i],
            ) by {
                assert(rest[i] == stmts[i + 1]);
            }
            assert forall|i: int, j: int|
                0 <= i < j < rest.len() && !(rest[i] is Comment) && !(rest[j] is Comment) implies rank(
                #[trigger] rest[i],
            ) <= rank(#[trigger] rest[j]) by {
                assert(rest[i] == stmts[i + 1]);
                assert(rest[j] == stmts[j + 1]);
            }
            ordered_run_has_no_warnings(rest, l2, next_counter(counter, s));
        }
    }
}

/// A run whose statements come in the expected order of kinds reports no
/// statement out of order.
pub proof fn ordered_input_has_no_warnings(stmts: Seq<Statement>)
    requires
        in_expected_order(stmts),
    ensures
        translate(stmts).warnings == 0,
{
    ordered_run_has_no_warnings(stmts, 1, 0);
}

proof fn run_without_solve(stmts: Seq<Statement>, level: int, counter: int)
    requires
        forall|k: int| 0 <= k < stmts.len() ==> !(#[trigger] stmts[k] is Solve) && well_formed(stmts[k]),
    ensures
        run_from(stmts, level, counter).error is None,
        run_from(stmts, level, counter).processed == stmts.len(),
        run_from(stmts, level, counter).level >= level,
        level < 5 ==> run_from(stmts, level, counter).level < 5,
        level >= 5 ==> run_from(stmts, level, counter).level == level,
    decreases stmts.len(),
{
    if stmts.len() > 0 {
        let s = stmts[0];
        assert(!(s is Solve) && well_formed(s));
        let rest = stmts.drop_first();
        assert forall|k: int| 0 <= k < rest.len() implies !(#[trigger] rest[k] is Solve) && well_formed(
            rest[k],
        ) by {
            assert(rest[k] == stmts[k + 1]);
        }
        run_without_solve(rest, next_level(level, s), next_counter(counter, s));
    }
}

/// Without a solve item, every statement is translated and the run ends in
/// `NoSolveItem`.
pub proof fn missing_solve_fails(stmts: Seq<Statement>)
    requires
        forall|k: int| 0 <= k < stmts.len() ==> !(#[trigger] stmts[k] is Solve) && well_formed(stmts[k]),
    ensures
        translate(stmts).error == Some(FlatZincError::NoSolveItem),
        translate(stmts).processed == stmts.len(),
        translate(stmts).facts == run_from(stmts, 1, 0).facts,
{
    run_without_solve(stmts, 1, 0);
}

/// With a second solve item, the first one's facts are emitted, the run stops
/// at the second with `MultipleSolveItems`, and nothing of the second or of
/// what follows it is emitted.
pub proof fn second_solve_fails(stmts: Seq<Statement>, i: int, j: int)
    requires
        0 <= i < j < stmts.len(),
        stmts[i] is Solve,
        stmts[j] is Solve,
        forall|k: int| 0 <= k < j && k != i ==> !(#[trigger] stmts[k] is Solve),
        forall|k: int| 0 <= k < j ==> well_formed(#[trigger] stmts[k]),
    ensures
        ({
            let r = translate(stmts);
            let before = run_from(stmts.take(i), 1, 0);
            &&& r.error == Some(FlatZincError::MultipleSolveItems)
            &&& r.processed == j
            &&& r.facts == before.facts + goal_facts(stmts[i]->Solve_0) + run_from(
                stmts.subrange(i + 1, j),
                5,
                before.counter,
            ).facts
        }),
{
    let a = stmts.take(i);
    let b = seq![stmts[i]];
    let c = stmts.subrange(i + 1, j);
    let d = stmts.skip(j);
    assert(stmts =~= a + b + c + d);
    assert forall|k: int| 0 <= k < a.len() implies !(#[trigger] a[k] is Solve) && well_formed(a[k]) by {
        assert(a[k] == stmts[k]);
    }
    assert forall|k: int| 0 <= k < c.len() implies !(#[trigger] c[k] is Solve) && well_formed(c[k]) by {
        assert(c[k] == stmts[k + i + 1]);
    }
    run_without_solve(a, 1, 0);
    let ra = run_from(a, 1, 0);
    assert(well_formed(stmts[i]));
    let rb = run_from(b, ra.level, ra.counter);
    assert(b.drop_first() =~= Seq::<Statement>::empty());
    assert(b[0] == stmts[i]);
    assert(ra.level < 5);
    assert(step_error(ra.level, ra.counter, b[0]) is None);
    assert(next_level(ra.level, b[0]) == 5);
    assert(run_from(b.drop_first(), 5, ra.counter).level == 5);
    assert(rb.level == 5);
    run_split(a, b, 1, 0);
    run_without_solve(c, 5, rb.counter);
    run_split(a + b, c, 1, 0);
    let rc = run_from(c, 5, rb.counter);
    run_split(a + b + c, d, 1, 0);
    let rd = run_from(d, rc.level, rc.counter);
    assert(d[0] == stmts[j]);
    assert(rd.facts =~= Seq::<Seq<char>>::empty());
    assert(rb.facts =~= goal_facts(stmts[i]->Solve_0));
    assert(run_from(stmts, 1, 0).facts =~= ra.facts + goal_facts(stmts[i]->Solve_0) + rc.facts);
}

/// A run with exactly one solve item, of well-formed statements in the
/// expected order of kinds, translates every statement, reports none out of
/// order, and ends without error.
pub proof fn ordered_input_succeeds(stmts: Seq<Statement>, i: int)
    requires
        in_expected_order(stmts),
        0 <= i < stmts.len(),
        stmts[i] is Solve,
        forall|k: int| 0 <= k < stmts.len() && k != i ==> !(#[trigger] stmts[k] is Solve),
        forall|k: int| 0 <= k < stmts.len() ==> well_formed(#[trigger] stmts[k]),
    ensures
        translate(stmts).error is None,
        translate(stmts).processed == stmts.len(),
        translate(stmts).warnings == 0,
{
    ordered_input_has_no_warnings(stmts);
    let a = stmts.take(i);
    let b = seq![stmts[i]];
    let c = stmts.skip(i + 1);
    assert(stmts =~= a + b + c);
    assert forall|k: int| 0 <= k < a.len() implies !(#[trigger] a[k] is Solve) && well_formed(a[k]) by {
        assert(a[k] == stmts[k]);
    }
    assert forall|k: int| 0 <= k < c.len() implies !(#[trigger] c[k] is Solve) && well_formed(c[k]) by {
        assert(c[k] == stmts[k + i + 1]);
    }
    run_without_solve(a, 1, 0);
    let ra = run_from(a, 1, 0);
    assert(well_formed(stmts[i]));
    assert(b.drop_first() =~= Seq::<Statement>::empty());
    assert(b[0] == stmts[i]);
    assert(step_error(ra.level, ra.counter, b[0]) is None);
    assert(next_level(ra.level, b[0]) == 5);
    assert(run_from(b.drop_first(), 5, ra.counter).level == 5);
    let rb = run_from(b, ra.level, ra.counter);
    assert(rb.level == 5);
    assert(rb.processed == 1);
    run_split(a, b, 1, 0);
    run_without_solve(c, 5, rb.counter);
    run_split(a + b, c, 1, 0);
}

} // verus!
