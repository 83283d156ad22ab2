//! The facts of variable declarations.
use crate::annotations::{output_array_facts, output_array_lines, output_var_facts, write_output_var};
use crate::encode::{
    array_terms, array_to_terms, domain_terms, domain_to_terms, element_terms, element_to_terms,
    texts, wrap_each,
};
use crate::facts::{array_type_terms, facts_about, push_facts};
use crate::model::{ArrayInit, Domain, FlatZincError, VarDecl};
use crate::text::{int_text, int_to_text, quote, quoted};
use vstd::prelude::*;

verus! {

/// The element type terms of an array variable. An array of unrestricted
/// integer sets names its element type `set`.
pub open spec fn array_domain_terms(d: Domain) -> Seq<Seq<char>> {
    match d {
        Domain::SetOfInt => seq!["set"@],
        _ => domain_terms(d),
    }
}

/// The name of a declared variable.
pub open spec fn var_id(v: VarDecl) -> Seq<char> {
    match v {
        VarDecl::Scalar { id, .. } => id@,
        VarDecl::Array { id, .. } => id@,
    }
}

/// The type terms of a variable: those of its domain, or for an array
/// `array(<size>,<t>)` for each element type term `t`.
pub open spec fn var_type_terms(v: VarDecl) -> Seq<Seq<char>> {
    match v {
        VarDecl::Scalar { domain, .. } => domain_terms(domain),
        VarDecl::Array { size, domain, .. } => array_type_terms(
            int_text(size as int),
            array_domain_terms(domain),
        ),
    }
}

/// The terms of a variable's initial value; none when it has none. An array
/// initialised by another array's name is a reference: `var,"name"`.
pub open spec fn var_init_terms(v: VarDecl) -> Seq<Seq<char>> {
    match v {
        VarDecl::Scalar { init, .. } => match init {
            Some(e) => element_terms(e),
            None => seq![],
        },
        VarDecl::Array { init, .. } => match init {
            Some(ArrayInit::Elements(es)) => array_terms(es@),
            Some(ArrayInit::Alias(x)) => seq!["var,"@ + quoted(x@)],
            None => seq![],
        },
    }
}

/// The output facts of a variable: `output_var` for a scalar, `output_array`
/// for an array; `None` when the `output_array` annotation is malformed.
pub open spec fn var_output_facts(v: VarDecl) -> Option<Seq<Seq<char>>> {
    match v {
        VarDecl::Scalar { id, annos, .. } => Some(output_var_facts(id@, annos@)),
        VarDecl::Array { id, annos, .. } => output_array_facts(id@, annos@),
    }
}

/// The facts of a variable declaration, in order: its `variable_type` facts,
/// its `variable_value` facts, its output facts. `None` when an
/// `output_array` annotation is malformed.
pub open spec fn variable_facts(v: VarDecl) -> Option<Seq<Seq<char>>> {
    match var_output_facts(v) {
        None => None,
        Some(o) => Some(
            facts_about("variable_type"@, quoted(var_id(v)), var_type_terms(v)) + facts_about(
                "variable_value"@,
                quoted(var_id(v)),
                var_init_terms(v),
            ) + o,
        ),
    }
}

/// The type terms of an array variable.
fn array_type_to_terms(size: i128, d: &Domain) -> (r: Vec<String>)
    ensures
        texts(r@) == array_type_terms(int_text(size as int), array_domain_terms(*d)),
{
    let elem = match d {
        Domain::SetOfInt => {
            let mut e: Vec<String> = Vec::new();
            e.push(String::from_str("set"));
            assert(texts(e@) =~= array_domain_terms(*d));
            e
        },
        _ => domain_to_terms(d),
    };
    let mut pre = String::from_str("array(");
    pre.append(int_to_text(size).as_str());
    pre.append(",");
    let mut r: Vec<String> = Vec::new();
    wrap_each(&mut r, pre.as_str(), &elem, ")");
    assert(texts(r@) =~= array_type_terms(int_text(size as int), array_domain_terms(*d)));
    r
}

/// Pushes the facts of a variable declaration. A malformed `output_array`
/// annotation is a structural defect: nothing is pushed then.
pub fn write_var_decl_item(out: &mut Vec<String>, v: &VarDecl) -> (r: Result<(), FlatZincError>)
    ensures
        match variable_facts(*v) {
            None => r == Err::<(), FlatZincError>(FlatZincError::StructuralDefect) && final(out)@
                == old(out)@,
            Some(f) => r is Ok && texts(final(out)@) == texts(old(out)@) + f,
        },
{
    let ghost start = texts(out@);
    match v {
        VarDecl::Scalar { id, domain, init, annos } => {
            let q = quote(id.as_str());
            push_facts(out, "variable_type", q.as_str(), &domain_to_terms(domain));
            let ghost after_type = texts(out@);
            match init {
                Some(e) => push_facts(out, "variable_value", q.as_str(), &element_to_terms(e)),
                None => {
                    assert(texts(out@) =~= after_type + facts_about(
                        "variable_value"@,
                        q@,
                        var_init_terms(*v),
                    ));
                },
            }
            write_output_var(out, id, annos);
            assert(texts(out@) =~= start + variable_facts(*v)->Some_0);
            Ok(())
        },
        VarDecl::Array { id, size, domain, init, annos } => {
            let mut outputs = match output_array_lines(id, annos) {
                None => {
                    return Err(FlatZincError::StructuralDefect);
                },
                Some(lines) => lines,
            };
            let q = quote(id.as_str());
            push_facts(out, "variable_type", q.as_str(), &array_type_to_terms(*size, domain));
            let ghost after_type = texts(out@);
            match init {
                Some(ArrayInit::Elements(es)) => push_facts(
                    out,
                    "variable_value",
                    q.as_str(),
                    &array_to_terms(es),
                ),
                Some(ArrayInit::Alias(x)) => {
                    let mut t = String::from_str("var,");
                    t.append(quote(x.as_str()).as_str());
                    let mut ts: Vec<String> = Vec::new();
                    ts.push(t);
                    assert(texts(ts@) =~= var_init_terms(*v));
                    push_facts(out, "variable_value", q.as_str(), &ts);
                },
                None => {
                    assert(texts(out@) =~= after_type + facts_about(
                        "variable_value"@,
                        q@,
                        var_init_terms(*v),
                    ));
                },
            }
            let ghost after_value = out@;
            let ghost added = outputs@;
            out.append(&mut outputs);
            assert(texts(out@) =~= texts(after_value) + texts(added));
            assert(texts(out@) =~= start + variable_facts(*v)->Some_0);
            Ok(())
        },
    }
}

} // verus!
