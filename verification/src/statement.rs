//! Statements of a state, each compiled to one fragment of the body.
use vstd::prelude::*;
use vstd::string::*;
use crate::ast::{find_key, key_index, EnumExpression, Fragment, GenError, Outcome, StateDeclaration, Statement, Value, AST};
use crate::context::{case_start, count_of, with_var, Context, DSC};
use crate::naming::{pascebab, pascebab_case};
use crate::params::method_parameters;
use crate::value::{fragments_text, render_fragments, text_of};

verus! {

/// The component that a declaration reports under: the first fragment of the
/// text under `component` where that is static text, else `any`.
pub open spec fn component_label(metadata: Seq<(String, Value)>) -> Seq<char> {
    let i = key_index(metadata, "component"@);
    if i < metadata.len() {
        match metadata[i].1 {
            Value::Text(frags) => if frags@.len() > 0 {
                match frags@[0] {
                    Fragment::Static(s) => s@,
                    _ => "any"@,
                }
            } else {
                "any"@
            },
            _ => "any"@,
        }
    } else {
        "any"@
    }
}

/// The call of the generated function of the declared resource and state.
pub open spec fn call_text(gc: AST, sd: StateDeclaration) -> Result<Seq<char>, GenError> {
    match method_parameters(gc, sd) {
        Err(e) => Err(e),
        Ok(params) => Ok(
            "  $local_classes = Merge-ClassContext $local_classes $("@ + pascebab(sd.resource@) + "-"@
                + pascebab(sd.state@) + " "@ + params + " -componentName \""@ + component_label(
                sd.metadata@,
            )
                + "\" -reportId $reportId -techniqueName $techniqueName -auditOnly:$auditOnly).get_item(\"classes\")"@,
        ),
    }
}

/// The guard that a `Return` leaves behind: the negation of the last guard
/// seen, or of `any` where none was.
pub open spec fn return_guard(cases: Seq<Seq<char>>) -> Seq<char> {
    if cases.len() == 0 {
        "!any"@
    } else {
        "!("@ + cases.last() + ")"@
    }
}

/// The directive that ends a state with `outcome`.
pub open spec fn return_text(outcome: Outcome) -> Seq<char> {
    match outcome {
        Outcome::Kept => "      \"method_call\" usebundle => success();\n"@,
        Outcome::Repaired => "      \"method_call\" usebundle => repaired();\n"@,
        Outcome::Error => "      \"method_call\" usebundle => error();\n"@,
    }
}

/// A directive with `msg` as its one argument: the text of the message as
/// a double-quoted literal. A message that is no text has no rendering.
pub open spec fn directive_text(open: Seq<char>, msg: Value) -> Result<Seq<char>, GenError> {
    match msg {
        Value::Text(frags) => Ok(open + "\""@ + fragments_text(frags@, true) + "\""@ + ");\n"@),
        _ => Err(GenError::Unsupported),
    }
}

/// The context and the fragment after a statement that is no group of
/// branches. A declaration that binds its outcome does so before anything
/// else, and fails where the name's counter is exhausted. A group of branches
/// in this place has no rendering.
pub open spec fn simple_step(c: Context, gc: AST, st: Statement) -> (Context, Result<Seq<char>, GenError>) {
    match st {
        Statement::StateDeclaration(sd) => match sd.outcome {
            Some(var) => if count_of(c, var@) == u32::MAX {
                (c, Err(GenError::CounterOverflow))
            } else {
                (with_var(c, var@), call_text(gc, sd))
            },
            None => (c, call_text(gc, sd)),
        },
        Statement::Case(_) => (c, Err(GenError::Unsupported)),
        Statement::Fail(msg) => (c, directive_text("      \"method_call\" usebundle => ncf_fail("@, msg)),
        Statement::Log(msg) => (c, directive_text("      \"method_call\" usebundle => ncf_log("@, msg)),
        Statement::Return(outcome) => (
            Context { return_condition: Some(return_guard(c.cases)), ..c },
            Ok(return_text(outcome)),
        ),
        Statement::Noop => (c, Ok(Seq::empty())),
    }
}

/// The first `n` statements of a branch, one after the other; the first
/// failure ends the walk, with the context as it then stands.
pub open spec fn statements_upto(c: Context, gc: AST, sts: Seq<Statement>, n: int) -> (Context, Result<Seq<char>, GenError>)
    decreases n,
{
    if n <= 0 {
        (c, Ok(Seq::empty()))
    } else {
        let (c1, r1) = statements_upto(c, gc, sts, n - 1);
        match r1 {
            Err(e) => (c1, Err(e)),
            Ok(before) => {
                let (c2, r2) = simple_step(c1, gc, sts[n - 1]);
                match r2 {
                    Err(e) => (c2, Err(e)),
                    Ok(t) => (c2, Ok(before + t)),
                }
            },
        }
    }
}

/// The first `n` branches of a group, one after the other.
pub open spec fn branches_upto(c: Context, gc: AST, branches: Seq<(EnumExpression, Vec<Statement>)>, n: int) -> (Context, Result<Seq<char>, GenError>)
    decreases n,
{
    if n <= 0 {
        (c, Ok(Seq::empty()))
    } else {
        let (c1, r1) = branches_upto(c, gc, branches, n - 1);
        match r1 {
            Err(e) => (c1, Err(e)),
            Ok(before) => {
                let (c2, r2) = statements_upto(c1, gc, branches[n - 1].1@, branches[n - 1].1@.len() as int);
                match r2 {
                    Err(e) => (c2, Err(e)),
                    Ok(t) => (c2, Ok(before + t)),
                }
            },
        }
    }
}

/// The context and the fragment after any statement. A group of branches
/// first forgets the guards of the group before it.
pub open spec fn statement_step(c: Context, gc: AST, st: Statement) -> (Context, Result<Seq<char>, GenError>) {
    match st {
        Statement::Case(branches) => branches_upto(case_start(c), gc, branches@, branches@.len() as int),
        _ => simple_step(c, gc, st),
    }
}

/// A failure among the first `k` statements is the failure of the branch.
pub proof fn lemma_statements_error_stays(c: Context, gc: AST, sts: Seq<Statement>, k: int, n: int)
    requires
        0 <= k <= n,
        statements_upto(c, gc, sts, k).1.is_err(),
    ensures
        statements_upto(c, gc, sts, n) == statements_upto(c, gc, sts, k),
    decreases n - k,
{
    if k < n {
        lemma_statements_error_stays(c, gc, sts, k, n - 1);
    }
}

/// A failure among the first `k` branches is the failure of the group.
pub proof fn lemma_branches_error_stays(c: Context, gc: AST, branches: Seq<(EnumExpression, Vec<Statement>)>, k: int, n: int)
    requires
        0 <= k <= n,
        branches_upto(c, gc, branches, k).1.is_err(),
    ensures
        branches_upto(c, gc, branches, n) == branches_upto(c, gc, branches, k),
    decreases n - k,
{
    if k < n {
        lemma_branches_error_stays(c, gc, branches, k, n - 1);
    }
}

/// Reads the component label out of a declaration's metadata.
pub fn component_of(metadata: &Vec<(String, Value)>) -> (out: String)
    ensures
        out@ == component_label(metadata@),
{
    let at = find_key(metadata, "component");
    if at < metadata.len() {
        match &metadata[at].1 {
            Value::Text(frags) => {
                if frags.len() > 0 {
                    match &frags[0] {
                        Fragment::Static(s) => {
                            return s.clone();
                        },
                        _ => {},
                    }
                }
            },
            _ => {},
        }
    }
    String::from_str("any")
}

/// Renders a directive whose one argument is the message as a quoted literal.
pub fn directive(open: &str, msg: &Value) -> (r: Result<String, GenError>)
    ensures
        text_of(r) == directive_text(open@, *msg),
{
    match msg {
        Value::Text(frags) => {
            let mut out = String::from_str(open);
            out.append("\"");
            out.append(render_fragments(frags, true).as_str());
            out.append("\"");
            out.append(");\n");
            Ok(out)
        },
        _ => Err(GenError::Unsupported),
    }
}

impl DSC {
    /// Compiles a statement that is no group of branches.
    pub fn format_simple_statement(&mut self, gc: &AST, st: &Statement) -> (r: Result<String, GenError>)
        ensures
            (final(self)@, text_of(r)) == simple_step(old(self)@, *gc, *st),
    {
        match st {
            Statement::StateDeclaration(sd) => {
                match &sd.outcome {
                    Some(var) => {
                        match self.new_var(var.as_str()) {
                            Ok(()) => {},
                            Err(e) => {
                                return Err(e);
                            },
                        }
                    },
                    None => {},
                }
                let component = component_of(&sd.metadata);
                let params = self.get_method_parameters(gc, sd)?;
                let mut out = String::from_str("  $local_classes = Merge-ClassContext $local_classes $(");
                out.append(pascebab_case(sd.resource.as_str()).as_str());
                out.append("-");
                out.append(pascebab_case(sd.state.as_str()).as_str());
                out.append(" ");
                out.append(params.as_str());
                out.append(" -componentName \"");
                out.append(component.as_str());
                out.append(
                    "\" -reportId $reportId -techniqueName $techniqueName -auditOnly:$auditOnly).get_item(\"classes\")",
                );
                Ok(out)
            },
            Statement::Case(_) => Err(GenError::Unsupported),
            Statement::Fail(msg) => directive("      \"method_call\" usebundle => ncf_fail(", msg),
            Statement::Log(msg) => directive("      \"method_call\" usebundle => ncf_log(", msg),
            Statement::Return(outcome) => {
                let n = self.current_cases.len();
                let guard = if n == 0 {
                    String::from_str("!any")
                } else {
                    let mut g = String::from_str("!(");
                    g.append(self.current_cases[n - 1].as_str());
                    g.append(")");
                    g
                };
                self.return_condition = Some(guard);
                Ok(
                    match outcome {
                        Outcome::Kept => String::from_str("      \"method_call\" usebundle => success();\n"),
                        Outcome::Repaired => String::from_str(
                            "      \"method_call\" usebundle => repaired();\n",
                        ),
                        Outcome::Error => String::from_str("      \"method_call\" usebundle => error();\n"),
                    },
                )
            },
            Statement::Noop => Ok(String::new()),
        }
    }

    /// Compiles the statements of one branch, in order.
    #[verifier::loop_isolation(false)]
    pub fn format_branch(&mut self, gc: &AST, sts: &Vec<Statement>) -> (r: Result<String, GenError>)
        ensures
            (final(self)@, text_of(r)) == statements_upto(old(self)@, *gc, sts@, sts@.len() as int),
    {
        let mut out = String::new();
        let mut i: usize = 0;
        while i < sts.len()
            invariant
                i <= sts.len(),
                (self@, Ok::<Seq<char>, GenError>(out@)) == statements_upto(old(self)@, *gc, sts@, i as int),
            decreases sts.len() - i,
        {
            match self.format_simple_statement(gc, &sts[i]) {
                Ok(t) => {
                    out.append(t.as_str());
                },
                Err(e) => {
                    proof {
                        lemma_statements_error_stays(old(self)@, *gc, sts@, i + 1, sts@.len() as int);
                    }
                    return Err(e);
                },
            }
            i = i + 1;
        }
        Ok(out)
    }

    /// Compiles a statement. A group of branches forgets the guards seen
    /// before it and compiles the statements of its branches in order; a group
    /// inside a group is refused.
    #[verifier::loop_isolation(false)]
    pub fn format_statement(&mut self, gc: &AST, st: &Statement) -> (r: Result<String, GenError>)
        ensures
            (final(self)@, text_of(r)) == statement_step(old(self)@, *gc, *st),
    {
        match st {
            Statement::Case(branches) => {
                self.reset_cases();
                let ghost start = self@;
                let mut out = String::new();
                let mut i: usize = 0;
                while i < branches.len()
                    invariant
                        i <= branches.len(),
                        (self@, Ok::<Seq<char>, GenError>(out@)) == branches_upto(start, *gc, branches@, i as int),
                    decreases branches.len() - i,
                {
                    match self.format_branch(gc, &branches[i].1) {
                        Ok(t) => {
                            out.append(t.as_str());
                        },
                        Err(e) => {
                            proof {
                                lemma_branches_error_stays(start, *gc, branches@, i + 1, branches@.len() as int);
                            }
                            return Err(e);
                        },
                    }
                    i = i + 1;
                }
                Ok(out)
            },
            _ => self.format_simple_statement(gc, st),
        }
    }
}

} // verus!
