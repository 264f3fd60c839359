//! Conditions over enumerated classes, written in the target's class syntax:
//! `.` for and, `|` for or, `!` for not.
use vstd::prelude::*;
use vstd::string::*;
use crate::text::{has_char, join, joined};
use crate::ast::{EnumExpression, GenError, AST};
use crate::context::{Context, DSC};
use crate::value::text_of;

verus! {

/// `t` between parentheses where it holds an or.
pub open spec fn grouped_if_or(t: Seq<char>) -> Seq<char> {
    if t.contains('|') {
        "("@ + t + ")"@
    } else {
        t
    }
}

/// The negation of `t`, between parentheses where it holds an operator.
pub open spec fn negated(t: Seq<char>) -> Seq<char> {
    if t.contains('|') || t.contains('.') {
        "!("@ + t + ")"@
    } else {
        "!"@ + t
    }
}

/// What is left when none of the guards seen so far holds.
pub open spec fn default_guard(cases: Seq<Seq<char>>) -> Seq<char> {
    if cases.len() == 0 {
        "any"@
    } else {
        "!("@ + joined(cases, "|"@) + ")"@
    }
}

/// Whether every variable that `e` compares against a local enum has a prefix.
pub open spec fn prefixes_bound(c: Context, gc: AST, e: EnumExpression) -> bool
    decreases e,
{
    match e {
        EnumExpression::And(a, b) => prefixes_bound(c, gc, *a) && prefixes_bound(c, gc, *b),
        EnumExpression::Or(a, b) => prefixes_bound(c, gc, *a) && prefixes_bound(c, gc, *b),
        EnumExpression::Not(a) => prefixes_bound(c, gc, *a),
        EnumExpression::Compare(var, en, _) => gc.is_global(en@) || c.var_prefixes.contains_key(var@),
        _ => true,
    }
}

/// The class expression of `e`: a comparison with a global enum is the item's
/// name, one with a local enum is prefix, enum and item joined by underscores;
/// a range has no rendering.
pub open spec fn compiled(c: Context, gc: AST, e: EnumExpression) -> Result<Seq<char>, GenError>
    decreases e,
{
    match e {
        EnumExpression::And(a, b) => match compiled(c, gc, *a) {
            Err(err) => Err(err),
            Ok(l) => match compiled(c, gc, *b) {
                Err(err) => Err(err),
                Ok(r) => Ok(grouped_if_or(l) + "."@ + grouped_if_or(r)),
            },
        },
        EnumExpression::Or(a, b) => match compiled(c, gc, *a) {
            Err(err) => Err(err),
            Ok(l) => match compiled(c, gc, *b) {
                Err(err) => Err(err),
                Ok(r) => Ok(l + "|"@ + r),
            },
        },
        EnumExpression::Not(a) => match compiled(c, gc, *a) {
            Err(err) => Err(err),
            Ok(t) => Ok(negated(t)),
        },
        EnumExpression::Compare(var, en, item) => if gc.is_global(en@) {
            Ok(item@)
        } else {
            Ok(c.var_prefixes[var@] + "_"@ + en@ + "_"@ + item@)
        },
        EnumExpression::RangeCompare(_, _, _, _) => Err(GenError::Unsupported),
        EnumExpression::Default => Ok(default_guard(c.cases)),
        EnumExpression::NoDefault => Ok(Seq::empty()),
    }
}

fn group_if_or(t: String) -> (out: String)
    ensures
        out@ == grouped_if_or(t@),
{
    if has_char(t.as_str(), '|') {
        let mut out = String::from_str("(");
        out.append(t.as_str());
        out.append(")");
        out
    } else {
        t
    }
}

impl DSC {
    /// Whether every variable that `case` compares against a local enum has
    /// a prefix, so that the guard can be compiled.
    pub fn has_prefixes(&self, gc: &AST, case: &EnumExpression) -> (r: bool)
        ensures
            r == prefixes_bound(self@, *gc, *case),
        decreases case,
    {
        match case {
            EnumExpression::And(e1, e2) => self.has_prefixes(gc, e1) && self.has_prefixes(gc, e2),
            EnumExpression::Or(e1, e2) => self.has_prefixes(gc, e1) && self.has_prefixes(gc, e2),
            EnumExpression::Not(e1) => self.has_prefixes(gc, e1),
            EnumExpression::Compare(var, e, _) => gc.enum_is_global(e.as_str()) || self.var_prefixes.contains_key(
                var.as_str(),
            ),
            _ => true,
        }
    }

    /// Compiles a guard. The generator itself is left as it was. A variable
    /// compared against a local enum must have been bound before.
    pub fn format_case_expr(&mut self, gc: &AST, case: &EnumExpression) -> (r: Result<String, GenError>)
        requires
            prefixes_bound(old(self)@, *gc, *case),
        ensures
            text_of(r) == compiled(old(self)@, *gc, *case),
            final(self)@ == old(self)@,
        decreases case,
    {
        match case {
            EnumExpression::And(e1, e2) => {
                let lexpr = self.format_case_expr(gc, e1)?;
                let rexpr = self.format_case_expr(gc, e2)?;
                let mut out = group_if_or(lexpr);
                out.append(".");
                out.append(group_if_or(rexpr).as_str());
                Ok(out)
            },
            EnumExpression::Or(e1, e2) => {
                let mut out = self.format_case_expr(gc, e1)?;
                let rexpr = self.format_case_expr(gc, e2)?;
                out.append("|");
                out.append(rexpr.as_str());
                Ok(out)
            },
            EnumExpression::Not(e1) => {
                let expr = self.format_case_expr(gc, e1)?;
                let mut out = if has_char(expr.as_str(), '|') || has_char(expr.as_str(), '.') {
                    String::from_str("!(")
                } else {
                    String::from_str("!")
                };
                out.append(expr.as_str());
                if has_char(expr.as_str(), '|') || has_char(expr.as_str(), '.') {
                    out.append(")");
                }
                Ok(out)
            },
            EnumExpression::Compare(var, e, item) => {
                if gc.enum_is_global(e.as_str()) {
                    Ok(String::from_str(item.as_str()))
                } else {
                    let prefix = self.var_prefixes.get(var.as_str()).unwrap();
                    let mut out = String::from_str(prefix.as_str());
                    out.append("_");
                    out.append(e.as_str());
                    out.append("_");
                    out.append(item.as_str());
                    Ok(out)
                }
            },
            EnumExpression::RangeCompare(_, _, _, _) => Err(GenError::Unsupported),
            EnumExpression::Default => {
                if self.current_cases.len() == 0 {
                    Ok(String::from_str("any"))
                } else {
                    let mut out = String::from_str("!(");
                    out.append(join(&self.current_cases, "|").as_str());
                    out.append(")");
                    Ok(out)
                }
            },
            EnumExpression::NoDefault => Ok(String::new()),
        }
    }
}

/// The conjunction of two guards whose texts both hold an or puts both
/// between parentheses.
pub proof fn lemma_and_groups_both(c: Context, gc: AST, g1: EnumExpression, g2: EnumExpression, t1: Seq<char>, t2: Seq<char>)
    requires
        compiled(c, gc, g1) == Ok::<Seq<char>, GenError>(t1),
        compiled(c, gc, g2) == Ok::<Seq<char>, GenError>(t2),
        t1.contains('|'),
        t2.contains('|'),
    ensures
        compiled(c, gc, EnumExpression::And(Box::new(g1), Box::new(g2))) == Ok::<Seq<char>, GenError>(
            "("@ + t1 + ")"@ + "."@ + ("("@ + t2 + ")"@),
        ),
{
}

/// The default branch is the negation of the guards before it, and nothing
/// else of the context bears on it.
pub proof fn lemma_default_complements(c: Context, gc: AST)
    ensures
        c.cases.len() == 0 ==> compiled(c, gc, EnumExpression::Default) == Ok::<Seq<char>, GenError>("any"@),
        c.cases.len() > 0 ==> compiled(c, gc, EnumExpression::Default) == Ok::<Seq<char>, GenError>(
            "!("@ + joined(c.cases, "|"@) + ")"@,
        ),
{
}

} // verus!
