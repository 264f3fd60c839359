//! Rendering of typed values: as quoted call arguments and as raw literals.
use vstd::prelude::*;
use vstd::string::*;
use crate::text::{free_of, lemma_replaced_absent, replace_all, replaced};
use crate::ast::{Fragment, GenError, Value};
use crate::context::DSC;

verus! {

/// A rendering, or the error that stopped it, with the text as a sequence.
pub open spec fn text_of(r: Result<String, GenError>) -> Result<Seq<char>, GenError> {
    match r {
        Ok(s) => Ok(s@),
        Err(e) => Err(e),
    }
}

/// Static text inside a quoted argument: backslashes, then double quotes, then
/// dollar signs are escaped.
pub open spec fn quoted_static(s: Seq<char>) -> Seq<char> {
    replaced(replaced(replaced(s, "\\"@, "\\\\"@), "\""@, "\\\""@), "$"@, "${const.dollar}"@)
}

/// Static text inside a raw literal: dollar signs and the written escapes
/// `\n`, `\r` and `\t` become the target's constants.
pub open spec fn raw_static(s: Seq<char>) -> Seq<char> {
    replaced(
        replaced(replaced(replaced(s, "$"@, "${const.dollar}"@), "\\n"@, "${const.n}"@), "\\r"@, "${const.r}"@),
        "\\t"@,
        "${const.t}"@,
    )
}

/// A reference to the variable `name`.
pub open spec fn variable_ref(name: Seq<char>) -> Seq<char> {
    "${"@ + name + "}"@
}

/// One fragment of an interpolated string, in either mode.
pub open spec fn fragment_text(f: Fragment, quoted: bool) -> Seq<char> {
    match f {
        Fragment::Static(s) => if quoted {
            quoted_static(s@)
        } else {
            raw_static(s@)
        },
        Fragment::Variable(v) => variable_ref(v@),
    }
}

/// The first `n` fragments, one after the other.
pub open spec fn fragments_upto(frags: Seq<Fragment>, n: int, quoted: bool) -> Seq<char>
    decreases n,
{
    if n <= 0 {
        Seq::empty()
    } else {
        fragments_upto(frags, n - 1, quoted) + fragment_text(frags[n - 1], quoted)
    }
}

/// A whole interpolated string.
pub open spec fn fragments_text(frags: Seq<Fragment>, quoted: bool) -> Seq<char> {
    fragments_upto(frags, frags.len() as int, quoted)
}

/// A value as the call argument `name`: only text has a rendering.
pub open spec fn quoted_param(v: Value, name: Seq<char>) -> Result<Seq<char>, GenError> {
    match v {
        Value::Text(frags) => Ok("-"@ + name + " \""@ + fragments_text(frags@, true) + "\""@),
        _ => Err(GenError::Unsupported),
    }
}

/// The delimiter of a text literal.
pub open spec fn delimiter(delim: bool) -> Seq<char> {
    if delim {
        "\""@
    } else {
        Seq::empty()
    }
}

/// A value as a raw literal.
pub open spec fn raw_value(v: Value, delim: bool) -> Result<Seq<char>, GenError>
    decreases v, 0int,
{
    match v {
        Value::Text(frags) => Ok(delimiter(delim) + fragments_text(frags@, false) + delimiter(delim)),
        Value::Number(n) => Ok(n.text@),
        Value::Boolean(b) => Ok(if b { "true"@ } else { "false"@ }),
        Value::EnumExpression(_) => Err(GenError::Unsupported),
        Value::List(items) => match raw_items_upto(items@, items@.len() as int) {
            Ok(t) => Ok("[ "@ + t + " ]"@),
            Err(e) => Err(e),
        },
        Value::Struct(fields) => match raw_fields_upto(fields@, fields@.len() as int) {
            Ok(t) => Ok("{ "@ + t + " }"@),
            Err(e) => Err(e),
        },
    }
}

/// The first `n` items of a list, delimited and joined by commas; the first
/// item that has no rendering gives the error.
pub open spec fn raw_items_upto(items: Seq<Value>, n: int) -> Result<Seq<char>, GenError>
    decreases items, n,
{
    if n <= 0 || n > items.len() {
        Ok(Seq::empty())
    } else {
        match raw_items_upto(items, n - 1) {
            Err(e) => Err(e),
            Ok(before) => match raw_value(items[n - 1], true) {
                Err(e) => Err(e),
                Ok(t) => Ok(if n == 1 { t } else { before + ","@ + t }),
            },
        }
    }
}

/// The first `n` fields of a struct, each as `"key":value`, joined by commas.
pub open spec fn raw_fields_upto(fields: Seq<(String, Value)>, n: int) -> Result<Seq<char>, GenError>
    decreases fields, n,
{
    if n <= 0 || n > fields.len() {
        Ok(Seq::empty())
    } else {
        match raw_fields_upto(fields, n - 1) {
            Err(e) => Err(e),
            Ok(before) => match raw_value(fields[n - 1].1, true) {
                Err(e) => Err(e),
                Ok(t) => {
                    let field = "\""@ + fields[n - 1].0@ + "\":"@ + t;
                    Ok(if n == 1 { field } else { before + ","@ + field })
                },
            },
        }
    }
}

/// An error among the first `k` items is the error of any longer prefix.
pub proof fn lemma_items_error_stays(items: Seq<Value>, k: int, n: int)
    requires
        0 <= k <= n <= items.len(),
        raw_items_upto(items, k).is_err(),
    ensures
        raw_items_upto(items, n) == raw_items_upto(items, k),
    decreases n - k,
{
    if k < n {
        lemma_items_error_stays(items, k, n - 1);
    }
}

/// An error among the first `k` fields is the error of any longer prefix.
pub proof fn lemma_fields_error_stays(fields: Seq<(String, Value)>, k: int, n: int)
    requires
        0 <= k <= n <= fields.len(),
        raw_fields_upto(fields, k).is_err(),
    ensures
        raw_fields_upto(fields, n) == raw_fields_upto(fields, k),
    decreases n - k,
{
    if k < n {
        lemma_fields_error_stays(fields, k, n - 1);
    }
}

/// Renders static text for a quoted argument.
pub fn escape_quoted(s: &str) -> (out: String)
    ensures
        out@ == quoted_static(s@),
{
    proof {
        reveal_strlit("\\");
        reveal_strlit("\"");
        reveal_strlit("$");
    }
    let a = replace_all(s, "\\", "\\\\");
    let b = replace_all(a.as_str(), "\"", "\\\"");
    replace_all(b.as_str(), "$", "${const.dollar}")
}

/// Renders static text for a raw literal.
pub fn escape_raw(s: &str) -> (out: String)
    ensures
        out@ == raw_static(s@),
{
    proof {
        reveal_strlit("$");
        reveal_strlit("\\n");
        reveal_strlit("\\r");
        reveal_strlit("\\t");
    }
    let a = replace_all(s, "$", "${const.dollar}");
    let b = replace_all(a.as_str(), "\\n", "${const.n}");
    let c = replace_all(b.as_str(), "\\r", "${const.r}");
    replace_all(c.as_str(), "\\t", "${const.t}")
}

/// Renders an interpolated string in either mode.
pub fn render_fragments(frags: &Vec<Fragment>, quoted: bool) -> (out: String)
    ensures
        out@ == fragments_text(frags@, quoted),
{
    let mut out = String::new();
    let mut i: usize = 0;
    while i < frags.len()
        invariant
            i <= frags.len(),
            out@ == fragments_upto(frags@, i as int, quoted),
        decreases frags.len() - i,
    {
        match &frags[i] {
            Fragment::Static(s) => {
                let t = if quoted {
                    escape_quoted(s.as_str())
                } else {
                    escape_raw(s.as_str())
                };
                out.append(t.as_str());
            },
            Fragment::Variable(v) => {
                let ghost before = out@;
                out.append("${");
                out.append(v.as_str());
                out.append("}");
                assert(out@ =~= before + variable_ref(v@));
            },
        }
        i = i + 1;
    }
    out
}

impl DSC {
    /// Renders `param` as the call argument `param_name`: the name after a
    /// hyphen, then the text between double quotes.
    pub fn parameter_to_dsc(&self, param: &Value, param_name: &str) -> (r: Result<String, GenError>)
        ensures
            text_of(r) == quoted_param(*param, param_name@),
    {
        match param {
            Value::Text(frags) => {
                let mut out = String::from_str("-");
                out.append(param_name);
                out.append(" \"");
                out.append(render_fragments(frags, true).as_str());
                out.append("\"");
                Ok(out)
            },
            _ => Err(GenError::Unsupported),
        }
    }

    /// Renders `value` as a raw literal; text is put between double quotes
    /// when `string_delim` is set, and inside lists and structs always.
    pub fn value_to_string(&self, value: &Value, string_delim: bool) -> (r: Result<String, GenError>)
        ensures
            text_of(r) == raw_value(*value, string_delim),
        decreases value,
    {
        match value {
            Value::Text(frags) => {
                let mut out = String::new();
                if string_delim {
                    out.append("\"");
                }
                out.append(render_fragments(frags, false).as_str());
                if string_delim {
                    out.append("\"");
                }
                assert(out@ =~= delimiter(string_delim) + fragments_text(frags@, false) + delimiter(
                    string_delim,
                ));
                Ok(out)
            },
            Value::Number(n) => Ok(n.text.clone()),
            Value::Boolean(b) => Ok(
                if *b {
                    String::from_str("true")
                } else {
                    String::from_str("false")
                },
            ),
            Value::EnumExpression(_) => Err(GenError::Unsupported),
            Value::List(items) => {
                let mut inner = String::new();
                let mut i: usize = 0;
                while i < items.len()
                    invariant
                        i <= items.len(),
                        *value == Value::List(*items),
                        raw_items_upto(items@, i as int) == Ok::<Seq<char>, GenError>(inner@),
                    decreases items.len() - i,
                {
                    let t = match self.value_to_string(&items[i], true) {
                        Ok(t) => t,
                        Err(e) => {
                            proof {
                                lemma_items_error_stays(items@, i + 1, items@.len() as int);
                            }
                            return Err(e);
                        },
                    };
                    if i > 0 {
                        inner.append(",");
                    }
                    inner.append(t.as_str());
                    proof {
                        if i == 0 {
                            assert(inner@ =~= t@);
                        }
                    }
                    i = i + 1;
                }
                let mut out = String::from_str("[ ");
                out.append(inner.as_str());
                out.append(" ]");
                Ok(out)
            },
            Value::Struct(fields) => {
                let mut inner = String::new();
                let mut i: usize = 0;
                while i < fields.len()
                    invariant
                        i <= fields.len(),
                        *value == Value::Struct(*fields),
                        raw_fields_upto(fields@, i as int) == Ok::<Seq<char>, GenError>(inner@),
                    decreases fields.len() - i,
                {
                    let t = match self.value_to_string(&fields[i].1, true) {
                        Ok(t) => t,
                        Err(e) => {
                            proof {
                                lemma_fields_error_stays(fields@, i + 1, fields@.len() as int);
                            }
                            return Err(e);
                        },
                    };
                    let ghost before = inner@;
                    if i > 0 {
                        inner.append(",");
                    }
                    inner.append("\"");
                    inner.append(fields[i].0.as_str());
                    inner.append("\":");
                    inner.append(t.as_str());
                    proof {
                        let field = "\""@ + fields[i as int].0@ + "\":"@ + t@;
                        if i == 0 {
                            assert(inner@ =~= field);
                        } else {
                            assert(inner@ =~= before + ","@ + field);
                        }
                    }
                    i = i + 1;
                }
                let mut out = String::from_str("{ ");
                out.append(inner.as_str());
                out.append(" }");
                Ok(out)
            },
        }
    }
}

/// Static text that holds no dollar sign and none of the written escapes
/// `\n`, `\r` and `\t` is rendered as it stands: a raw literal made of it
/// alone is the text, between its delimiters where they are asked for.
pub proof fn lemma_plain_text_is_verbatim(frags: Vec<Fragment>, s: String)
    requires
        frags@ == seq![Fragment::Static(s)],
        free_of(s@, "$"@),
        free_of(s@, "\\n"@),
        free_of(s@, "\\r"@),
        free_of(s@, "\\t"@),
    ensures
        raw_value(Value::Text(frags), false) == Ok::<Seq<char>, GenError>(s@),
        raw_value(Value::Text(frags), true) == Ok::<Seq<char>, GenError>("\""@ + s@ + "\""@),
{
    lemma_replaced_absent(s@, "$"@, "${const.dollar}"@, 0);
    lemma_replaced_absent(s@, "\\n"@, "${const.n}"@, 0);
    lemma_replaced_absent(s@, "\\r"@, "${const.r}"@, 0);
    lemma_replaced_absent(s@, "\\t"@, "${const.t}"@, 0);
    assert(s@.skip(0) =~= s@);
    assert(raw_static(s@) == s@);
    assert(fragments_upto(frags@, 1, false) =~= raw_static(s@)) by {
        assert(fragments_upto(frags@, 0, false) =~= Seq::<char>::empty());
    }
    assert(delimiter(false) + s@ + delimiter(false) =~= s@);
}

} // verus!
