//! A resource's metadata as the comment lines that head an output file.
use vstd::prelude::*;
use vstd::string::*;
use crate::ast::{find_key, key_index, same_text, GenError, ResourceDef, Value};
use crate::context::DSC;
use crate::text::views;
use crate::value::{raw_value, text_of};

verus! {

/// A string as the standard library's `Debug` writes it: between double
/// quotes, with its escapes.
pub uninterp spec fn str_debug(s: Seq<char>) -> Seq<char>;

/// `Debug` formatting of a `str`. The result depends on the text alone;
/// nothing more is claimed of it.
#[verifier::external_body]
fn debug_quoted(s: &str) -> (r: String)
    ensures
        r@ == str_debug(s@),
{
    format!("{:?}", s)
}

/// One field of a parameter's description: the field's name and its value,
/// both quoted where the value is text; nothing where `param` is no struct,
/// has no such field, or the field has no rendering.
pub open spec fn param_field(param: Value, entry: Seq<char>) -> Seq<char> {
    match param {
        Value::Struct(fields) => {
            let i = key_index(fields@, entry);
            if i < fields@.len() {
                match raw_value(fields@[i].1, false) {
                    Ok(t) => match fields@[i].1 {
                        Value::Text(_) => str_debug(entry) + ": "@ + str_debug(t),
                        _ => str_debug(entry) + ": "@ + t,
                    },
                    Err(_) => Seq::empty(),
                }
            } else {
                Seq::empty()
            }
        },
        _ => Seq::empty(),
    }
}

/// The comment line of one parameter.
pub open spec fn parameter_line(param: Value) -> Seq<char> {
    "# @parameter { "@ + param_field(param, "name"@) + ", "@ + param_field(param, "id"@) + ", "@
        + param_field(param, "constraints"@) + " }\n"@
}

/// The comment lines of the first `n` parameters.
pub open spec fn parameter_lines_upto(params: Seq<Value>, n: int) -> Seq<char>
    decreases n,
{
    if n <= 0 {
        Seq::empty()
    } else {
        parameter_lines_upto(params, n - 1) + parameter_line(params[n - 1])
    }
}

/// The comment lines of a `parameters` entry: one per item of a list,
/// nothing for any other value or for none.
pub open spec fn parameters_text(parameters: Option<Value>) -> Seq<char> {
    match parameters {
        Some(Value::List(params)) => parameter_lines_upto(params@, params@.len() as int),
        _ => Seq::empty(),
    }
}

/// The `parameters` entry of a metadata mapping.
pub open spec fn parameters_entry(metadata: Seq<(String, Value)>) -> Option<Value> {
    let i = key_index(metadata, "parameters"@);
    if i < metadata.len() {
        Some(metadata[i].1)
    } else {
        None
    }
}

/// The keys that have a place of their own in the header.
pub open spec fn is_known_key(key: Seq<char>) -> bool {
    key == "name"@ || key == "description"@ || key == "version"@ || key == "parameters"@
}

/// The raw literals of the first `n` entries, in order; the `parameters`
/// entry is not rendered and stands as an empty text. The first entry
/// without a rendering gives the error.
pub open spec fn rendered_upto(metadata: Seq<(String, Value)>, n: int) -> Result<Seq<Seq<char>>, GenError>
    decreases n,
{
    if n <= 0 {
        Ok(Seq::empty())
    } else {
        match rendered_upto(metadata, n - 1) {
            Err(e) => Err(e),
            Ok(before) => if metadata[n - 1].0@ == "parameters"@ {
                Ok(before.push(Seq::empty()))
            } else {
                match raw_value(metadata[n - 1].1, false) {
                    Err(e) => Err(e),
                    Ok(t) => Ok(before.push(t)),
                }
            },
        }
    }
}

/// The line of a well-known key, or nothing where the key is absent.
pub open spec fn known_line(metadata: Seq<(String, Value)>, texts: Seq<Seq<char>>, key: Seq<char>) -> Seq<char> {
    let i = key_index(metadata, key);
    if i < metadata.len() {
        "# @"@ + key + " "@ + str_debug(texts[i]) + "\n"@
    } else {
        Seq::empty()
    }
}

/// The lines of the entries among the first `n` that have no place of
/// their own, in the mapping's order.
pub open spec fn other_lines_upto(metadata: Seq<(String, Value)>, texts: Seq<Seq<char>>, n: int) -> Seq<char>
    decreases n,
{
    if n <= 0 {
        Seq::empty()
    } else if is_known_key(metadata[n - 1].0@) {
        other_lines_upto(metadata, texts, n - 1)
    } else {
        other_lines_upto(metadata, texts, n - 1) + "# @"@ + metadata[n - 1].0@ + " "@ + texts[n - 1] + "\n"@
    }
}

/// The header of an output file: name, version and description, the
/// parameters, then every other entry.
pub open spec fn ncf_metadata(metadata: Seq<(String, Value)>) -> Result<Seq<char>, GenError> {
    match rendered_upto(metadata, metadata.len() as int) {
        Err(e) => Err(e),
        Ok(texts) => Ok(
            known_line(metadata, texts, "name"@) + known_line(metadata, texts, "version"@) + known_line(
                metadata,
                texts,
                "description"@,
            ) + parameters_text(parameters_entry(metadata)) + other_lines_upto(
                metadata,
                texts,
                metadata.len() as int,
            ),
        ),
    }
}

/// An entry without a rendering stops the header for good.
pub proof fn lemma_rendered_error_stays(metadata: Seq<(String, Value)>, k: int, n: int)
    requires
        0 <= k <= n,
        rendered_upto(metadata, k).is_err(),
    ensures
        rendered_upto(metadata, n) == rendered_upto(metadata, k),
    decreases n - k,
{
    if k < n {
        lemma_rendered_error_stays(metadata, k, n - 1);
    }
}

/// Whether `key` has a place of its own in the header.
pub fn known_key(key: &str) -> (r: bool)
    ensures
        r == is_known_key(key@),
{
    same_text(key, "name") || same_text(key, "description") || same_text(key, "version") || same_text(
        key,
        "parameters",
    )
}

impl DSC {
    /// Renders one field of a parameter's description.
    pub fn param_field_text(&self, param: &Value, entry: &str) -> (out: String)
        ensures
            out@ == param_field(*param, entry@),
    {
        match param {
            Value::Struct(fields) => {
                let at = find_key(fields, entry);
                if at < fields.len() {
                    match self.value_to_string(&fields[at].1, false) {
                        Ok(t) => {
                            let mut out = debug_quoted(entry);
                            out.append(": ");
                            match &fields[at].1 {
                                Value::Text(_) => {
                                    out.append(debug_quoted(t.as_str()).as_str());
                                },
                                _ => {
                                    out.append(t.as_str());
                                },
                            }
                            out
                        },
                        Err(_) => String::new(),
                    }
                } else {
                    String::new()
                }
            },
            _ => String::new(),
        }
    }

    /// Renders a `parameters` entry as one comment line per parameter. A
    /// value that is no list gives no line.
    pub fn generate_parameters_metadatas(&self, parameters: Option<&Value>) -> (out: String)
        ensures
            out@ == parameters_text(
                match parameters {
                    Some(v) => Some(*v),
                    None => None,
                },
            ),
    {
        let mut out = String::new();
        match parameters {
            Some(Value::List(params)) => {
                let mut i: usize = 0;
                while i < params.len()
                    invariant
                        i <= params.len(),
                        out@ == parameter_lines_upto(params@, i as int),
                    decreases params.len() - i,
                {
                    let ghost before = out@;
                    out.append("# @parameter { ");
                    out.append(self.param_field_text(&params[i], "name").as_str());
                    out.append(", ");
                    out.append(self.param_field_text(&params[i], "id").as_str());
                    out.append(", ");
                    out.append(self.param_field_text(&params[i], "constraints").as_str());
                    out.append(" }\n");
                    assert(out@ =~= before + parameter_line(params@[i as int]));
                    i = i + 1;
                }
            },
            _ => {},
        }
        out
    }

    /// Renders every entry but `parameters` as a raw literal.
    #[verifier::loop_isolation(false)]
    pub fn render_entries(&self, metadata: &Vec<(String, Value)>) -> (r: Result<Vec<String>, GenError>)
        ensures
            match r {
                Ok(v) => v@.len() == metadata@.len() && rendered_upto(metadata@, metadata@.len() as int) == Ok::<
                    Seq<Seq<char>>,
                    GenError,
                >(views(v@)),
                Err(e) => rendered_upto(metadata@, metadata@.len() as int) == Err::<Seq<Seq<char>>, GenError>(e),
            },
    {
        let mut texts: Vec<String> = Vec::new();
        let mut i: usize = 0;
        assert(views(texts@) =~= Seq::empty());
        while i < metadata.len()
            invariant
                i <= metadata.len(),
                texts@.len() == i,
                rendered_upto(metadata@, i as int) == Ok::<Seq<Seq<char>>, GenError>(views(texts@)),
            decreases metadata.len() - i,
        {
            let ghost before = views(texts@);
            if same_text(metadata[i].0.as_str(), "parameters") {
                texts.push(String::new());
                assert(views(texts@) =~= before.push(Seq::empty()));
            } else {
                match self.value_to_string(&metadata[i].1, false) {
                    Ok(t) => {
                        let ghost tv = t@;
                        texts.push(t);
                        assert(views(texts@) =~= before.push(tv));
                    },
                    Err(e) => {
                        proof {
                            lemma_rendered_error_stays(metadata@, i + 1, metadata@.len() as int);
                        }
                        return Err(e);
                    },
                }
            }
            i = i + 1;
        }
        Ok(texts)
    }

    /// Renders a resource's metadata as the header of its output file.
    /// Fails when an entry other than `parameters` has no rendering.
    pub fn generate_ncf_metadata(&self, _name: &str, resource: &ResourceDef) -> (r: Result<String, GenError>)
        ensures
            text_of(r) == ncf_metadata(resource.metadata@),
    {
        let metadata = &resource.metadata;
        let texts = self.render_entries(metadata)?;
        let mut out = known_line_text(metadata, &texts, "name");
        out.append(known_line_text(metadata, &texts, "version").as_str());
        out.append(known_line_text(metadata, &texts, "description").as_str());
        let at = find_key(metadata, "parameters");
        let parameters = if at < metadata.len() {
            self.generate_parameters_metadatas(Some(&metadata[at].1))
        } else {
            self.generate_parameters_metadatas(None)
        };
        out.append(parameters.as_str());
        out.append(other_lines(metadata, &texts).as_str());
        Ok(out)
    }
}

/// Renders the line of a well-known key from the literals of the entries.
pub fn known_line_text(metadata: &Vec<(String, Value)>, texts: &Vec<String>, key: &str) -> (out: String)
    requires
        texts@.len() == metadata@.len(),
    ensures
        out@ == known_line(metadata@, views(texts@), key@),
{
    let mut out = String::new();
    let at = find_key(metadata, key);
    if at < metadata.len() {
        out.append("# @");
        out.append(key);
        out.append(" ");
        out.append(debug_quoted(texts[at].as_str()).as_str());
        out.append("\n");
        assert(out@ =~= known_line(metadata@, views(texts@), key@));
    }
    out
}

/// Renders the lines of the entries that have no place of their own.
pub fn other_lines(metadata: &Vec<(String, Value)>, texts: &Vec<String>) -> (out: String)
    requires
        texts@.len() == metadata@.len(),
    ensures
        out@ == other_lines_upto(metadata@, views(texts@), metadata@.len() as int),
{
    let mut out = String::new();
    let mut j: usize = 0;
    while j < metadata.len()
        invariant
            j <= metadata.len(),
            texts@.len() == metadata@.len(),
            out@ == other_lines_upto(metadata@, views(texts@), j as int),
        decreases metadata.len() - j,
    {
        if !known_key(metadata[j].0.as_str()) {
            out.append("# @");
            out.append(metadata[j].0.as_str());
            out.append(" ");
            out.append(texts[j].as_str());
            out.append("\n");
        }
        j = j + 1;
    }
    out
}

} // verus!
