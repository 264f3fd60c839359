//! The pass over a technique: which file each state goes to, the function
//! written for it, and the files that result.
use vstd::prelude::*;
use vstd::string::*;
use crate::ast::{same_text, GenError, Parameter, ResourceDef, StateDef, Statement, Value, AST};
use crate::context::{file_start, Context, DSC};
use crate::metadata::ncf_metadata;
use crate::naming::{pascebab, pascebab_case};
use crate::statement::statement_step;
use crate::text::{join, joined, views};

verus! {

/// The file name of a path: `Path::file_name`, as text. What counts as a
/// separator depends on the platform, so nothing is claimed of the result.
#[verifier::external_body]
fn file_name_of(path: &str) -> (r: Option<String>) {
    let name = std::path::Path::new(path).file_name()?;
    Some(name.to_str()?.to_string())
}

/// An optional string as an optional sequence.
pub open spec fn opt_view(o: Option<&str>) -> Option<Seq<char>> {
    match o {
        Some(s) => Some(s@),
        None => None,
    }
}

/// An optional owned string as an optional sequence.
pub open spec fn owned_view(o: Option<String>) -> Option<Seq<char>> {
    match o {
        Some(s) => Some(s@),
        None => None,
    }
}

/// The file name of the one source that is compiled, where one is configured.
pub open spec fn name_view(o: Option<Option<String>>) -> Option<Option<Seq<char>>> {
    match o {
        Some(n) => Some(owned_view(n)),
        None => None,
    }
}

/// The output file of a declaration from the source file `cur_file`. With no
/// source configured it is the source file's own name. With one, only the
/// declarations of that file have an output: the destination, or the source
/// file's own name where no destination is configured.
pub open spec fn dest_file(source_name: Option<Option<Seq<char>>>, cur_file: Seq<char>, output: Option<Seq<char>>) -> Option<Seq<char>> {
    match source_name {
        None => Some(cur_file),
        Some(name) => if name == Some(cur_file) {
            match output {
                Some(o) => Some(o),
                None => Some(cur_file),
            }
        } else {
            None
        },
    }
}

/// Decides the output file of a declaration from the file name of the
/// configured source.
pub fn select_dest_file(source_name: &Option<Option<String>>, cur_file: &str, output: Option<&str>) -> (r: Option<String>)
    ensures
        owned_view(r) == dest_file(name_view(*source_name), cur_file@, opt_view(output)),
{
    match source_name {
        None => Some(String::from_str(cur_file)),
        Some(None) => None,
        Some(Some(name)) => {
            if same_text(name.as_str(), cur_file) {
                match output {
                    Some(o) => Some(String::from_str(o)),
                    None => Some(String::from_str(cur_file)),
                }
            } else {
                None
            }
        },
    }
}

/// Decides the output file of a declaration from the configured source
/// path. With no source it is `cur_file`; with one it is nothing, or the
/// destination (`cur_file` where none is configured), as the path's file name
/// is `cur_file` or not.
pub fn get_dest_file(input: Option<&str>, cur_file: &str, output: Option<&str>) -> (r: Option<String>)
    ensures
        input.is_none() ==> owned_view(r) == Some(cur_file@),
        input.is_some() ==> r.is_none() || owned_view(r) == Some(
            match output {
                Some(o) => o@,
                None => cur_file@,
            },
        ),
{
    let source_name = match input {
        Some(path) => Some(file_name_of(path)),
        None => None,
    };
    select_dest_file(&source_name, cur_file, output)
}

/// The target's type for a value.
pub open spec fn param_type(v: Value) -> Seq<char> {
    match v {
        Value::Text(_) => "string"@,
        Value::Number(_) => "long"@,
        Value::Boolean(_) => "bool"@,
        Value::EnumExpression(_) => "enum_expression"@,
        Value::List(_) => "list"@,
        Value::Struct(_) => "struct"@,
    }
}

/// The declaration of one parameter of a generated function.
pub open spec fn param_line(p: Parameter) -> Seq<char> {
    "    [parameter(Mandatory=$true)]\n    ["@ + param_type(p.value) + "]$"@ + pascebab(p.name@)
}

/// The declarations of the first `n` parameters.
pub open spec fn param_lines_upto(ps: Seq<Parameter>, n: int) -> Seq<Seq<char>>
    decreases n,
{
    if n <= 0 {
        Seq::empty()
    } else {
        param_lines_upto(ps, n - 1).push(param_line(ps[n - 1]))
    }
}

/// The parameter block of a generated function: technique name, report id
/// and the audit switch, then the resource's parameters and the state's.
pub open spec fn parameter_block(res: ResourceDef, st: StateDef) -> Seq<char> {
    "    [parameter(Mandatory=$true)]\n    [string]$techniqueName,\n"@
        + "    [parameter(Mandatory=$true)]\n    [string]$reportId,\n"@ + "    [switch]$auditOnly,\n"@ + joined(
        param_lines_upto(res.parameters@, res.parameters@.len() as int) + param_lines_upto(
            st.parameters@,
            st.parameters@.len() as int,
        ),
        ",\n"@,
    )
}

/// The fragments of the first `n` statements of a state, with the context
/// threaded through them; the first failure ends the walk.
pub open spec fn body_upto(c: Context, gc: AST, sts: Seq<Statement>, n: int) -> (Context, Result<Seq<Seq<char>>, GenError>)
    decreases n,
{
    if n <= 0 {
        (c, Ok(Seq::empty()))
    } else {
        let (c1, r1) = body_upto(c, gc, sts, n - 1);
        match r1 {
            Err(e) => (c1, Err(e)),
            Ok(before) => {
                let (c2, r2) = statement_step(c1, gc, sts[n - 1]);
                match r2 {
                    Err(e) => (c2, Err(e)),
                    Ok(t) => (c2, Ok(before.push(t))),
                }
            },
        }
    }
}

/// The text of an output file after a state's function has been added.
/// `header` is what the file held before, or its metadata header.
pub open spec fn function_text(header: Seq<char>, res: ResourceDef, st: StateDef, methods: Seq<char>) -> Seq<char> {
    "# generated by rudder-lang\n"@ + header + "\nfunction "@ + pascebab(res.name@) + "-"@ + pascebab(st.name@)
        + " {\n  [CmdletBinding()]\n  param (\n"@ + parameter_block(res, st)
        + "\n  )\n  \n  $local_classes = New-ClassContext\n  $resources_dir = $PSScriptRoot + \"\\resources\"\n\n"@
        + methods + "\n}"@
}

/// The first position at or after `i` of the file `path`, or the length.
pub open spec fn file_index_from(files: Seq<(Seq<char>, Seq<char>)>, path: Seq<char>, i: int) -> int
    decreases files.len() - i,
{
    if i < 0 || i >= files.len() {
        files.len() as int
    } else if files[i].0 == path {
        i
    } else {
        file_index_from(files, path, i + 1)
    }
}

/// The files with `content` under `path`: in place of the file's old
/// content, or behind the others where the file is new.
pub open spec fn put_file(files: Seq<(Seq<char>, Seq<char>)>, path: Seq<char>, content: Seq<char>) -> Seq<(Seq<char>, Seq<char>)> {
    let i = file_index_from(files, path, 0);
    if i < files.len() {
        files.update(i, (path, content))
    } else {
        files.push((path, content))
    }
}

/// What heads a state's function: the file's content so far, or for a new
/// file the resource's metadata where that is asked for.
pub open spec fn header_text(files: Seq<(Seq<char>, Seq<char>)>, path: Seq<char>, res: ResourceDef, technique_metadata: bool) -> Result<Seq<char>, GenError> {
    let i = file_index_from(files, path, 0);
    if i < files.len() {
        Ok(files[i].1)
    } else if technique_metadata {
        ncf_metadata(res.metadata@)
    } else {
        Ok(Seq::empty())
    }
}

/// Paths and contents of the files as sequences.
pub open spec fn file_views(files: Seq<(String, String)>) -> Seq<(Seq<char>, Seq<char>)> {
    files.map_values(|f: (String, String)| (f.0@, f.1@))
}

/// The files of a result, or its error.
pub open spec fn files_of(r: Result<Vec<(String, String)>, GenError>) -> Result<Seq<(Seq<char>, Seq<char>)>, GenError> {
    match r {
        Ok(v) => Ok(file_views(v@)),
        Err(e) => Err(e),
    }
}

/// The context and the files after one state. A state without an output
/// file changes nothing. Any other starts from a fresh file context.
pub open spec fn declaration_step(
    c: Context,
    files: Seq<(Seq<char>, Seq<char>)>,
    gc: AST,
    res: ResourceDef,
    st: StateDef,
    source_name: Option<Option<Seq<char>>>,
    dest: Option<Seq<char>>,
    technique_metadata: bool,
) -> (Context, Result<Seq<(Seq<char>, Seq<char>)>, GenError>) {
    match dest_file(source_name, st.file@, dest) {
        None => (c, Ok(files)),
        Some(path) => {
            let c0 = file_start(c);
            match header_text(files, path, res, technique_metadata) {
                Err(e) => (c0, Err(e)),
                Ok(header) => {
                    let (c1, body) = body_upto(c0, gc, st.statements@, st.statements@.len() as int);
                    match body {
                        Err(e) => (c1, Err(e)),
                        Ok(fragments) => (
                            c1,
                            Ok(put_file(files, path, function_text(header, res, st, joined(fragments, "\n"@)))),
                        ),
                    }
                },
            }
        },
    }
}

/// The context and the files after the first `n` states of a resource.
pub open spec fn states_upto(
    c: Context,
    files: Seq<(Seq<char>, Seq<char>)>,
    gc: AST,
    res: ResourceDef,
    source_name: Option<Option<Seq<char>>>,
    dest: Option<Seq<char>>,
    technique_metadata: bool,
    n: int,
) -> (Context, Result<Seq<(Seq<char>, Seq<char>)>, GenError>)
    decreases n,
{
    if n <= 0 {
        (c, Ok(files))
    } else {
        let (c1, r1) = states_upto(c, files, gc, res, source_name, dest, technique_metadata, n - 1);
        match r1 {
            Err(e) => (c1, Err(e)),
            Ok(f1) => declaration_step(c1, f1, gc, res, res.states@[n - 1], source_name, dest, technique_metadata),
        }
    }
}

/// The context and the files after the first `n` resources.
pub open spec fn resources_upto(
    c: Context,
    gc: AST,
    source_name: Option<Option<Seq<char>>>,
    dest: Option<Seq<char>>,
    technique_metadata: bool,
    n: int,
) -> (Context, Result<Seq<(Seq<char>, Seq<char>)>, GenError>)
    decreases n,
{
    if n <= 0 {
        (c, Ok(Seq::empty()))
    } else {
        let (c1, r1) = resources_upto(c, gc, source_name, dest, technique_metadata, n - 1);
        match r1 {
            Err(e) => (c1, Err(e)),
            Ok(f1) => states_upto(
                c1,
                f1,
                gc,
                gc.resources@[n - 1],
                source_name,
                dest,
                technique_metadata,
                gc.resources@[n - 1].states@.len() as int,
            ),
        }
    }
}

/// The result of a pass: the files of all states, in the order in which
/// each was first written. A pass without any file gives the destination as
/// an empty file, or fails where none is configured.
pub open spec fn generated(
    c: Context,
    gc: AST,
    source_name: Option<Option<Seq<char>>>,
    dest: Option<Seq<char>>,
    technique_metadata: bool,
) -> (Context, Result<Seq<(Seq<char>, Seq<char>)>, GenError>) {
    let (c1, r1) = resources_upto(c, gc, source_name, dest, technique_metadata, gc.resources@.len() as int);
    match r1 {
        Err(e) => (c1, Err(e)),
        Ok(files) => if files.len() == 0 {
            match dest {
                Some(d) => (c1, Ok(seq![(d, Seq::empty())])),
                None => (c1, Err(GenError::NoOutput)),
            }
        } else {
            (c1, Ok(files))
        },
    }
}

/// A failure among the first `k` statements is the failure of the body.
pub proof fn lemma_body_error_stays(c: Context, gc: AST, sts: Seq<Statement>, k: int, n: int)
    requires
        0 <= k <= n,
        body_upto(c, gc, sts, k).1.is_err(),
    ensures
        body_upto(c, gc, sts, n) == body_upto(c, gc, sts, k),
    decreases n - k,
{
    if k < n {
        lemma_body_error_stays(c, gc, sts, k, n - 1);
    }
}

/// A failure among the first `k` states of a resource is the failure of the
/// resource.
pub proof fn lemma_states_error_stays(
    c: Context,
    files: Seq<(Seq<char>, Seq<char>)>,
    gc: AST,
    res: ResourceDef,
    source_name: Option<Option<Seq<char>>>,
    dest: Option<Seq<char>>,
    technique_metadata: bool,
    k: int,
    n: int,
)
    requires
        0 <= k <= n,
        states_upto(c, files, gc, res, source_name, dest, technique_metadata, k).1.is_err(),
    ensures
        states_upto(c, files, gc, res, source_name, dest, technique_metadata, n) == states_upto(
            c,
            files,
            gc,
            res,
            source_name,
            dest,
            technique_metadata,
            k,
        ),
    decreases n - k,
{
    if k < n {
        lemma_states_error_stays(c, files, gc, res, source_name, dest, technique_metadata, k, n - 1);
    }
}

/// A failure among the first `k` resources is the failure of the walk.
pub proof fn lemma_resources_error_stays(
    c: Context,
    gc: AST,
    source_name: Option<Option<Seq<char>>>,
    dest: Option<Seq<char>>,
    technique_metadata: bool,
    k: int,
    n: int,
)
    requires
        0 <= k <= n,
        resources_upto(c, gc, source_name, dest, technique_metadata, k).1.is_err(),
    ensures
        resources_upto(c, gc, source_name, dest, technique_metadata, n) == resources_upto(
            c,
            gc,
            source_name,
            dest,
            technique_metadata,
            k,
        ),
    decreases n - k,
{
    if k < n {
        lemma_resources_error_stays(c, gc, source_name, dest, technique_metadata, k, n - 1);
    }
}

/// Where one state of one resource fails, the pass fails with it and gives
/// no file, however many states had been compiled before. This holds with
/// no source configured and with any file name of a configured source.
pub proof fn lemma_all_or_nothing(
    c: Context,
    gc: AST,
    source_name: Option<Option<Seq<char>>>,
    dest: Option<Seq<char>>,
    technique_metadata: bool,
    r: int,
    s: int,
)
    requires
        0 <= r < gc.resources@.len(),
        0 <= s <= gc.resources@[r].states@.len(),
        resources_upto(c, gc, source_name, dest, technique_metadata, r).1 matches Ok(files) && states_upto(
            resources_upto(c, gc, source_name, dest, technique_metadata, r).0,
            files,
            gc,
            gc.resources@[r],
            source_name,
            dest,
            technique_metadata,
            s,
        ).1.is_err(),
    ensures
        generated(c, gc, source_name, dest, technique_metadata).1.is_err(),
{
    let (c1, r1) = resources_upto(c, gc, source_name, dest, technique_metadata, r);
    let files = r1.unwrap();
    lemma_states_error_stays(
        c1,
        files,
        gc,
        gc.resources@[r],
        source_name,
        dest,
        technique_metadata,
        s,
        gc.resources@[r].states@.len() as int,
    );
    lemma_resources_error_stays(c, gc, source_name, dest, technique_metadata, r + 1, gc.resources@.len() as int);
}

/// Finds the file `path`.
pub fn find_file(files: &Vec<(String, String)>, path: &str) -> (i: usize)
    ensures
        i == file_index_from(file_views(files@), path@, 0),
        i <= files.len(),
{
    let mut i: usize = 0;
    while i < files.len()
        invariant
            i <= files.len(),
            file_index_from(file_views(files@), path@, 0) == file_index_from(file_views(files@), path@, i as int),
        decreases files.len() - i,
    {
        if same_text(files[i].0.as_str(), path) {
            return i;
        }
        i = i + 1;
    }
    i
}

impl DSC {
    /// The target's type for a value.
    pub fn format_param_type(&self, value: &Value) -> (out: String)
        ensures
            out@ == param_type(*value),
    {
        String::from_str(
            match value {
                Value::Text(_) => "string",
                Value::Number(_) => "long",
                Value::Boolean(_) => "bool",
                Value::EnumExpression(_) => "enum_expression",
                Value::List(_) => "list",
                Value::Struct(_) => "struct",
            },
        )
    }

    /// Appends the declarations of `ps` to `lines`.
    pub fn push_param_lines(&self, ps: &Vec<Parameter>, lines: &mut Vec<String>)
        ensures
            views(final(lines)@) == views(old(lines)@) + param_lines_upto(ps@, ps@.len() as int),
    {
        let mut i: usize = 0;
        assert(views(lines@) =~= views(old(lines)@) + param_lines_upto(ps@, 0));
        while i < ps.len()
            invariant
                i <= ps.len(),
                views(lines@) == views(old(lines)@) + param_lines_upto(ps@, i as int),
            decreases ps.len() - i,
        {
            let mut line = String::from_str("    [parameter(Mandatory=$true)]\n    [");
            line.append(self.format_param_type(&ps[i].value).as_str());
            line.append("]$");
            line.append(pascebab_case(ps[i].name.as_str()).as_str());
            let ghost lv = line@;
            let ghost before = views(lines@);
            lines.push(line);
            assert(views(lines@) =~= before.push(lv));
            assert(views(lines@) =~= views(old(lines)@) + param_lines_upto(ps@, i + 1));
            i = i + 1;
        }
    }

    /// The parameter block of the function written for a state.
    pub fn parameter_block_text(&self, res: &ResourceDef, st: &StateDef) -> (out: String)
        ensures
            out@ == parameter_block(*res, *st),
    {
        let mut lines: Vec<String> = Vec::new();
        assert(views(lines@) =~= Seq::empty());
        self.push_param_lines(&res.parameters, &mut lines);
        self.push_param_lines(&st.parameters, &mut lines);
        assert(views(lines@) =~= param_lines_upto(res.parameters@, res.parameters@.len() as int)
            + param_lines_upto(st.parameters@, st.parameters@.len() as int));
        let mut out = String::from_str("    [parameter(Mandatory=$true)]\n    [string]$techniqueName,\n");
        out.append("    [parameter(Mandatory=$true)]\n    [string]$reportId,\n");
        out.append("    [switch]$auditOnly,\n");
        out.append(join(&lines, ",\n").as_str());
        out
    }

    /// Compiles the statements of a state, in order.
    #[verifier::loop_isolation(false)]
    pub fn format_body(&mut self, gc: &AST, sts: &Vec<Statement>) -> (r: Result<Vec<String>, GenError>)
        ensures
            final(self)@ == body_upto(old(self)@, *gc, sts@, sts@.len() as int).0,
            match r {
                Ok(v) => body_upto(old(self)@, *gc, sts@, sts@.len() as int).1 == Ok::<Seq<Seq<char>>, GenError>(
                    views(v@),
                ),
                Err(e) => body_upto(old(self)@, *gc, sts@, sts@.len() as int).1 == Err::<Seq<Seq<char>>, GenError>(
                    e,
                ),
            },
    {
        let mut out: Vec<String> = Vec::new();
        assert(views(out@) =~= Seq::empty());
        let mut i: usize = 0;
        while i < sts.len()
            invariant
                i <= sts.len(),
                (self@, Ok::<Seq<Seq<char>>, GenError>(views(out@))) == body_upto(old(self)@, *gc, sts@, i as int),
            decreases sts.len() - i,
        {
            match self.format_statement(gc, &sts[i]) {
                Ok(t) => {
                    let ghost tv = t@;
                    let ghost before = views(out@);
                    out.push(t);
                    assert(views(out@) =~= before.push(tv));
                },
                Err(e) => {
                    proof {
                        lemma_body_error_stays(old(self)@, *gc, sts@, i + 1, sts@.len() as int);
                    }
                    return Err(e);
                },
            }
            i = i + 1;
        }
        Ok(out)
    }

    /// Adds the function of one state to the files, where the state has an
    /// output file.
    pub fn generate_declaration(
        &mut self,
        gc: &AST,
        res: &ResourceDef,
        st: &StateDef,
        files: Vec<(String, String)>,
        source_name: &Option<Option<String>>,
        dest: Option<&str>,
        technique_metadata: bool,
    ) -> (r: Result<Vec<(String, String)>, GenError>)
        ensures
            (final(self)@, files_of(r)) == declaration_step(
                old(self)@,
                file_views(files@),
                *gc,
                *res,
                *st,
                name_view(*source_name),
                opt_view(dest),
                technique_metadata,
            ),
    {
        let path = match select_dest_file(source_name, st.file.as_str(), dest) {
            Some(path) => path,
            None => {
                return Ok(files);
            },
        };
        self.reset_context();
        let at = find_file(&files, path.as_str());
        let header = if at < files.len() {
            files[at].1.clone()
        } else if technique_metadata {
            self.generate_ncf_metadata(res.name.as_str(), res)?
        } else {
            String::new()
        };
        let parameters = self.parameter_block_text(res, st);
        let fragments = self.format_body(gc, &st.statements)?;
        let methods = join(&fragments, "\n");
        let mut content = String::from_str("# generated by rudder-lang\n");
        content.append(header.as_str());
        content.append("\nfunction ");
        content.append(pascebab_case(res.name.as_str()).as_str());
        content.append("-");
        content.append(pascebab_case(st.name.as_str()).as_str());
        content.append(" {\n  [CmdletBinding()]\n  param (\n");
        content.append(parameters.as_str());
        content.append(
            "\n  )\n  \n  $local_classes = New-ClassContext\n  $resources_dir = $PSScriptRoot + \"\\resources\"\n\n",
        );
        content.append(methods.as_str());
        content.append("\n}");
        let mut files = files;
        let ghost before = file_views(files@);
        let ghost pv = path@;
        let ghost cv = content@;
        if at < files.len() {
            files.remove(at);
            files.insert(at, (path, content));
            assert(file_views(files@) =~= before.update(at as int, (pv, cv)));
        } else {
            files.push((path, content));
            assert(file_views(files@) =~= before.push((pv, cv)));
        }
        Ok(files)
    }

    /// Adds the functions of a resource's states to the files.
    #[verifier::loop_isolation(false)]
    pub fn generate_resource(
        &mut self,
        gc: &AST,
        res: &ResourceDef,
        files: Vec<(String, String)>,
        source_name: &Option<Option<String>>,
        dest: Option<&str>,
        technique_metadata: bool,
    ) -> (r: Result<Vec<(String, String)>, GenError>)
        ensures
            (final(self)@, files_of(r)) == states_upto(
                old(self)@,
                file_views(files@),
                *gc,
                *res,
                name_view(*source_name),
                opt_view(dest),
                technique_metadata,
                res.states@.len() as int,
            ),
    {
        let ghost sn = name_view(*source_name);
        let ghost dv = opt_view(dest);
        let ghost f0 = file_views(files@);
        let mut files = files;
        let mut j: usize = 0;
        while j < res.states.len()
            invariant
                j <= res.states.len(),
                (self@, Ok::<Seq<(Seq<char>, Seq<char>)>, GenError>(file_views(files@))) == states_upto(
                    old(self)@,
                    f0,
                    *gc,
                    *res,
                    sn,
                    dv,
                    technique_metadata,
                    j as int,
                ),
            decreases res.states.len() - j,
        {
            match self.generate_declaration(gc, res, &res.states[j], files, source_name, dest, technique_metadata) {
                Ok(f) => {
                    files = f;
                },
                Err(e) => {
                    proof {
                        lemma_states_error_stays(
                            old(self)@,
                            f0,
                            *gc,
                            *res,
                            sn,
                            dv,
                            technique_metadata,
                            j + 1,
                            res.states@.len() as int,
                        );
                    }
                    return Err(e);
                },
            }
            j = j + 1;
        }
        Ok(files)
    }

    /// Runs a pass for a source whose file name is known. The files come
    /// back in memory: a failure gives none.
    #[verifier::loop_isolation(false)]
    pub fn generate_for(
        &mut self,
        gc: &AST,
        source_name: &Option<Option<String>>,
        dest_file: Option<&str>,
        technique_metadata: bool,
    ) -> (r: Result<Vec<(String, String)>, GenError>)
        ensures
            (final(self)@, files_of(r)) == generated(
                old(self)@,
                *gc,
                name_view(*source_name),
                opt_view(dest_file),
                technique_metadata,
            ),
    {
        let ghost sn = name_view(*source_name);
        let ghost dv = opt_view(dest_file);
        let mut files: Vec<(String, String)> = Vec::new();
        assert(file_views(files@) =~= Seq::empty());
        let mut i: usize = 0;
        while i < gc.resources.len()
            invariant
                i <= gc.resources.len(),
                (self@, Ok::<Seq<(Seq<char>, Seq<char>)>, GenError>(file_views(files@))) == resources_upto(
                    old(self)@,
                    *gc,
                    sn,
                    dv,
                    technique_metadata,
                    i as int,
                ),
            decreases gc.resources.len() - i,
        {
            match self.generate_resource(gc, &gc.resources[i], files, source_name, dest_file, technique_metadata) {
                Ok(f) => {
                    files = f;
                },
                Err(e) => {
                    proof {
                        lemma_resources_error_stays(
                            old(self)@,
                            *gc,
                            sn,
                            dv,
                            technique_metadata,
                            i + 1,
                            gc.resources@.len() as int,
                        );
                    }
                    return Err(e);
                },
            }
            i = i + 1;
        }
        if files.len() == 0 {
            match dest_file {
                Some(d) => {
                    files.push((String::from_str(d), String::new()));
                    assert(file_views(files@) =~= seq![(d@, Seq::empty())]);
                    Ok(files)
                },
                None => Err(GenError::NoOutput),
            }
        } else {
            Ok(files)
        }
    }

    /// Runs a pass over the technique. With a source path, only the states
    /// declared in the file of that name are compiled, into the destination.
    /// The path's file name is taken from the platform, so the result is that
    /// of `generate_for` for some file name.
    pub fn generate(
        &mut self,
        gc: &AST,
        source_file: Option<&str>,
        dest_file: Option<&str>,
        _generic_methods: &str,
        technique_metadata: bool,
    ) -> (r: Result<Vec<(String, String)>, GenError>)
        ensures
            source_file.is_none() ==> (final(self)@, files_of(r)) == generated(
                old(self)@,
                *gc,
                None,
                opt_view(dest_file),
                technique_metadata,
            ),
            source_file.is_some() ==> exists|name: Option<Seq<char>>|
                (final(self)@, files_of(r)) == #[trigger] generated(
                    old(self)@,
                    *gc,
                    Some(name),
                    opt_view(dest_file),
                    technique_metadata,
                ),
    {
        let source_name = match source_file {
            Some(path) => Some(file_name_of(path)),
            None => None,
        };
        self.generate_for(gc, &source_name, dest_file, technique_metadata)
    }
}

} // verus!
