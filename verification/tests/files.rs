use rudder_dsc::ast::{Fragment, GenError, Number, Parameter, ResourceDef, StateDef, Statement, Value, AST};
use rudder_dsc::context::DSC;
use rudder_dsc::generate::{get_dest_file, select_dest_file};

fn text(s: &str) -> Value {
    Value::Text(vec![Fragment::Static(s.to_string())])
}

fn num(n: i64) -> Value {
    if n >= 0 {
        Value::Number(Number::from_whole(n as u64))
    } else {
        Value::Number(Number { text: n.to_string(), whole: None })
    }
}

fn state(name: &str, file: &str, statements: Vec<Statement>) -> StateDef {
    StateDef {
        name: name.to_string(),
        file: file.to_string(),
        parameters: Vec::new(),
        metadata: Vec::new(),
        statements,
    }
}

fn resource(name: &str, states: Vec<StateDef>) -> ResourceDef {
    ResourceDef { name: name.to_string(), parameters: Vec::new(), metadata: Vec::new(), states }
}

fn tree(resources: Vec<ResourceDef>) -> AST {
    AST { resources, global_enums: Vec::new() }
}

const BLOCK: &str = "    [parameter(Mandatory=$true)]\n    [string]$techniqueName,\n    [parameter(Mandatory=$true)]\n    [string]$reportId,\n    [switch]$auditOnly,\n";

const PRELUDE: &str = "\n  )\n  \n  $local_classes = New-ClassContext\n  $resources_dir = $PSScriptRoot + \"\\resources\"\n\n";

const LOG_HI: &str = "      \"method_call\" usebundle => ncf_log(\"hi\");\n";

fn function(header: &str, name: &str, block: &str, body: &str) -> String {
    format!(
        "# generated by rudder-lang\n{}\nfunction {} {{\n  [CmdletBinding()]\n  param (\n{}{}{}\n}}",
        header, name, block, PRELUDE, body
    )
}

#[test]
fn dest_file() {
    assert_eq!(get_dest_file(Some("/path/my_file.rl"), "my_file.rl", Some("")), Some("".to_owned()));
    assert_eq!(
        get_dest_file(Some("/path/my_file.rl"), "my_file.rl", Some("/output/file.rl.dsc")),
        Some("/output/file.rl.dsc".to_owned())
    );
    assert_eq!(get_dest_file(Some("/path/my_file.rl"), "wrong_file.rl", Some("/output/file.rl.dsc")), None);
}

#[test]
fn dest_file_without_source_is_the_token_file() {
    assert_eq!(get_dest_file(None, "my_file.rl", None), Some("my_file.rl".to_owned()));
    assert_eq!(get_dest_file(None, "my_file.rl", Some("/out")), Some("my_file.rl".to_owned()));
}

#[test]
fn dest_file_from_a_known_file_name() {
    let name = Some(Some("my_file.rl".to_string()));
    assert_eq!(select_dest_file(&name, "my_file.rl", Some("")), Some(String::new()));
    assert_eq!(select_dest_file(&name, "wrong_file.rl", Some("")), None);
    assert_eq!(select_dest_file(&Some(None), "my_file.rl", Some("out")), None);
    assert_eq!(select_dest_file(&None, "my_file.rl", None), Some("my_file.rl".to_string()));
}

#[test]
fn dest_file_of_a_path_without_file_name() {
    assert_eq!(get_dest_file(Some("/path/.."), "..", Some("out")), None);
}

#[test]
fn single_log_statement_end_to_end() {
    let mut dsc = DSC::new();
    let gc = tree(vec![resource("my_res", vec![state("my_state", "t.rl", vec![Statement::Log(text("hi"))])])]);
    let files = dsc.generate(&gc, None, None, "", false).unwrap();
    assert_eq!(files.len(), 1);
    assert_eq!(files[0].0, "t.rl");
    assert_eq!(files[0].1, function("", "My-Res-My-State", BLOCK, LOG_HI));
    assert_eq!(files[0].1.matches("usebundle").count(), 1);
    assert!(files[0].1.starts_with("# generated by rudder-lang\n\nfunction "));
}

#[test]
fn statements_are_joined_by_newlines() {
    let mut dsc = DSC::new();
    let body = vec![Statement::Log(text("hi")), Statement::Noop, Statement::Log(text("hi"))];
    let gc = tree(vec![resource("r", vec![state("s", "t.rl", body)])]);
    let files = dsc.generate(&gc, None, None, "", false).unwrap();
    assert_eq!(files[0].1, function("", "R-S", BLOCK, &format!("{}\n\n{}", LOG_HI, LOG_HI)));
}

#[test]
fn parameters_are_typed_and_renamed() {
    let mut dsc = DSC::new();
    let mut res = resource("r", vec![state("s", "t.rl", Vec::new())]);
    res.parameters = vec![Parameter { name: "file_path".to_string(), value: text("") }];
    res.states[0].parameters = vec![
        Parameter { name: "mode".to_string(), value: num(0) },
        Parameter { name: "force it".to_string(), value: Value::Boolean(true) },
    ];
    let gc = tree(vec![res]);
    let files = dsc.generate(&gc, None, None, "", false).unwrap();
    let block = format!(
        "{}    [parameter(Mandatory=$true)]\n    [string]$File-Path,\n    [parameter(Mandatory=$true)]\n    [long]$Mode,\n    [parameter(Mandatory=$true)]\n    [bool]$Force-It",
        BLOCK
    );
    assert_eq!(files[0].1, function("", "R-S", &block, ""));
}

#[test]
fn states_of_one_file_accumulate() {
    let mut dsc = DSC::new();
    let gc = tree(vec![
        resource("a", vec![state("one", "t.rl", Vec::new()), state("two", "u.rl", Vec::new())]),
        resource("b", vec![state("three", "t.rl", Vec::new())]),
    ]);
    let files = dsc.generate(&gc, None, None, "", false).unwrap();
    assert_eq!(files.len(), 2);
    assert_eq!(files[0].0, "t.rl");
    assert_eq!(files[1].0, "u.rl");
    let first = function("", "A-One", BLOCK, "");
    assert_eq!(files[0].1, function(&first, "B-Three", BLOCK, ""));
    assert_eq!(files[1].1, function("", "A-Two", BLOCK, ""));
}

#[test]
fn only_the_configured_source_is_compiled() {
    let mut dsc = DSC::new();
    let gc = tree(vec![resource(
        "a",
        vec![state("one", "my_file.rl", Vec::new()), state("two", "other.rl", Vec::new())],
    )]);
    let files = dsc.generate(&gc, Some("/path/my_file.rl"), Some("/out/f.dsc"), "", false).unwrap();
    assert_eq!(files, vec![("/out/f.dsc".to_string(), function("", "A-One", BLOCK, ""))]);
}

#[test]
fn one_failure_gives_no_file() {
    let mut dsc = DSC::new();
    let gc = tree(vec![resource(
        "a",
        vec![
            state("one", "t.rl", vec![Statement::Log(text("hi"))]),
            state("two", "t.rl", vec![Statement::Log(text("hi"))]),
            state("three", "t.rl", vec![Statement::Log(num(1))]),
            state("four", "t.rl", Vec::new()),
        ],
    )]);
    assert_eq!(dsc.generate(&gc, None, None, "", false), Err(GenError::Unsupported));
}

#[test]
fn nothing_to_write_gives_the_destination_or_fails() {
    let mut dsc = DSC::new();
    let gc = tree(vec![resource("a", vec![state("one", "other.rl", Vec::new())])]);
    assert_eq!(
        dsc.generate(&gc, Some("/path/my_file.rl"), Some("/out/f.dsc"), "", true),
        Ok(vec![("/out/f.dsc".to_string(), String::new())])
    );
    let empty = tree(Vec::new());
    assert_eq!(dsc.generate(&empty, None, None, "", false), Err(GenError::NoOutput));
    assert_eq!(
        dsc.generate(&empty, None, Some("/out/f.dsc"), "", false),
        Ok(vec![("/out/f.dsc".to_string(), String::new())])
    );
}

#[test]
fn metadata_heads_a_new_file() {
    let mut dsc = DSC::new();
    let mut res = resource("r", vec![state("s", "t.rl", Vec::new())]);
    res.metadata = vec![
        ("description".to_string(), text("what it does")),
        ("extra".to_string(), num(3)),
        ("name".to_string(), text("My \"technique\"")),
        (
            "parameters".to_string(),
            Value::List(vec![
                Value::Struct(vec![
                    ("name".to_string(), text("p")),
                    ("id".to_string(), num(7)),
                ]),
                num(0),
            ]),
        ),
        ("version".to_string(), text("1.0")),
    ];
    let header = "# @name \"My \\\"technique\\\"\"\n# @version \"1.0\"\n# @description \"what it does\"\n# @parameter { \"name\": \"p\", \"id\": 7,  }\n# @parameter { , ,  }\n# @extra 3\n";
    assert_eq!(dsc.generate_ncf_metadata("r", &res), Ok(header.to_string()));
    let gc = tree(vec![res]);
    let files = dsc.generate(&gc, None, None, "", true).unwrap();
    assert_eq!(files[0].1, function(header, "R-S", BLOCK, ""));
}

#[test]
fn metadata_without_rendering_fails() {
    let mut dsc = DSC::new();
    let mut res = resource("r", vec![state("s", "t.rl", Vec::new())]);
    res.metadata = vec![(
        "extra".to_string(),
        Value::EnumExpression(rudder_dsc::ast::EnumExpression::Default),
    )];
    assert_eq!(dsc.generate_ncf_metadata("r", &res), Err(GenError::Unsupported));
    let gc = tree(vec![res]);
    assert_eq!(dsc.generate(&gc, None, None, "", true), Err(GenError::Unsupported));
    assert!(dsc.generate(&gc, None, None, "", false).is_ok());
}

#[test]
fn parameters_entry_that_is_no_list_gives_no_line() {
    let dsc = DSC::new();
    assert_eq!(dsc.generate_parameters_metadatas(Some(&num(1))), "");
    assert_eq!(dsc.generate_parameters_metadatas(None), "");
    let mut res = resource("r", Vec::new());
    res.metadata =
        vec![("parameters".to_string(), Value::EnumExpression(rudder_dsc::ast::EnumExpression::Default))];
    assert_eq!(dsc.generate_ncf_metadata("r", &res), Ok(String::new()));
}

#[test]
fn dest_file_without_destination_falls_back_to_the_token_file() {
    assert_eq!(get_dest_file(Some("/path/my_file.rl"), "my_file.rl", None), Some("my_file.rl".to_owned()));
    assert_eq!(get_dest_file(Some("/path/my_file.rl"), "wrong_file.rl", None), None);
    let name = Some(Some("my_file.rl".to_string()));
    assert_eq!(select_dest_file(&name, "my_file.rl", None), Some("my_file.rl".to_string()));
}
