use eri::namespace::merge_override;
use eri::namespace::DataFile;
use eri::namespace::DirEntry;
use eri::namespace::Namespace;
use eri::namespace::NamespaceError;
use eri::namespace::CONFIG_FILE_NAME;
use eri::policy::ExportConfig;
use eri::policy::Identity;
use eri::policy::PolicyError;
use eri::policy::SourceAttributes;
use eri::template::TemplateError;
use eri::value::ConvertError;
use eri::value::SourceEntry;
use eri::value::SourceNode;
use eri::value::Value;

fn s(x: &str) -> String {
    x.to_string()
}

fn entry(key: &str, node: SourceNode) -> SourceEntry {
    SourceEntry { key: Some(s(key)), node }
}

fn obj(entries: Vec<(&str, Value)>) -> Value {
    Value::Object(entries.into_iter().map(|(k, v)| (s(k), v)).collect())
}

fn policy() -> ExportConfig {
    ExportConfig {
        dir: Some(s("/out")),
        user: Some(Identity { id: 0, name: s("root") }),
        group: Some(Identity { id: 0, name: s("root") }),
        permissions: Some(0o600),
    }
}

fn file(name: &str) -> DirEntry {
    DirEntry { file_name: Some(s(name)), is_dir: false, attrs: SourceAttributes { uid: 0, gid: 0, mode: 0o644 } }
}

fn namespace(name: &str) -> Namespace {
    Namespace { name: s(name), base_path: format!("/work/{}", name), export_config: policy() }
}

#[test]
fn override_merge_is_shallow() {
    let mut data = vec![(
        s("ns"),
        obj(vec![("a", obj(vec![("x", Value::Integer(1)), ("y", Value::Integer(2))]))]),
    )];
    let over = vec![(s("a"), obj(vec![("z", Value::Integer(3))]))];
    merge_override(&mut data, "ns", over).unwrap();
    assert_eq!(data, vec![(s("ns"), obj(vec![("a", obj(vec![("z", Value::Integer(3))]))]))]);
}

#[test]
fn override_keeps_other_keys_and_namespaces() {
    let mut data = vec![
        (s("ns"), obj(vec![("keep", Value::Bool(true)), ("a", Value::Integer(1))])),
        (s("other"), obj(vec![("a", Value::Integer(9))])),
    ];
    let over = vec![(s("a"), Value::Integer(2)), (s("new"), Value::Null)];
    merge_override(&mut data, "ns", over).unwrap();
    assert_eq!(
        data,
        vec![
            (
                s("ns"),
                obj(vec![("keep", Value::Bool(true)), ("a", Value::Integer(2)), ("new", Value::Null)]),
            ),
            (s("other"), obj(vec![("a", Value::Integer(9))])),
        ]
    );
}

#[test]
fn override_of_absent_namespace_creates_it() {
    let mut data = vec![(s("other"), obj(vec![]))];
    merge_override(&mut data, "ns", vec![(s("k"), Value::Integer(1))]).unwrap();
    assert_eq!(
        data,
        vec![(s("other"), obj(vec![])), (s("ns"), obj(vec![("k", Value::Integer(1))]))]
    );
}

#[test]
fn empty_override_changes_nothing() {
    let mut data = vec![(s("ns"), Value::Integer(5))];
    merge_override(&mut data, "ns", vec![]).unwrap();
    assert_eq!(data, vec![(s("ns"), Value::Integer(5))]);
}

#[test]
fn override_into_non_object_is_a_type_mismatch() {
    let mut data = vec![(s("ns"), Value::Integer(5))];
    let r = merge_override(&mut data, "ns", vec![(s("k"), Value::Integer(1))]);
    assert_eq!(r, Err(NamespaceError::OverrideTypeMismatch));
    assert_eq!(data, vec![(s("ns"), Value::Integer(5))]);
}

#[test]
fn namespace_without_directory_fails() {
    let mut data = vec![(s("app"), obj(vec![]))];
    let r = Namespace::new("app", policy(), &mut data, "/work", false, &DataFile::Absent);
    assert_eq!(r, Err(NamespaceError::MissingDirectory));
}

#[test]
fn namespace_with_data_file_merges_it() {
    let mut data = vec![(s("app"), obj(vec![("name", Value::Str(s("x")))]))];
    let file = DataFile::Parsed(SourceNode::Object(vec![entry("port", SourceNode::Int(80))]));
    let ns = Namespace::new("app", policy(), &mut data, "/work", true, &file).unwrap();
    assert_eq!(ns.name, "app");
    assert_eq!(ns.base_path, "/work/app");
    assert_eq!(ns.export_config, policy());
    assert_eq!(
        data,
        vec![(s("app"), obj(vec![("name", Value::Str(s("x"))), ("port", Value::Integer(80))]))]
    );
}

#[test]
fn namespace_data_file_errors() {
    let mut data = vec![(s("app"), obj(vec![]))];
    assert_eq!(
        Namespace::new("app", policy(), &mut data, "/work", true, &DataFile::Unreadable),
        Err(NamespaceError::DataFileUnreadable)
    );
    let bad = DataFile::Parsed(SourceNode::Object(vec![entry("f", SourceNode::Float(f64::NAN.to_bits()))]));
    assert_eq!(
        Namespace::new("app", policy(), &mut data, "/work", true, &bad),
        Err(NamespaceError::Convert(ConvertError::NotFinite))
    );
    let not_object = DataFile::Parsed(SourceNode::Int(1));
    assert_eq!(
        Namespace::new("app", policy(), &mut data, "/work", true, &not_object),
        Err(NamespaceError::DataFileNotObject)
    );
    let mut scalar = vec![(s("app"), Value::Integer(1))];
    let file = DataFile::Parsed(SourceNode::Object(vec![entry("k", SourceNode::Int(1))]));
    assert_eq!(
        Namespace::new("app", policy(), &mut scalar, "/work", true, &file),
        Err(NamespaceError::OverrideTypeMismatch)
    );
    assert_eq!(data, vec![(s("app"), obj(vec![]))]);
}

#[test]
fn empty_data_file_is_no_override() {
    let mut data = vec![(s("app"), obj(vec![("a", Value::Integer(1))]))];
    let file = DataFile::Parsed(SourceNode::Object(vec![]));
    assert!(Namespace::new("app", policy(), &mut data, "/work", true, &file).is_ok());
    assert_eq!(data, vec![(s("app"), obj(vec![("a", Value::Integer(1))]))]);
}

#[test]
fn templates_skip_the_data_file() {
    let ns = namespace("app");
    let entries = vec![file("out.tmpl"), file(CONFIG_FILE_NAME), file("b.conf")];
    let ts = ns.templates(&entries).unwrap();
    assert_eq!(ts.len(), 2);
    assert_eq!(ts[0].name, "app/out.tmpl");
    assert_eq!(ts[0].path, "/work/app/out.tmpl");
    assert_eq!(ts[1].name, "app/b.conf");
    assert_eq!(ts[0].export_config, policy());
    assert_eq!(CONFIG_FILE_NAME, "eri.conf");
}

#[test]
fn templates_take_owner_from_their_file() {
    let mut ns = namespace("app");
    ns.export_config = ExportConfig { dir: Some(s("/out")), user: None, group: None, permissions: None };
    let ts = ns.templates(&vec![file("a")]).unwrap();
    assert_eq!(ts[0].export_config.user, Some(Identity { id: 0, name: s("root") }));
    assert_eq!(ts[0].export_config.permissions, Some(0o644));
    let missing = DirEntry {
        file_name: Some(s("b")),
        is_dir: false,
        attrs: SourceAttributes { uid: 3_999_999_999, gid: 0, mode: 0o644 },
    };
    assert_eq!(
        ns.templates(&vec![missing]).unwrap_err(),
        NamespaceError::Policy(PolicyError::NoUserWithId(3_999_999_999))
    );
}

#[test]
fn template_listing_errors() {
    let ns = namespace("app");
    let undecodable = DirEntry { file_name: None, is_dir: false, attrs: SourceAttributes { uid: 0, gid: 0, mode: 0 } };
    assert_eq!(
        ns.templates(&vec![file("a"), undecodable]).unwrap_err(),
        NamespaceError::UndecodableFileName
    );
    let dir = DirEntry { file_name: Some(s("sub")), is_dir: true, attrs: SourceAttributes { uid: 0, gid: 0, mode: 0 } };
    assert_eq!(ns.templates(&vec![dir]).unwrap_err(), NamespaceError::NotAFile);
    assert_eq!(ns.templates(&vec![]).unwrap().len(), 0);
}

#[test]
fn gendata_lists_sorted_parameters() {
    let ns = namespace("app");
    let ts = ns.templates(&vec![file("out.tmpl")]).unwrap();
    let sources = vec![s("name={{app.name}}\ncount={{app.count}}\n")];
    let text = ns.gen_data_file(&ts, &sources, "0.0.0", "2020-01-01").unwrap().unwrap();
    assert_eq!(text, "# Data file generated by eri 0.0.0 at 2020-01-01\n\ncount =\nname =\n");
    let lines: Vec<&str> = text.lines().collect();
    assert_eq!(lines, vec!["# Data file generated by eri 0.0.0 at 2020-01-01", "", "count =", "name ="]);
}

#[test]
fn gendata_merges_templates_without_repeats() {
    let ns = namespace("app");
    let ts = ns.templates(&vec![file("a"), file("b")]).unwrap();
    let sources = vec![s("{{app.z}}{{other.q}}{{app.a.b}}"), s("{{app.z}} {{app.m}}")];
    let text = ns.gen_data_file(&ts, &sources, "1", "t").unwrap().unwrap();
    assert_eq!(text, "# Data file generated by eri 1 at t\n\na.b =\nm =\nz =\n");
}

#[test]
fn gendata_without_parameters_writes_nothing() {
    let ns = namespace("app");
    let ts = ns.templates(&vec![file("a")]).unwrap();
    assert_eq!(ns.gen_data_file(&ts, &vec![s("plain text {{other.x}}")], "1", "t"), Ok(None));
    assert_eq!(ns.gen_data_file(&vec![], &vec![], "1", "t"), Ok(None));
}

#[test]
fn gendata_with_bad_syntax_fails() {
    let ns = namespace("app");
    let ts = ns.templates(&vec![file("a")]).unwrap();
    assert_eq!(
        ns.gen_data_file(&ts, &vec![s("{{#if}}unclosed")], "1", "t"),
        Err(TemplateError::Syntax)
    );
}

#[test]
fn first_bad_entry_decides_the_error() {
    let ns = namespace("app");
    let dir = DirEntry { file_name: Some(s("sub")), is_dir: true, attrs: SourceAttributes { uid: 0, gid: 0, mode: 0 } };
    let undecodable = DirEntry { file_name: None, is_dir: false, attrs: SourceAttributes { uid: 0, gid: 0, mode: 0 } };
    assert_eq!(ns.templates(&vec![file("a"), dir, undecodable]).unwrap_err(), NamespaceError::NotAFile);
    let dir = DirEntry { file_name: Some(s("sub")), is_dir: true, attrs: SourceAttributes { uid: 0, gid: 0, mode: 0 } };
    let undecodable = DirEntry { file_name: None, is_dir: false, attrs: SourceAttributes { uid: 0, gid: 0, mode: 0 } };
    assert_eq!(ns.templates(&vec![undecodable, dir]).unwrap_err(), NamespaceError::UndecodableFileName);
    let data_dir = DirEntry { file_name: Some(s(CONFIG_FILE_NAME)), is_dir: true, attrs: SourceAttributes { uid: 0, gid: 0, mode: 0 } };
    assert_eq!(ns.templates(&vec![data_dir, file("a")]).unwrap().len(), 1);
}
