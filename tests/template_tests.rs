use eri::datafile::compare;
use eri::datafile::data_file_text;
use eri::datafile::harvest;
use eri::datafile::insert_sorted;
use eri::datafile::strip_namespace;
use eri::policy::ExportConfig;
use eri::policy::Identity;
use eri::template::chmod_failure;
use eri::template::chown_failure;
use eri::template::directory_mode;
use eri::template::select_parameters;
use eri::template::ChangeError;
use eri::template::Template;
use eri::template::TemplateError;
use eri::template::ERRNO_NOT_PERMITTED;
use eri::template::ERRNO_READ_ONLY;
use eri::text::find_char;
use eri::text::join;
use eri::text::starts_with;
use eri::text::str_eq;

fn s(x: &str) -> String {
    x.to_string()
}

fn template(name: &str, mode: u32) -> Template {
    Template {
        name: s(name),
        path: format!("/work/{}", name),
        export_config: ExportConfig {
            dir: Some(s("/srv/out")),
            user: Some(Identity { id: 1000, name: s("alice") }),
            group: Some(Identity { id: 100, name: s("users") }),
            permissions: Some(mode),
        },
    }
}

#[test]
fn name_parts() {
    let t = template("ns1/t.tmpl", 0o644);
    assert_eq!(t.namespace(), "ns1");
    assert_eq!(t.filename(), "t.tmpl");
    let odd = template("solo", 0o644);
    assert_eq!(odd.namespace(), "solo");
    assert_eq!(odd.filename(), "");
}

#[test]
fn harvest_only_own_namespace() {
    let t = template("ns1/t.tmpl", 0o644);
    let params = t.parameter_list("{{ns1.foo}} and {{ns2.bar}}").unwrap();
    assert_eq!(params, vec![s("ns1.foo")]);
    assert_eq!(harvest(&vec![params]), vec![s("foo")]);
}

#[test]
fn parameter_list_keeps_order_and_skips_text() {
    let t = template("app/x", 0o644);
    let params = t.parameter_list("a {{app.b}} c {{app.a}} {{appx.z}} {{app}}").unwrap();
    assert_eq!(params, vec![s("app.b"), s("app.a")]);
    assert_eq!(t.parameter_list("{{#if}}"), Err(TemplateError::Syntax));
}

#[test]
fn select_parameters_filters_by_prefix() {
    let refs = vec![Some(s("ns.a")), None, Some(s("other.b")), Some(s("ns")), Some(s("ns.c.d"))];
    assert_eq!(select_parameters(&refs, "ns"), vec![s("ns.a"), s("ns.c.d")]);
    assert_eq!(select_parameters(&vec![], "ns"), Vec::<String>::new());
}

#[test]
fn output_plan_forces_directory_exec_bits() {
    let t = template("app/out.tmpl", 0o600);
    let plan = t.output_plan();
    assert_eq!(plan.dir, "/srv/out");
    assert_eq!(plan.file, "/srv/out/out.tmpl");
    assert_eq!(plan.uid, 1000);
    assert_eq!(plan.gid, 100);
    assert_eq!(plan.file_mode, 0o600);
    assert_eq!(plan.dir_mode, 0o711);
}

#[test]
fn directory_mode_sets_execute_bits_only() {
    assert_eq!(directory_mode(0o600), 0o711);
    assert_eq!(directory_mode(0o644), 0o755);
    assert_eq!(directory_mode(0o755), 0o755);
    assert_eq!(directory_mode(0), 0o111);
    assert_eq!(directory_mode(0o104600), 0o104711);
}

#[test]
fn chown_failures() {
    assert_eq!(chown_failure(libc::EPERM), Ok(ChangeError::PermissionDenied));
    assert_eq!(chown_failure(libc::EROFS), Ok(ChangeError::ReadOnlyFileSystem));
    assert_eq!(chown_failure(libc::ENOENT), Err(libc::ENOENT));
    assert_eq!(chown_failure(libc::EIO), Err(libc::EIO));
}

#[test]
fn chmod_failures() {
    assert_eq!(chmod_failure(libc::ENOENT), Err(libc::ENOENT));
    assert_eq!(chmod_failure(libc::EPERM), Ok(ChangeError::PermissionDenied));
    assert_eq!(chmod_failure(libc::EROFS), Ok(ChangeError::ReadOnlyFileSystem));
    assert_eq!(chmod_failure(libc::EINVAL), Err(libc::EINVAL));
}

#[test]
fn error_numbers_match_the_system() {
    assert_eq!(ERRNO_NOT_PERMITTED, libc::EPERM);
    assert_eq!(ERRNO_READ_ONLY, libc::EROFS);
}

#[test]
fn strip_namespace_segment() {
    assert_eq!(strip_namespace("app.name"), "name");
    assert_eq!(strip_namespace("app.a.b"), "a.b");
    assert_eq!(strip_namespace("app"), "");
    assert_eq!(strip_namespace("app."), "");
}

#[test]
fn compare_orders_by_character() {
    assert_eq!(compare("a", "b"), -1);
    assert_eq!(compare("b", "a"), 1);
    assert_eq!(compare("ab", "ab"), 0);
    assert_eq!(compare("ab", "abc"), -1);
    assert_eq!(compare("", "a"), -1);
    assert_eq!(compare("Z", "a"), -1);
    assert_eq!(compare("é", "z"), 1);
}

#[test]
fn insert_sorted_keeps_order_without_repeats() {
    let mut v: Vec<String> = Vec::new();
    for x in ["name", "count", "name", "a.b", "count"] {
        insert_sorted(&mut v, s(x));
    }
    assert_eq!(v, vec![s("a.b"), s("count"), s("name")]);
}

#[test]
fn harvest_across_lists() {
    let lists = vec![vec![s("ns.b"), s("ns.a")], vec![], vec![s("ns.b"), s("ns.c.d")]];
    assert_eq!(harvest(&lists), vec![s("a"), s("b"), s("c.d")]);
    assert_eq!(harvest(&vec![]), Vec::<String>::new());
}

#[test]
fn data_file_text_format() {
    assert_eq!(
        data_file_text("0.0.0", "now", &vec![s("count"), s("name")]),
        "# Data file generated by eri 0.0.0 at now\n\ncount =\nname =\n"
    );
    assert_eq!(data_file_text("v", "t", &vec![]), "# Data file generated by eri v at t\n\n");
}

#[test]
fn text_helpers() {
    assert!(str_eq("abc", "abc"));
    assert!(!str_eq("abc", "abd"));
    assert!(!str_eq("abc", "ab"));
    assert!(starts_with("ns.x", "ns."));
    assert!(!starts_with("ns", "ns."));
    assert_eq!(find_char("a/b/c", '/'), Some(1));
    assert_eq!(find_char("abc", '/'), None);
    assert_eq!(join("a", "b"), "ab");
}
