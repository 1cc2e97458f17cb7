use eri::policy::account_ref;
use eri::policy::get_group;
use eri::policy::get_user;
use eri::policy::map_group;
use eri::policy::map_mode;
use eri::policy::map_user;
use eri::policy::mode_from_digits;
use eri::policy::AccountRef;
use eri::policy::ConfigError;
use eri::policy::ExportConfig;
use eri::policy::ExportRequest;
use eri::policy::Field;
use eri::policy::Identity;
use eri::policy::PolicyError;
use eri::policy::SourceAttributes;
use eri::value::SourceEntry;
use eri::value::SourceNode;

fn entry(key: &str, node: SourceNode) -> SourceEntry {
    SourceEntry { key: Some(key.to_string()), node }
}

fn identity(id: u32, name: &str) -> Identity {
    Identity { id, name: name.to_string() }
}

fn resolved_policy() -> ExportConfig {
    ExportConfig {
        dir: Some("/srv/out".to_string()),
        user: Some(identity(1000, "alice")),
        group: Some(identity(1000, "staff")),
        permissions: Some(0o640),
    }
}

#[test]
fn permission_digits_750() {
    let m = mode_from_digits(750).unwrap();
    assert_eq!(m, 0o750);
    assert_eq!(m, 7 * 64 + 5 * 8);
    assert_eq!((m >> 6) & 7, 7);
    assert_eq!((m >> 3) & 7, 5);
    assert_eq!(m & 7, 0);
}

#[test]
fn permission_digit_above_seven_is_rejected() {
    assert_eq!(mode_from_digits(890), None);
    assert_eq!(mode_from_digits(780), None);
    assert_eq!(mode_from_digits(708), None);
    assert_eq!(mode_from_digits(1750), None);
    assert_eq!(mode_from_digits(-1), None);
}

#[test]
fn permission_digits_edges() {
    assert_eq!(mode_from_digits(0), Some(0));
    assert_eq!(mode_from_digits(777), Some(0o777));
    assert_eq!(mode_from_digits(644), Some(0o644));
    assert_eq!(mode_from_digits(7), Some(0o7));
}

#[test]
fn map_mode_kinds() {
    assert_eq!(map_mode(&SourceNode::Null), Ok(None));
    assert_eq!(map_mode(&SourceNode::Int(600)), Ok(Some(0o600)));
    assert_eq!(map_mode(&SourceNode::Int(890)), Err(ConfigError::InvalidPermissions(890)));
    assert_eq!(
        map_mode(&SourceNode::Str("644".to_string())),
        Err(ConfigError::WrongType(Field::Permissions))
    );
}

#[test]
fn account_ref_kinds() {
    assert_eq!(account_ref(&SourceNode::Null, Field::User), Ok(None));
    assert_eq!(
        account_ref(&SourceNode::Str("www".to_string()), Field::User),
        Ok(Some(AccountRef::Name("www".to_string())))
    );
    assert_eq!(account_ref(&SourceNode::Int(33), Field::Group), Ok(Some(AccountRef::Id(33))));
    assert_eq!(
        account_ref(&SourceNode::Int(-1), Field::Group),
        Err(ConfigError::InvalidId(Field::Group, -1))
    );
    assert_eq!(
        account_ref(&SourceNode::Int(1 << 40), Field::User),
        Err(ConfigError::InvalidId(Field::User, 1 << 40))
    );
    assert_eq!(
        account_ref(&SourceNode::Bool(true), Field::User),
        Err(ConfigError::WrongType(Field::User))
    );
}

#[test]
fn user_lookup_by_id_and_name() {
    let by_id = map_user(&AccountRef::Id(0)).unwrap();
    assert_eq!(by_id.id, 0);
    assert_eq!(by_id.name, "root");
    let by_name = map_user(&AccountRef::Name("root".to_string())).unwrap();
    assert_eq!(by_name.id, 0);
    assert_eq!(by_name.name, "root");
}

#[test]
fn group_lookup_by_id_and_name() {
    let by_id = map_group(&AccountRef::Id(0)).unwrap();
    assert_eq!(by_id.id, 0);
    assert_eq!(by_id.name, "root");
    let by_name = map_group(&AccountRef::Name("root".to_string())).unwrap();
    assert_eq!(by_name.id, 0);
}

#[test]
fn unknown_accounts_are_errors() {
    assert_eq!(
        map_user(&AccountRef::Name("no-such-user-here".to_string())),
        Err(ConfigError::UnknownAccount(Field::User))
    );
    assert_eq!(
        map_group(&AccountRef::Id(3_999_999_999)),
        Err(ConfigError::UnknownAccount(Field::Group))
    );
}

#[test]
fn export_request_from_object() {
    let node = SourceNode::Object(vec![
        entry("dir", SourceNode::Str("/srv/out".to_string())),
        entry("user", SourceNode::Str("root".to_string())),
        entry("group", SourceNode::Int(0)),
        entry("permissions", SourceNode::Int(640)),
    ]);
    let req = ExportRequest::from_source(&node).unwrap();
    assert_eq!(req.dir, Some("/srv/out".to_string()));
    assert_eq!(req.user, Some(AccountRef::Name("root".to_string())));
    assert_eq!(req.group, Some(AccountRef::Id(0)));
    assert_eq!(req.permissions, Some(0o640));
}

#[test]
fn export_request_errors_in_entry_order() {
    let node = SourceNode::Object(vec![
        entry("permissions", SourceNode::Int(999)),
        entry("dir", SourceNode::Int(3)),
    ]);
    assert_eq!(ExportRequest::from_source(&node).unwrap_err(), ConfigError::WrongType(Field::Dir));
    let node = SourceNode::Object(vec![entry("permissions", SourceNode::Int(999))]);
    assert_eq!(
        ExportRequest::from_source(&node).unwrap_err(),
        ConfigError::InvalidPermissions(999)
    );
    assert_eq!(
        ExportRequest::from_source(&SourceNode::Int(1)).unwrap_err(),
        ConfigError::WrongType(Field::Export)
    );
    let empty = ExportRequest::from_source(&SourceNode::Null).unwrap();
    assert_eq!(empty.dir, None);
    assert_eq!(empty.user, None);
}

#[test]
fn resolve_looks_up_accounts() {
    let req = ExportRequest {
        dir: None,
        user: Some(AccountRef::Id(0)),
        group: None,
        permissions: Some(0o600),
    };
    let c = ExportConfig::resolve(req).unwrap();
    assert_eq!(c.user, Some(identity(0, "root")));
    assert_eq!(c.group, None);
    assert_eq!(c.permissions, Some(0o600));
    let req = ExportRequest {
        dir: None,
        user: None,
        group: Some(AccountRef::Name("no-such-group-here".to_string())),
        permissions: None,
    };
    assert_eq!(
        ExportConfig::resolve(req).unwrap_err(),
        ConfigError::UnknownAccount(Field::Group)
    );
}

#[test]
fn fill_defaults_sets_only_the_directory() {
    let mut c = ExportConfig::unset();
    c.fill_defaults("/home/me/project".to_string());
    assert_eq!(c.dir, Some("/home/me/project".to_string()));
    assert_eq!(c.user, None);
    assert_eq!(c.permissions, None);
    let mut d = resolved_policy();
    d.fill_defaults("/elsewhere".to_string());
    assert_eq!(d, resolved_policy());
}

#[test]
fn fill_from_source_fills_unset_parts() {
    let attrs = SourceAttributes { uid: 7, gid: 8, mode: 0o100644 };
    let c = ExportConfig::unset()
        .fill_from_source(attrs, Some(identity(7, "seven")), Some(identity(8, "eight")))
        .unwrap();
    assert_eq!(c.user, Some(identity(7, "seven")));
    assert_eq!(c.group, Some(identity(8, "eight")));
    assert_eq!(c.permissions, Some(0o100644));
    assert_eq!(
        ExportConfig::unset().fill_from_source(attrs, None, Some(identity(8, "eight"))),
        Err(PolicyError::NoUserWithId(7))
    );
    assert_eq!(
        ExportConfig::unset().fill_from_source(attrs, Some(identity(7, "seven")), None),
        Err(PolicyError::NoGroupWithId(8))
    );
}

#[test]
fn resolving_a_populated_policy_twice_changes_nothing() {
    let attrs = SourceAttributes { uid: 0, gid: 0, mode: 0o600 };
    let once = resolved_policy().for_source(attrs).unwrap();
    assert_eq!(once, resolved_policy());
    let twice = once.for_source(SourceAttributes { uid: 0, gid: 0, mode: 0o777 }).unwrap();
    assert_eq!(twice, resolved_policy());
}

#[test]
fn per_template_resolution_uses_the_source_file() {
    let mut global = ExportConfig::unset();
    global.fill_defaults("/out".to_string());
    let a = global.copy().for_source(SourceAttributes { uid: 0, gid: 0, mode: 0o644 }).unwrap();
    assert_eq!(a.user, Some(identity(0, "root")));
    assert_eq!(a.group, Some(identity(0, "root")));
    assert_eq!(a.permissions, Some(0o644));
    let b = global.copy().for_source(SourceAttributes { uid: 0, gid: 0, mode: 0o600 }).unwrap();
    assert_eq!(b.permissions, Some(0o600));
    assert_eq!(
        global.copy().for_source(SourceAttributes { uid: 3_999_999_999, gid: 0, mode: 0o600 }),
        Err(PolicyError::NoUserWithId(3_999_999_999))
    );
    assert_eq!(global.copy(), global);
}

#[test]
fn lookups_by_id() {
    assert_eq!(get_user(0), Ok(identity(0, "root")));
    assert_eq!(get_group(0), Ok(identity(0, "root")));
    assert_eq!(get_user(3_999_999_999), Err(PolicyError::NoUserWithId(3_999_999_999)));
    assert_eq!(get_group(3_999_999_999), Err(PolicyError::NoGroupWithId(3_999_999_999)));
}
