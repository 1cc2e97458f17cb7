//! The export policy: where rendered files go, who owns them and with which
//! permission bits; how the configuration states it and how unset parts are
//! filled in.
use vstd::prelude::*;

use crate::value::SourceEntry;
use crate::value::SourceNode;

verus! {

/// A user or a group of the system: its numeric id and its name.
#[derive(Debug, Clone, PartialEq)]
pub struct Identity {
    pub id: u32,
    pub name: String,
}

/// How the configuration names a user or a group.
#[derive(Debug, Clone, PartialEq)]
pub enum AccountRef {
    Name(String),
    Id(u32),
}

/// The model of an `AccountRef`.
pub enum AccountModel {
    Name(Seq<char>),
    Id(u32),
}

impl AccountRef {
    pub open spec fn view(self) -> AccountModel {
        match self {
            AccountRef::Name(s) => AccountModel::Name(s@),
            AccountRef::Id(u) => AccountModel::Id(u),
        }
    }
}

/// The model of an optional `AccountRef`.
pub open spec fn account_view(a: Option<AccountRef>) -> Option<AccountModel> {
    match a {
        Some(r) => Some(r@),
        None => None,
    }
}

/// The model of an optional string.
pub open spec fn text_view(s: Option<String>) -> Option<Seq<char>> {
    match s {
        Some(t) => Some(t@),
        None => None,
    }
}

/// The configuration entries that the export policy reads.
#[derive(PartialEq, Eq, Structural, Clone, Copy, Debug)]
pub enum Field {
    Root,
    Export,
    Dir,
    User,
    Group,
    Permissions,
    Namespace,
}

/// Why the configuration could not be turned into a policy.
#[derive(PartialEq, Eq, Structural, Clone, Copy, Debug)]
pub enum ConfigError {
    /// The entry holds a value of a kind it cannot have.
    WrongType(Field),
    /// A required entry is absent.
    MissingField(Field),
    /// The permission number is negative or has a digit above 7.
    InvalidPermissions(i64),
    /// The integer cannot be a user or group id.
    InvalidId(Field, i64),
    /// No account of the system matches the user or group entry.
    UnknownAccount(Field),
    /// A value of the namespace data could not be converted.
    Convert(crate::value::ConvertError),
}

/// Why a policy could not be completed from a template's source file.
#[derive(PartialEq, Eq, Structural, Clone, Copy, Debug)]
pub enum PolicyError {
    /// No user has the id that owns the source file.
    NoUserWithId(u32),
    /// No group has the id that owns the source file.
    NoGroupWithId(u32),
}

/// The export policy. `permissions` holds POSIX mode bits.
#[derive(Debug, Clone, PartialEq)]
pub struct ExportConfig {
    pub dir: Option<String>,
    pub user: Option<Identity>,
    pub group: Option<Identity>,
    pub permissions: Option<u32>,
}

/// The export policy as the configuration states it, before any account is
/// looked up.
#[derive(Debug, Clone, PartialEq)]
pub struct ExportRequest {
    pub dir: Option<String>,
    pub user: Option<AccountRef>,
    pub group: Option<AccountRef>,
    pub permissions: Option<u32>,
}

/// The owner, group and mode bits of a template's source file.
#[derive(PartialEq, Eq, Structural, Clone, Copy, Debug)]
pub struct SourceAttributes {
    pub uid: u32,
    pub gid: u32,
    pub mode: u32,
}

/// The mode bits for a permission number whose decimal digits give the
/// owner's, the group's and the others' permissions (hundreds, tens, units):
/// each digit d weighs 8 to the power of its position. None where the number
/// is negative or a digit is above 7.
pub open spec fn permission_bits(n: int) -> Option<u32> {
    if 0 <= n && n / 100 <= 7 && n / 10 % 10 <= 7 && n % 10 <= 7 {
        Some((n / 100 * 64 + n / 10 % 10 * 8 + n % 10) as u32)
    } else {
        None
    }
}

/// Reads a permission number, one decimal digit per class of users.
pub fn mode_from_digits(n: i64) -> (r: Option<u32>)
    ensures
        r == permission_bits(n as int),
{
    if n < 0 || n >= 800 {
        return None;
    }
    let owner: i64 = n / 100;
    let group: i64 = n / 10 % 10;
    let other: i64 = n % 10;
    if owner > 7 || group > 7 || other > 7 {
        None
    } else {
        Some((owner * 64 + group * 8 + other) as u32)
    }
}

/// What the `permissions` entry of the configuration gives.
pub open spec fn mode_entry(n: SourceNode) -> Result<Option<u32>, ConfigError> {
    match n {
        SourceNode::Null => Ok(None),
        SourceNode::Int(i) => match permission_bits(i as int) {
            Some(m) => Ok(Some(m)),
            None => Err(ConfigError::InvalidPermissions(i)),
        },
        _ => Err(ConfigError::WrongType(Field::Permissions)),
    }
}

/// Maps the `permissions` entry: null leaves the mode unset, an integer is
/// read digit by digit, anything else is refused.
pub fn map_mode(n: &SourceNode) -> (r: Result<Option<u32>, ConfigError>)
    ensures
        r == mode_entry(*n),
{
    match n {
        SourceNode::Null => Ok(None),
        SourceNode::Int(i) => match mode_from_digits(*i) {
            Some(m) => Ok(Some(m)),
            None => Err(ConfigError::InvalidPermissions(*i)),
        },
        _ => Err(ConfigError::WrongType(Field::Permissions)),
    }
}

/// What a `user` or `group` entry names: nothing for null, a name for a
/// string, an id for an integer that fits one.
pub open spec fn account_entry(n: SourceNode, field: Field) -> Result<Option<AccountModel>, ConfigError> {
    match n {
        SourceNode::Null => Ok(None),
        SourceNode::Str(s) => Ok(Some(AccountModel::Name(s@))),
        SourceNode::Int(i) => if 0 <= i <= u32::MAX {
            Ok(Some(AccountModel::Id(i as u32)))
        } else {
            Err(ConfigError::InvalidId(field, i))
        },
        _ => Err(ConfigError::WrongType(field)),
    }
}

/// Reads a `user` or `group` entry.
pub fn account_ref(n: &SourceNode, field: Field) -> (r: Result<Option<AccountRef>, ConfigError>)
    ensures
        r matches Ok(a) ==> account_entry(*n, field) == Ok::<Option<AccountModel>, ConfigError>(account_view(a)),
        r matches Err(e) ==> account_entry(*n, field) == Err::<Option<AccountModel>, ConfigError>(e),
{
    match n {
        SourceNode::Null => Ok(None),
        SourceNode::Str(s) => Ok(Some(AccountRef::Name(s.clone()))),
        SourceNode::Int(i) => if 0 <= *i && *i <= u32::MAX as i64 {
            Ok(Some(AccountRef::Id(*i as u32)))
        } else {
            Err(ConfigError::InvalidId(field, *i))
        },
        _ => Err(ConfigError::WrongType(field)),
    }
}

/// The account that a lookup found fits what was asked: the same id, or the
/// same name.
pub open spec fn account_fits(req: AccountModel, found: Identity) -> bool {
    match req {
        AccountModel::Name(s) => found.name@ == s,
        AccountModel::Id(u) => found.id == u,
    }
}

/// Relies on users::get_user_by_uid: the entry of the user database for
/// this id, if there is one.
#[verifier::external_body]
fn user_by_uid(uid: u32) -> (r: Option<Identity>)
    ensures
        r matches Some(u) ==> u.id == uid,
{
    users::get_user_by_uid(uid).map(|u| Identity { id: u.uid(), name: u.name().to_string_lossy().into_owned() })
}

/// Relies on users::get_user_by_name: the entry of the user database with
/// this name, if there is one.
#[verifier::external_body]
fn user_by_name(name: &str) -> (r: Option<Identity>)
    ensures
        r matches Some(u) ==> u.name@ == name@,
{
    users::get_user_by_name(name).map(|u| Identity { id: u.uid(), name: u.name().to_string_lossy().into_owned() })
}

/// Relies on users::get_group_by_gid: the entry of the group database for
/// this id, if there is one.
#[verifier::external_body]
fn group_by_gid(gid: u32) -> (r: Option<Identity>)
    ensures
        r matches Some(g) ==> g.id == gid,
{
    users::get_group_by_gid(gid).map(|g| Identity { id: g.gid(), name: g.name().to_string_lossy().into_owned() })
}

/// Relies on users::get_group_by_name: the entry of the group database with
/// this name, if there is one.
#[verifier::external_body]
fn group_by_name(name: &str) -> (r: Option<Identity>)
    ensures
        r matches Some(g) ==> g.name@ == name@,
{
    users::get_group_by_name(name).map(|g| Identity { id: g.gid(), name: g.name().to_string_lossy().into_owned() })
}

/// The user with id `uid`, as the user database holds it.
pub fn get_user(uid: u32) -> (r: Result<Identity, PolicyError>)
    ensures
        r matches Ok(u) ==> u.id == uid,
        r matches Err(e) ==> e == PolicyError::NoUserWithId(uid),
{
    match user_by_uid(uid) {
        Some(u) => Ok(u),
        None => Err(PolicyError::NoUserWithId(uid)),
    }
}

/// The group with id `gid`, as the group database holds it.
pub fn get_group(gid: u32) -> (r: Result<Identity, PolicyError>)
    ensures
        r matches Ok(g) ==> g.id == gid,
        r matches Err(e) ==> e == PolicyError::NoGroupWithId(gid),
{
    match group_by_gid(gid) {
        Some(g) => Ok(g),
        None => Err(PolicyError::NoGroupWithId(gid)),
    }
}

/// Looks up the user that the configuration names. What the user database
/// holds is outside this library: the result is the matching account, or
/// `UnknownAccount` when the database has none.
pub fn map_user(req: &AccountRef) -> (r: Result<Identity, ConfigError>)
    ensures
        r matches Ok(u) ==> account_fits(req@, u),
        r matches Err(e) ==> e == ConfigError::UnknownAccount(Field::User),
{
    let found = match req {
        AccountRef::Name(s) => user_by_name(s.as_str()),
        AccountRef::Id(u) => user_by_uid(*u),
    };
    match found {
        Some(u) => Ok(u),
        None => Err(ConfigError::UnknownAccount(Field::User)),
    }
}

/// Looks up the group that the configuration names, as `map_user` does for
/// users.
pub fn map_group(req: &AccountRef) -> (r: Result<Identity, ConfigError>)
    ensures
        r matches Ok(g) ==> account_fits(req@, g),
        r matches Err(e) ==> e == ConfigError::UnknownAccount(Field::Group),
{
    let found = match req {
        AccountRef::Name(s) => group_by_name(s.as_str()),
        AccountRef::Id(g) => group_by_gid(*g),
    };
    match found {
        Some(g) => Ok(g),
        None => Err(ConfigError::UnknownAccount(Field::Group)),
    }
}

/// The key of a source entry, where it has one.
pub open spec fn entry_key(e: SourceEntry) -> Option<Seq<char>> {
    match e.key {
        Some(k) => Some(k@),
        None => None,
    }
}

/// The first child of an object node with key `k`.
pub open spec fn child(s: Seq<SourceEntry>, k: Seq<char>) -> Option<SourceNode>
    decreases s.len(),
{
    if s.len() == 0 {
        None
    } else if entry_key(s[0]) == Some(k) {
        Some(s[0].node)
    } else {
        child(s.drop_first(), k)
    }
}

/// Finds the first child of an object node with key `k`.
pub fn find_child<'a>(entries: &'a Vec<SourceEntry>, k: &str) -> (r: Option<&'a SourceNode>)
    ensures
        r matches Some(n) ==> child(entries@, k@) == Some(*n),
        r is None ==> child(entries@, k@) is None,
{
    let mut i: usize = 0;
    proof {
        assert(entries@.subrange(0, entries@.len() as int) =~= entries@);
    }
    while i < entries.len()
        invariant
            0 <= i <= entries.len(),
            child(entries@, k@) == child(entries@.subrange(i as int, entries@.len() as int), k@),
        decreases entries.len() - i,
    {
        let ghost rest = entries@.subrange(i as int, entries@.len() as int);
        proof {
            assert(rest[0] == entries@[i as int]);
            assert(rest.drop_first() =~= entries@.subrange(i as int + 1, entries@.len() as int));
        }
        match &entries[i].key {
            Some(key) => {
                if crate::text::str_eq(key.as_str(), k) {
                    return Some(&entries[i].node);
                }
            },
            None => {},
        }
        i = i + 1;
    }
    None
}

/// What the `dir` entry gives: nothing where it is absent or null, the text
/// of a string.
pub open spec fn dir_entry(n: Option<SourceNode>) -> Result<Option<Seq<char>>, ConfigError> {
    match n {
        None => Ok(None),
        Some(SourceNode::Null) => Ok(None),
        Some(SourceNode::Str(s)) => Ok(Some(s@)),
        Some(_) => Err(ConfigError::WrongType(Field::Dir)),
    }
}

/// What an optional `user` or `group` entry gives.
pub open spec fn account_child(n: Option<SourceNode>, field: Field) -> Result<Option<AccountModel>, ConfigError> {
    match n {
        None => Ok(None),
        Some(c) => account_entry(c, field),
    }
}

/// What an optional `permissions` entry gives.
pub open spec fn mode_child(n: Option<SourceNode>) -> Result<Option<u32>, ConfigError> {
    match n {
        None => Ok(None),
        Some(c) => mode_entry(c),
    }
}

/// The model of an `ExportRequest`.
pub struct ExportRequestModel {
    pub dir: Option<Seq<char>>,
    pub user: Option<AccountModel>,
    pub group: Option<AccountModel>,
    pub permissions: Option<u32>,
}

impl ExportRequest {
    pub open spec fn view(self) -> ExportRequestModel {
        ExportRequestModel {
            dir: text_view(self.dir),
            user: account_view(self.user),
            group: account_view(self.group),
            permissions: self.permissions,
        }
    }
}

/// The export request that the `export` entry states: null states nothing;
/// an object's entries `dir`, `user`, `group` and `permissions` are read in
/// that order, and the first that cannot be read is the error.
pub open spec fn export_request(n: SourceNode) -> Result<ExportRequestModel, ConfigError> {
    match n {
        SourceNode::Null => Ok(ExportRequestModel { dir: None, user: None, group: None, permissions: None }),
        SourceNode::Object(es) => match dir_entry(child(es@, "dir"@)) {
            Err(e) => Err(e),
            Ok(d) => match account_child(child(es@, "user"@), Field::User) {
                Err(e) => Err(e),
                Ok(u) => match account_child(child(es@, "group"@), Field::Group) {
                    Err(e) => Err(e),
                    Ok(g) => match mode_child(child(es@, "permissions"@)) {
                        Err(e) => Err(e),
                        Ok(p) => Ok(ExportRequestModel { dir: d, user: u, group: g, permissions: p }),
                    },
                },
            },
        },
        _ => Err(ConfigError::WrongType(Field::Export)),
    }
}

/// Reads the `dir` entry.
fn dir_from(n: Option<&SourceNode>) -> (r: Result<Option<String>, ConfigError>)
    ensures
        r matches Ok(d) ==> dir_entry(opt_node(n)) == Ok::<Option<Seq<char>>, ConfigError>(text_view(d)),
        r matches Err(e) ==> dir_entry(opt_node(n)) == Err::<Option<Seq<char>>, ConfigError>(e),
{
    match n {
        None => Ok(None),
        Some(SourceNode::Null) => Ok(None),
        Some(SourceNode::Str(s)) => Ok(Some(s.clone())),
        Some(_) => Err(ConfigError::WrongType(Field::Dir)),
    }
}

/// The node behind an optional reference.
pub open spec fn opt_node(n: Option<&SourceNode>) -> Option<SourceNode> {
    match n {
        Some(x) => Some(*x),
        None => None,
    }
}

impl ExportRequest {
    /// Reads the export request that the `export` entry states.
    pub fn from_source(n: &SourceNode) -> (r: Result<ExportRequest, ConfigError>)
        ensures
            r matches Ok(q) ==> export_request(*n) == Ok::<ExportRequestModel, ConfigError>(q@),
            r matches Err(e) ==> export_request(*n) == Err::<ExportRequestModel, ConfigError>(e),
    {
        match n {
            SourceNode::Null => Ok(ExportRequest { dir: None, user: None, group: None, permissions: None }),
            SourceNode::Object(es) => {
                let dir = dir_from(find_child(es, "dir"))?;
                let user = match find_child(es, "user") {
                    None => None,
                    Some(c) => account_ref(c, Field::User)?,
                };
                let group = match find_child(es, "group") {
                    None => None,
                    Some(c) => account_ref(c, Field::Group)?,
                };
                let permissions = match find_child(es, "permissions") {
                    None => None,
                    Some(c) => map_mode(c)?,
                };
                Ok(ExportRequest { dir, user, group, permissions })
            },
            _ => Err(ConfigError::WrongType(Field::Export)),
        }
    }
}

impl ExportConfig {
    /// A policy with nothing set.
    pub fn unset() -> (r: ExportConfig)
        ensures
            r.dir is None && r.user is None && r.group is None && r.permissions is None,
    {
        ExportConfig { dir: None, user: None, group: None, permissions: None }
    }

    /// Owner, group and mode are set.
    pub open spec fn ownership_set(&self) -> bool {
        self.user is Some && self.group is Some && self.permissions is Some
    }

    /// All four parts are set.
    pub open spec fn is_resolved(&self) -> bool {
        self.dir is Some && self.ownership_set()
    }

    /// Tells whether all four parts are set.
    pub fn is_complete(&self) -> (r: bool)
        ensures
            r == self.is_resolved(),
    {
        self.dir.is_some() && self.user.is_some() && self.group.is_some() && self.permissions.is_some()
    }

    /// Turns an export request into a policy by looking up the accounts it
    /// names: the user first, then the group. Each account found fits what
    /// was asked; the error names the entry whose account the system does not
    /// have.
    pub fn resolve(req: ExportRequest) -> (r: Result<ExportConfig, ConfigError>)
        ensures
            r matches Ok(c) ==> {
                &&& text_view(c.dir) == text_view(req.dir)
                &&& c.permissions == req.permissions
                &&& (req.user is None <==> c.user is None)
                &&& (req.group is None <==> c.group is None)
                &&& c.user matches Some(u) ==> account_fits(req.user->0@, u)
                &&& c.group matches Some(g) ==> account_fits(req.group->0@, g)
            },
            r matches Err(e) ==> (req.user is Some && e == ConfigError::UnknownAccount(Field::User)) || (
            req.group is Some && e == ConfigError::UnknownAccount(Field::Group)),
    {
        let user = match &req.user {
            None => None,
            Some(a) => Some(map_user(a)?),
        };
        let group = match &req.group {
            None => None,
            Some(a) => Some(map_group(a)?),
        };
        Ok(ExportConfig { dir: req.dir, user, group, permissions: req.permissions })
    }

    /// Fills the global defaults: an unset directory becomes the current
    /// directory. Owner, group and mode stay as they are.
    pub fn fill_defaults(&mut self, current_dir: String)
        ensures
            old(self).dir is None ==> final(self).dir == Some(current_dir),
            old(self).dir is Some ==> final(self).dir == old(self).dir,
            final(self).user == old(self).user,
            final(self).group == old(self).group,
            final(self).permissions == old(self).permissions,
    {
        if self.dir.is_none() {
            self.dir = Some(current_dir);
        }
    }

    /// Completes the policy for one template from its source file's
    /// attributes and the accounts found for its owner and group, as
    /// `completed` states.
    pub fn fill_from_source(self, attrs: SourceAttributes, owner: Option<Identity>, group: Option<Identity>) -> (r: Result<
        ExportConfig,
        PolicyError,
    >)
        ensures
            r == completed(self, attrs, owner, group),
    {
        let ExportConfig { dir, user, group: g, permissions } = self;
        let user = match user {
            Some(u) => u,
            None => match owner {
                Some(o) => o,
                None => return Err(PolicyError::NoUserWithId(attrs.uid)),
            },
        };
        let g = match g {
            Some(x) => x,
            None => match group {
                Some(x) => x,
                None => return Err(PolicyError::NoGroupWithId(attrs.gid)),
            },
        };
        let permissions = match permissions {
            Some(p) => p,
            None => attrs.mode,
        };
        Ok(ExportConfig { dir, user: Some(user), group: Some(g), permissions: Some(permissions) })
    }

    /// Completes the policy for one template whose source file has these
    /// attributes: an unset owner or group is looked up by the file's id, an
    /// unset mode takes the file's mode bits. A policy whose owner, group and
    /// mode are set comes back as it is, and no lookup is made.
    pub fn for_source(self, attrs: SourceAttributes) -> (r: Result<ExportConfig, PolicyError>)
        ensures
            source_completion(self, attrs, r),
    {
        let owner = if self.user.is_none() {
            get_user(attrs.uid).ok()
        } else {
            None
        };
        let group = if self.group.is_none() {
            get_group(attrs.gid).ok()
        } else {
            None
        };
        self.fill_from_source(attrs, owner, group)
    }
}

/// The policy for one template: every part that is unset takes the source
/// file's own (owner, group, mode bits); a part that is set is kept. An unset
/// owner or group with no account found is an error naming the file's id.
pub open spec fn completed(p: ExportConfig, attrs: SourceAttributes, owner: Option<Identity>, group: Option<Identity>) -> Result<ExportConfig, PolicyError> {
    if p.user is None && owner is None {
        Err(PolicyError::NoUserWithId(attrs.uid))
    } else if p.group is None && group is None {
        Err(PolicyError::NoGroupWithId(attrs.gid))
    } else {
        Ok(ExportConfig {
            dir: p.dir,
            user: if p.user is Some { p.user } else { owner },
            group: if p.group is Some { p.group } else { group },
            permissions: if p.permissions is Some { p.permissions } else { Some(attrs.mode) },
        })
    }
}

/// Completing a policy is idempotent: a policy whose owner, group and mode
/// are set is completed to itself whatever the source file, and completing
/// the result of a completion again, for any source file, changes nothing:
/// no part is overwritten once
/// set.
pub proof fn lemma_completion_idempotent(
    p: ExportConfig,
    attrs: SourceAttributes,
    owner: Option<Identity>,
    group: Option<Identity>,
    attrs2: SourceAttributes,
    owner2: Option<Identity>,
    group2: Option<Identity>,
)
    ensures
        p.ownership_set() ==> completed(p, attrs, owner, group) == Ok::<ExportConfig, PolicyError>(p),
        completed(p, attrs, owner, group) matches Ok(q) ==> q.ownership_set() && completed(q, attrs2, owner2, group2)
            == Ok::<ExportConfig, PolicyError>(q),
{
}

/// The model of an identity: its id and its name.
pub open spec fn identity_view(i: Option<Identity>) -> Option<(u32, Seq<char>)> {
    match i {
        Some(x) => Some((x.id, x.name@)),
        None => None,
    }
}

/// The model of an `ExportConfig`.
pub struct ExportModel {
    pub dir: Option<Seq<char>>,
    pub user: Option<(u32, Seq<char>)>,
    pub group: Option<(u32, Seq<char>)>,
    pub permissions: Option<u32>,
}

impl ExportConfig {
    pub open spec fn view(&self) -> ExportModel {
        ExportModel {
            dir: text_view(self.dir),
            user: identity_view(self.user),
            group: identity_view(self.group),
            permissions: self.permissions,
        }
    }

    /// A copy of this policy.
    pub fn copy(&self) -> (r: ExportConfig)
        ensures
            r@ == self@,
    {
        let dir = match &self.dir {
            Some(d) => Some(d.clone()),
            None => None,
        };
        let user = match &self.user {
            Some(u) => Some(Identity { id: u.id, name: u.name.clone() }),
            None => None,
        };
        let group = match &self.group {
            Some(g) => Some(Identity { id: g.id, name: g.name.clone() }),
            None => None,
        };
        ExportConfig { dir, user, group, permissions: self.permissions }
    }
}

/// What completing policy `p` for a source file with attributes `attrs` may
/// give, whatever the account databases hold: the file's ids and mode fill
/// the unset parts, set parts are kept, and an error names an unset part.
pub open spec fn source_completion(p: ExportConfig, attrs: SourceAttributes, r: Result<ExportConfig, PolicyError>) -> bool {
    &&& p.ownership_set() ==> r == Ok::<ExportConfig, PolicyError>(p)
    &&& r matches Ok(c) ==> {
        &&& c.ownership_set()
        &&& c.dir == p.dir
        &&& p.user is Some ==> c.user == p.user
        &&& p.user is None ==> c.user->0.id == attrs.uid
        &&& p.group is Some ==> c.group == p.group
        &&& p.group is None ==> c.group->0.id == attrs.gid
        &&& p.permissions is Some ==> c.permissions == p.permissions
        &&& p.permissions is None ==> c.permissions == Some(attrs.mode)
    }
    &&& r matches Err(e) ==> (p.user is None && e == PolicyError::NoUserWithId(attrs.uid)) || (p.group is None
        && e == PolicyError::NoGroupWithId(attrs.gid))
}

} // verus!
