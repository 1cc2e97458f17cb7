//! The root configuration: the export policy and the data of every
//! namespace, and the resolution of all namespaces.
use vstd::prelude::*;

use crate::namespace::data_wf;
use crate::namespace::resolved_data;
use crate::namespace::DataFile;
use crate::namespace::Namespace;
use crate::namespace::NamespaceError;
use crate::policy::account_fits;
use crate::policy::child;
use crate::policy::export_request;
use crate::policy::find_child;
use crate::policy::ConfigError;
use crate::policy::ExportConfig;
use crate::policy::ExportRequest;
use crate::policy::ExportRequestModel;
use crate::policy::Field;
use crate::value::object_ref_to_value;
use crate::value::converted;
use crate::value::lemma_entries_converted_wf;
use crate::value::lemma_view_entries;
use crate::value::view_entries;
use crate::value::SourceNode;
use crate::value::Value;
use crate::value::ValueModel;

verus! {

broadcast use vstd::std_specs::vec::group_vec_axioms;

/// The root configuration.
#[derive(Debug, PartialEq)]
pub struct EriConfig {
    /// The global export policy.
    pub export: ExportConfig,
    /// The data of each namespace, by namespace name.
    pub namespace: Vec<(String, Value)>,
}

/// What a namespace's directory holds, as found before resolution.
#[derive(Debug, PartialEq)]
pub struct NamespaceProbe {
    /// `<current directory>/<name>` exists and is a directory.
    pub dir_exists: bool,
    /// The namespace's data file.
    pub data_file: DataFile,
}

/// What the root of the configuration states before any account is looked
/// up: the export request of its `export` entry (nothing where it is absent)
/// and the converted object of its required `namespace` entry.
pub open spec fn config_request(root: SourceNode) -> Result<(ExportRequestModel, Seq<(Seq<char>, ValueModel)>), ConfigError> {
    match root {
        SourceNode::Object(es) => {
            let req = match child(es@, "export"@) {
                None => Ok(ExportRequestModel { dir: None, user: None, group: None, permissions: None }),
                Some(n) => export_request(n),
            };
            match req {
                Err(e) => Err(e),
                Ok(q) => match child(es@, "namespace"@) {
                    None => Err(ConfigError::MissingField(Field::Namespace)),
                    Some(n) => match converted(n) {
                        Err(e) => Err(ConfigError::Convert(e)),
                        Ok(ValueModel::Object(d)) => Ok((q, d)),
                        Ok(_) => Err(ConfigError::WrongType(Field::Namespace)),
                    },
                },
            }
        },
        _ => Err(ConfigError::WrongType(Field::Root)),
    }
}

/// The data mapping after the first `i` namespaces, named by `ns` and
/// described by `probes`, are resolved in order: each resolution that
/// succeeds gives the next mapping, one that fails leaves it as it was.
pub open spec fn data_after(
    d: Seq<(Seq<char>, ValueModel)>,
    ns: Seq<Seq<char>>,
    probes: Seq<NamespaceProbe>,
    i: nat,
) -> Seq<(Seq<char>, ValueModel)>
    decreases i,
{
    if i == 0 {
        d
    } else {
        let prev = data_after(d, ns, probes, (i - 1) as nat);
        match resolved_data(prev, ns[i - 1], probes[i - 1].dir_exists, probes[i - 1].data_file) {
            Ok(next) => next,
            Err(_) => prev,
        }
    }
}

/// What resolving the `i`-th namespace gives, on the mapping that the ones
/// before it left.
pub open spec fn outcome_at(
    d: Seq<(Seq<char>, ValueModel)>,
    ns: Seq<Seq<char>>,
    probes: Seq<NamespaceProbe>,
    i: nat,
) -> Result<Seq<(Seq<char>, ValueModel)>, NamespaceError> {
    resolved_data(data_after(d, ns, probes, i), ns[i as int], probes[i as int].dir_exists, probes[i as int].data_file)
}

/// The names of a data mapping, in order.
pub open spec fn names(d: Seq<(Seq<char>, ValueModel)>) -> Seq<Seq<char>> {
    d.map_values(|e: (Seq<char>, ValueModel)| e.0)
}

impl EriConfig {
    /// Builds the configuration from the root of the parsed configuration
    /// file, as `config_request` states, then looks up the accounts that the
    /// export policy names and fills its defaults: an unset directory becomes
    /// `current_dir`.
    pub fn open(root: &SourceNode, current_dir: String) -> (r: Result<EriConfig, ConfigError>)
        ensures
            config_request(*root) matches Err(e) ==> r == Err::<EriConfig, ConfigError>(e),
            r matches Ok(c) ==> config_request(*root) matches Ok((q, d)) && {
                &&& view_entries(c.namespace@) == d
                &&& data_wf(d)
                &&& c.export.dir is Some
                &&& c.export.dir->0@ == match q.dir {
                    Some(x) => x,
                    None => current_dir@,
                }
                &&& c.export.permissions == q.permissions
                &&& (q.user is None <==> c.export.user is None)
                &&& (q.group is None <==> c.export.group is None)
                &&& c.export.user matches Some(u) ==> account_fits(q.user->0, u)
                &&& c.export.group matches Some(g) ==> account_fits(q.group->0, g)
            },
            r matches Err(e) ==> config_request(*root) is Err || (config_request(*root) matches Ok((q, d)) && (
            (q.user is Some && e == ConfigError::UnknownAccount(Field::User)) || (q.group is Some && e
                == ConfigError::UnknownAccount(Field::Group)))),
    {
        let es = match root {
            SourceNode::Object(es) => es,
            _ => {
                return Err(ConfigError::WrongType(Field::Root));
            },
        };
        let req = match find_child(es, "export") {
            None => ExportRequest { dir: None, user: None, group: None, permissions: None },
            Some(n) => ExportRequest::from_source(n)?,
        };
        let namespace = match find_child(es, "namespace") {
            None => {
                return Err(ConfigError::MissingField(Field::Namespace));
            },
            Some(n) => match object_ref_to_value(n) {
                Err(e) => {
                    return Err(ConfigError::Convert(e));
                },
                Ok(Value::Object(d)) => {
                    proof {
                        if *n is Object {
                            lemma_entries_converted_wf((*n)->Object_0@);
                        }
                    }
                    d
                },
                Ok(_) => {
                    return Err(ConfigError::WrongType(Field::Namespace));
                },
            },
        };
        let mut export = ExportConfig::resolve(req)?;
        export.fill_defaults(current_dir);
        Ok(EriConfig { export, namespace })
    }

    /// Resolves every namespace, in order, with `probes[i]` describing the
    /// directory of the `i`-th one. Each namespace gets its own result: one
    /// that fails is reported and leaves the data unchanged, and the others
    /// are resolved all the same. Data files extend the shared data mapping,
    /// which all later resolutions see: result `i` fails exactly when
    /// `outcome_at` does, with its error, and the final mapping is
    /// `data_after` all of them.
    pub fn namespaces(&mut self, current_dir: &str, probes: &Vec<NamespaceProbe>) -> (r: Vec<Result<Namespace, NamespaceError>>)
        requires
            probes.len() == old(self).namespace.len(),
            data_wf(view_entries(old(self).namespace@)),
        ensures
            r.len() == probes.len(),
            data_wf(view_entries(final(self).namespace@)),
            names(view_entries(final(self).namespace@)) == names(view_entries(old(self).namespace@)),
            final(self).export == old(self).export,
            view_entries(final(self).namespace@) == data_after(
                view_entries(old(self).namespace@),
                names(view_entries(old(self).namespace@)),
                probes@,
                probes@.len(),
            ),
            forall|i: int|
                0 <= i < r.len() ==> {
                    let name = names(view_entries(old(self).namespace@));
                    let outcome = outcome_at(view_entries(old(self).namespace@), name, probes@, i as nat);
                    &&& (#[trigger] r@[i]) matches Err(e) ==> outcome == Err::<Seq<(Seq<char>, ValueModel)>, NamespaceError>(e)
                    &&& r@[i] is Ok ==> outcome is Ok
                },
            forall|i: int|
                0 <= i < r.len() ==> {
                    let name = names(view_entries(old(self).namespace@))[i];
                    &&& !probes@[i].dir_exists ==> (#[trigger] r@[i]) == Err::<Namespace, NamespaceError>(
                        NamespaceError::MissingDirectory,
                    )
                    &&& probes@[i].dir_exists && probes@[i].data_file is Absent ==> r@[i] is Ok
                    &&& r@[i] matches Ok(ns) ==> ns.name@ == name && ns.base_path@ == current_dir@ + "/"@ + name
                        && ns.export_config@ == old(self).export@
                },
    {
        let ghost d0 = view_entries(self.namespace@);
        let ghost names0 = names(view_entries(self.namespace@));
        let mut ns_names: Vec<String> = Vec::new();
        let mut j: usize = 0;
        proof {
            lemma_view_entries(self.namespace@);
        }
        while j < self.namespace.len()
            invariant
                0 <= j <= self.namespace.len(),
                ns_names@.len() == j,
                names0 == names(view_entries(self.namespace@)),
                view_entries(self.namespace@).len() == self.namespace@.len(),
                forall|k: int| 0 <= k < self.namespace@.len() ==> #[trigger] view_entries(self.namespace@)[k] == (
                    self.namespace@[k].0@,
                    self.namespace@[k].1@,
                ),
                forall|k: int| 0 <= k < j ==> (#[trigger] ns_names@[k])@ == names0[k],
            decreases self.namespace.len() - j,
        {
            ns_names.push(self.namespace[j].0.clone());
            j = j + 1;
        }
        let mut out: Vec<Result<Namespace, NamespaceError>> = Vec::new();
        let mut i: usize = 0;
        while i < probes.len()
            invariant
                0 <= i <= probes.len(),
                probes.len() == ns_names@.len(),
                names0.len() == ns_names@.len(),
                forall|k: int| 0 <= k < ns_names@.len() ==> (#[trigger] ns_names@[k])@ == names0[k],
                out@.len() == i,
                data_wf(view_entries(self.namespace@)),
                names(view_entries(self.namespace@)) == names0,
                self.export == old(self).export,
                d0 == view_entries(old(self).namespace@),
                names0 == names(d0),
                view_entries(self.namespace@) == data_after(d0, names0, probes@, i as nat),
                forall|k: int|
                    0 <= k < i ==> {
                        let outcome = outcome_at(d0, names0, probes@, k as nat);
                        &&& (#[trigger] out@[k]) matches Err(e) ==> outcome == Err::<Seq<(Seq<char>, ValueModel)>, NamespaceError>(e)
                        &&& out@[k] is Ok ==> outcome is Ok
                    },
                forall|k: int|
                    0 <= k < i ==> {
                        let name = names0[k];
                        &&& !probes@[k].dir_exists ==> (#[trigger] out@[k]) == Err::<Namespace, NamespaceError>(
                            NamespaceError::MissingDirectory,
                        )
                        &&& probes@[k].dir_exists && probes@[k].data_file is Absent ==> out@[k] is Ok
                        &&& out@[k] matches Ok(ns) ==> ns.name@ == name && ns.base_path@ == current_dir@ + "/"@ + name
                            && ns.export_config@ == old(self).export@
                    },
            decreases probes.len() - i,
        {
            let probe = &probes[i];
            let ghost before = view_entries(self.namespace@);
            proof {
                lemma_names_has_key(before, i as int);
            }
            let res = Namespace::new(
                ns_names[i].as_str(),
                self.export.copy(),
                &mut self.namespace,
                current_dir,
                probe.dir_exists,
                &probe.data_file,
            );
            proof {
                if res is Ok {
                    lemma_resolution_keeps_names(before, names0[i as int], probe.dir_exists, probe.data_file);
                }
                assert(((i + 1) as nat - 1) as nat == i as nat);
                assert(probes@[i as int] == *probe);
                assert(view_entries(self.namespace@) == data_after(d0, names0, probes@, (i + 1) as nat));
            }
            let ghost before_out = out@;
            out.push(res);
            proof {
                assert forall|k: int| 0 <= k < i implies out@[k] == before_out[k] by {}
            }
            i = i + 1;
        }
        out
    }
}

/// The name at position `i` of a data mapping is one of its keys, and the
/// one at that position.
proof fn lemma_names_has_key(d: Seq<(Seq<char>, ValueModel)>, i: int)
    requires
        data_wf(d),
        0 <= i < d.len(),
    ensures
        crate::value::has_key(d, names(d)[i]),
        crate::value::key_index(d, names(d)[i]) == i,
{
    assert(d[i].0 == names(d)[i]);
    let k = crate::value::key_index(d, names(d)[i]);
    assert(d[k].0 == names(d)[i]);
}

/// Resolving a namespace that the mapping holds keeps the mapping's names
/// and their order.
proof fn lemma_resolution_keeps_names(
    d: Seq<(Seq<char>, ValueModel)>,
    name: Seq<char>,
    dir_exists: bool,
    data_file: DataFile,
)
    requires
        data_wf(d),
        crate::value::has_key(d, name),
        resolved_data(d, name, dir_exists, data_file) is Ok,
    ensures
        names(resolved_data(d, name, dir_exists, data_file)->Ok_0) == names(d),
{
    let r = resolved_data(d, name, dir_exists, data_file)->Ok_0;
    let k = crate::value::key_index(d, name);
    assert(d[k].0 == name);
    assert(names(r) =~= names(d)) by {
        assert forall|j: int| 0 <= j < d.len() implies names(r)[j] == names(d)[j] by {
            if j == k {
            }
        }
    }
}

} // verus!
