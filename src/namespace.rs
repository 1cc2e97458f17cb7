//! Namespaces: named scopes of data, each bound to a directory of templates.
use vstd::prelude::*;

use crate::datafile::data_file_header;
use crate::datafile::data_file_lines;
use crate::datafile::data_file_text;
use crate::datafile::harvest;
use crate::datafile::harvested;
use crate::datafile::strictly_sorted;
use crate::datafile::text_lists;
use crate::policy::ExportConfig;
use crate::policy::PolicyError;
use crate::policy::SourceAttributes;
use crate::template::namespace_part;
use crate::template::parameters_in;
use crate::template::template_references;
use crate::template::texts;
use crate::template::Template;
use crate::template::TemplateError;
use crate::value::object_ref_to_value;
use crate::value::converted;
use crate::value::has_key;
use crate::value::insert;
use crate::value::insert_all;
use crate::value::insert_entry;
use crate::value::key_index;
use crate::value::keys_unique;
use crate::value::lemma_insert;
use crate::value::lemma_insert_all;
use crate::value::lemma_view_entries;
use crate::value::lemma_converted_wf;
use crate::value::lemma_insert_all_values_wf;
use crate::value::lemma_insert_values_wf;
use crate::value::lookup;
use crate::value::value_wf;
use crate::value::values_wf;
use crate::value::view_entries;
use crate::value::ConvertError;
use crate::value::SourceNode;
use crate::value::Value;
use crate::value::ValueModel;

verus! {

broadcast use vstd::std_specs::vec::group_vec_axioms;

/// The name of a namespace's own data file, inside its directory.
pub const CONFIG_FILE_NAME: &'static str = "eri.conf";

/// Why a namespace could not be resolved or its templates listed.
#[derive(PartialEq, Eq, Structural, Clone, Copy, Debug)]
pub enum NamespaceError {
    /// The namespace has no directory.
    MissingDirectory,
    /// The namespace's data file holds a value that cannot be converted.
    Convert(ConvertError),
    /// The data already held for the namespace is not an object, so the data
    /// file cannot be merged into it.
    OverrideTypeMismatch,
    /// A directory entry's name is not valid text.
    UndecodableFileName,
    /// A directory entry is itself a directory, not a template file.
    NotAFile,
    /// A template's policy could not be completed.
    Policy(PolicyError),
    /// The namespace's data file exists but could not be read or parsed.
    DataFileUnreadable,
    /// The namespace's data file does not hold an object at its top.
    DataFileNotObject,
}

/// What the namespace's data file, `<directory>/eri.conf`, holds.
#[derive(Debug, PartialEq)]
pub enum DataFile {
    /// There is no regular file of that name.
    Absent,
    /// The file exists but could not be read or parsed.
    Unreadable,
    /// The parsed file.
    Parsed(SourceNode),
}

/// An entry of a namespace's directory.
#[derive(Debug, Clone, PartialEq)]
pub struct DirEntry {
    /// The entry's file name, where it is valid text.
    pub file_name: Option<String>,
    /// The entry is a directory.
    pub is_dir: bool,
    /// The owner, group and mode of the entry.
    pub attrs: SourceAttributes,
}

/// A namespace: its name, its directory and its export policy.
#[derive(Debug, Clone, PartialEq)]
pub struct Namespace {
    pub name: String,
    pub base_path: String,
    pub export_config: ExportConfig,
}

/// The data of all namespaces after the data file of namespace `name`, with
/// top-level entries `o`, is merged in. The merge is shallow: each entry of
/// `o` replaces the namespace's entry of the same key wholesale; nested
/// objects are not merged. An empty `o` changes nothing.
pub open spec fn merged(
    d: Seq<(Seq<char>, ValueModel)>,
    name: Seq<char>,
    o: Seq<(Seq<char>, ValueModel)>,
) -> Result<Seq<(Seq<char>, ValueModel)>, NamespaceError> {
    if o.len() == 0 {
        Ok(d)
    } else {
        match lookup(d, name) {
            None => Ok(insert(d, name, ValueModel::Object(insert_all(Seq::empty(), o)))),
            Some(ValueModel::Object(base)) => Ok(insert(d, name, ValueModel::Object(insert_all(base, o)))),
            Some(_) => Err(NamespaceError::OverrideTypeMismatch),
        }
    }
}

/// The data mapping is well formed: namespace names are unique and every
/// value is well formed.
pub open spec fn data_wf(d: Seq<(Seq<char>, ValueModel)>) -> bool {
    keys_unique(d) && values_wf(d)
}

/// Merging a data file is shallow: afterwards the namespace's object holds,
/// under each key of the data file, exactly the data file's value (an object
/// there replaces the old object wholesale, with none of its other fields),
/// and under every other key what it held before. Other namespaces keep their
/// data.
pub proof fn lemma_merge_is_shallow(
    d: Seq<(Seq<char>, ValueModel)>,
    name: Seq<char>,
    o: Seq<(Seq<char>, ValueModel)>,
    k: Seq<char>,
)
    requires
        data_wf(d),
        keys_unique(o),
        o.len() > 0,
        merged(d, name, o) is Ok,
    ensures
        ({
            let r = merged(d, name, o)->Ok_0;
            &&& lookup(r, name) matches Some(ValueModel::Object(obj))
            &&& has_key(o, k) ==> lookup(obj, k) == lookup(o, k)
            &&& !has_key(o, k) ==> lookup(obj, k) == match lookup(d, name) {
                Some(ValueModel::Object(base)) => lookup(base, k),
                _ => None,
            }
        }),
        forall|other: Seq<char>| other != name ==> lookup(merged(d, name, o)->Ok_0, other) == lookup(d, other),
{
    match lookup(d, name) {
        None => {
            lemma_insert_all(Seq::<(Seq<char>, ValueModel)>::empty(), o);
            let obj = ValueModel::Object(insert_all(Seq::empty(), o));
            lemma_insert(d, name, obj);
        },
        Some(v) => {
            let i = key_index(d, name);
            assert(value_wf(d[i].1));
            match v {
                ValueModel::Object(base) => {
                    lemma_insert_all(base, o);
                    lemma_insert(d, name, ValueModel::Object(insert_all(base, o)));
                },
                _ => {},
            }
        },
    }
}

/// Inserts the entries of `o` into `entries`, in order.
fn insert_entries(entries: &mut Vec<(String, Value)>, o: Vec<(String, Value)>)
    requires
        keys_unique(view_entries(old(entries)@)),
    ensures
        view_entries(final(entries)@) == insert_all(view_entries(old(entries)@), view_entries(o@)),
        keys_unique(view_entries(final(entries)@)),
{
    let ghost all = o@;
    let ghost start = view_entries(entries@);
    let mut o = o;
    let mut i: usize = 0;
    let n = o.len();
    proof {
        assert(all.subrange(0, 0) =~= Seq::<(String, Value)>::empty());
        assert(o@ =~= all.subrange(0, all.len() as int));
    }
    while i < n
        invariant
            n == all.len(),
            0 <= i <= n,
            o@ == all.subrange(i as int, n as int),
            view_entries(entries@) == insert_all(start, view_entries(all.subrange(0, i as int))),
            keys_unique(view_entries(entries@)),
        decreases n - i,
    {
        let (k, v) = o.remove(0);
        proof {
            assert((k, v) == all[i as int]);
            let q = all.subrange(0, i as int + 1);
            assert(q.drop_last() =~= all.subrange(0, i as int));
            assert(q.last() == all[i as int]);
            assert(o@ =~= all.subrange(i as int + 1, n as int));
        }
        let ghost kv = (k@, v@);
        insert_entry(entries, k, v);
        proof {
            let q = all.subrange(0, i as int + 1);
            let p = all.subrange(0, i as int);
            assert(view_entries(q) == view_entries(p).push(kv));
            assert(view_entries(q).drop_last() =~= view_entries(p));
            assert(view_entries(q).last() == kv);
        }
        i = i + 1;
    }
    proof {
        assert(all.subrange(0, n as int) =~= all);
    }
}

/// Finds the position of namespace `name` in the data mapping.
fn find_namespace(data: &Vec<(String, Value)>, name: &str) -> (r: Option<usize>)
    requires
        keys_unique(view_entries(data@)),
    ensures
        r matches Some(i) ==> i < data@.len() && has_key(view_entries(data@), name@) && key_index(
            view_entries(data@),
            name@,
        ) == i,
        r is None ==> !has_key(view_entries(data@), name@),
{
    let ghost dv = view_entries(data@);
    proof {
        lemma_view_entries(data@);
    }
    let mut i: usize = 0;
    while i < data.len()
        invariant
            0 <= i <= data.len(),
            dv == view_entries(data@),
            dv.len() == data@.len(),
            keys_unique(dv),
            forall|j: int| 0 <= j < data@.len() ==> #[trigger] dv[j] == (data@[j].0@, data@[j].1@),
            forall|j: int| 0 <= j < i ==> dv[j].0 != name@,
        decreases data.len() - i,
    {
        if crate::text::str_eq(data[i].0.as_str(), name) {
            proof {
                assert(dv[i as int].0 == name@);
                assert(has_key(dv, name@));
                let k = key_index(dv, name@);
                assert(dv[k].0 == name@);
            }
            return Some(i);
        }
        i = i + 1;
    }
    proof {
        if has_key(dv, name@) {
            let k = key_index(dv, name@);
            assert(dv[k].0 == name@);
        }
    }
    None
}

/// Merges the top-level entries `o` of namespace `name`'s data file into the
/// data mapping, as `merged` states. On an error the mapping is unchanged.
pub fn merge_override(data: &mut Vec<(String, Value)>, name: &str, o: Vec<(String, Value)>) -> (r: Result<(), NamespaceError>)
    requires
        data_wf(view_entries(old(data)@)),
        keys_unique(view_entries(o@)),
        values_wf(view_entries(o@)),
    ensures
        r is Ok ==> merged(view_entries(old(data)@), name@, view_entries(o@)) == Ok::<Seq<(Seq<char>, ValueModel)>, NamespaceError>(view_entries(final(data)@)),
        r matches Err(e) ==> merged(view_entries(old(data)@), name@, view_entries(o@)) == Err::<Seq<(Seq<char>, ValueModel)>, NamespaceError>(e),
        r is Err ==> final(data)@ == old(data)@,
        r is Ok ==> data_wf(view_entries(final(data)@)),
{
    let ghost d0 = view_entries(data@);
    let ghost ov = view_entries(o@);
    proof {
        lemma_view_entries(data@);
        lemma_view_entries(o@);
    }
    if o.len() == 0 {
        return Ok(());
    }
    match find_namespace(data, name) {
        None => {
            let mut entries: Vec<(String, Value)> = Vec::new();
            proof {
                assert(view_entries(entries@) =~= Seq::<(Seq<char>, ValueModel)>::empty());
            }
            insert_entries(&mut entries, o);
            let ghost obj = ValueModel::Object(view_entries(entries@));
            proof {
                lemma_insert_all_values_wf(Seq::empty(), ov);
            }
            insert_entry(data, String::from_str(name), Value::Object(entries));
            proof {
                assert(lookup(d0, name@) is None);
                lemma_view_entries(data@);
                lemma_data_wf_insert(d0, name@, obj);
            }
            Ok(())
        },
        Some(i) => {
            let (key, v) = data.remove(i);
            proof {
                assert(d0[i as int] == (key@, v@));
                assert(lookup(d0, name@) == Some(v@));
            }
            match v {
                Value::Object(mut entries) => {
                    let ghost base = view_entries(entries@);
                    proof {
                        assert(value_wf(d0[i as int].1));
                        lemma_insert_all_values_wf(base, ov);
                    }
                    insert_entries(&mut entries, o);
                    let ghost obj = ValueModel::Object(view_entries(entries@));
                    data.insert(i, (key, Value::Object(entries)));
                    proof {
                        lemma_view_entries(data@);
                        assert(key@ == name@);
                        assert(view_entries(data@) =~= d0.update(i as int, (name@, obj))) by {
                            assert forall|j: int| 0 <= j < data@.len() implies view_entries(data@)[j] == d0.update(
                                i as int,
                                (name@, obj),
                            )[j] by {
                                if j < i {
                                    assert(data@[j] == old(data)@[j]);
                                } else if j > i {
                                    assert(data@[j] == old(data)@[j]);
                                }
                            }
                        }
                        lemma_data_wf_insert(d0, name@, obj);
                    }
                    Ok(())
                },
                other => {
                    data.insert(i, (key, other));
                    proof {
                        assert(data@ =~= old(data)@);
                    }
                    Err(NamespaceError::OverrideTypeMismatch)
                },
            }
        },
    }
}

/// Setting a namespace to an object with unique keys keeps the mapping well
/// formed.
proof fn lemma_data_wf_insert(d: Seq<(Seq<char>, ValueModel)>, name: Seq<char>, obj: ValueModel)
    requires
        data_wf(d),
        value_wf(obj),
    ensures
        data_wf(insert(d, name, obj)),
{
    lemma_insert(d, name, obj);
    lemma_insert_values_wf(d, name, obj);
}

/// What resolving namespace `name` does to the data mapping `d`: nothing
/// without a directory or a data file; otherwise the data file's top-level
/// entries are merged in as `merged` states.
pub open spec fn resolved_data(
    d: Seq<(Seq<char>, ValueModel)>,
    name: Seq<char>,
    dir_exists: bool,
    data_file: DataFile,
) -> Result<Seq<(Seq<char>, ValueModel)>, NamespaceError> {
    if !dir_exists {
        Err(NamespaceError::MissingDirectory)
    } else {
        match data_file {
            DataFile::Absent => Ok(d),
            DataFile::Unreadable => Err(NamespaceError::DataFileUnreadable),
            DataFile::Parsed(root) => match converted(root) {
                Err(e) => Err(NamespaceError::Convert(e)),
                Ok(ValueModel::Object(o)) => merged(d, name, o),
                Ok(_) => Err(NamespaceError::DataFileNotObject),
            },
        }
    }
}

impl Namespace {
    /// Resolves namespace `name`: its directory is `<current_dir>/<name>`
    /// and must exist; the data file found there, if any, is merged into the
    /// shared data mapping as `resolved_data` states. On an error the mapping
    /// is unchanged.
    pub fn new(
        name: &str,
        export_config: ExportConfig,
        data: &mut Vec<(String, Value)>,
        current_dir: &str,
        dir_exists: bool,
        data_file: &DataFile,
    ) -> (r: Result<Namespace, NamespaceError>)
        requires
            data_wf(view_entries(old(data)@)),
        ensures
            r is Ok ==> resolved_data(view_entries(old(data)@), name@, dir_exists, *data_file) == Ok::<
                Seq<(Seq<char>, ValueModel)>,
                NamespaceError,
            >(view_entries(final(data)@)),
            r matches Err(e) ==> resolved_data(view_entries(old(data)@), name@, dir_exists, *data_file) == Err::<
                Seq<(Seq<char>, ValueModel)>,
                NamespaceError,
            >(e),
            r is Err ==> final(data)@ == old(data)@,
            data_wf(view_entries(final(data)@)),
            r matches Ok(ns) ==> ns.name@ == name@ && ns.base_path@ == current_dir@ + "/"@ + name@
                && ns.export_config == export_config,
    {
        if !dir_exists {
            return Err(NamespaceError::MissingDirectory);
        }
        match data_file {
            DataFile::Absent => {},
            DataFile::Unreadable => {
                return Err(NamespaceError::DataFileUnreadable);
            },
            DataFile::Parsed(root) => {
                match object_ref_to_value(root) {
                    Err(e) => {
                        return Err(NamespaceError::Convert(e));
                    },
                    Ok(Value::Object(o)) => {
                        proof {
                            lemma_converted_wf(*root);
                        }
                        merge_override(data, name, o)?;
                    },
                    Ok(_) => {
                        return Err(NamespaceError::DataFileNotObject);
                    },
                }
            },
        }
        let base_path = crate::text::join(current_dir, "/");
        let base_path = crate::text::join(base_path.as_str(), name);
        Ok(Namespace { name: String::from_str(name), base_path, export_config })
    }
}

/// The name of a directory entry, where it is valid text.
pub open spec fn entry_name(e: DirEntry) -> Option<Seq<char>> {
    match e.file_name {
        Some(f) => Some(f@),
        None => None,
    }
}

/// The file names of a namespace's templates: the name of every directory
/// entry but the namespace's own data file, in order.
pub open spec fn template_files(es: Seq<DirEntry>) -> Seq<Seq<char>>
    decreases es.len(),
{
    if es.len() == 0 {
        Seq::empty()
    } else {
        let rest = template_files(es.drop_last());
        match entry_name(es.last()) {
            Some(f) => if f == CONFIG_FILE_NAME@ {
                rest
            } else {
                rest.push(f)
            },
            None => rest,
        }
    }
}

/// The entry may stand in a listing: its name is valid text, and it is the
/// data file or not a directory.
pub open spec fn entry_ok(e: DirEntry) -> bool {
    entry_name(e) matches Some(f) && (f != CONFIG_FILE_NAME@ ==> !e.is_dir)
}

/// Every entry may stand in a listing.
pub open spec fn listing_ok(es: Seq<DirEntry>) -> bool {
    forall|i: int| 0 <= i < es.len() ==> entry_ok(#[trigger] es[i])
}

/// The error with which entry `e` may end a listing under policy `p`: its name
/// is not valid text; or it is a directory other than the data file; or it
/// is a template file whose unset owner or group has no account for the
/// file's id.
pub open spec fn entry_error(e: DirEntry, p: ExportConfig, err: NamespaceError) -> bool {
    match entry_name(e) {
        None => err == NamespaceError::UndecodableFileName,
        Some(f) => f != CONFIG_FILE_NAME@ && if e.is_dir {
            err == NamespaceError::NotAFile
        } else {
            err matches NamespaceError::Policy(pe) && ((p.user is None && pe == PolicyError::NoUserWithId(e.attrs.uid))
                || (p.group is None && pe == PolicyError::NoGroupWithId(e.attrs.gid)))
        },
    }
}

/// The parameter lists of the templates with these sources.
pub open spec fn parameter_lists(templates: Seq<Template>, sources: Seq<String>) -> Seq<Seq<Seq<char>>> {
    Seq::new(
        templates.len(),
        |i: int| parameters_in(template_references(sources[i]@)->0, namespace_part(templates[i].name@)),
    )
}

impl Namespace {
    /// The templates of this namespace, one for each entry of its directory
    /// but its data file: named `<namespace>/<file name>`, at
    /// `<directory>/<file name>`, each with the namespace's policy completed
    /// for its own source file. The entries are taken in order, and the
    /// first one that cannot become a template (see `entry_error`) ends the
    /// listing with its error.
    pub fn templates(&self, entries: &Vec<DirEntry>) -> (r: Result<Vec<Template>, NamespaceError>)
        ensures
            r matches Ok(ts) ==> {
                let files = template_files(entries@);
                &&& listing_ok(entries@)
                &&& ts.len() == files.len()
                &&& forall|k: int|
                    0 <= k < ts.len() ==> {
                        &&& (#[trigger] ts[k]).name@ == self.name@ + "/"@ + files[k]
                        &&& ts[k].path@ == self.base_path@ + "/"@ + files[k]
                        &&& ts[k].export_config.ownership_set()
                        &&& ts[k].export_config@.dir == self.export_config@.dir
                        &&& self.export_config.ownership_set() ==> ts[k].export_config@ == self.export_config@
                    }
            },
            listing_ok(entries@) && self.export_config.ownership_set() ==> r is Ok,
            r matches Err(e) ==> exists|i: int|
                0 <= i < entries@.len() && (forall|j: int| 0 <= j < i ==> entry_ok(#[trigger] entries@[j]))
                    && #[trigger] entry_error(entries@[i], self.export_config, e),
    {
        let mut out: Vec<Template> = Vec::new();
        let prefix = crate::text::join(self.name.as_str(), "/");
        let dir_prefix = crate::text::join(self.base_path.as_str(), "/");
        let mut i: usize = 0;
        proof {
            assert(entries@.subrange(0, 0) =~= Seq::<DirEntry>::empty());
        }
        while i < entries.len()
            invariant
                0 <= i <= entries.len(),
                prefix@ == self.name@ + "/"@,
                dir_prefix@ == self.base_path@ + "/"@,
                forall|j: int| 0 <= j < i ==> entry_ok(#[trigger] entries@[j]),
                ({
                    let files = template_files(entries@.subrange(0, i as int));
                    &&& out@.len() == files.len()
                    &&& forall|k: int|
                        0 <= k < out@.len() ==> {
                            &&& (#[trigger] out@[k]).name@ == self.name@ + "/"@ + files[k]
                            &&& out@[k].path@ == self.base_path@ + "/"@ + files[k]
                            &&& out@[k].export_config.ownership_set()
                            &&& out@[k].export_config@.dir == self.export_config@.dir
                            &&& self.export_config.ownership_set() ==> out@[k].export_config@ == self.export_config@
                        }
                }),
            decreases entries.len() - i,
        {
            let ghost files0 = template_files(entries@.subrange(0, i as int));
            proof {
                let q = entries@.subrange(0, i as int + 1);
                assert(q.drop_last() =~= entries@.subrange(0, i as int));
                assert(q.last() == entries@[i as int]);
            }
            let e = &entries[i];
            match &e.file_name {
                None => {
                    proof {
                        assert(entry_error(entries@[i as int], self.export_config, NamespaceError::UndecodableFileName));
                    }
                    return Err(NamespaceError::UndecodableFileName);
                },
                Some(f) => {
                    if !crate::text::str_eq(f.as_str(), CONFIG_FILE_NAME) {
                        if e.is_dir {
                            proof {
                                assert(entry_name(entries@[i as int]) == Some(f@));
                                assert(entry_error(entries@[i as int], self.export_config, NamespaceError::NotAFile));
                            }
                            return Err(NamespaceError::NotAFile);
                        }
                        let name = crate::text::join(prefix.as_str(), f.as_str());
                        let path = crate::text::join(dir_prefix.as_str(), f.as_str());
                        let policy = self.export_config.copy();
                        match Template::new(name, path, policy, e.attrs) {
                            Err(err) => {
                                proof {
                                    assert(policy.user is None <==> self.export_config.user is None);
                                    assert(policy.group is None <==> self.export_config.group is None);
                                    assert(entry_name(entries@[i as int]) == Some(f@));
                                    assert(entry_error(entries@[i as int], self.export_config, NamespaceError::Policy(err)));
                                }
                                return Err(NamespaceError::Policy(err));
                            },
                            Ok(t) => {
                                let ghost before = out@;
                                out.push(t);
                                proof {
                                    let files = template_files(entries@.subrange(0, i as int + 1));
                                    assert(files == files0.push(f@));
                                    assert forall|k: int| 0 <= k < out@.len() implies {
                                        &&& (#[trigger] out@[k]).name@ == self.name@ + "/"@ + files[k]
                                        &&& out@[k].path@ == self.base_path@ + "/"@ + files[k]
                                        &&& out@[k].export_config.ownership_set()
                                        &&& out@[k].export_config@.dir == self.export_config@.dir
                                        &&& self.export_config.ownership_set() ==> out@[k].export_config@
                                            == self.export_config@
                                    } by {
                                        if k < before.len() {
                                            assert(out@[k] == before[k]);
                                        } else {
                                            assert((self.name@ + "/"@) + f@ =~= self.name@ + "/"@ + f@);
                                        }
                                    }
                                }
                            },
                        }
                    }
                },
            }
            proof {
                assert(entry_name(entries@[i as int]) is Some);
                assert(entry_ok(entries@[i as int]));
            }
            i = i + 1;
        }
        proof {
            assert(entries@.subrange(0, entries@.len() as int) =~= entries@);
        }
        Ok(out)
    }

    /// The text of this namespace's data file, for templates with these
    /// sources: every parameter that the templates reference under this
    /// namespace, without the namespace segment, in lexicographic order and
    /// without repeats, one `<path> =` line each after the header. None where
    /// there is no parameter (no file is then written); an error where a
    /// template's text does not parse.
    pub fn gen_data_file(&self, templates: &Vec<Template>, sources: &Vec<String>, version: &str, stamp: &str) -> (r:
        Result<Option<String>, TemplateError>)
        requires
            templates.len() == sources.len(),
        ensures
            r is Err <==> exists|i: int| 0 <= i < sources.len() && template_references(#[trigger] sources@[i]@) is None,
            r matches Ok(o) ==> (o is None <==> harvested(parameter_lists(templates@, sources@)) == Set::<Seq<char>>::empty()),
            r matches Ok(Some(text)) ==> exists|ps: Seq<Seq<char>>|
                strictly_sorted(ps) && ps.to_set() == harvested(parameter_lists(templates@, sources@)) && text@
                    == data_file_header(version@, stamp@) + data_file_lines(ps),
    {
        let mut lists: Vec<Vec<String>> = Vec::new();
        let mut i: usize = 0;
        while i < templates.len()
            invariant
                0 <= i <= templates.len(),
                templates.len() == sources.len(),
                text_lists(lists@) =~= parameter_lists(templates@, sources@).subrange(0, i as int),
                forall|j: int| 0 <= j < i ==> template_references(#[trigger] sources@[j]@) is Some,
            decreases templates.len() - i,
        {
            match templates[i].parameter_list(sources[i].as_str()) {
                Err(e) => {
                    return Err(e);
                },
                Ok(l) => {
                    let ghost before = lists@;
                    let ghost lv = texts(l@);
                    lists.push(l);
                    proof {
                        assert(text_lists(lists@) =~= text_lists(before).push(lv));
                        assert(parameter_lists(templates@, sources@)[i as int] == lv);
                    }
                },
            }
            i = i + 1;
        }
        proof {
            assert(parameter_lists(templates@, sources@).subrange(0, i as int) =~= parameter_lists(templates@, sources@));
        }
        let params = harvest(&lists);
        if params.len() == 0 {
            proof {
                assert(texts(params@) =~= Seq::<Seq<char>>::empty());
                assert(texts(params@).to_set() =~= Set::<Seq<char>>::empty());
            }
            return Ok(None);
        }
        proof {
            assert(texts(params@).to_set().contains(texts(params@)[0]));
        }
        Ok(Some(data_file_text(version, stamp, &params)))
    }
}

} // verus!
