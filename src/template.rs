//! Templates: files of a namespace, the variables they reference, and where
//! and how their rendered output is written.
use vstd::prelude::*;

use handlebars::template::Parameter;
use handlebars::template::TemplateElement;

use crate::policy::source_completion;
use crate::policy::ExportConfig;
use crate::policy::PolicyError;
use crate::policy::SourceAttributes;
use crate::text::first_index;
use crate::text::has_prefix;

verus! {

/// A template of a namespace. Its name is `<namespace>/<file name>`; its
/// policy is completed for its own source file.
#[derive(Debug, Clone, PartialEq)]
pub struct Template {
    pub name: String,
    pub path: String,
    pub export_config: ExportConfig,
}

/// Why a template's text could not be used.
#[derive(PartialEq, Eq, Structural, Clone, Copy, Debug)]
pub enum TemplateError {
    /// The template text is not valid template syntax.
    Syntax,
}

/// The text before the first `/` of a template name (all of it if it has
/// none).
pub open spec fn namespace_part(name: Seq<char>) -> Seq<char> {
    match first_index(name, '/') {
        Some(i) => name.subrange(0, i),
        None => name,
    }
}

/// The text after the first `/` of a template name, up to the next `/` (empty
/// if it has none).
pub open spec fn file_part(name: Seq<char>) -> Seq<char> {
    match first_index(name, '/') {
        Some(i) => {
            let rest = name.subrange(i + 1, name.len() as int);
            match first_index(rest, '/') {
                Some(j) => rest.subrange(0, j),
                None => rest,
            }
        },
        None => Seq::empty(),
    }
}

impl Template {
    /// Creates a template and completes its policy for its source file, as
    /// `ExportConfig::for_source` does.
    pub fn new(name: String, path: String, export_config: ExportConfig, attrs: SourceAttributes) -> (r: Result<
        Template,
        PolicyError,
    >)
        ensures
            r matches Ok(t) ==> t.name == name && t.path == path && source_completion(
                export_config,
                attrs,
                Ok(t.export_config),
            ),
            r matches Err(e) ==> source_completion(export_config, attrs, Err(e)),
    {
        let c = export_config.for_source(attrs);
        match c {
            Ok(c) => Ok(Template { name, path, export_config: c }),
            Err(e) => Err(e),
        }
    }

    /// The name of the namespace of this template.
    pub fn namespace(&self) -> (r: &str)
        ensures
            r@ == namespace_part(self.name@),
    {
        let s = self.name.as_str();
        match crate::text::find_char(s, '/') {
            Some(i) => s.substring_char(0, i),
            None => s,
        }
    }

    /// The file name of this template.
    pub fn filename(&self) -> (r: &str)
        ensures
            r@ == file_part(self.name@),
    {
        let s = self.name.as_str();
        match crate::text::find_char(s, '/') {
            Some(i) => {
                let n = s.unicode_len();
                let rest = s.substring_char(i + 1, n);
                match crate::text::find_char(rest, '/') {
                    Some(j) => rest.substring_char(0, j),
                    None => rest,
                }
            },
            None => {
                proof {
                    reveal_strlit("");
                }
                ""
            },
        }
    }

    /// The variables that this template's text references at its top level
    /// and that are rooted at its own namespace (`<namespace>.<path>`), in the
    /// order they occur.
    pub fn parameter_list(&self, source: &str) -> (r: Result<Vec<String>, TemplateError>)
        ensures
            r is Ok <==> template_references(source@) is Some,
            r matches Ok(v) ==> texts(v@) == parameters_in(
                template_references(source@)->0,
                namespace_part(self.name@),
            ),
    {
        match compile_references(source) {
            Ok(refs) => Ok(select_parameters(&refs, self.namespace())),
            Err(_) => Err(TemplateError::Syntax),
        }
    }
}

/// For each top-level element of the template text, the relative path that
/// it names if it is an expression naming one; None where the text does not
/// parse.
pub uninterp spec fn template_references(src: Seq<char>) -> Option<Seq<Option<Seq<char>>>>;

/// The models of a sequence of optional strings.
pub open spec fn opt_texts(v: Seq<Option<String>>) -> Seq<Option<Seq<char>>> {
    v.map_values(|o: Option<String>| match o {
        Some(s) => Some(s@),
        None => None,
    })
}

/// The models of a sequence of strings.
pub open spec fn texts(v: Seq<String>) -> Seq<Seq<char>> {
    v.map_values(|s: String| s@)
}

/// Relies on handlebars::Template::compile: parses the template text; each
/// top-level expression element that names a relative path gives that path,
/// any other element gives None.
#[verifier::external_body]
fn compile_references(src: &str) -> (r: Result<Vec<Option<String>>, String>)
    ensures
        r is Ok <==> template_references(src@) is Some,
        r matches Ok(v) ==> opt_texts(v@) == template_references(src@)->0,
{
    match handlebars::Template::compile(src) {
        Ok(t) => Ok(t.elements.iter().map(|e| match e {
            TemplateElement::Expression(h) => match &h.name {
                Parameter::Path(handlebars::Path::Relative((_, p))) => Some(p.clone()),
                _ => None,
            },
            _ => None,
        }).collect()),
        Err(e) => Err(e.to_string()),
    }
}

/// The referenced paths that begin with `<namespace>.`, in order.
pub open spec fn parameters_in(refs: Seq<Option<Seq<char>>>, namespace: Seq<char>) -> Seq<Seq<char>>
    decreases refs.len(),
{
    if refs.len() == 0 {
        Seq::empty()
    } else {
        let rest = parameters_in(refs.drop_last(), namespace);
        match refs.last() {
            Some(p) => if has_prefix(p, namespace.push('.')) {
                rest.push(p)
            } else {
                rest
            },
            None => rest,
        }
    }
}

/// Keeps the referenced paths that are rooted at `namespace`.
pub fn select_parameters(refs: &Vec<Option<String>>, namespace: &str) -> (r: Vec<String>)
    ensures
        texts(r@) == parameters_in(opt_texts(refs@), namespace@),
{
    let prefix = crate::text::join(namespace, ".");
    proof {
        reveal_strlit(".");
        assert(prefix@ =~= namespace@.push('.'));
    }
    let mut out: Vec<String> = Vec::new();
    let mut i: usize = 0;
    proof {
        assert(opt_texts(refs@).subrange(0, 0) =~= Seq::<Option<Seq<char>>>::empty());
        assert(texts(out@) =~= Seq::<Seq<char>>::empty());
    }
    while i < refs.len()
        invariant
            0 <= i <= refs.len(),
            prefix@ == namespace@.push('.'),
            texts(out@) == parameters_in(opt_texts(refs@).subrange(0, i as int), namespace@),
        decreases refs.len() - i,
    {
        let ghost before = out@;
        proof {
            let q = opt_texts(refs@).subrange(0, i as int + 1);
            assert(q.drop_last() =~= opt_texts(refs@).subrange(0, i as int));
        }
        match &refs[i] {
            Some(p) => {
                if crate::text::starts_with(p.as_str(), prefix.as_str()) {
                    out.push(p.clone());
                    proof {
                        assert(texts(out@) =~= texts(before).push(p@));
                    }
                }
            },
            None => {},
        }
        i = i + 1;
    }
    proof {
        assert(opt_texts(refs@).subrange(0, refs@.len() as int) =~= opt_texts(refs@));
    }
    out
}

/// Where and how a template's output is written: the directory, created if
/// absent; the file inside it; the owner and group given to both; the file's
/// mode; the mode of a directory that has to be created.
#[derive(Debug, Clone, PartialEq)]
pub struct OutputPlan {
    pub dir: String,
    pub file: String,
    pub uid: u32,
    pub gid: u32,
    pub file_mode: u32,
    pub dir_mode: u32,
}

/// The mode of a newly created output directory: the template's mode with
/// the owner's, the group's and the others' execute bits on, so that the
/// directory can be entered.
pub open spec fn with_exec_bits(m: u32) -> u32 {
    m | 0o111u32
}

/// Turns on the three execute bits of a mode, leaving every other bit as it
/// is.
pub fn directory_mode(m: u32) -> (r: u32)
    ensures
        r == with_exec_bits(m),
        r & 0o100u32 == 0o100u32,
        r & 0o010u32 == 0o010u32,
        r & 0o001u32 == 0o001u32,
        r & !0o111u32 == m & !0o111u32,
{
    let r = m | 0o111u32;
    assert(r & 0o100u32 == 0o100u32 && r & 0o010u32 == 0o010u32 && r & 0o001u32 == 0o001u32 && r & !0o111u32
        == m & !0o111u32) by (bit_vector)
        requires
            r == m | 0o111u32,
    ;
    r
}

impl Template {
    /// The output plan of this template under its resolved policy: the file
    /// is `<dir>/<file name>` with the policy's owner, group and mode; a
    /// directory that has to be created gets the mode with the execute bits
    /// on.
    pub fn output_plan(&self) -> (r: OutputPlan)
        requires
            self.export_config.is_resolved(),
        ensures
            r.dir@ == self.export_config.dir->0@,
            r.file@ == self.export_config.dir->0@ + "/"@ + file_part(self.name@),
            r.uid == self.export_config.user->0.id,
            r.gid == self.export_config.group->0.id,
            r.file_mode == self.export_config.permissions->0,
            r.dir_mode == with_exec_bits(self.export_config.permissions->0),
    {
        let dir = self.export_config.dir.as_ref().unwrap();
        let uid = self.export_config.user.as_ref().unwrap().id;
        let gid = self.export_config.group.as_ref().unwrap().id;
        let mode = self.export_config.permissions.unwrap();
        let with_slash = crate::text::join(dir.as_str(), "/");
        let file = crate::text::join(with_slash.as_str(), self.filename());
        OutputPlan { dir: dir.clone(), file, uid, gid, file_mode: mode, dir_mode: directory_mode(mode) }
    }
}

/// The error number of an operation not permitted (EPERM on Linux).
pub const ERRNO_NOT_PERMITTED: i32 = 1;

/// The error number of a read-only file system (EROFS on Linux).
pub const ERRNO_READ_ONLY: i32 = 30;

/// How a change of owner or mode failed, where the failure concerns only the
/// file at hand.
#[derive(PartialEq, Eq, Structural, Clone, Copy, Debug)]
pub enum ChangeError {
    /// The process lacks the permission to make the change.
    PermissionDenied,
    /// The file is on a read-only file system.
    ReadOnlyFileSystem,
}

/// Classifies the error number of a failed change of owner: a missing
/// permission or a read-only file system concern the file at hand; any other
/// number is returned as it is, as a failure that ends the whole run.
pub fn chown_failure(errno: i32) -> (r: Result<ChangeError, i32>)
    ensures
        errno == ERRNO_NOT_PERMITTED ==> r == Ok::<ChangeError, i32>(ChangeError::PermissionDenied),
        errno == ERRNO_READ_ONLY ==> r == Ok::<ChangeError, i32>(ChangeError::ReadOnlyFileSystem),
        errno != ERRNO_NOT_PERMITTED && errno != ERRNO_READ_ONLY ==> r == Err::<ChangeError, i32>(errno),
{
    if errno == ERRNO_NOT_PERMITTED {
        Ok(ChangeError::PermissionDenied)
    } else if errno == ERRNO_READ_ONLY {
        Ok(ChangeError::ReadOnlyFileSystem)
    } else {
        Err(errno)
    }
}

/// Classifies the error number of a failed change of mode, as
/// `chown_failure` does: only a missing permission or a read-only file system
/// concern the file at hand; any other number, a missing file included, ends
/// the whole run.
pub fn chmod_failure(errno: i32) -> (r: Result<ChangeError, i32>)
    ensures
        errno == ERRNO_NOT_PERMITTED ==> r == Ok::<ChangeError, i32>(ChangeError::PermissionDenied),
        errno == ERRNO_READ_ONLY ==> r == Ok::<ChangeError, i32>(ChangeError::ReadOnlyFileSystem),
        errno != ERRNO_NOT_PERMITTED && errno != ERRNO_READ_ONLY ==> r == Err::<ChangeError, i32>(errno),
{
    if errno == ERRNO_NOT_PERMITTED {
        Ok(ChangeError::PermissionDenied)
    } else if errno == ERRNO_READ_ONLY {
        Ok(ChangeError::ReadOnlyFileSystem)
    } else {
        Err(errno)
    }
}

/// Harvesting reports only paths rooted at the template's own namespace:
/// every harvested path begins with `<namespace>.` and is one of the
/// references, and every reference so rooted is harvested. References into
/// other namespaces are left out.
pub proof fn lemma_parameters_rooted(refs: Seq<Option<Seq<char>>>, namespace: Seq<char>)
    ensures
        forall|p: Seq<char>| #[trigger] parameters_in(refs, namespace).contains(p) <==> (has_prefix(p, namespace.push('.'))
            && refs.contains(Some(p))),
    decreases refs.len(),
{
    if refs.len() > 0 {
        let rest = refs.drop_last();
        lemma_parameters_rooted(rest, namespace);
        let r = parameters_in(rest, namespace);
        let all = parameters_in(refs, namespace);
        let n = refs.len() - 1;
        assert(refs[n] == refs.last());
        assert forall|p: Seq<char>| #[trigger] all.contains(p) <==> (has_prefix(p, namespace.push('.'))
            && refs.contains(Some(p))) by {
            if all.contains(p) {
                let j = choose|j: int| 0 <= j < all.len() && all[j] == p;
                if j < r.len() {
                    assert(all[j] == r[j]);
                    assert(r.contains(p));
                    let k = choose|k: int| 0 <= k < rest.len() && rest[k] == Some(p);
                    assert(refs[k] == Some(p));
                } else {
                    assert(refs[n] == Some(p));
                }
            }
            if has_prefix(p, namespace.push('.')) && refs.contains(Some(p)) {
                let j = choose|j: int| 0 <= j < refs.len() && refs[j] == Some(p);
                if j < n {
                    assert(rest[j] == Some(p));
                    assert(rest.contains(Some(p)));
                    assert(r.contains(p));
                    let k = choose|k: int| 0 <= k < r.len() && r[k] == p;
                    assert(all[k] == p);
                } else {
                    assert(all[all.len() - 1] == p);
                }
            }
        }
    }
}

} // verus!
