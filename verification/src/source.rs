use vstd::prelude::*;
use crate::catalog::{canonical_of, is_scheme_file, scheme_script_filename_spec};
use crate::errors::{ErrorModel, SwitchError};
use crate::theme::ThemeName;

verus! {

/// One file of the embedded bundle: its file name and its contents.
pub struct EmbeddedFile {
    pub name: String,
    pub contents: String,
}

impl View for EmbeddedFile {
    type V = (Seq<char>, Seq<char>);

    open spec fn view(&self) -> (Seq<char>, Seq<char>) {
        (self.name@, self.contents@)
    }
}

/// The read-only bundle a program can ship inside its binary: an in-memory
/// index of scheme scripts and one of hook scripts.  It has no file system
/// path; its scripts are materialized to files before anything runs them.
pub struct EmbeddedBundle {
    pub schemes: Vec<EmbeddedFile>,
    pub hooks: Vec<EmbeddedFile>,
}

/// The mathematical shape of a bundle: two listings of file name and
/// contents pairs.
pub struct BundleModel {
    pub schemes: Seq<(Seq<char>, Seq<char>)>,
    pub hooks: Seq<(Seq<char>, Seq<char>)>,
}

impl View for EmbeddedBundle {
    type V = BundleModel;

    open spec fn view(&self) -> BundleModel {
        BundleModel {
            schemes: self.schemes@.map_values(|f: EmbeddedFile| f@),
            hooks: self.hooks@.map_values(|f: EmbeddedFile| f@),
        }
    }
}

/// The authoritative source of theme and hook scripts for one invocation.
pub enum ThemeSource {
    /// A directory the user named explicitly.
    Explicit { root: String },
    /// A previously populated directory below the local data directory.
    Cached { root: String },
    /// The bundle shipped inside the binary, as a source of last resort.
    Embedded { bundle: EmbeddedBundle },
}

/// The mathematical shape of a `ThemeSource`.
pub enum SourceModel {
    Explicit { root: Seq<char> },
    Cached { root: Seq<char> },
    Embedded { bundle: BundleModel },
}

impl View for ThemeSource {
    type V = SourceModel;

    open spec fn view(&self) -> SourceModel {
        match self {
            ThemeSource::Explicit { root } => SourceModel::Explicit { root: root@ },
            ThemeSource::Cached { root } => SourceModel::Cached { root: root@ },
            ThemeSource::Embedded { bundle } => SourceModel::Embedded { bundle: bundle@ },
        }
    }
}

/// What the driver observed of one candidate source directory; the facts the
/// resolution decision is made from.
pub struct DirFacts {
    pub path: String,
    pub exists: bool,
    pub has_scripts: bool,
    pub has_hooks: bool,
}

impl DirFacts {
    /// A directory can serve as a source when it exists and holds both the
    /// `scripts/` and the `hooks/` subdirectory.
    pub open spec fn well_formed(&self) -> bool {
        self.exists && self.has_scripts && self.has_hooks
    }
}

/// Decides which source is authoritative for this invocation.
///
/// An explicitly named directory must be well-formed; a malformed one is
/// fatal and names what is missing, with no fallback, so that an explicit
/// user choice is never silently overridden.  Otherwise a well-formed cache
/// directory is used; otherwise the embedded bundle, when the program ships
/// one.  Resolution reads its facts and never mutates the chosen source.
pub fn resolve(explicit: Option<DirFacts>, cache: DirFacts, bundle: Option<EmbeddedBundle>) -> (r:
    Result<ThemeSource, SwitchError>)
    ensures
        explicit matches Some(e) ==> {
            &&& e.well_formed() ==> (r matches Ok(s) && s@ == (SourceModel::Explicit {
                root: e.path@,
            }))
            &&& !(e.exists && e.has_scripts) ==> (r matches Err(err) && err@
                == (ErrorModel::SourceInvalid { path: e.path@, missing: "scripts"@ }))
            &&& e.exists && e.has_scripts && !e.has_hooks ==> (r matches Err(err) && err@
                == (ErrorModel::SourceInvalid { path: e.path@, missing: "hooks"@ }))
        },
        explicit is None && cache.well_formed() ==> (r matches Ok(s) && s@
            == (SourceModel::Cached { root: cache.path@ })),
        explicit is None && !cache.well_formed() ==> match bundle {
            Some(b) => r matches Ok(s) && s@ == (SourceModel::Embedded { bundle: b@ }),
            None => r matches Err(err) && err@ == ErrorModel::SourceUnavailable,
        },
{
    match explicit {
        Some(e) => {
            if e.exists && e.has_scripts {
                if e.has_hooks {
                    Ok(ThemeSource::Explicit { root: e.path })
                } else {
                    Err(SwitchError::SourceInvalid { path: e.path, missing: String::from_str("hooks") })
                }
            } else {
                Err(SwitchError::SourceInvalid { path: e.path, missing: String::from_str("scripts") })
            }
        },
        None => {
            if cache.exists && cache.has_scripts && cache.has_hooks {
                Ok(ThemeSource::Cached { root: cache.path })
            } else {
                match bundle {
                    Some(b) => Ok(ThemeSource::Embedded { bundle: b }),
                    None => Err(SwitchError::SourceUnavailable),
                }
            }
        },
    }
}

/// A path entry below a directory, joined with the path separator.
pub open spec fn join_spec(dir: Seq<char>, entry: Seq<char>) -> Seq<char> {
    dir + "/"@ + entry
}

/// Joins a directory path and an entry name.
pub fn join_path(dir: &str, entry: &str) -> (r: String)
    ensures
        r@ == join_spec(dir@, entry@),
{
    let mut s = dir.to_owned();
    s.append("/");
    s.append(entry);
    s
}

/// The `scripts/` subdirectory of a file system source.
pub open spec fn scripts_dir_spec(root: Seq<char>) -> Seq<char> {
    join_spec(root, "scripts"@)
}

/// The `hooks/` subdirectory of a file system source.
pub open spec fn hooks_dir_spec(root: Seq<char>) -> Seq<char> {
    join_spec(root, "hooks"@)
}

/// The path of the scheme script of a theme below a file system source.
pub open spec fn theme_script_path_spec(root: Seq<char>, name: Seq<char>) -> Seq<char> {
    join_spec(scripts_dir_spec(root), scheme_script_filename_spec(name))
}

/// Computes the `scripts/` subdirectory of a source root.
pub fn scripts_dir(root: &str) -> (r: String)
    ensures
        r@ == scripts_dir_spec(root@),
{
    join_path(root, "scripts")
}

/// Computes the `hooks/` subdirectory of a source root.
pub fn hooks_dir(root: &str) -> (r: String)
    ensures
        r@ == hooks_dir_spec(root@),
{
    join_path(root, "hooks")
}

/// Computes the path of the scheme script of a theme below a source root.
pub fn theme_script_path(root: &str, name: &ThemeName) -> (r: String)
    ensures
        r@ == theme_script_path_spec(root@, name@),
{
    let dir = scripts_dir(root);
    let file = crate::catalog::scheme_script_filename(name);
    join_path(dir.as_str(), file.as_str())
}

/// Whether the bundle holds a scheme script whose canonical name is `name`.
pub open spec fn bundle_has_scheme(b: BundleModel, name: Seq<char>) -> bool {
    exists|i: int|
        0 <= i < b.schemes.len() && is_scheme_file(b.schemes[i].0) && canonical_of(b.schemes[i].0)
            == name
}

/// Index of the first bundle entry whose canonical name is `name`, or -1.
pub open spec fn first_scheme_index(schemes: Seq<(Seq<char>, Seq<char>)>, name: Seq<char>) -> int
    decreases schemes.len(),
{
    if schemes.len() == 0 {
        -1
    } else if is_scheme_file(schemes[0].0) && canonical_of(schemes[0].0) == name {
        0
    } else {
        let rest = first_scheme_index(schemes.drop_first(), name);
        if rest < 0 {
            -1
        } else {
            rest + 1
        }
    }
}

/// The contents of the first scheme script of the bundle whose canonical
/// name is `name`.
pub open spec fn bundle_scheme_contents(b: BundleModel, name: Seq<char>) -> Seq<char> {
    b.schemes[first_scheme_index(b.schemes, name)].1
}

proof fn lemma_first_scheme_index_at(schemes: Seq<(Seq<char>, Seq<char>)>, name: Seq<char>, w: int)
    requires
        0 <= w < schemes.len(),
        is_scheme_file(schemes[w].0),
        canonical_of(schemes[w].0) == name,
        forall|j: int|
            0 <= j < w ==> !(is_scheme_file(#[trigger] schemes[j].0) && canonical_of(schemes[j].0)
                == name),
    ensures
        first_scheme_index(schemes, name) == w,
    decreases schemes.len(),
{
    if w > 0 {
        assert(!(is_scheme_file(schemes[0].0) && canonical_of(schemes[0].0) == name));
        let rest = schemes.drop_first();
        assert(rest[w - 1] == schemes[w]);
        assert forall|j: int| 0 <= j < w - 1 implies !(is_scheme_file(#[trigger] rest[j].0)
            && canonical_of(rest[j].0) == name) by {
            assert(rest[j] == schemes[j + 1]);
        }
        lemma_first_scheme_index_at(rest, name, w - 1);
    }
}

/// Looks a theme up in the bundle's scheme index: the contents of the first
/// entry whose file name derives the requested name, or `None` when the
/// bundle does not carry the theme.
pub fn bundle_lookup_scheme(bundle: &EmbeddedBundle, name: &ThemeName) -> (r: Option<String>)
    ensures
        r is Some <==> bundle_has_scheme(bundle@, name@),
        r matches Some(c) ==> c@ == bundle_scheme_contents(bundle@, name@),
{
    let ghost schemes = bundle@.schemes;
    let mut i: usize = 0;
    while i < bundle.schemes.len()
        invariant
            0 <= i <= bundle.schemes.len(),
            schemes == bundle@.schemes,
            schemes.len() == bundle.schemes.len(),
            forall|j: int| 0 <= j < schemes.len() ==> schemes[j] == #[trigger] bundle.schemes@[j]@,
            forall|j: int|
                0 <= j < i ==> !(is_scheme_file(#[trigger] schemes[j].0) && canonical_of(
                    schemes[j].0,
                ) == name@),
        decreases bundle.schemes.len() - i,
    {
        match crate::catalog::derive_scheme_name(bundle.schemes[i].name.as_str()) {
            Some(derived) => {
                let mut requested = String::new();
                requested.append(name.as_str());
                if derived == requested {
                    proof {
                        assert(is_scheme_file(schemes[i as int].0) && canonical_of(
                            schemes[i as int].0,
                        ) == name@);
                        lemma_first_scheme_index_at(schemes, name@, i as int);
                        assert(bundle_has_scheme(bundle@, name@));
                    }
                    return Some(bundle.schemes[i].contents.clone());
                }
            },
            None => {},
        }
        i += 1;
    }
    None
}

/// The file names of the bundle's hook entries.
pub fn bundle_hook_names(bundle: &EmbeddedBundle) -> (r: Vec<String>)
    ensures
        r.deep_view() == bundle@.hooks.map_values(|e: (Seq<char>, Seq<char>)| e.0),
{
    let mut r: Vec<String> = Vec::new();
    let mut i: usize = 0;
    while i < bundle.hooks.len()
        invariant
            0 <= i <= bundle.hooks.len(),
            r.deep_view() =~= bundle@.hooks.map_values(|e: (Seq<char>, Seq<char>)| e.0).take(
                i as int,
            ),
        decreases bundle.hooks.len() - i,
    {
        let ghost prevdv = r.deep_view();
        r.push(bundle.hooks[i].name.clone());
        proof {
            let names = bundle@.hooks.map_values(|e: (Seq<char>, Seq<char>)| e.0);
            assert(r.deep_view() =~= prevdv.push(names[i as int]));
            assert(names.take(i + 1) =~= names.take(i as int).push(names[i as int]));
        }
        i += 1;
    }
    proof {
        let names = bundle@.hooks.map_values(|e: (Seq<char>, Seq<char>)| e.0);
        assert(names.take(names.len() as int) =~= names);
        assert(r.deep_view() =~= names);
    }
    r
}

/// Index of the first bundle hook entry named `name`, or -1.
pub open spec fn first_hook_index(hooks: Seq<(Seq<char>, Seq<char>)>, name: Seq<char>) -> int
    decreases hooks.len(),
{
    if hooks.len() == 0 {
        -1
    } else if hooks[0].0 == name {
        0
    } else {
        let rest = first_hook_index(hooks.drop_first(), name);
        if rest < 0 {
            -1
        } else {
            rest + 1
        }
    }
}

/// Whether the bundle holds a hook entry named `name`.
pub open spec fn bundle_has_hook(b: BundleModel, name: Seq<char>) -> bool {
    exists|i: int| 0 <= i < b.hooks.len() && b.hooks[i].0 == name
}

/// The contents of the first bundle hook entry named `name`.
pub open spec fn bundle_hook_contents(b: BundleModel, name: Seq<char>) -> Seq<char> {
    b.hooks[first_hook_index(b.hooks, name)].1
}

proof fn lemma_first_hook_index_at(hooks: Seq<(Seq<char>, Seq<char>)>, name: Seq<char>, w: int)
    requires
        0 <= w < hooks.len(),
        hooks[w].0 == name,
        forall|j: int| 0 <= j < w ==> (#[trigger] hooks[j].0) != name,
    ensures
        first_hook_index(hooks, name) == w,
    decreases hooks.len(),
{
    if w > 0 {
        assert(hooks[0].0 != name);
        let rest = hooks.drop_first();
        assert(rest[w - 1] == hooks[w]);
        assert forall|j: int| 0 <= j < w - 1 implies (#[trigger] rest[j].0) != name by {
            assert(rest[j] == hooks[j + 1]);
        }
        lemma_first_hook_index_at(rest, name, w - 1);
    }
}

/// Looks a hook up in the bundle by file name: the contents of the first
/// entry with that name, or `None` when there is none.
pub fn bundle_lookup_hook(bundle: &EmbeddedBundle, name: &str) -> (r: Option<String>)
    ensures
        r is Some <==> bundle_has_hook(bundle@, name@),
        r matches Some(c) ==> c@ == bundle_hook_contents(bundle@, name@),
{
    let ghost hooks = bundle@.hooks;
    let mut i: usize = 0;
    while i < bundle.hooks.len()
        invariant
            0 <= i <= bundle.hooks.len(),
            hooks == bundle@.hooks,
            hooks.len() == bundle.hooks.len(),
            forall|j: int| 0 <= j < hooks.len() ==> hooks[j] == #[trigger] bundle.hooks@[j]@,
            forall|j: int| 0 <= j < i ==> (#[trigger] hooks[j].0) != name@,
        decreases bundle.hooks.len() - i,
    {
        let entry_name = bundle.hooks[i].name.as_str();
        let owned_entry = entry_name.to_owned();
        let owned_name = name.to_owned();
        if owned_entry == owned_name {
            proof {
                assert(hooks[i as int].0 == name@);
                lemma_first_hook_index_at(hooks, name@, i as int);
                assert(bundle_has_hook(bundle@, name@));
            }
            return Some(bundle.hooks[i].contents.clone());
        }
        i += 1;
    }
    None
}

} // verus!
