//! The resolver: configuration, the resolution cascade, and its contract.
//!
//! A [`Resolver`] holds the configuration of one resolution context. Its
//! `resolve` method classifies a specifier and dispatches to file, directory,
//! index, manifest and dependency-tree resolution, then normalizes the found
//! path. The whole algorithm is pinned by the specification function
//! [`spec_resolve`], which every entry point's contract refers to.

use vstd::prelude::*;
use vstd::string::*;
use crate::builtins::is_builtin;
use crate::builtins::is_core_module;
use crate::fs::Fs;
use crate::manifest::first_main_field;
use crate::manifest::select_main_field;
use crate::paths::is_absolute;
use crate::paths::is_absolute_spec;
use crate::paths::is_explicit;
use crate::paths::is_explicit_spec;
use crate::paths::join;
use crate::paths::join_spec;
use crate::paths::lemma_parent_shorter;
use crate::paths::normalize_path;
use crate::paths::normalize_path_spec;
use crate::paths::parent;
use crate::paths::parent_spec;

verus! {

/// How deep a chain of manifest redirections is followed: a directory's
/// manifest may name a target that is itself a directory with a manifest, and
/// so on. A chain longer than this fails like an unresolvable manifest.
pub const MAIN_FUEL: usize = 64;

/// An error, returned when the module could not be resolved.
#[derive(Debug)]
pub struct ResolutionError {
    description: String,
}

impl ResolutionError {
    /// The stored description.
    pub closed spec fn spec_description(self) -> Seq<char> {
        self.description@
    }

    pub fn new(description: &str) -> (r: Self)
        ensures
            r.spec_description() == description@,
    {
        ResolutionError { description: description.to_owned() }
    }

    /// A human-readable account of what went wrong.
    pub fn message(&self) -> (r: String)
        ensures
            r@ == self.spec_description(),
    {
        self.description.clone()
    }
}

/// The kind of a filesystem-level failure.
#[derive(Clone, Copy, Debug, PartialEq, Eq, Structural)]
pub enum IoErrorKind {
    /// A candidate path was not there.
    NotFound,
    /// An environment problem, such as a path that cannot be canonicalized.
    Other,
}

/// What can go wrong during a resolution.
#[derive(Debug)]
pub enum Error {
    /// A filesystem-level failure.
    IOError(IoErrorKind),
    /// A basedir was not configured, and the specifier required one.
    UnconfiguredBasedir,
    /// Something else went wrong.
    ResolutionError(ResolutionError),
}

/// Resolver instances keep track of options.
#[derive(Clone)]
pub struct Resolver {
    pub basedir: Option<String>,
    pub extensions: Vec<String>,
    pub preserve_symlinks: bool,
    pub main_fields: Vec<String>,
}

/// The default extension priority list.
pub open spec fn default_extensions() -> Seq<Seq<char>> {
    seq![".js"@, ".json"@, ".node"@]
}

/// The default manifest entry-point field list.
pub open spec fn default_main_fields() -> Seq<Seq<char>> {
    seq!["main"@]
}

/// An extension normalized to begin with `.`.
pub open spec fn normalized_extension(e: Seq<char>) -> Seq<char> {
    if e.len() > 0 && e[0] == '.' {
        e
    } else {
        seq!['.'] + e
    }
}

/// Every extension of the list normalized to begin with `.`.
pub open spec fn normalized_extensions(exts: Seq<Seq<char>>) -> Seq<Seq<char>> {
    exts.map_values(|e: Seq<char>| normalized_extension(e))
}

/// Prefix each extension that does not already begin with `.`.
pub fn normalize_extensions(extensions: Vec<String>) -> (r: Vec<String>)
    ensures
        r.deep_view() == normalized_extensions(extensions.deep_view()),
{
    let ghost edv = extensions.deep_view();
    let mut out: Vec<String> = Vec::new();
    let mut j: usize = 0;
    while j < extensions.len()
        invariant
            j <= extensions@.len(),
            edv == extensions.deep_view(),
            edv.len() == extensions@.len(),
            out.deep_view() == edv.take(j as int).map_values(
                |e: Seq<char>| normalized_extension(e),
            ),
        decreases extensions@.len() - j,
    {
        let ghost before = out.deep_view();
        proof {
            assert(edv[j as int] == extensions@[j as int]@);
        }
        let e = &extensions[j];
        if e.unicode_len() > 0 && e.get_char(0) == '.' {
            out.push(e.clone());
        } else {
            let mut d = ".".to_owned();
            proof {
                reveal_strlit(".");
                assert(d@ =~= seq!['.']);
            }
            d.append(e.as_str());
            out.push(d);
        }
        proof {
            assert(out.deep_view() =~= before.push(normalized_extension(edv[j as int])));
            assert(edv.take(j + 1).map_values(|e: Seq<char>| normalized_extension(e)) =~= edv.take(
                j as int,
            ).map_values(|e: Seq<char>| normalized_extension(e)).push(
                normalized_extension(edv[j as int]),
            ));
        }
        j = j + 1;
    }
    proof {
        assert(edv.take(edv.len() as int) =~= edv);
    }
    out
}

/// Copy a list of strings element by element.
fn clone_strings(v: &Vec<String>) -> (r: Vec<String>)
    ensures
        r@ == v@,
{
    let mut out: Vec<String> = Vec::new();
    let mut j: usize = 0;
    while j < v.len()
        invariant
            j <= v@.len(),
            out@ == v@.take(j as int),
        decreases v@.len() - j,
    {
        out.push(v[j].clone());
        proof {
            assert(v@.take(j + 1) =~= v@.take(j as int).push(v@[j as int]));
        }
        j = j + 1;
    }
    proof {
        assert(v@.take(v@.len() as int) =~= v@);
    }
    out
}

impl Resolver {
    /// The configured basedir, as a sequence of characters.
    pub open spec fn spec_basedir(self) -> Option<Seq<char>> {
        match self.basedir {
            Some(b) => Some(b@),
            None => None,
        }
    }

    /// The configured extension priority list.
    pub open spec fn spec_extensions(self) -> Seq<Seq<char>> {
        self.extensions.deep_view()
    }

    /// The configured manifest entry-point field list.
    pub open spec fn spec_main_fields(self) -> Seq<Seq<char>> {
        self.main_fields.deep_view()
    }
}

impl Default for Resolver {
    /// Create a new resolver with the default configuration.
    ///
    /// - It resolves `.js`, `.json`, and `.node` files, in that order;
    /// - it expands symbolic links;
    /// - it uses the manifest `main` field for directory lookups.
    fn default() -> (r: Resolver)
        ensures
            r.basedir is None,
            r.spec_extensions() == default_extensions(),
            r.preserve_symlinks == false,
            r.spec_main_fields() == default_main_fields(),
    {
        let mut extensions: Vec<String> = Vec::new();
        extensions.push(".js".to_owned());
        extensions.push(".json".to_owned());
        extensions.push(".node".to_owned());
        let mut main_fields: Vec<String> = Vec::new();
        main_fields.push("main".to_owned());
        let r = Resolver { basedir: None, extensions, preserve_symlinks: false, main_fields };
        proof {
            assert(r.spec_extensions() =~= default_extensions());
            assert(r.spec_main_fields() =~= default_main_fields());
        }
        r
    }
}

impl Resolver {
    /// Create a new resolver with the default configuration.
    pub fn new() -> (r: Self)
        ensures
            r.basedir is None,
            r.spec_extensions() == default_extensions(),
            r.preserve_symlinks == false,
            r.spec_main_fields() == default_main_fields(),
    {
        Resolver::default()
    }

    fn get_basedir(&self) -> (r: Result<&String, Error>)
        ensures
            r is Ok <==> self.basedir is Some,
            r is Ok ==> Some(r->Ok_0@) == self.spec_basedir(),
            r is Err ==> r->Err_0 == Error::UnconfiguredBasedir,
    {
        match &self.basedir {
            Some(b) => Ok(b),
            None => Err(Error::UnconfiguredBasedir),
        }
    }

    /// Create a new resolver with a different basedir.
    pub fn with_basedir(&self, basedir: String) -> (r: Self)
        ensures
            r.spec_basedir() == Some(basedir@),
            r.spec_extensions() == self.spec_extensions(),
            r.preserve_symlinks == self.preserve_symlinks,
            r.spec_main_fields() == self.spec_main_fields(),
    {
        Resolver {
            basedir: Some(basedir),
            extensions: clone_strings(&self.extensions),
            preserve_symlinks: self.preserve_symlinks,
            main_fields: clone_strings(&self.main_fields),
        }
    }

    /// Use a different set of extensions; each is prefixed with `.` where that
    /// is missing. Consumes the resolver instance.
    /// The default is `.js`, `.json`, `.node`.
    pub fn extensions(self, extensions: Vec<String>) -> (r: Self)
        ensures
            r.spec_basedir() == self.spec_basedir(),
            r.spec_extensions() == normalized_extensions(extensions.deep_view()),
            r.preserve_symlinks == self.preserve_symlinks,
            r.spec_main_fields() == self.spec_main_fields(),
    {
        Resolver { extensions: normalize_extensions(extensions), ..self }
    }

    /// Use a different set of main fields. Consumes the resolver instance.
    /// The default is `main` alone.
    ///
    /// Main fields determine the entry point of a directory with a manifest
    /// file. Each one is tried in order, and the value of the first that holds
    /// a string is the path to the entry point of the directory.
    pub fn main_fields(self, main_fields: Vec<String>) -> (r: Self)
        ensures
            r.spec_basedir() == self.spec_basedir(),
            r.spec_extensions() == self.spec_extensions(),
            r.preserve_symlinks == self.preserve_symlinks,
            r.spec_main_fields() == main_fields.deep_view(),
    {
        Resolver { main_fields, ..self }
    }

    /// Configure whether symbolic links should be preserved. Consumes the
    /// resolver instance.
    pub fn preserve_symlinks(self, preserve_symlinks: bool) -> (r: Self)
        ensures
            r.spec_basedir() == self.spec_basedir(),
            r.spec_extensions() == self.spec_extensions(),
            r.preserve_symlinks == preserve_symlinks,
            r.spec_main_fields() == self.spec_main_fields(),
    {
        Resolver { preserve_symlinks, ..self }
    }
}

// ---------------------------------------------------------------------------
// The algorithm, as a specification
// ---------------------------------------------------------------------------

/// The first extension, in list order, that turns `path` into an existing
/// file, and the path it produces.
pub open spec fn spec_first_extension(fs: Fs, exts: Seq<Seq<char>>, path: Seq<char>) -> Option<
    Seq<char>,
>
    decreases exts.len(),
{
    if exts.len() == 0 {
        None
    } else if fs.spec_is_file(path + exts[0]) {
        Some(path + exts[0])
    } else {
        spec_first_extension(fs, exts.drop_first(), path)
    }
}

/// File resolution: the path itself when it is a file, else the first
/// extension in list order that makes it one.
pub open spec fn spec_resolve_as_file(fs: Fs, exts: Seq<Seq<char>>, path: Seq<char>) -> Option<
    Seq<char>,
> {
    if fs.spec_is_file(path) {
        Some(path)
    } else {
        spec_first_extension(fs, exts, path)
    }
}

/// Index resolution: the first extension in list order that makes
/// `dir/index` an existing file.
pub open spec fn spec_resolve_index(fs: Fs, exts: Seq<Seq<char>>, dir: Seq<char>) -> Option<
    Seq<char>,
>
    decreases exts.len(),
{
    if exts.len() == 0 {
        None
    } else {
        let candidate = join_spec(dir, "index"@ + exts[0]);
        if fs.spec_is_file(candidate) {
            Some(candidate)
        } else {
            spec_resolve_index(fs, exts.drop_first(), dir)
        }
    }
}

/// Directory resolution: nothing unless the path is a directory; an entry
/// point yielded by a manifest directly inside it wins; any manifest failure
/// falls back silently to index resolution.
pub open spec fn spec_resolve_as_directory(
    fs: Fs,
    exts: Seq<Seq<char>>,
    mains: Seq<Seq<char>>,
    path: Seq<char>,
    fuel: nat,
) -> Option<Seq<char>>
    decreases fuel, 0nat,
{
    if !fs.spec_is_dir(path) {
        None
    } else {
        let pkg = join_spec(path, "package.json"@);
        let from_manifest = if fs.spec_is_file(pkg) && fuel > 0 {
            spec_resolve_package_main(fs, exts, mains, pkg, (fuel - 1) as nat)
        } else {
            None
        };
        match from_manifest {
            Some(p) => Some(p),
            None => spec_resolve_index(fs, exts, path),
        }
    }
}

/// Manifest main-field resolution: the first configured field the manifest
/// holds as a string names a target, joined to the manifest's directory and
/// resolved as a file and then as a directory.
pub open spec fn spec_resolve_package_main(
    fs: Fs,
    exts: Seq<Seq<char>>,
    mains: Seq<Seq<char>>,
    pkg_path: Seq<char>,
    fuel: nat,
) -> Option<Seq<char>>
    decreases fuel, 1nat,
{
    let pkg_dir = match parent_spec(pkg_path) {
        Some(d) => d,
        None => seq!['/'],
    };
    match fs.spec_content(pkg_path) {
        None => None,
        Some(bytes) => match first_main_field(bytes, mains) {
            None => None,
            Some(target) => {
                let tp = join_spec(pkg_dir, target);
                match spec_resolve_as_file(fs, exts, tp) {
                    Some(p) => Some(p),
                    None => spec_resolve_as_directory(fs, exts, mains, tp, fuel),
                }
            },
        },
    }
}

/// One step of the dependency-tree walk: resolve the specifier inside the
/// dependency-package folder of `dir`, when that folder is a directory.
pub open spec fn spec_node_modules_attempt(
    fs: Fs,
    exts: Seq<Seq<char>>,
    mains: Seq<Seq<char>>,
    dir: Seq<char>,
    target: Seq<char>,
) -> Option<Seq<char>> {
    let nm = join_spec(dir, "node_modules"@);
    if fs.spec_is_dir(nm) {
        let p = join_spec(nm, target);
        match spec_resolve_as_file(fs, exts, p) {
            Some(r) => Some(r),
            None => spec_resolve_as_directory(fs, exts, mains, p, MAIN_FUEL as nat),
        }
    } else {
        None
    }
}

/// The dependency-tree walk: try each ancestor directory in turn, nearest
/// first; the first whose dependency-package folder resolves the specifier
/// wins, and running out of ancestors means not found.
pub open spec fn spec_node_modules_walk(
    fs: Fs,
    exts: Seq<Seq<char>>,
    mains: Seq<Seq<char>>,
    dir: Seq<char>,
    target: Seq<char>,
) -> Option<Seq<char>>
    decreases dir.len(),
    via spec_node_modules_walk_decreases
{
    match spec_node_modules_attempt(fs, exts, mains, dir, target) {
        Some(r) => Some(r),
        None => match parent_spec(dir) {
            Some(pd) => spec_node_modules_walk(fs, exts, mains, pd, target),
            None => None,
        },
    }
}

#[via_fn]
proof fn spec_node_modules_walk_decreases(
    fs: Fs,
    exts: Seq<Seq<char>>,
    mains: Seq<Seq<char>>,
    dir: Seq<char>,
    target: Seq<char>,
) {
    if parent_spec(dir) is Some {
        lemma_parent_shorter(dir);
    }
}

/// Post-resolution normalization: lexical cleanup when links are preserved,
/// the canonical real path otherwise.
pub open spec fn spec_normalize(fs: Fs, preserve: bool, path: Seq<char>) -> Result<Seq<char>, Error> {
    if preserve {
        Ok(normalize_path_spec(path))
    } else {
        match fs.spec_canonical(path) {
            Some(Some(c)) => Ok(c),
            Some(None) => Err(Error::IOError(IoErrorKind::Other)),
            None => Err(Error::IOError(IoErrorKind::NotFound)),
        }
    }
}

/// The entire resolution algorithm, over a configuration given by its parts.
///
/// A builtin name is returned unchanged, before anything else is consulted.
/// An absolute specifier is resolved against the filesystem root, whatever
/// the basedir; any other specifier requires a configured basedir. An
/// explicit (absolute or relative) specifier is joined to its base and
/// resolved as a file, then as a directory; a bare specifier goes through the
/// dependency-tree walk. The found path is then normalized.
pub open spec fn spec_resolve(
    fs: Fs,
    basedir: Option<Seq<char>>,
    exts: Seq<Seq<char>>,
    mains: Seq<Seq<char>>,
    preserve: bool,
    target: Seq<char>,
) -> Result<Seq<char>, Error> {
    if is_builtin(target) {
        Ok(target)
    } else {
        let base = if is_absolute_spec(target) {
            Some(seq!['/'])
        } else {
            basedir
        };
        match base {
            None => Err(Error::UnconfiguredBasedir),
            Some(base) => {
                let found = if is_explicit_spec(target) {
                    let p = join_spec(base, target);
                    match spec_resolve_as_file(fs, exts, p) {
                        Some(f) => Some(f),
                        None => spec_resolve_as_directory(fs, exts, mains, p, MAIN_FUEL as nat),
                    }
                } else {
                    spec_node_modules_walk(fs, exts, mains, base, target)
                };
                match found {
                    Some(f) => spec_normalize(fs, preserve, f),
                    None => Err(Error::IOError(IoErrorKind::NotFound)),
                }
            },
        }
    }
}

/// [`spec_resolve`] over a resolver value's own configuration.
pub open spec fn spec_resolve_with(r: Resolver, fs: Fs, target: Seq<char>) -> Result<
    Seq<char>,
    Error,
> {
    spec_resolve(
        fs,
        r.spec_basedir(),
        r.spec_extensions(),
        r.spec_main_fields(),
        r.preserve_symlinks,
        target,
    )
}

/// How an executable outcome realizes a specification-level one: success for
/// success with the very same path, and the very same error otherwise.
pub open spec fn result_agrees(r: Result<String, Error>, s: Result<Seq<char>, Error>) -> bool {
    match r {
        Ok(p) => s is Ok && p@ == s->Ok_0,
        Err(e) => s is Err && e == s->Err_0,
    }
}

// ---------------------------------------------------------------------------
// The algorithm, executable
// ---------------------------------------------------------------------------

impl Resolver {
    /// Resolve a path as a file: the path itself if it refers to a file,
    /// otherwise the path extended by each configured extension in turn.
    fn resolve_as_file(&self, fs: &Fs, path: &String) -> (r: Result<String, Error>)
        ensures
            match spec_resolve_as_file(*fs, self.spec_extensions(), path@) {
                Some(p) => r is Ok && r->Ok_0@ == p,
                None => r == Result::<String, Error>::Err(Error::IOError(IoErrorKind::NotFound)),
            },
    {
        if fs.is_file(path) {
            return Ok(path.clone());
        }
        let ghost edv = self.spec_extensions();
        let mut j: usize = 0;
        proof {
            assert(edv.skip(0) =~= edv);
        }
        while j < self.extensions.len()
            invariant
                j <= self.extensions@.len(),
                edv == self.spec_extensions(),
                edv.len() == self.extensions@.len(),
                !fs.spec_is_file(path@),
                spec_first_extension(*fs, edv.skip(j as int), path@) == spec_first_extension(
                    *fs,
                    edv,
                    path@,
                ),
            decreases self.extensions@.len() - j,
        {
            proof {
                assert(edv.skip(j as int)[0] == edv[j as int]);
                assert(edv[j as int] == self.extensions@[j as int]@);
            }
            let mut candidate = path.clone();
            candidate.append(self.extensions[j].as_str());
            if fs.is_file(&candidate) {
                return Ok(candidate);
            }
            proof {
                assert(edv.skip(j as int).drop_first() =~= edv.skip(j + 1));
            }
            j = j + 1;
        }
        proof {
            assert(edv.skip(j as int) =~= Seq::<Seq<char>>::empty());
        }
        Err(Error::IOError(IoErrorKind::NotFound))
    }

    /// Resolve a directory to its `index` file: `dir/index` extended by each
    /// configured extension in turn.
    fn resolve_index(&self, fs: &Fs, path: &String) -> (r: Result<String, Error>)
        ensures
            match spec_resolve_index(*fs, self.spec_extensions(), path@) {
                Some(p) => r is Ok && r->Ok_0@ == p,
                None => r == Result::<String, Error>::Err(Error::IOError(IoErrorKind::NotFound)),
            },
    {
        let ghost edv = self.spec_extensions();
        let mut j: usize = 0;
        proof {
            assert(edv.skip(0) =~= edv);
        }
        while j < self.extensions.len()
            invariant
                j <= self.extensions@.len(),
                edv == self.spec_extensions(),
                edv.len() == self.extensions@.len(),
                spec_resolve_index(*fs, edv.skip(j as int), path@) == spec_resolve_index(
                    *fs,
                    edv,
                    path@,
                ),
            decreases self.extensions@.len() - j,
        {
            proof {
                assert(edv.skip(j as int)[0] == edv[j as int]);
                assert(edv[j as int] == self.extensions@[j as int]@);
            }
            let mut name = "index".to_owned();
            name.append(self.extensions[j].as_str());
            let candidate = join(path.as_str(), name.as_str());
            if fs.is_file(&candidate) {
                return Ok(candidate);
            }
            proof {
                assert(edv.skip(j as int).drop_first() =~= edv.skip(j + 1));
            }
            j = j + 1;
        }
        proof {
            assert(edv.skip(j as int) =~= Seq::<Seq<char>>::empty());
        }
        Err(Error::IOError(IoErrorKind::NotFound))
    }

    /// Resolve a path as a directory: an entry point named by a manifest
    /// directly inside it wins, and on any manifest failure the directory
    /// falls back silently to its `index` file.
    fn resolve_as_directory(&self, fs: &Fs, path: &String, fuel: usize) -> (r: Result<
        String,
        Error,
    >)
        ensures
            match spec_resolve_as_directory(
                *fs,
                self.spec_extensions(),
                self.spec_main_fields(),
                path@,
                fuel as nat,
            ) {
                Some(p) => r is Ok && r->Ok_0@ == p,
                None => r == Result::<String, Error>::Err(Error::IOError(IoErrorKind::NotFound)),
            },
        decreases fuel, 0nat,
    {
        if !fs.is_dir(path) {
            return Err(Error::IOError(IoErrorKind::NotFound));
        }
        let pkg = join(path.as_str(), "package.json");
        if fs.is_file(&pkg) && fuel > 0 {
            let main = self.resolve_package_main(fs, &pkg, fuel - 1);
            if let Ok(p) = main {
                return Ok(p);
            }
        }
        self.resolve_index(fs, path)
    }

    /// Resolve using a manifest's entry-point field: the first configured
    /// field held as a string names a target relative to the manifest's
    /// directory, resolved as a file and then as a directory.
    fn resolve_package_main(&self, fs: &Fs, pkg_path: &String, fuel: usize) -> (r: Result<
        String,
        Error,
    >)
        ensures
            ({
                let s = spec_resolve_package_main(
                    *fs,
                    self.spec_extensions(),
                    self.spec_main_fields(),
                    pkg_path@,
                    fuel as nat,
                );
                &&& r is Ok <==> s is Some
                &&& r is Ok ==> r->Ok_0@ == s->0
            }),
        decreases fuel, 1nat,
    {
        let pkg_dir = match parent(pkg_path.as_str()) {
            Some(d) => d,
            None => {
                let root = "/";
                proof {
                    reveal_strlit("/");
                    assert(root@ =~= seq!['/']);
                }
                root.to_owned()
            },
        };
        let bytes = match fs.read_file(pkg_path) {
            Some(b) => b,
            None => {
                return Err(Error::ResolutionError(ResolutionError::new("package.json is unreadable")));
            },
        };
        let target = match select_main_field(&bytes, &self.main_fields) {
            Some(t) => t,
            None => {
                return Err(
                    Error::ResolutionError(
                        ResolutionError::new("package.json does not contain a \"main\" string"),
                    ),
                );
            },
        };
        let tp = join(pkg_dir.as_str(), target.as_str());
        match self.resolve_as_file(fs, &tp) {
            Ok(p) => Ok(p),
            Err(_) => self.resolve_as_directory(fs, &tp, fuel),
        }
    }

    /// Resolve a bare specifier by walking up the ancestor directories and
    /// trying each one's dependency-package folder, nearest first.
    fn resolve_node_modules(&self, fs: &Fs, target: &str) -> (r: Result<String, Error>)
        ensures
            match self.spec_basedir() {
                None => r == Result::<String, Error>::Err(Error::UnconfiguredBasedir),
                Some(b) => match spec_node_modules_walk(
                    *fs,
                    self.spec_extensions(),
                    self.spec_main_fields(),
                    b,
                    target@,
                ) {
                    Some(p) => r is Ok && r->Ok_0@ == p,
                    None => r == Result::<String, Error>::Err(
                        Error::IOError(IoErrorKind::NotFound),
                    ),
                },
            },
    {
        let ghost edv = self.spec_extensions();
        let ghost mdv = self.spec_main_fields();
        let mut dir = match self.get_basedir() {
            Ok(b) => b.clone(),
            Err(e) => {
                return Err(e);
            },
        };
        let ghost base0 = dir@;
        loop
            invariant
                edv == self.spec_extensions(),
                mdv == self.spec_main_fields(),
                self.spec_basedir() == Some(base0),
                spec_node_modules_walk(*fs, edv, mdv, dir@, target@) == spec_node_modules_walk(
                    *fs,
                    edv,
                    mdv,
                    base0,
                    target@,
                ),
            decreases dir@.len(),
        {
            let nm = join(dir.as_str(), "node_modules");
            if fs.is_dir(&nm) {
                let p = join(nm.as_str(), target);
                match self.resolve_as_file(fs, &p) {
                    Ok(found) => {
                        return Ok(found);
                    },
                    Err(_) => {},
                }
                match self.resolve_as_directory(fs, &p, MAIN_FUEL) {
                    Ok(found) => {
                        return Ok(found);
                    },
                    Err(_) => {},
                }
            }
            proof {
                assert(spec_node_modules_attempt(*fs, edv, mdv, dir@, target@) is None);
            }
            match parent(dir.as_str()) {
                Some(pd) => {
                    proof {
                        lemma_parent_shorter(dir@);
                    }
                    dir = pd;
                },
                None => {
                    return Err(Error::IOError(IoErrorKind::NotFound));
                },
            }
        }
    }

    /// Normalize a resolved path. When symbolic links are preserved this only
    /// removes excess `./` and `../` components; otherwise it is the
    /// filesystem's canonical real path.
    fn normalize(&self, fs: &Fs, path: &String) -> (r: Result<String, Error>)
        ensures
            result_agrees(r, spec_normalize(*fs, self.preserve_symlinks, path@)),
    {
        if self.preserve_symlinks {
            Ok(normalize_path(path.as_str()))
        } else {
            match fs.canonical_of(path) {
                Some(Some(c)) => Ok(c),
                Some(None) => Err(Error::IOError(IoErrorKind::Other)),
                None => Err(Error::IOError(IoErrorKind::NotFound)),
            }
        }
    }

    /// Resolve a `require('target')` argument against the snapshot `fs`.
    ///
    /// A builtin name is returned unchanged, before anything else is
    /// consulted. An absolute specifier is resolved against the filesystem
    /// root, whatever the basedir; any other specifier requires a configured
    /// basedir. An explicit specifier is joined to its base and resolved as a
    /// file, then as a directory; a bare specifier goes through the
    /// dependency-tree walk. The found path is then normalized.
    pub fn resolve(&self, target: &str, fs: &Fs) -> (r: Result<String, Error>)
        ensures
            result_agrees(r, spec_resolve_with(*self, *fs, target@)),
    {
        if is_core_module(target) {
            return Ok(target.to_owned());
        }
        let basedir: String = if is_absolute(target) {
            let root = "/";
            proof {
                reveal_strlit("/");
                assert(root@ =~= seq!['/']);
            }
            root.to_owned()
        } else {
            match self.get_basedir() {
                Ok(b) => b.clone(),
                Err(e) => {
                    return Err(e);
                },
            }
        };
        if is_explicit(target) {
            let path = join(basedir.as_str(), target);
            let found = match self.resolve_as_file(fs, &path) {
                Ok(p) => Ok(p),
                Err(_) => self.resolve_as_directory(fs, &path, MAIN_FUEL),
            };
            match found {
                Ok(p) => self.normalize(fs, &p),
                Err(e) => Err(e),
            }
        } else {
            match self.resolve_node_modules(fs, target) {
                Ok(p) => self.normalize(fs, &p),
                Err(e) => Err(e),
            }
        }
    }
}

/// Resolve a module path against the working-directory marker `.`.
/// Returns the resolved path, or an error.
pub fn resolve(target: &str, fs: &Fs) -> (r: Result<String, Error>)
    ensures
        result_agrees(
            r,
            spec_resolve(
                *fs,
                Some("."@),
                default_extensions(),
                default_main_fields(),
                false,
                target@,
            ),
        ),
{
    Resolver::default().with_basedir(".".to_owned()).resolve(target, fs)
}

/// Resolve a module path relative to `basedir`.
/// Returns the resolved path, or an error.
pub fn resolve_from(target: &str, basedir: String, fs: &Fs) -> (r: Result<String, Error>)
    ensures
        result_agrees(
            r,
            spec_resolve(
                *fs,
                Some(basedir@),
                default_extensions(),
                default_main_fields(),
                false,
                target@,
            ),
        ),
{
    Resolver::default().with_basedir(basedir).resolve(target, fs)
}

} // verus!
