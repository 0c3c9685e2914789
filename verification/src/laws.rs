//! Laws of the resolution algorithm: precedence, fallback, walk order,
//! normalization shape, idempotence, and basedir independence, each proved
//! over the specification functions the entry points' contracts use.

use vstd::prelude::*;
use crate::builtins::is_builtin;
use crate::fs::Fs;
use crate::manifest::first_main_field;
use crate::paths::glue_segments;
use crate::paths::is_absolute_spec;
use crate::paths::is_dot_segment;
use crate::paths::is_dotdot_segment;
use crate::paths::join_spec;
use crate::paths::lemma_normal_segments_join;
use crate::paths::lemma_parent_shorter;
use crate::paths::norm_scan;
use crate::paths::norm_step;
use crate::paths::normal_segments;
use crate::paths::normalize_path_spec;
use crate::paths::parent_spec;
use crate::resolver::result_agrees;
use crate::resolver::spec_node_modules_attempt;
use crate::resolver::spec_node_modules_walk;
use crate::resolver::spec_resolve;
use crate::resolver::spec_resolve_as_directory;
use crate::resolver::spec_resolve_as_file;
use crate::resolver::spec_resolve_index;
use crate::resolver::spec_resolve_package_main;
use crate::resolver::Error;

verus! {

/// A builtin module name resolves to itself, unchanged, whatever the
/// configuration holds and whatever the filesystem looks like.
pub proof fn lemma_core_name_resolves_to_itself(
    fs: Fs,
    basedir: Option<Seq<char>>,
    exts: Seq<Seq<char>>,
    mains: Seq<Seq<char>>,
    preserve: bool,
    name: Seq<char>,
)
    requires
        is_builtin(name),
    ensures
        spec_resolve(fs, basedir, exts, mains, preserve, name) == Result::<Seq<char>, Error>::Ok(
            name,
        ),
{
}

/// Extension priority: when the candidate itself is not a file, the first
/// extension in list order that turns it into one decides the result of file
/// resolution.
pub proof fn lemma_extension_priority(fs: Fs, exts: Seq<Seq<char>>, path: Seq<char>, i: int)
    requires
        !fs.spec_is_file(path),
        0 <= i < exts.len(),
        fs.spec_is_file(path + exts[i]),
        forall|j: int| 0 <= j < i ==> !fs.spec_is_file(path + #[trigger] exts[j]),
    ensures
        spec_resolve_as_file(fs, exts, path) == Some(path + exts[i]),
    decreases i,
{
    if i > 0 {
        assert(exts.drop_first()[i - 1] == exts[i]);
        assert forall|j: int| 0 <= j < i - 1 implies !fs.spec_is_file(
            path + #[trigger] exts.drop_first()[j],
        ) by {
            assert(exts.drop_first()[j] == exts[j + 1]);
        }
        lemma_extension_priority(fs, exts.drop_first(), path, i - 1);
    }
}

/// Manifest precedence: in a directory whose manifest yields an entry point,
/// directory resolution returns that entry point — never the index file.
pub proof fn lemma_manifest_wins_over_index(
    fs: Fs,
    exts: Seq<Seq<char>>,
    mains: Seq<Seq<char>>,
    dir: Seq<char>,
    fuel: nat,
    entry: Seq<char>,
)
    requires
        fs.spec_is_dir(dir),
        fs.spec_is_file(join_spec(dir, "package.json"@)),
        fuel > 0,
        spec_resolve_package_main(
            fs,
            exts,
            mains,
            join_spec(dir, "package.json"@),
            (fuel - 1) as nat,
        ) == Some(entry),
    ensures
        spec_resolve_as_directory(fs, exts, mains, dir, fuel) == Some(entry),
{
}

/// Manifest fallback: a directory whose manifest yields nothing — because it
/// is absent, unreadable, not an object, or holds no configured field as a
/// string — resolves exactly as index resolution says, as if the manifest
/// were not there; no manifest failure surfaces.
pub proof fn lemma_manifest_failure_falls_back_to_index(
    fs: Fs,
    exts: Seq<Seq<char>>,
    mains: Seq<Seq<char>>,
    dir: Seq<char>,
    fuel: nat,
)
    requires
        fs.spec_is_dir(dir),
        fs.spec_is_file(join_spec(dir, "package.json"@)) && fuel > 0
            ==> spec_resolve_package_main(
            fs,
            exts,
            mains,
            join_spec(dir, "package.json"@),
            (fuel - 1) as nat,
        ) is None,
    ensures
        spec_resolve_as_directory(fs, exts, mains, dir, fuel) == spec_resolve_index(
            fs,
            exts,
            dir,
        ),
{
}

/// A manifest that holds no configured field as a string yields no entry
/// point, whatever else it holds.
pub proof fn lemma_manifest_without_main_yields_nothing(
    fs: Fs,
    exts: Seq<Seq<char>>,
    mains: Seq<Seq<char>>,
    pkg_path: Seq<char>,
    fuel: nat,
)
    requires
        match fs.spec_content(pkg_path) {
            Some(bytes) => first_main_field(bytes, mains) is None,
            None => true,
        },
    ensures
        spec_resolve_package_main(fs, exts, mains, pkg_path, fuel) is None,
{
}

/// The nearest ancestor wins: when the specifier resolves inside the
/// dependency-package folder of the starting directory itself, the walk
/// returns that result, whatever any shallower ancestor holds.
pub proof fn lemma_nearest_ancestor_wins(
    fs: Fs,
    exts: Seq<Seq<char>>,
    mains: Seq<Seq<char>>,
    dir: Seq<char>,
    target: Seq<char>,
    found: Seq<char>,
)
    requires
        spec_node_modules_attempt(fs, exts, mains, dir, target) == Some(found),
    ensures
        spec_node_modules_walk(fs, exts, mains, dir, target) == Some(found),
{
}

/// A directory whose dependency-package folder does not resolve the
/// specifier defers, unchanged, to its parent directory.
pub proof fn lemma_walk_defers_to_parent(
    fs: Fs,
    exts: Seq<Seq<char>>,
    mains: Seq<Seq<char>>,
    dir: Seq<char>,
    parent_dir: Seq<char>,
    target: Seq<char>,
)
    requires
        spec_node_modules_attempt(fs, exts, mains, dir, target) is None,
        parent_spec(dir) == Some(parent_dir),
    ensures
        spec_node_modules_walk(fs, exts, mains, dir, target) == spec_node_modules_walk(
            fs,
            exts,
            mains,
            parent_dir,
            target,
        ),
{
}

/// A path that names a dependency-package folder: the folder name itself, or
/// any path ending in a separator followed by the folder name.
pub open spec fn names_node_modules(p: Seq<char>) -> bool {
    let nm = "node_modules"@;
    p == nm || (p.len() > nm.len() && p.subrange(p.len() - nm.len() - 1, p.len() as int) == seq![
        '/',
    ] + nm)
}

/// Exhaustion: when no directory of the filesystem names a dependency-package
/// folder, the walk comes up empty from any starting directory — it reaches
/// the root and stops.
pub proof fn lemma_walk_exhaustion(
    fs: Fs,
    exts: Seq<Seq<char>>,
    mains: Seq<Seq<char>>,
    dir: Seq<char>,
    target: Seq<char>,
)
    requires
        forall|i: int| 0 <= i < fs.dirs@.len() ==> !names_node_modules(#[trigger] fs.dirs@[i]@),
    ensures
        spec_node_modules_walk(fs, exts, mains, dir, target) is None,
    decreases dir.len(),
{
    reveal_strlit("node_modules");
    let nmname = "node_modules"@;
    let nm = join_spec(dir, nmname);
    assert(nmname.len() == 12);
    assert(!nmname.contains('/')) by {
        if nmname.contains('/') {
            let t = choose|t: int| 0 <= t < nmname.len() && nmname[t] == '/';
        }
    }
    lemma_normal_segments_join(dir, nmname);
    let segs = normal_segments(nm);
    let norm = normalize_path_spec(nm);
    assert(segs.last() == nmname);
    assert(norm == glue_segments(segs));
    assert(norm =~= glue_segments(segs.drop_last()) + seq!['/'] + nmname);
    assert(norm.subrange(norm.len() - 13, norm.len() as int) =~= seq!['/'] + nmname);
    assert(names_node_modules(norm));
    assert(!fs.spec_is_dir(nm)) by {
        if fs.spec_is_dir(nm) {
            let i = choose|i: int|
                0 <= i < fs.dirs@.len() && fs.dirs@[i]@ == normalize_path_spec(nm);
            assert(!names_node_modules(fs.dirs@[i]@));
        }
    }
    assert(spec_node_modules_attempt(fs, exts, mains, dir, target) is None);
    match parent_spec(dir) {
        Some(pd) => {
            lemma_parent_shorter(dir);
            lemma_walk_exhaustion(fs, exts, mains, pd, target);
        },
        None => {},
    }
}

/// A segment that lexical normalization keeps: non-empty, not `.`, not `..`,
/// and free of separators.
pub open spec fn clean_segment(seg: Seq<char>) -> bool {
    seg.len() > 0 && !is_dot_segment(seg) && !is_dotdot_segment(seg) && !seg.contains('/')
}

proof fn lemma_norm_scan_clean(s: Seq<char>, i: int, stack: Seq<Seq<char>>, cur: Seq<char>)
    requires
        forall|k: int| 0 <= k < stack.len() ==> clean_segment(#[trigger] stack[k]),
        !cur.contains('/'),
    ensures
        forall|k: int|
            0 <= k < norm_scan(s, i, stack, cur).len() ==> clean_segment(
                #[trigger] norm_scan(s, i, stack, cur)[k],
            ),
    decreases s.len() - i,
{
    assert forall|k: int| 0 <= k < norm_step(stack, cur).len() implies clean_segment(
        #[trigger] norm_step(stack, cur)[k],
    ) by {
        if !(cur.len() == 0 || is_dot_segment(cur) || is_dotdot_segment(cur)) {
            assert(clean_segment(cur));
        }
    }
    if 0 <= i < s.len() {
        if s[i] == '/' {
            assert(!Seq::<char>::empty().contains('/'));
            lemma_norm_scan_clean(s, i + 1, norm_step(stack, cur), Seq::empty());
            assert(norm_scan(s, i, stack, cur) == norm_scan(
                s,
                i + 1,
                norm_step(stack, cur),
                Seq::empty(),
            ));
        } else {
            let cur2 = cur.push(s[i]);
            assert(!cur2.contains('/')) by {
                if cur2.contains('/') {
                    let t = choose|t: int| 0 <= t < cur2.len() && cur2[t] == '/';
                    if t < cur.len() {
                        assert(cur[t] == '/');
                    }
                }
            }
            lemma_norm_scan_clean(s, i + 1, stack, cur2);
            assert(norm_scan(s, i, stack, cur) == norm_scan(s, i + 1, stack, cur2));
        }
    } else {
        assert(norm_scan(s, i, stack, cur) == norm_step(stack, cur));
    }
}

proof fn lemma_glue_starts_with_slash(segs: Seq<Seq<char>>)
    requires
        segs.len() > 0,
    ensures
        glue_segments(segs).len() > 0,
        glue_segments(segs)[0] == '/',
    decreases segs.len(),
{
    if segs.len() == 1 {
        assert(segs.drop_last().len() == 0);
        assert(glue_segments(segs.drop_last()).len() == 0);
        assert(glue_segments(segs)[0] == '/');
    } else {
        lemma_glue_starts_with_slash(segs.drop_last());
        assert(glue_segments(segs)[0] == glue_segments(segs.drop_last())[0]);
    }
}

/// The shape of a lexically normalized path: it begins with the root marker,
/// and every segment it keeps is non-empty, not `.`, not `..`, and free of
/// separators — no `.`/`..` component survives normalization.
pub proof fn lemma_normalized_path_shape(p: Seq<char>)
    ensures
        normalize_path_spec(p).len() > 0,
        normalize_path_spec(p)[0] == '/',
        forall|k: int|
            0 <= k < normal_segments(p).len() ==> clean_segment(#[trigger] normal_segments(p)[k]),
{
    assert(!Seq::<char>::empty().contains('/'));
    lemma_norm_scan_clean(p, 0, Seq::empty(), Seq::empty());
    if normal_segments(p).len() > 0 {
        lemma_glue_starts_with_slash(normal_segments(p));
    }
}

/// Idempotence: two runs of the same resolution, against the same
/// configuration and the same filesystem state, realize the same outcome —
/// the same path on success, the very same error otherwise.
pub proof fn lemma_resolution_idempotent(
    r1: Result<String, Error>,
    r2: Result<String, Error>,
    fs: Fs,
    basedir: Option<Seq<char>>,
    exts: Seq<Seq<char>>,
    mains: Seq<Seq<char>>,
    preserve: bool,
    target: Seq<char>,
)
    requires
        result_agrees(r1, spec_resolve(fs, basedir, exts, mains, preserve, target)),
        result_agrees(r2, spec_resolve(fs, basedir, exts, mains, preserve, target)),
    ensures
        r1 is Ok <==> r2 is Ok,
        r1 is Ok ==> r1->Ok_0@ == r2->Ok_0@,
        r1 is Err ==> r1->Err_0 == r2->Err_0,
{
}

/// An absolute specifier resolves independently of the basedir: only the
/// filesystem root serves as its base, so any two configurations that agree
/// on everything but the basedir resolve it alike.
pub proof fn lemma_absolute_ignores_basedir(
    fs: Fs,
    basedir1: Option<Seq<char>>,
    basedir2: Option<Seq<char>>,
    exts: Seq<Seq<char>>,
    mains: Seq<Seq<char>>,
    preserve: bool,
    target: Seq<char>,
)
    requires
        is_absolute_spec(target),
    ensures
        spec_resolve(fs, basedir1, exts, mains, preserve, target) == spec_resolve(
            fs,
            basedir2,
            exts,
            mains,
            preserve,
            target,
        ),
{
}

} // verus!
