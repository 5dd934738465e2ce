//! The configuration of a scan: its root directories and the directories that
//! it leaves out.

use vstd::prelude::*;
use vstd::string::*;

use crate::paths::{
    below_is_transitive, display_path_string, is_below, is_descendant_key, normalized_path_string,
    path_key, shown_path, PathRules,
};
use crate::text::{is_blank, texts, trim_text, trimmed, CharClass};

verus! {

/// A directory of a scan.
pub struct RootSpec {
    pub path: String,
    pub display_path: String,
    pub key: String,
}

/// A directory of a scan, as a value.
pub struct RootModel {
    pub path: Seq<char>,
    pub display_path: Seq<char>,
    pub key: Seq<char>,
}

impl RootSpec {
    pub open spec fn model(self) -> RootModel {
        RootModel { path: self.path@, display_path: self.display_path@, key: self.key@ }
    }
}

/// Directories of a scan, as values.
pub open spec fn root_models(roots: Seq<RootSpec>) -> Seq<RootModel> {
    roots.map_values(|r: RootSpec| r.model())
}

/// A path that was given for a scan, with the absolute path that it was found
/// to be, or the reason why it could not be found.
pub struct ScanPath {
    pub given: String,
    pub resolved: Result<String, String>,
}

/// What a scan works on.
pub struct PreparedScanConfig {
    pub roots: Vec<RootSpec>,
    pub excluded_paths: Vec<String>,
}

/// The directory of a resolved path.
pub open spec fn root_at(path: Seq<char>, windows: bool) -> RootModel {
    RootModel {
        path,
        display_path: shown_path(path, windows),
        key: path_key(path, windows),
    }
}

/// The directory of a key is one of these or lies below one of them.
pub open spec fn is_covered(roots: Seq<RootModel>, key: Seq<char>) -> bool {
    exists|i: int|
        0 <= i < roots.len() && ((#[trigger] roots[i]).key == key || is_below(key, roots[i].key))
}

/// Whether a directory does not lie below the one of a key.
pub open spec fn not_below(key: Seq<char>) -> spec_fn(RootModel) -> bool {
    |r: RootModel| !is_below(r.key, key)
}

/// Directories with one more: a directory that is covered adds nothing, and
/// one that covers others takes their place.
pub open spec fn with_root(roots: Seq<RootModel>, root: RootModel) -> Seq<RootModel> {
    if is_covered(roots, root.key) {
        roots
    } else {
        roots.filter(not_below(root.key)).push(root)
    }
}

/// The roots of a scan, or why there are none.
pub open spec fn roots_of(paths: Seq<ScanPath>, windows: bool) -> Result<
    Seq<RootModel>,
    Seq<char>,
>
    decreases paths.len(),
{
    if paths.len() == 0 {
        Ok(Seq::empty())
    } else {
        let last = paths.last();
        match roots_of(paths.drop_last(), windows) {
            Err(error) => Err(error),
            Ok(roots) => if is_blank(last.given@) {
                Ok(roots)
            } else {
                match last.resolved {
                    Err(error) => Err(
                        "无法解析扫描目录 "@ + trimmed(last.given@, CharClass::Space) + "："@
                            + error@,
                    ),
                    Ok(path) => Ok(with_root(roots, root_at(path@, windows))),
                }
            },
        }
    }
}

/// Why a directory cannot be left out of a scan of these roots, if it cannot.
pub open spec fn exclusion_error(roots: Seq<RootModel>, root: RootModel) -> Option<Seq<char>> {
    if exists|i: int| 0 <= i < roots.len() && (#[trigger] roots[i]).key == root.key {
        Some("排除目录不能与扫描根目录相同："@ + root.display_path)
    } else if !is_covered(roots, root.key) {
        Some("排除目录必须位于所选扫描目录内："@ + root.display_path)
    } else {
        None
    }
}

/// The directories that a scan of these roots leaves out, or why it cannot.
pub open spec fn exclusions_of(
    roots: Seq<RootModel>,
    paths: Seq<ScanPath>,
    windows: bool,
) -> Result<Seq<RootModel>, Seq<char>>
    decreases paths.len(),
{
    if paths.len() == 0 {
        Ok(Seq::empty())
    } else {
        let last = paths.last();
        match exclusions_of(roots, paths.drop_last(), windows) {
            Err(error) => Err(error),
            Ok(exclusions) => if is_blank(last.given@) {
                Ok(exclusions)
            } else {
                match last.resolved {
                    Err(error) => Err(
                        "无法解析排除目录 "@ + trimmed(last.given@, CharClass::Space) + "："@
                            + error@,
                    ),
                    Ok(path) => {
                        let root = root_at(path@, windows);
                        match exclusion_error(roots, root) {
                            Some(error) => Err(error),
                            None => Ok(with_root(exclusions, root)),
                        }
                    },
                }
            },
        }
    }
}

/// The paths of directories as they are shown.
pub open spec fn display_paths(roots: Seq<RootModel>) -> Seq<Seq<char>> {
    roots.map_values(|r: RootModel| r.display_path)
}

/// What a scan of the given paths works on, or why it cannot be done.
pub open spec fn config_of(
    paths: Seq<ScanPath>,
    excluded_paths: Seq<ScanPath>,
    windows: bool,
) -> Result<(Seq<RootModel>, Seq<Seq<char>>), Seq<char>> {
    match roots_of(paths, windows) {
        Err(error) => Err(error),
        Ok(roots) => if roots.len() == 0 {
            Err("至少需要选择一个有效目录"@)
        } else {
            match exclusions_of(roots, excluded_paths, windows) {
                Err(error) => Err(error),
                Ok(exclusions) => Ok((roots, display_paths(exclusions))),
            }
        },
    }
}

fn root_spec(path: &str, rules: PathRules) -> (r: RootSpec)
    ensures
        r.model() == root_at(path@, rules.windows()),
{
    RootSpec {
        path: path.to_string(),
        display_path: display_path_string(path, rules),
        key: normalized_path_string(path, rules),
    }
}

fn covers(roots: &Vec<RootSpec>, key: &str) -> (r: bool)
    ensures
        r == is_covered(root_models(roots@), key@),
{
    let ghost all = root_models(roots@);
    let mut i: usize = 0;
    while i < roots.len()
        invariant
            i <= roots@.len(),
            all == root_models(roots@),
            forall|j: int|
                0 <= j < i ==> (#[trigger] all[j]).key != key@ && !is_below(key@, all[j].key),
        decreases roots@.len() - i,
    {
        proof {
            assert(all[i as int] == roots@[i as int].model());
        }
        if *roots[i].key.as_str() == *key || is_descendant_key(key, roots[i].key.as_str()) {
            return true;
        }
        i += 1;
    }
    false
}

fn has_key(roots: &Vec<RootSpec>, key: &str) -> (r: bool)
    ensures
        r == exists|i: int|
            0 <= i < root_models(roots@).len() && (#[trigger] root_models(roots@)[i]).key == key@,
{
    let ghost all = root_models(roots@);
    let mut i: usize = 0;
    while i < roots.len()
        invariant
            i <= roots@.len(),
            all == root_models(roots@),
            forall|j: int| 0 <= j < i ==> (#[trigger] all[j]).key != key@,
        decreases roots@.len() - i,
    {
        proof {
            assert(all[i as int] == roots@[i as int].model());
        }
        if *roots[i].key.as_str() == *key {
            return true;
        }
        i += 1;
    }
    false
}

fn add_root(roots: Vec<RootSpec>, root: RootSpec) -> (r: Vec<RootSpec>)
    ensures
        root_models(r@) == with_root(root_models(roots@), root.model()),
{
    if covers(&roots, root.key.as_str()) {
        return roots;
    }
    let ghost all = root_models(roots@);
    let ghost added = root.model();
    let ghost keep = not_below(root.key@);
    let mut kept: Vec<RootSpec> = Vec::new();
    proof {
        reveal(Seq::filter);
        assert(all.take(0) =~= Seq::empty());
        assert(root_models(kept@) =~= Seq::empty());
    }
    for other in it: roots
        invariant
            it.seq() == roots@,
            all == root_models(roots@),
            keep == not_below(root.key@),
            root_models(kept@) == all.take(it.index() as int).filter(keep),
    {
        let ghost n = it.index() as int;
        let ghost model = other.model();
        let ghost before = kept@;
        proof {
            reveal(Seq::filter);
            assert(all.take(n + 1).drop_last() =~= all.take(n));
            assert(all.take(n + 1).last() == model);
        }
        if !is_descendant_key(other.key.as_str(), root.key.as_str()) {
            kept.push(other);
            proof {
                assert(root_models(kept@) =~= root_models(before).push(model));
            }
        }
    }
    let ghost before = kept@;
    kept.push(root);
    proof {
        assert(all.take(roots@.len() as int) =~= all);
        assert(root_models(kept@) =~= root_models(before).push(added));
    }
    kept
}

/// The paths of directories as they are shown.
pub fn shown_paths(roots: &Vec<RootSpec>) -> (r: Vec<String>)
    ensures
        texts(r@) == display_paths(root_models(roots@)),
{
    let ghost all = display_paths(root_models(roots@));
    let mut shown: Vec<String> = Vec::new();
    let mut i: usize = 0;
    while i < roots.len()
        invariant
            i <= roots@.len(),
            all == display_paths(root_models(roots@)),
            all.len() == roots@.len(),
            shown@.len() == i,
            forall|j: int| 0 <= j < i ==> (#[trigger] shown@[j])@ == all[j],
        decreases roots@.len() - i,
    {
        proof {
            assert(all[i as int] == roots@[i as int].display_path@);
        }
        shown.push(roots[i].display_path.clone());
        i += 1;
    }
    proof {
        assert(texts(shown@) =~= all);
    }
    shown
}

/// What a scan of the given paths works on: the roots without those that lie
/// below others, and the directories to leave out, each inside a root.
pub fn prepare_scan_config(
    paths: &Vec<ScanPath>,
    excluded_paths: &Vec<ScanPath>,
    rules: PathRules,
) -> (r: Result<PreparedScanConfig, String>)
    ensures
        match config_of(paths@, excluded_paths@, rules.windows()) {
            Ok((roots, excluded)) => r matches Ok(config) && root_models(config.roots@) == roots
                && texts(config.excluded_paths@) == excluded,
            Err(error) => r matches Err(message) && message@ == error,
        },
{
    let ghost windows = rules.windows();
    let mut roots: Vec<RootSpec> = Vec::new();
    let mut i: usize = 0;
    proof {
        assert(root_models(roots@) =~= Seq::empty());
    }
    while i < paths.len()
        invariant
            i <= paths@.len(),
            windows == rules.windows(),
            roots_of(paths@.take(i as int), windows) == Ok::<Seq<RootModel>, Seq<char>>(
                root_models(roots@),
            ),
        decreases paths@.len() - i,
    {
        proof {
            assert(paths@.take(i + 1).drop_last() =~= paths@.take(i as int));
            assert(paths@.take(i + 1).last() == paths@[i as int]);
        }
        let trimmed = trim_text(paths[i].given.as_str());
        if !trimmed.as_str().is_empty() {
            match &paths[i].resolved {
                Ok(path) => {
                    roots = add_root(roots, root_spec(path.as_str(), rules));
                },
                Err(error) => {
                    let message = "无法解析扫描目录 ".to_string().concat(trimmed.as_str()).concat(
                        "：",
                    ).concat(error.as_str());
                    proof {
                        lemma_roots_error(paths@, i as int, windows);
                    }
                    return Err(message);
                },
            }
        }
        i += 1;
    }
    proof {
        assert(paths@.take(paths@.len() as int) =~= paths@);
    }
    if roots.len() == 0 {
        return Err("至少需要选择一个有效目录".to_string());
    }
    let ghost all = root_models(roots@);
    let mut exclusions: Vec<RootSpec> = Vec::new();
    let mut j: usize = 0;
    proof {
        assert(root_models(exclusions@) =~= Seq::empty());
    }
    while j < excluded_paths.len()
        invariant
            j <= excluded_paths@.len(),
            windows == rules.windows(),
            all == root_models(roots@),
            all.len() > 0,
            roots_of(paths@, windows) == Ok::<Seq<RootModel>, Seq<char>>(all),
            exclusions_of(all, excluded_paths@.take(j as int), windows) == Ok::<
                Seq<RootModel>,
                Seq<char>,
            >(root_models(exclusions@)),
        decreases excluded_paths@.len() - j,
    {
        proof {
            assert(excluded_paths@.take(j + 1).drop_last() =~= excluded_paths@.take(j as int));
            assert(excluded_paths@.take(j + 1).last() == excluded_paths@[j as int]);
        }
        let trimmed = trim_text(excluded_paths[j].given.as_str());
        if !trimmed.as_str().is_empty() {
            match &excluded_paths[j].resolved {
                Ok(path) => {
                    let root = root_spec(path.as_str(), rules);
                    if has_key(&roots, root.key.as_str()) {
                        proof {
                            lemma_exclusions_error(all, excluded_paths@, j as int, windows);
                        }
                        return Err(
                            "排除目录不能与扫描根目录相同：".to_string().concat(
                                root.display_path.as_str(),
                            ),
                        );
                    }
                    if !covers(&roots, root.key.as_str()) {
                        proof {
                            lemma_exclusions_error(all, excluded_paths@, j as int, windows);
                        }
                        return Err(
                            "排除目录必须位于所选扫描目录内：".to_string().concat(
                                root.display_path.as_str(),
                            ),
                        );
                    }
                    exclusions = add_root(exclusions, root);
                },
                Err(error) => {
                    let message = "无法解析排除目录 ".to_string().concat(trimmed.as_str()).concat(
                        "：",
                    ).concat(error.as_str());
                    proof {
                        lemma_exclusions_error(all, excluded_paths@, j as int, windows);
                    }
                    return Err(message);
                },
            }
        }
        j += 1;
    }
    proof {
        assert(excluded_paths@.take(excluded_paths@.len() as int) =~= excluded_paths@);
    }
    let shown = shown_paths(&exclusions);
    Ok(PreparedScanConfig { roots, excluded_paths: shown })
}

proof fn lemma_roots_error(paths: Seq<ScanPath>, n: int, windows: bool)
    requires
        0 <= n < paths.len(),
        roots_of(paths.take(n + 1), windows) is Err,
    ensures
        roots_of(paths, windows) == roots_of(paths.take(n + 1), windows),
    decreases paths.len(),
{
    if n == paths.len() - 1 {
        assert(paths.take(n + 1) =~= paths);
    } else {
        assert(paths.drop_last().take(n + 1) =~= paths.take(n + 1));
        lemma_roots_error(paths.drop_last(), n, windows);
    }
}

proof fn lemma_exclusions_error(
    roots: Seq<RootModel>,
    paths: Seq<ScanPath>,
    n: int,
    windows: bool,
)
    requires
        0 <= n < paths.len(),
        exclusions_of(roots, paths.take(n + 1), windows) is Err,
    ensures
        exclusions_of(roots, paths, windows) == exclusions_of(roots, paths.take(n + 1), windows),
    decreases paths.len(),
{
    if n == paths.len() - 1 {
        assert(paths.take(n + 1) =~= paths);
    } else {
        assert(paths.drop_last().take(n + 1) =~= paths.take(n + 1));
        lemma_exclusions_error(roots, paths.drop_last(), n, windows);
    }
}

// ---------------------------------------------------------------------------
// Laws
// ---------------------------------------------------------------------------

/// No directory is another one or lies below another one.
pub open spec fn are_apart(roots: Seq<RootModel>) -> bool {
    forall|i: int, j: int|
        0 <= i < roots.len() && 0 <= j < roots.len() && i != j ==> (#[trigger] roots[i]).key != (
        #[trigger] roots[j]).key && !is_below(roots[i].key, roots[j].key)
}

proof fn lemma_kept(roots: Seq<RootModel>, key: Seq<char>)
    ensures
        forall|i: int|
            0 <= i < roots.filter(not_below(key)).len() ==> !is_below(
                (#[trigger] roots.filter(not_below(key))[i]).key,
                key,
            ) && roots.contains(roots.filter(not_below(key))[i]),
        forall|i: int|
            0 <= i < roots.len() && !is_below((#[trigger] roots[i]).key, key) ==> roots.filter(
                not_below(key),
            ).contains(roots[i]),
        are_apart(roots) ==> are_apart(roots.filter(not_below(key))),
    decreases roots.len(),
{
    reveal(Seq::filter);
    if roots.len() > 0 {
        let before = roots.drop_last();
        let last = roots.last();
        let kept = roots.filter(not_below(key));
        let kept_before = before.filter(not_below(key));
        lemma_kept(before, key);
        assert forall|i: int| 0 <= i < kept.len() implies !is_below((#[trigger] kept[i]).key, key)
            && roots.contains(kept[i]) by {
            if i < kept_before.len() {
                assert(before.contains(kept_before[i]));
                let j = choose|j: int| 0 <= j < before.len() && before[j] == kept_before[i];
                assert(roots[j] == kept[i]);
            } else {
                assert(roots[roots.len() - 1] == kept[i]);
            }
        }
        assert forall|i: int|
            0 <= i < roots.len() && !is_below((#[trigger] roots[i]).key, key) implies kept.contains(
            roots[i],
        ) by {
            if i < before.len() {
                assert(before[i] == roots[i]);
                assert(kept_before.contains(before[i]));
                let j = choose|j: int| 0 <= j < kept_before.len() && kept_before[j] == before[i];
                assert(kept[j] == roots[i]);
            } else {
                assert(kept[kept.len() - 1] == roots[i]);
            }
        }
        if are_apart(roots) {
            assert forall|i: int, j: int|
                0 <= i < before.len() && 0 <= j < before.len() && i != j implies (
            #[trigger] before[i]).key != (#[trigger] before[j]).key && !is_below(
                before[i].key,
                before[j].key,
            ) by {
                assert(before[i] == roots[i] && before[j] == roots[j]);
            }
            assert(are_apart(before));
            assert forall|i: int, j: int|
                0 <= i < kept.len() && 0 <= j < kept.len() && i != j implies (
            #[trigger] kept[i]).key != (#[trigger] kept[j]).key && !is_below(
                kept[i].key,
                kept[j].key,
            ) by {
                let n = roots.len() - 1;
                if i < kept_before.len() {
                    assert(kept[i] == kept_before[i]);
                    assert(before.contains(kept_before[i]));
                }
                if j < kept_before.len() {
                    assert(kept[j] == kept_before[j]);
                    assert(before.contains(kept_before[j]));
                }
                if i >= kept_before.len() {
                    let b = choose|b: int| 0 <= b < before.len() && before[b] == kept_before[j];
                    assert(roots[b] == kept[j] && roots[n] == kept[i]);
                }
                if j >= kept_before.len() {
                    let a = choose|a: int| 0 <= a < before.len() && before[a] == kept_before[i];
                    assert(roots[a] == kept[i] && roots[n] == kept[j]);
                }
            }
        }
    }
}

/// Adding a directory keeps directories apart.
pub proof fn adding_keeps_apart(roots: Seq<RootModel>, root: RootModel)
    requires
        are_apart(roots),
    ensures
        are_apart(with_root(roots, root)),
{
    if !is_covered(roots, root.key) {
        let kept = roots.filter(not_below(root.key));
        let all = kept.push(root);
        lemma_kept(roots, root.key);
        assert forall|i: int, j: int|
            0 <= i < all.len() && 0 <= j < all.len() && i != j implies (#[trigger] all[i]).key != (
        #[trigger] all[j]).key && !is_below(all[i].key, all[j].key) by {
            if i < kept.len() {
                assert(all[i] == kept[i]);
                assert(roots.contains(kept[i]));
                let a = choose|a: int| 0 <= a < roots.len() && roots[a] == kept[i];
                assert(roots[a].key != root.key);
            }
            if j < kept.len() {
                assert(all[j] == kept[j]);
                assert(roots.contains(kept[j]));
                let b = choose|b: int| 0 <= b < roots.len() && roots[b] == kept[j];
                assert(roots[b].key != root.key && !is_below(root.key, roots[b].key));
            }
        }
    }
}

/// Adding a directory covers it, and leaves covered what was covered.
pub proof fn adding_covers(roots: Seq<RootModel>, root: RootModel, key: Seq<char>)
    requires
        is_covered(roots, key) || key == root.key,
    ensures
        is_covered(with_root(roots, root), key),
{
    if !is_covered(roots, root.key) {
        let kept = roots.filter(not_below(root.key));
        let all = kept.push(root);
        lemma_kept(roots, root.key);
        assert(all[kept.len() as int] == root);
        if key != root.key {
            let i = choose|i: int|
                0 <= i < roots.len() && ((#[trigger] roots[i]).key == key || is_below(
                    key,
                    roots[i].key,
                ));
            if is_below(roots[i].key, root.key) {
                if roots[i].key != key {
                    below_is_transitive(key, roots[i].key, root.key);
                }
            } else {
                assert(kept.contains(roots[i]));
                let j = choose|j: int| 0 <= j < kept.len() && kept[j] == roots[i];
                assert(all[j] == roots[i]);
            }
        }
    }
}

/// The roots of a scan are apart: none is another one or lies below another.
pub proof fn roots_are_apart(paths: Seq<ScanPath>, windows: bool)
    ensures
        roots_of(paths, windows) matches Ok(roots) ==> are_apart(roots),
    decreases paths.len(),
{
    if paths.len() > 0 {
        roots_are_apart(paths.drop_last(), windows);
        if let Ok(roots) = roots_of(paths.drop_last(), windows) {
            if let Ok(path) = paths.last().resolved {
                adding_keeps_apart(roots, root_at(path@, windows));
            }
        }
    }
}

/// Every path that was given is one of the roots of a scan or lies below one.
pub proof fn every_path_is_covered(paths: Seq<ScanPath>, i: int, windows: bool)
    requires
        0 <= i < paths.len(),
        !is_blank(paths[i].given@),
        paths[i].resolved is Ok,
    ensures
        roots_of(paths, windows) matches Ok(roots) ==> is_covered(
            roots,
            path_key(paths[i].resolved->Ok_0@, windows),
        ),
    decreases paths.len(),
{
    let key = path_key(paths[i].resolved->Ok_0@, windows);
    let before = paths.drop_last();
    if let Ok(roots) = roots_of(before, windows) {
        if i < before.len() {
            assert(before[i] == paths[i]);
            every_path_is_covered(before, i, windows);
        }
        if let Ok(path) = paths.last().resolved {
            adding_covers_or_keeps(roots, root_at(path@, windows), key);
        }
    }
}

proof fn adding_covers_or_keeps(roots: Seq<RootModel>, root: RootModel, key: Seq<char>)
    ensures
        is_covered(roots, key) || key == root.key ==> is_covered(with_root(roots, root), key),
{
    if is_covered(roots, key) || key == root.key {
        adding_covers(roots, root, key);
    }
}

/// The directories that a scan leaves out are apart, and each lies inside one
/// of the roots without being a root.
pub proof fn exclusions_lie_inside_roots(
    roots: Seq<RootModel>,
    paths: Seq<ScanPath>,
    windows: bool,
)
    ensures
        exclusions_of(roots, paths, windows) matches Ok(exclusions) ==> {
            &&& are_apart(exclusions)
            &&& forall|i: int|
                0 <= i < exclusions.len() ==> lies_inside(roots, (#[trigger] exclusions[i]).key)
        },
    decreases paths.len(),
{
    if paths.len() > 0 {
        exclusions_lie_inside_roots(roots, paths.drop_last(), windows);
        if let Ok(exclusions) = exclusions_of(roots, paths.drop_last(), windows) {
            if let Ok(path) = paths.last().resolved {
                let root = root_at(path@, windows);
                adding_keeps_apart(exclusions, root);
                if exclusion_error(roots, root) is None {
                    assert(lies_inside(roots, root.key)) by {
                        let i = choose|i: int|
                            0 <= i < roots.len() && ((#[trigger] roots[i]).key == root.key
                                || is_below(root.key, roots[i].key));
                        assert(is_below(root.key, roots[i].key));
                    }
                    let now = with_root(exclusions, root);
                    let kept = exclusions.filter(not_below(root.key));
                    lemma_kept(exclusions, root.key);
                    assert forall|i: int| 0 <= i < now.len() implies lies_inside(
                        roots,
                        (#[trigger] now[i]).key,
                    ) by {
                        if !is_covered(exclusions, root.key) && i < kept.len() {
                            assert(now[i] == kept[i]);
                            assert(exclusions.contains(kept[i]));
                        }
                    }
                }
            }
        }
    }
}

/// The directory of a key lies below one of the roots and is none of them.
pub open spec fn lies_inside(roots: Seq<RootModel>, key: Seq<char>) -> bool {
    &&& exists|i: int| 0 <= i < roots.len() && is_below(key, (#[trigger] roots[i]).key)
    &&& forall|i: int| 0 <= i < roots.len() ==> (#[trigger] roots[i]).key != key
}

} // verus!
