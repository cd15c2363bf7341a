//! The lockfile store: a durable, path-keyed cache of resolved registry
//! coordinates.
//!
//! Reconciliation walks the configuration's pull specs, resolves each spec
//! against the registry (a pinned version exactly, otherwise the latest),
//! and records the outcome keyed by local path. Paths that are already
//! locked are skipped unless the pass is forced, and entries whose path is
//! no longer configured are pruned. The surrounding application reads and
//! writes the file itself; it persists the store only after a fully
//! successful pass, so a failed pass leaves the previous file untouched.

use vstd::prelude::*;

use crate::config::{pull_paths, Config, PullSpecView};
use crate::context::Auth;
use crate::error::Error;
use crate::provider::{
    ArtifactMetadataView, ArtifactType, ArtifactVersionMetadataView, Provider, RegistryView,
};
use crate::string_map::StringMap;

verus! {

// ---------------------------------------------------------------------
// The locked entry
// ---------------------------------------------------------------------
/// One resolved pull target: the pinned snapshot taken the last time the
/// path was resolved against the registry.
pub struct PullArtifactRef {
    pub group: String,
    pub artifact: String,
    pub version: String,
    pub global_id: u64,
    pub artifact_type: ArtifactType,
}

/// The view of a locked pull entry.
pub struct LockedPullView {
    pub group: Seq<char>,
    pub artifact: Seq<char>,
    pub version: Seq<char>,
    pub global_id: u64,
    pub artifact_type: ArtifactType,
}

impl View for PullArtifactRef {
    type V = LockedPullView;

    open spec fn view(&self) -> LockedPullView {
        LockedPullView {
            group: self.group@,
            artifact: self.artifact@,
            version: self.version@,
            global_id: self.global_id,
            artifact_type: self.artifact_type,
        }
    }
}

// ---------------------------------------------------------------------
// The lockfile path
// ---------------------------------------------------------------------
/// Where the extension of `p` starts, scanning leftwards from position
/// `i`: the index of the last `.` in the final path component, unless that
/// dot begins the component; `p.len()` when the component has no
/// extension.
pub open spec fn stem_end_from(p: Seq<char>, i: int) -> int
    decreases i,
{
    if i <= 0 {
        p.len() as int
    } else if p[i - 1] == '/' {
        p.len() as int
    } else if p[i - 1] == '.' {
        if i - 1 > 0 && p[i - 2] != '/' {
            i - 1
        } else {
            p.len() as int
        }
    } else {
        stem_end_from(p, i - 1)
    }
}

/// Where the extension of `p` starts, or `p.len()` if it has none.
pub open spec fn stem_end(p: Seq<char>) -> int {
    stem_end_from(p, p.len() as int)
}

/// The lockfile path derived from a configuration file path: the same
/// path with its extension replaced by `lock`.
pub open spec fn lock_path_of(p: Seq<char>) -> Seq<char> {
    p.subrange(0, stem_end(p)) + ".lock"@
}

/// The path of the lockfile that belongs to a configuration file.
pub fn lock_path_for(config_path: &String) -> (r: String)
    ensures
        r@ == lock_path_of(config_path@),
{
    let s = config_path.as_str();
    let n = s.unicode_len();
    let mut i: usize = n;
    let mut end: usize = n;
    loop
        invariant_except_break
            0 <= i <= n,
            n == s@.len(),
            end == n,
            stem_end(s@) == stem_end_from(s@, i as int),
        ensures
            end <= n,
            end as int == stem_end(s@),
        decreases i,
    {
        if i == 0 {
            break;
        }
        let c = s.get_char(i - 1);
        if c == '/' {
            break;
        } else if c == '.' {
            if i - 1 > 0 {
                let c2 = s.get_char(i - 2);
                if c2 != '/' {
                    end = i - 1;
                }
            }
            break;
        } else {
            i = i - 1;
        }
    }
    let stem = s.substring_char(0, end);
    let r = stem.to_owned().concat(".lock");
    proof {
        assert(r@ == lock_path_of(config_path@));
    }
    r
}

// ---------------------------------------------------------------------
// The resolution model
// ---------------------------------------------------------------------
/// The locked entry recorded from latest-version metadata.
pub open spec fn locked_of_latest(m: ArtifactMetadataView) -> LockedPullView {
    LockedPullView {
        group: m.group_id,
        artifact: m.id,
        version: m.version,
        global_id: m.global_id,
        artifact_type: m.artifact_type,
    }
}

/// The locked entry recorded from version metadata.
pub open spec fn locked_of_version(m: ArtifactVersionMetadataView) -> LockedPullView {
    LockedPullView {
        group: m.group_id,
        artifact: m.id,
        version: m.version,
        global_id: m.global_id,
        artifact_type: m.artifact_type,
    }
}

/// Whether the registry can answer the fetch a pull spec asks for: the
/// metadata of the pinned version if the spec pins one, of the latest
/// version otherwise. The registry echoes the coordinates it was asked
/// for, the pinned version included.
pub open spec fn resolvable(reg: RegistryView, s: PullSpecView) -> bool {
    match s.version {
        Some(v) => {
            &&& reg.versions.contains_key((s.group, s.artifact, v))
            &&& reg.versions[(s.group, s.artifact, v)].group_id == s.group
            &&& reg.versions[(s.group, s.artifact, v)].id == s.artifact
            &&& reg.versions[(s.group, s.artifact, v)].version == v
        },
        None => {
            &&& reg.latest.contains_key((s.group, s.artifact))
            &&& reg.latest[(s.group, s.artifact)].group_id == s.group
            &&& reg.latest[(s.group, s.artifact)].id == s.artifact
        },
    }
}

/// The locked entry a pull spec resolves to against a registry.
pub open spec fn resolved(reg: RegistryView, s: PullSpecView) -> LockedPullView {
    match s.version {
        Some(v) => locked_of_version(reg.versions[(s.group, s.artifact, v)]),
        None => locked_of_latest(reg.latest[(s.group, s.artifact)]),
    }
}

/// What one pull spec does to the store: an already-locked path is kept
/// as it is unless the pass is forced; everything else is resolved anew.
pub open spec fn resolve_step(
    acc: Map<Seq<char>, LockedPullView>,
    s: PullSpecView,
    reg: RegistryView,
    force: bool,
) -> Map<Seq<char>, LockedPullView> {
    if !force && acc.contains_key(s.path) {
        acc
    } else {
        acc.insert(s.path, resolved(reg, s))
    }
}

/// Whether one pull spec's step needs no fetch or can be answered.
pub open spec fn resolve_step_ok(
    acc: Map<Seq<char>, LockedPullView>,
    s: PullSpecView,
    reg: RegistryView,
    force: bool,
) -> bool {
    if !force && acc.contains_key(s.path) {
        true
    } else {
        resolvable(reg, s)
    }
}

/// The store after the pull specs are processed in order.
pub open spec fn resolve_fold(
    acc: Map<Seq<char>, LockedPullView>,
    pulls: Seq<PullSpecView>,
    reg: RegistryView,
    force: bool,
) -> Map<Seq<char>, LockedPullView>
    decreases pulls.len(),
{
    if pulls.len() == 0 {
        acc
    } else {
        resolve_fold(resolve_step(acc, pulls[0], reg, force), pulls.drop_first(), reg, force)
    }
}

/// Whether every fetch the pass needs can be answered by the registry.
pub open spec fn resolve_ok(
    acc: Map<Seq<char>, LockedPullView>,
    pulls: Seq<PullSpecView>,
    reg: RegistryView,
    force: bool,
) -> bool
    decreases pulls.len(),
{
    if pulls.len() == 0 {
        true
    } else {
        resolve_step_ok(acc, pulls[0], reg, force) && resolve_ok(
            resolve_step(acc, pulls[0], reg, force),
            pulls.drop_first(),
            reg,
            force,
        )
    }
}

/// What a whole reconciliation pass leaves in the store: the specs are
/// resolved in order, then every path that is not configured any more is
/// pruned.
pub open spec fn reconcile_result(
    lock: Map<Seq<char>, LockedPullView>,
    pulls: Seq<PullSpecView>,
    reg: RegistryView,
    force: bool,
) -> Map<Seq<char>, LockedPullView> {
    resolve_fold(lock, pulls, reg, force).restrict(pull_paths(pulls))
}

// ---------------------------------------------------------------------
// Lemmas about the resolution model
// ---------------------------------------------------------------------
proof fn lemma_fold_push(
    acc: Map<Seq<char>, LockedPullView>,
    pulls: Seq<PullSpecView>,
    s: PullSpecView,
    reg: RegistryView,
    force: bool,
)
    ensures
        resolve_fold(acc, pulls.push(s), reg, force) == resolve_step(
            resolve_fold(acc, pulls, reg, force),
            s,
            reg,
            force,
        ),
        resolve_ok(acc, pulls.push(s), reg, force) == (resolve_ok(acc, pulls, reg, force)
            && resolve_step_ok(resolve_fold(acc, pulls, reg, force), s, reg, force)),
    decreases pulls.len(),
{
    let whole = pulls.push(s);
    assert(whole.len() > 0);
    assert(resolve_fold(acc, whole, reg, force) == resolve_fold(
        resolve_step(acc, whole[0], reg, force),
        whole.drop_first(),
        reg,
        force,
    ));
    assert(resolve_ok(acc, whole, reg, force) == (resolve_step_ok(acc, whole[0], reg, force)
        && resolve_ok(resolve_step(acc, whole[0], reg, force), whole.drop_first(), reg, force)));
    if pulls.len() == 0 {
        assert(whole[0] == s);
        assert(whole.drop_first() =~= Seq::<PullSpecView>::empty());
        assert(resolve_fold(resolve_step(acc, s, reg, force), whole.drop_first(), reg, force)
            == resolve_step(acc, s, reg, force));
        assert(resolve_ok(resolve_step(acc, s, reg, force), whole.drop_first(), reg, force));
        assert(resolve_fold(acc, pulls, reg, force) == acc);
        assert(resolve_ok(acc, pulls, reg, force));
    } else {
        assert(whole[0] == pulls[0]);
        assert(whole.drop_first() =~= pulls.drop_first().push(s));
        lemma_fold_push(resolve_step(acc, pulls[0], reg, force), pulls.drop_first(), s, reg, force);
        assert(resolve_fold(acc, pulls, reg, force) == resolve_fold(
            resolve_step(acc, pulls[0], reg, force),
            pulls.drop_first(),
            reg,
            force,
        ));
        assert(resolve_ok(acc, pulls, reg, force) == (resolve_step_ok(acc, pulls[0], reg, force)
            && resolve_ok(
            resolve_step(acc, pulls[0], reg, force),
            pulls.drop_first(),
            reg,
            force,
        )));
    }
}

/// The paths of a sequence of pull specs, head and tail.
proof fn lemma_pull_paths_first(pulls: Seq<PullSpecView>)
    requires
        pulls.len() > 0,
    ensures
        pull_paths(pulls) =~= pull_paths(pulls.drop_first()).insert(pulls[0].path),
{
    assert forall|p: Seq<char>| pull_paths(pulls).contains(p) implies pull_paths(
        pulls.drop_first(),
    ).insert(pulls[0].path).contains(p) by {
        let i = choose|i: int| 0 <= i < pulls.len() && pulls[i].path == p;
        if i > 0 {
            assert(pulls.drop_first()[i - 1].path == p);
        }
    }
    assert forall|p: Seq<char>|
        pull_paths(pulls.drop_first()).insert(pulls[0].path).contains(p) implies pull_paths(
        pulls,
    ).contains(p) by {
        if p == pulls[0].path {
            assert(pulls[0].path == p);
        } else {
            let i = choose|i: int|
                0 <= i < pulls.drop_first().len() && pulls.drop_first()[i].path == p;
            assert(pulls[i + 1].path == p);
        }
    }
}

proof fn lemma_fold_dom(
    acc: Map<Seq<char>, LockedPullView>,
    pulls: Seq<PullSpecView>,
    reg: RegistryView,
    force: bool,
)
    ensures
        resolve_fold(acc, pulls, reg, force).dom() =~= acc.dom().union(pull_paths(pulls)),
    decreases pulls.len(),
{
    if pulls.len() == 0 {
        assert(pull_paths(pulls) =~= Set::<Seq<char>>::empty());
    } else {
        lemma_pull_paths_first(pulls);
        lemma_fold_dom(resolve_step(acc, pulls[0], reg, force), pulls.drop_first(), reg, force);
        assert(resolve_step(acc, pulls[0], reg, force).dom() =~= acc.dom().insert(pulls[0].path));
    }
}

/// A path no spec names keeps its entry (or its absence) through the fold.
proof fn lemma_fold_untouched(
    acc: Map<Seq<char>, LockedPullView>,
    pulls: Seq<PullSpecView>,
    reg: RegistryView,
    force: bool,
    p: Seq<char>,
)
    requires
        !pull_paths(pulls).contains(p),
    ensures
        resolve_fold(acc, pulls, reg, force).contains_key(p) == acc.contains_key(p),
        acc.contains_key(p) ==> resolve_fold(acc, pulls, reg, force)[p] == acc[p],
    decreases pulls.len(),
{
    if pulls.len() > 0 {
        assert(pulls[0].path != p);
        assert(!pull_paths(pulls.drop_first()).contains(p)) by {
            if pull_paths(pulls.drop_first()).contains(p) {
                let i = choose|i: int|
                    0 <= i < pulls.drop_first().len() && pulls.drop_first()[i].path == p;
                assert(pulls[i + 1].path == p);
            }
        }
        lemma_fold_untouched(
            resolve_step(acc, pulls[0], reg, force),
            pulls.drop_first(),
            reg,
            force,
            p,
        );
    }
}

/// Without force, a path that is already locked keeps its entry through
/// the fold, whatever the registry holds.
proof fn lemma_fold_preserves(
    acc: Map<Seq<char>, LockedPullView>,
    pulls: Seq<PullSpecView>,
    reg: RegistryView,
    p: Seq<char>,
)
    requires
        acc.contains_key(p),
    ensures
        resolve_fold(acc, pulls, reg, false).contains_key(p),
        resolve_fold(acc, pulls, reg, false)[p] == acc[p],
    decreases pulls.len(),
{
    if pulls.len() > 0 {
        lemma_fold_preserves(resolve_step(acc, pulls[0], reg, false), pulls.drop_first(), reg, p);
    }
}

/// With force, the entry a spec leaves is its own resolution, provided no
/// later spec names the same path.
proof fn lemma_fold_version(
    acc: Map<Seq<char>, LockedPullView>,
    pulls: Seq<PullSpecView>,
    reg: RegistryView,
    i: int,
)
    requires
        resolve_ok(acc, pulls, reg, true),
        0 <= i < pulls.len(),
        forall|j: int| i < j < pulls.len() ==> pulls[j].path != pulls[i].path,
    ensures
        resolve_fold(acc, pulls, reg, true).contains_key(pulls[i].path),
        resolve_fold(acc, pulls, reg, true)[pulls[i].path] == resolved(reg, pulls[i]),
        resolvable(reg, pulls[i]),
    decreases pulls.len(),
{
    let acc2 = resolve_step(acc, pulls[0], reg, true);
    if i == 0 {
        assert(!pull_paths(pulls.drop_first()).contains(pulls[0].path)) by {
            if pull_paths(pulls.drop_first()).contains(pulls[0].path) {
                let j = choose|j: int|
                    0 <= j < pulls.drop_first().len() && pulls.drop_first()[j].path
                        == pulls[0].path;
                assert(pulls[j + 1].path == pulls[0].path);
            }
        }
        lemma_fold_untouched(acc2, pulls.drop_first(), reg, true, pulls[0].path);
    } else {
        assert forall|j: int|
            i - 1 < j < pulls.drop_first().len() implies #[trigger] pulls.drop_first()[j].path
            != pulls.drop_first()[i - 1].path by {
            assert(pulls.drop_first()[j] == pulls[j + 1]);
            assert(pulls.drop_first()[i - 1] == pulls[i]);
        }
        lemma_fold_version(acc2, pulls.drop_first(), reg, i - 1);
        assert(pulls.drop_first()[i - 1] == pulls[i]);
    }
}

proof fn lemma_take_paths_subset(pulls: Seq<PullSpecView>, i: int)
    requires
        0 <= i <= pulls.len(),
    ensures
        pull_paths(pulls.take(i)).subset_of(pull_paths(pulls)),
{
    assert forall|p: Seq<char>| pull_paths(pulls.take(i)).contains(p) implies pull_paths(
        pulls,
    ).contains(p) by {
        let w = choose|w: int| 0 <= w < pulls.take(i).len() && (#[trigger] pulls.take(i)[w]).path == p;
        assert(pulls[w].path == p);
    }
}

/// What holds when a pass stops at spec `i` because its path was not yet
/// locked: the store so far stayed within the old keys and the configured
/// paths, and — without force — some configured path cannot have been
/// locked from the start.
proof fn lemma_fold_abort(
    init: Map<Seq<char>, LockedPullView>,
    pulls: Seq<PullSpecView>,
    reg: RegistryView,
    force: bool,
    i: int,
)
    requires
        0 <= i < pulls.len(),
        !force ==> !resolve_fold(init, pulls.take(i), reg, force).contains_key(pulls[i].path),
    ensures
        resolve_fold(init, pulls.take(i), reg, force).dom().subset_of(
            init.dom().union(pull_paths(pulls)),
        ),
        !force ==> !(forall|j: int|
            0 <= j < pulls.len() ==> init.contains_key((#[trigger] pulls[j]).path)),
{
    lemma_fold_dom(init, pulls.take(i), reg, force);
    lemma_take_paths_subset(pulls, i);
    if !force && (forall|j: int|
        0 <= j < pulls.len() ==> init.contains_key((#[trigger] pulls[j]).path)) {
        lemma_fold_preserves(init, pulls.take(i), reg, pulls[i].path);
    }
}

// ---------------------------------------------------------------------
// The laws of reconciliation
// ---------------------------------------------------------------------
/// Pruning: after a reconciliation pass, the locked paths are exactly the
/// configured pull paths — no stale entry survives and no configured path
/// is missing.
pub proof fn lemma_reconcile_prunes(
    lock: Map<Seq<char>, LockedPullView>,
    pulls: Seq<PullSpecView>,
    reg: RegistryView,
    force: bool,
)
    ensures
        reconcile_result(lock, pulls, reg, force).dom() == pull_paths(pulls),
{
    lemma_fold_dom(lock, pulls, reg, force);
    assert(reconcile_result(lock, pulls, reg, force).dom() =~= pull_paths(pulls));
}

/// Version precedence: a forced pass records, for a spec that pins a
/// version (and whose path no later spec reuses), exactly that version —
/// never a stale one, whatever the store held before.
pub proof fn lemma_version_precedence(
    lock: Map<Seq<char>, LockedPullView>,
    pulls: Seq<PullSpecView>,
    reg: RegistryView,
    i: int,
)
    requires
        resolve_ok(lock, pulls, reg, true),
        0 <= i < pulls.len(),
        pulls[i].version is Some,
        forall|j: int| i < j < pulls.len() ==> pulls[j].path != pulls[i].path,
    ensures
        reconcile_result(lock, pulls, reg, true).contains_key(pulls[i].path),
        reconcile_result(lock, pulls, reg, true)[pulls[i].path].version == pulls[i].version->0,
{
    lemma_fold_version(lock, pulls, reg, i);
}

/// Skipping: a pass that is not forced keeps every already-locked entry
/// whose path is still configured exactly as it was, whatever the
/// registry holds — such paths are never re-resolved.
pub proof fn lemma_skip_locked(
    lock: Map<Seq<char>, LockedPullView>,
    pulls: Seq<PullSpecView>,
    reg: RegistryView,
    p: Seq<char>,
)
    requires
        lock.contains_key(p),
        pull_paths(pulls).contains(p),
    ensures
        reconcile_result(lock, pulls, reg, false).contains_key(p),
        reconcile_result(lock, pulls, reg, false)[p] == lock[p],
{
    lemma_fold_preserves(lock, pulls, reg, p);
}

/// Every version the registry serves is a non-empty string.
pub open spec fn registry_versions_nonempty(reg: RegistryView) -> bool {
    &&& forall|k: (Seq<char>, Seq<char>)|
        reg.latest.contains_key(k) ==> (#[trigger] reg.latest[k]).version.len() > 0
    &&& forall|k: (Seq<char>, Seq<char>, Seq<char>)|
        reg.versions.contains_key(k) ==> (#[trigger] reg.versions[k]).version.len() > 0
}

/// Every entry of a store carries a non-empty version.
pub open spec fn store_versions_nonempty(m: Map<Seq<char>, LockedPullView>) -> bool {
    forall|p: Seq<char>| m.contains_key(p) ==> (#[trigger] m[p]).version.len() > 0
}

proof fn lemma_fold_versions_nonempty(
    acc: Map<Seq<char>, LockedPullView>,
    pulls: Seq<PullSpecView>,
    reg: RegistryView,
    force: bool,
)
    requires
        registry_versions_nonempty(reg),
        store_versions_nonempty(acc),
        resolve_ok(acc, pulls, reg, force),
    ensures
        store_versions_nonempty(resolve_fold(acc, pulls, reg, force)),
    decreases pulls.len(),
{
    if pulls.len() > 0 {
        let s = pulls[0];
        let acc2 = resolve_step(acc, s, reg, force);
        assert(store_versions_nonempty(acc2)) by {
            if !(!force && acc.contains_key(s.path)) {
                assert(resolvable(reg, s));
                match s.version {
                    Some(v) => {
                        assert(reg.versions.contains_key((s.group, s.artifact, v)));
                    },
                    None => {
                        assert(reg.latest.contains_key((s.group, s.artifact)));
                    },
                }
                assert(resolved(reg, s).version.len() > 0);
            }
        }
        lemma_fold_versions_nonempty(acc2, pulls.drop_first(), reg, force);
    }
}

/// A pull entry's version is never empty after resolution: provided every
/// version the registry serves is non-empty and the prior store held no
/// empty one, a successful pass leaves only non-empty versions — each the
/// user-pinned version or the registry-resolved latest.
pub proof fn lemma_resolved_versions_nonempty(
    lock: Map<Seq<char>, LockedPullView>,
    pulls: Seq<PullSpecView>,
    reg: RegistryView,
    force: bool,
)
    requires
        registry_versions_nonempty(reg),
        store_versions_nonempty(lock),
        resolve_ok(lock, pulls, reg, force),
    ensures
        store_versions_nonempty(reconcile_result(lock, pulls, reg, force)),
{
    lemma_fold_versions_nonempty(lock, pulls, reg, force);
    assert forall|p: Seq<char>|
        reconcile_result(lock, pulls, reg, force).contains_key(p) implies (
    #[trigger] reconcile_result(lock, pulls, reg, force)[p]).version.len() > 0 by {
        assert(resolve_fold(lock, pulls, reg, force).contains_key(p));
    }
}

// ---------------------------------------------------------------------
// The store
// ---------------------------------------------------------------------
/// The lockfile store: resolved pull entries keyed by local path, plus the
/// path of the lockfile itself.
pub struct LockFile {
    pub pull: StringMap<PullArtifactRef>,
    pub path: String,
}

impl LockFile {
    /// The path of the lockfile on disk.
    pub open spec fn path_view(&self) -> Seq<char> {
        self.path@
    }

    /// A store with no entries, to be written at `path`.
    pub fn empty(path: String) -> (r: LockFile)
        ensures
            r.pull@ == Map::<Seq<char>, LockedPullView>::empty(),
            r.path_view() == path@,
    {
        LockFile { pull: StringMap::new(), path }
    }

    /// One reconciliation pass: resolves the configured pull specs (all of
    /// them when `update` is set, otherwise only paths that are not locked
    /// yet) and prunes entries whose path is no longer configured. Fails
    /// with the registry's error if any needed fetch fails, in which case
    /// nothing may be persisted.
    fn generate<P: Provider>(
        &mut self,
        config: &Config,
        provider: &P,
        update: bool,
        auth: &Auth,
    ) -> (r: Result<(), Error>)
        ensures
            config@.pull.len() == 0 ==> r is Ok,
            (!update && forall|i: int|
                0 <= i < config@.pull.len() ==> old(self).pull@.contains_key(
                    (#[trigger] config@.pull[i]).path,
                )) ==> r is Ok,
            r is Ok ==> resolve_ok(old(self).pull@, config@.pull, provider.registry(), update),
            r is Ok ==> final(self).pull@ == reconcile_result(
                old(self).pull@,
                config@.pull,
                provider.registry(),
                update,
            ),
            final(self).pull@.dom().subset_of(
                old(self).pull@.dom().union(pull_paths(config@.pull)),
            ),
            final(self).path_view() == old(self).path_view(),
    {
        let ghost reg = provider.registry();
        let ghost cfg_pulls = config@.pull;
        let ghost init = self.pull@;
        if config.pull.is_empty() {
            self.pull = StringMap::new();
            proof {
                assert(cfg_pulls.len() == 0);
                assert(pull_paths(cfg_pulls) =~= Set::<Seq<char>>::empty());
                assert(reconcile_result(init, cfg_pulls, reg, update) =~= Map::<
                    Seq<char>,
                    LockedPullView,
                >::empty());
                assert(self.pull@.dom().subset_of(init.dom().union(pull_paths(cfg_pulls))));
            }
            return Ok(());
        }
        let n = config.pull.len();
        for i in 0..n
            invariant
                n == config.pull@.len(),
                cfg_pulls == config@.pull,
                cfg_pulls.len() == n,
                reg == provider.registry(),
                init == old(self).pull@,
                self.pull@ == resolve_fold(init, cfg_pulls.take(i as int), reg, update),
                resolve_ok(init, cfg_pulls.take(i as int), reg, update),
                self.path@ == old(self).path_view(),
        {
            let artifact = &config.pull[i];
            proof {
                assert(artifact@ == cfg_pulls[i as int]);
            }
            let locked_now = !update && self.pull.contains_key(&artifact.path);
            if !locked_now {
                let locked = match &artifact.version {
                    Some(version) => {
                        let metadata = match provider.fetch_artifact_version_metadata(
                            &artifact.group,
                            &artifact.artifact,
                            version,
                            auth,
                        ) {
                            Ok(m) => m,
                            Err(e) => {
                                proof {
                                    lemma_fold_abort(init, cfg_pulls, reg, update, i as int);
                                }
                                return Err(e);
                            },
                        };
                        proof {
                            assert(resolvable(reg, cfg_pulls[i as int]));
                            assert(metadata@ == reg.versions[
                                (artifact.group@, artifact.artifact@, version@)]);
                        }
                        PullArtifactRef {
                            group: metadata.group_id,
                            artifact: metadata.id,
                            version: metadata.version,
                            global_id: metadata.global_id,
                            artifact_type: metadata.artifact_type,
                        }
                    },
                    None => {
                        let metadata = match provider.fetch_artifact_metadata(
                            &artifact.group,
                            &artifact.artifact,
                            auth,
                        ) {
                            Ok(m) => m,
                            Err(e) => {
                                proof {
                                    lemma_fold_abort(init, cfg_pulls, reg, update, i as int);
                                }
                                return Err(e);
                            },
                        };
                        proof {
                            assert(resolvable(reg, cfg_pulls[i as int]));
                            assert(metadata@ == reg.latest[(artifact.group@, artifact.artifact@)]);
                        }
                        PullArtifactRef {
                            group: metadata.group_id,
                            artifact: metadata.id,
                            version: metadata.version,
                            global_id: metadata.global_id,
                            artifact_type: metadata.artifact_type,
                        }
                    },
                };
                proof {
                    assert(locked@ == resolved(reg, cfg_pulls[i as int]));
                }
                self.pull.insert(artifact.path.clone(), locked);
            }
            proof {
                lemma_fold_push(init, cfg_pulls.take(i as int), cfg_pulls[i as int], reg, update);
                assert(cfg_pulls.take(i + 1) =~= cfg_pulls.take(i as int).push(
                    cfg_pulls[i as int],
                ));
            }
        }
        proof {
            assert(cfg_pulls.take(n as int) =~= cfg_pulls);
        }
        // Prune: drop every locked path that is no longer configured.
        let ghost mid = self.pull@;
        let ghost snapshot = self.pull;
        let mut stale: Vec<String> = Vec::new();
        let total = self.pull.len();
        let ghost mid_keys = self.pull.key_seq();
        for i in 0..total
            invariant
                self.pull == snapshot,
                self.pull@ == mid,
                mid_keys == snapshot.key_seq(),
                total == mid_keys.len(),
                mid.dom() == mid_keys.to_set(),
                mid == resolve_fold(init, cfg_pulls, reg, update),
                resolve_ok(init, cfg_pulls, reg, update),
                init == old(self).pull@,
                cfg_pulls == config@.pull,
                self.path@ == old(self).path_view(),
                forall|m: int|
                    0 <= m < i ==> #[trigger] pull_paths(cfg_pulls).contains(mid_keys[m])
                        || crate::views::str_seq_view(stale@).contains(mid_keys[m]),
                forall|j: int|
                    0 <= j < stale@.len() ==> !pull_paths(cfg_pulls).contains(#[trigger] stale@[j]@),
        {
            let k = self.pull.key_at(i);
            let keep = config.has_pull_path(k);
            if !keep {
                let ghost stale_before = stale@;
                stale.push(k.clone());
                proof {
                    assert(crate::views::str_seq_view(stale@) =~= crate::views::str_seq_view(
                        stale_before,
                    ).push(mid_keys[i as int]));
                    assert forall|m: int|
                        0 <= m < i + 1 implies pull_paths(cfg_pulls).contains(mid_keys[m])
                        || crate::views::str_seq_view(stale@).contains(mid_keys[m]) by {
                        if m < i && !pull_paths(cfg_pulls).contains(mid_keys[m]) {
                            let w = choose|w: int|
                                0 <= w < crate::views::str_seq_view(stale_before).len()
                                    && crate::views::str_seq_view(stale_before)[w] == mid_keys[m];
                            assert(crate::views::str_seq_view(stale@)[w] == mid_keys[m]);
                        }
                        if m == i {
                            assert(crate::views::str_seq_view(stale@).last() == mid_keys[i as int]);
                        }
                    }
                }
            }
        }
        let ghost stale_views = crate::views::str_seq_view(stale@);
        let stale_len = stale.len();
        for j in 0..stale_len
            invariant
                stale_len == stale@.len(),
                stale_views == crate::views::str_seq_view(stale@),
                cfg_pulls == config@.pull,
                resolve_ok(init, cfg_pulls, reg, update),
                self.path@ == old(self).path_view(),
                mid == resolve_fold(init, cfg_pulls, reg, update),
                init == old(self).pull@,
                total == mid_keys.len(),
                mid.dom() == mid_keys.to_set(),
                forall|m: int|
                    0 <= m < total ==> #[trigger] pull_paths(cfg_pulls).contains(mid_keys[m])
                        || stale_views.contains(mid_keys[m]),
                forall|m: int|
                    0 <= m < stale@.len() ==> !pull_paths(cfg_pulls).contains(#[trigger] stale@[m]@),
                self.pull@ == mid.remove_keys(stale_views.take(j as int).to_set()),
        {
            proof {
                assert(stale_views[j as int] == stale@[j as int]@);
            }
            self.pull.remove(&stale[j]);
            proof {
                crate::views::lemma_take_to_set(stale_views, j as int);
                assert(self.pull@ =~= mid.remove_keys(stale_views.take(j + 1).to_set()));
            }
        }
        proof {
            assert(stale_views.take(stale_len as int) =~= stale_views);
            assert forall|m: int| 0 <= m < stale_views.len() implies !pull_paths(
                cfg_pulls,
            ).contains(#[trigger] stale_views[m]) by {
                assert(stale_views[m] == stale@[m]@);
            }
            assert(self.pull@ =~= mid.restrict(pull_paths(cfg_pulls))) by {
                assert forall|k: Seq<char>|
                    self.pull@.contains_key(k) implies mid.restrict(pull_paths(cfg_pulls)).contains_key(
                    k,
                ) && self.pull@[k] == mid.restrict(pull_paths(cfg_pulls))[k] by {
                    assert(mid.dom().contains(k));
                    assert(mid_keys.to_set().contains(k));
                    let m = choose|m: int| 0 <= m < mid_keys.len() && mid_keys[m] == k;
                    assert(!stale_views.take(stale_len as int).to_set().contains(k));
                    assert(!stale_views.contains(k));
                    assert(pull_paths(cfg_pulls).contains(k));
                }
                assert forall|k: Seq<char>|
                    mid.restrict(pull_paths(cfg_pulls)).contains_key(k) implies self.pull@.contains_key(
                    k,
                ) by {
                    if stale_views.contains(k) {
                        let m = choose|m: int|
                            0 <= m < stale_views.len() && stale_views[m] == k;
                        assert(stale_views[m] == stale@[m]@);
                        assert(!pull_paths(cfg_pulls).contains(k));
                    }
                    assert(!stale_views.take(stale_len as int).to_set().contains(k));
                }
            }
            lemma_reconcile_prunes(init, cfg_pulls, reg, update);
            assert(self.pull@.dom().subset_of(init.dom().union(pull_paths(cfg_pulls))));
        }
        Ok(())
    }

    /// Loads the store that belongs to a configuration and reconciles it
    /// without forcing: `existing` is the parsed lockfile if one was on
    /// disk. Already-locked configured paths are kept without any fetch;
    /// new paths are resolved; stale paths are pruned.
    pub fn try_load_for_config<P: Provider>(
        existing: Option<LockFile>,
        config: &Config,
        provider: &P,
        auth: &Auth,
    ) -> (r: Result<LockFile, Error>)
        ensures
            (forall|i: int|
                0 <= i < config@.pull.len() ==> prior_pull(existing).contains_key(
                    (#[trigger] config@.pull[i]).path,
                )) ==> r is Ok,
            r matches Ok(lf) ==> {
                let prior = prior_pull(existing);
                &&& lf.path_view() == lock_path_of(config@.path)
                &&& resolve_ok(prior, config@.pull, provider.registry(), false)
                &&& lf.pull@ == reconcile_result(prior, config@.pull, provider.registry(), false)
                &&& lf.pull@.dom() == pull_paths(config@.pull)
                &&& forall|p: Seq<char>|
                    prior.contains_key(p) && pull_paths(config@.pull).contains(p)
                        ==> lf.pull@.contains_key(p) && lf.pull@[p] == prior[p]
            },
    {
        let ghost prior0 = prior_pull(existing);
        let path = lock_path_for(&config.path);
        let mut lock_file = match existing {
            Some(mut l) => {
                l.path = path;
                l
            },
            None => LockFile::empty(path),
        };
        proof {
            assert(lock_file.pull@ == prior0);
        }
        let ghost prior = lock_file.pull@;
        match lock_file.generate(config, provider, false, auth) {
            Ok(()) => {
                proof {
                    lemma_reconcile_prunes(prior, config@.pull, provider.registry(), false);
                    assert forall|p: Seq<char>|
                        prior.contains_key(p) && pull_paths(config@.pull).contains(
                            p,
                        ) implies lock_file.pull@.contains_key(p) && lock_file.pull@[p]
                        == prior[p] by {
                        lemma_skip_locked(prior, config@.pull, provider.registry(), p);
                    }
                }
                Ok(lock_file)
            },
            Err(e) => Err(e),
        }
    }

    /// A forced reconciliation pass: every configured pull spec is
    /// re-resolved against the registry, and stale entries are pruned.
    pub fn update<P: Provider>(&mut self, config: &Config, provider: &P, auth: &Auth) -> (r: Result<
        (),
        Error,
    >)
        ensures
            config@.pull.len() == 0 ==> r is Ok,
            r is Ok ==> resolve_ok(old(self).pull@, config@.pull, provider.registry(), true),
            r is Ok ==> final(self).pull@ == reconcile_result(
                old(self).pull@,
                config@.pull,
                provider.registry(),
                true,
            ),
            final(self).pull@.dom().subset_of(
                old(self).pull@.dom().union(pull_paths(config@.pull)),
            ),
            r is Ok ==> final(self).pull@.dom() == pull_paths(config@.pull),
            r is Ok ==> forall|i: int|
                0 <= i < config@.pull.len() && (#[trigger] config@.pull[i]).version is Some && (
                forall|j: int|
                    i < j < config@.pull.len() ==> (#[trigger] config@.pull[j]).path
                        != config@.pull[i].path) ==> final(self).pull@.contains_key(
                    config@.pull[i].path,
                ) && final(self).pull@[config@.pull[i].path].version == config@.pull[i].version->0,
            final(self).path_view() == old(self).path_view(),
    {
        let r = self.generate(config, provider, true, auth);
        proof {
            if r is Ok {
                lemma_reconcile_prunes(old(self).pull@, config@.pull, provider.registry(), true);
                assert forall|i: int|
                    0 <= i < config@.pull.len() && (#[trigger] config@.pull[i]).version is Some
                        && (forall|j: int|
                        i < j < config@.pull.len() ==> (#[trigger] config@.pull[j]).path
                            != config@.pull[i].path) implies self.pull@.contains_key(
                    config@.pull[i].path,
                ) && self.pull@[config@.pull[i].path].version == config@.pull[i].version->0 by {
                    lemma_version_precedence(
                        old(self).pull@,
                        config@.pull,
                        provider.registry(),
                        i,
                    );
                }
            }
        }
        r
    }
}

/// The pull entries of the lockfile that was on disk, or the empty store.
pub open spec fn prior_pull(existing: Option<LockFile>) -> Map<Seq<char>, LockedPullView> {
    match existing {
        Some(l) => l.pull@,
        None => Map::empty(),
    }
}

} // verus!
