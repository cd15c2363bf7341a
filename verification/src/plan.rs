//! The plan builder: one path-indexed view of everything a run performs.
//!
//! A plan starts empty, bound to a registry connection context. Merging the
//! configuration records what the user asked for; merging the lockfile then
//! fills in only what the configuration left unset — most importantly the
//! resolved version of unpinned pull targets, while a version the user
//! pinned is never clobbered by stale lock data.

use vstd::prelude::*;

use crate::config::{Config, PullSpecView, PushSpecView};
use crate::context::Context;
use crate::lockfile::{LockFile, LockedPullView};
use crate::provider::ArtifactType;
use crate::string_map::StringMap;
use crate::views::{
    clone_opt_str, clone_opt_strs, clone_opt_pairs, lemma_take_to_set, opt_str_view,
    opt_strs_view, opt_pairs_view,
};

verus! {

// ---------------------------------------------------------------------
// Plan entries
// ---------------------------------------------------------------------
/// The merged upload intent for one path. Fields are unset only when
/// neither the configuration nor the lockfile supplied them; the executor
/// treats a missing required field as fatal.
pub struct PushArtifactRef {
    pub group: Option<String>,
    pub artifact: Option<String>,
    pub artifact_type: Option<ArtifactType>,
    pub name: Option<String>,
    pub description: Option<String>,
    pub labels: Option<Vec<String>>,
    pub properties: Option<Vec<(String, String)>>,
}

/// The view of a plan push entry.
pub struct PlanPushView {
    pub group: Option<Seq<char>>,
    pub artifact: Option<Seq<char>>,
    pub artifact_type: Option<ArtifactType>,
    pub name: Option<Seq<char>>,
    pub description: Option<Seq<char>>,
    pub labels: Option<Seq<Seq<char>>>,
    pub properties: Option<Seq<(Seq<char>, Seq<char>)>>,
}

impl View for PushArtifactRef {
    type V = PlanPushView;

    open spec fn view(&self) -> PlanPushView {
        PlanPushView {
            group: opt_str_view(self.group),
            artifact: opt_str_view(self.artifact),
            artifact_type: self.artifact_type,
            name: opt_str_view(self.name),
            description: opt_str_view(self.description),
            labels: opt_strs_view(self.labels),
            properties: opt_pairs_view(self.properties),
        }
    }
}

impl Default for PushArtifactRef {
    /// An entry with every field unset.
    fn default() -> (r: PushArtifactRef)
        ensures
            r@ == empty_push_view(),
    {
        PushArtifactRef {
            group: None,
            artifact: None,
            artifact_type: None,
            name: None,
            description: None,
            labels: None,
            properties: None,
        }
    }
}

/// The merged download intent for one path.
pub struct PullArtifactRef {
    pub group: Option<String>,
    pub artifact: Option<String>,
    pub artifact_type: Option<ArtifactType>,
    pub version: Option<String>,
    pub global_id: Option<u64>,
}

/// The view of a plan pull entry.
pub struct PlanPullView {
    pub group: Option<Seq<char>>,
    pub artifact: Option<Seq<char>>,
    pub artifact_type: Option<ArtifactType>,
    pub version: Option<Seq<char>>,
    pub global_id: Option<u64>,
}

impl View for PullArtifactRef {
    type V = PlanPullView;

    open spec fn view(&self) -> PlanPullView {
        PlanPullView {
            group: opt_str_view(self.group),
            artifact: opt_str_view(self.artifact),
            artifact_type: self.artifact_type,
            version: opt_str_view(self.version),
            global_id: self.global_id,
        }
    }
}

impl Default for PullArtifactRef {
    /// An entry with every field unset.
    fn default() -> (r: PullArtifactRef)
        ensures
            r@ == empty_pull_view(),
    {
        PullArtifactRef {
            group: None,
            artifact: None,
            artifact_type: None,
            version: None,
            global_id: None,
        }
    }
}

/// A push entry with every field unset.
pub open spec fn empty_push_view() -> PlanPushView {
    PlanPushView {
        group: None,
        artifact: None,
        artifact_type: None,
        name: None,
        description: None,
        labels: None,
        properties: None,
    }
}

/// A pull entry with every field unset.
pub open spec fn empty_pull_view() -> PlanPullView {
    PlanPullView { group: None, artifact: None, artifact_type: None, version: None, global_id: None }
}

// ---------------------------------------------------------------------
// The merge rules
// ---------------------------------------------------------------------
/// What a pull spec of the configuration does to the plan entry at its
/// path: the coordinate is set and the version is replaced by the spec's —
/// including back to unset, when the user does not pin one.
pub open spec fn pull_merge_config(cur: Option<PlanPullView>, s: PullSpecView) -> PlanPullView {
    let base = match cur {
        Some(c) => c,
        None => empty_pull_view(),
    };
    PlanPullView {
        group: Some(s.group),
        artifact: Some(s.artifact),
        version: s.version,
        ..base
    }
}

/// What a push spec of the configuration does to the plan entry at its
/// path: every field is taken from the spec.
pub open spec fn push_of_spec(s: PushSpecView) -> PlanPushView {
    PlanPushView {
        group: Some(s.group),
        artifact: Some(s.artifact),
        artifact_type: s.artifact_type,
        name: s.name,
        description: s.description,
        labels: s.labels,
        properties: s.properties,
    }
}

/// The plan's pull entries after the configuration's pull specs are merged
/// in order.
pub open spec fn merge_config_pulls(
    plan: Map<Seq<char>, PlanPullView>,
    pulls: Seq<PullSpecView>,
) -> Map<Seq<char>, PlanPullView>
    decreases pulls.len(),
{
    if pulls.len() == 0 {
        plan
    } else {
        let s = pulls[0];
        let cur = if plan.contains_key(s.path) {
            Some(plan[s.path])
        } else {
            None
        };
        merge_config_pulls(plan.insert(s.path, pull_merge_config(cur, s)), pulls.drop_first())
    }
}

/// The plan's push entries after the configuration's push specs are merged
/// in order.
pub open spec fn merge_config_pushes(
    plan: Map<Seq<char>, PlanPushView>,
    pushes: Seq<PushSpecView>,
) -> Map<Seq<char>, PlanPushView>
    decreases pushes.len(),
{
    if pushes.len() == 0 {
        plan
    } else {
        merge_config_pushes(
            plan.insert(pushes[0].path, push_of_spec(pushes[0])),
            pushes.drop_first(),
        )
    }
}

/// What a locked entry contributes to the plan entry at its path: only
/// fields the plan does not already carry — the configuration's values,
/// the pinned version above all, always win over lock data.
pub open spec fn pull_merge_locked(cur: Option<PlanPullView>, l: LockedPullView) -> PlanPullView {
    let base = match cur {
        Some(c) => c,
        None => empty_pull_view(),
    };
    PlanPullView {
        group: if base.group is Some {
            base.group
        } else {
            Some(l.group)
        },
        artifact: if base.artifact is Some {
            base.artifact
        } else {
            Some(l.artifact)
        },
        artifact_type: if base.artifact_type is Some {
            base.artifact_type
        } else {
            Some(l.artifact_type)
        },
        version: if base.version is Some {
            base.version
        } else {
            Some(l.version)
        },
        global_id: if base.global_id is Some {
            base.global_id
        } else {
            Some(l.global_id)
        },
    }
}

/// The plan's pull entries after the lockfile is merged: each locked path
/// fills the unset fields of its plan entry (or adds a whole entry), and
/// paths the lockfile does not hold are untouched.
pub open spec fn merge_lockfile_pulls(
    plan: Map<Seq<char>, PlanPullView>,
    lock: Map<Seq<char>, LockedPullView>,
) -> Map<Seq<char>, PlanPullView> {
    Map::new(
        |p: Seq<char>| plan.contains_key(p) || lock.contains_key(p),
        |p: Seq<char>|
            if lock.contains_key(p) {
                pull_merge_locked(
                    if plan.contains_key(p) {
                        Some(plan[p])
                    } else {
                        None
                    },
                    lock[p],
                )
            } else {
                plan[p]
            },
    )
}

/// The lockfile merge restricted to the locked paths already processed.
pub open spec fn merge_lockfile_partial(
    plan: Map<Seq<char>, PlanPullView>,
    lock: Map<Seq<char>, LockedPullView>,
    done: Set<Seq<char>>,
) -> Map<Seq<char>, PlanPullView> {
    Map::new(
        |p: Seq<char>| plan.contains_key(p) || (lock.contains_key(p) && done.contains(p)),
        |p: Seq<char>|
            if lock.contains_key(p) && done.contains(p) {
                pull_merge_locked(
                    if plan.contains_key(p) {
                        Some(plan[p])
                    } else {
                        None
                    },
                    lock[p],
                )
            } else {
                plan[p]
            },
    )
}

// ---------------------------------------------------------------------
// The plan
// ---------------------------------------------------------------------
/// The in-memory execution plan of one run: what to push and what to pull,
/// keyed by local path, and the connection to run against.
pub struct Plan {
    pub push: StringMap<PushArtifactRef>,
    pub pull: StringMap<PullArtifactRef>,
    pub ctx: Context,
}

impl Plan {
    /// An empty plan bound to a registry connection context.
    pub fn new(ctx: Context) -> (r: Plan)
        ensures
            r.push@ == Map::<Seq<char>, PlanPushView>::empty(),
            r.pull@ == Map::<Seq<char>, PlanPullView>::empty(),
            r.ctx == ctx,
    {
        Plan { push: StringMap::new(), pull: StringMap::new(), ctx }
    }

    /// Merges the configuration into the plan: pull specs set coordinates
    /// and (possibly absent) pinned versions; push specs set every push
    /// field.
    pub fn merge_with_config(self, cfg: &Config) -> (r: Plan)
        ensures
            r.pull@ == merge_config_pulls(self.pull@, cfg@.pull),
            r.push@ == merge_config_pushes(self.push@, cfg@.push),
            r.ctx == self.ctx,
    {
        let mut plan = self;
        let ghost init_pull = plan.pull@;
        let ghost cfg_pulls = cfg@.pull;
        let n = cfg.pull.len();
        for i in 0..n
            invariant
                n == cfg.pull@.len(),
                cfg_pulls == cfg@.pull,
                plan.pull@ == merge_config_pulls(init_pull, cfg_pulls.take(i as int)),
                plan.push@ == self.push@,
                plan.ctx == self.ctx,
        {
            let artifact = &cfg.pull[i];
            proof {
                assert(artifact@ == cfg_pulls[i as int]);
            }
            let merged = match plan.pull.get(&artifact.path) {
                Some(cur) => PullArtifactRef {
                    group: Some(artifact.group.clone()),
                    artifact: Some(artifact.artifact.clone()),
                    artifact_type: cur.artifact_type,
                    version: clone_opt_str(&artifact.version),
                    global_id: cur.global_id,
                },
                None => PullArtifactRef {
                    group: Some(artifact.group.clone()),
                    artifact: Some(artifact.artifact.clone()),
                    artifact_type: None,
                    version: clone_opt_str(&artifact.version),
                    global_id: None,
                },
            };
            plan.pull.insert(artifact.path.clone(), merged);
            proof {
                lemma_merge_pulls_push(init_pull, cfg_pulls.take(i as int), cfg_pulls[i as int]);
                assert(cfg_pulls.take(i + 1) =~= cfg_pulls.take(i as int).push(
                    cfg_pulls[i as int],
                ));
            }
        }
        proof {
            assert(cfg_pulls.take(n as int) =~= cfg_pulls);
        }
        let ghost cfg_pushes = cfg@.push;
        let m = cfg.push.len();
        for i in 0..m
            invariant
                m == cfg.push@.len(),
                cfg_pushes == cfg@.push,
                plan.pull@ == merge_config_pulls(init_pull, cfg_pulls),
                plan.push@ == merge_config_pushes(self.push@, cfg_pushes.take(i as int)),
                plan.ctx == self.ctx,
        {
            let artifact = &cfg.push[i];
            proof {
                assert(artifact@ == cfg_pushes[i as int]);
            }
            let merged = PushArtifactRef {
                group: Some(artifact.group.clone()),
                artifact: Some(artifact.artifact.clone()),
                artifact_type: artifact.artifact_type,
                name: clone_opt_str(&artifact.name),
                description: clone_opt_str(&artifact.description),
                labels: clone_opt_strs(&artifact.labels),
                properties: clone_opt_pairs(&artifact.properties),
            };
            plan.push.insert(artifact.path.clone(), merged);
            proof {
                lemma_merge_pushes_push(self.push@, cfg_pushes.take(i as int), cfg_pushes[i as int]);
                assert(cfg_pushes.take(i + 1) =~= cfg_pushes.take(i as int).push(
                    cfg_pushes[i as int],
                ));
            }
        }
        proof {
            assert(cfg_pushes.take(m as int) =~= cfg_pushes);
        }
        plan
    }

    /// Merges the lockfile into the plan: each locked path fills only the
    /// fields its plan entry does not carry yet, so configuration values —
    /// a pinned version above all — always win over lock data.
    pub fn merge_with_lockfile(self, lockfile: &LockFile) -> (r: Plan)
        ensures
            r.pull@ == merge_lockfile_pulls(self.pull@, lockfile.pull@),
            r.push@ == self.push@,
            r.ctx == self.ctx,
    {
        let mut plan = self;
        let ghost init_pull = plan.pull@;
        let ghost lock = lockfile.pull@;
        let n = lockfile.pull.len();
        let ghost lock_keys = lockfile.pull.key_seq();
        for i in 0..n
            invariant
                n == lock_keys.len(),
                lock_keys == lockfile.pull.key_seq(),
                lock == lockfile.pull@,
                lock.dom() == lock_keys.to_set(),
                forall|a: int, b: int| 0 <= a < b < n ==> lock_keys[a] != lock_keys[b],
                forall|a: int| 0 <= a < n ==> lock.contains_key(lock_keys[a]),
                plan.pull@ == merge_lockfile_partial(
                    init_pull,
                    lock,
                    lock_keys.take(i as int).to_set(),
                ),
                plan.push@ == self.push@,
                plan.ctx == self.ctx,
        {
            let path = lockfile.pull.key_at(i);
            let entry = lockfile.pull.value_at(i);
            let merged = match plan.pull.get(path) {
                Some(cur) => PullArtifactRef {
                    group: match &cur.group {
                        Some(g) => Some(g.clone()),
                        None => Some(entry.group.clone()),
                    },
                    artifact: match &cur.artifact {
                        Some(a) => Some(a.clone()),
                        None => Some(entry.artifact.clone()),
                    },
                    artifact_type: match cur.artifact_type {
                        Some(t) => Some(t),
                        None => Some(entry.artifact_type),
                    },
                    version: match &cur.version {
                        Some(v) => Some(v.clone()),
                        None => Some(entry.version.clone()),
                    },
                    global_id: match cur.global_id {
                        Some(g) => Some(g),
                        None => Some(entry.global_id),
                    },
                },
                None => PullArtifactRef {
                    group: Some(entry.group.clone()),
                    artifact: Some(entry.artifact.clone()),
                    artifact_type: Some(entry.artifact_type),
                    version: Some(entry.version.clone()),
                    global_id: Some(entry.global_id),
                },
            };
            proof {
                assert(!lock_keys.take(i as int).to_set().contains(lock_keys[i as int])) by {
                    if lock_keys.take(i as int).to_set().contains(lock_keys[i as int]) {
                        let w = choose|w: int|
                            0 <= w < i && (#[trigger] lock_keys.take(i as int)[w])
                                == lock_keys[i as int];
                        assert(lock_keys[w] == lock_keys[i as int]);
                    }
                }
                assert(merged@ == pull_merge_locked(
                    if init_pull.contains_key(lock_keys[i as int]) {
                        Some(init_pull[lock_keys[i as int]])
                    } else {
                        None
                    },
                    lock[lock_keys[i as int]],
                ));
            }
            plan.pull.insert(path.clone(), merged);
            proof {
                lemma_take_to_set(lock_keys, i as int);
                assert(plan.pull@ =~= merge_lockfile_partial(
                    init_pull,
                    lock,
                    lock_keys.take(i + 1).to_set(),
                ));
            }
        }
        proof {
            assert(lock_keys.take(n as int) =~= lock_keys);
            assert(plan.pull@ =~= merge_lockfile_pulls(init_pull, lock));
        }
        plan
    }
}

// ---------------------------------------------------------------------
// Lemmas about the merge rules
// ---------------------------------------------------------------------
proof fn lemma_merge_pulls_push(
    plan: Map<Seq<char>, PlanPullView>,
    pulls: Seq<PullSpecView>,
    s: PullSpecView,
)
    ensures
        merge_config_pulls(plan, pulls.push(s)) == {
            let m = merge_config_pulls(plan, pulls);
            m.insert(
                s.path,
                pull_merge_config(
                    if m.contains_key(s.path) {
                        Some(m[s.path])
                    } else {
                        None
                    },
                    s,
                ),
            )
        },
    decreases pulls.len(),
{
    let whole = pulls.push(s);
    let cur0 = if plan.contains_key(whole[0].path) {
        Some(plan[whole[0].path])
    } else {
        None
    };
    assert(merge_config_pulls(plan, whole) == merge_config_pulls(
        plan.insert(whole[0].path, pull_merge_config(cur0, whole[0])),
        whole.drop_first(),
    ));
    if pulls.len() == 0 {
        assert(whole[0] == s);
        assert(whole.drop_first() =~= Seq::<PullSpecView>::empty());
        assert(merge_config_pulls(plan, pulls) == plan);
        assert(merge_config_pulls(
            plan.insert(s.path, pull_merge_config(cur0, s)),
            whole.drop_first(),
        ) == plan.insert(s.path, pull_merge_config(cur0, s)));
    } else {
        assert(whole[0] == pulls[0]);
        assert(whole.drop_first() =~= pulls.drop_first().push(s));
        lemma_merge_pulls_push(
            plan.insert(pulls[0].path, pull_merge_config(cur0, pulls[0])),
            pulls.drop_first(),
            s,
        );
        assert(merge_config_pulls(plan, pulls) == merge_config_pulls(
            plan.insert(pulls[0].path, pull_merge_config(cur0, pulls[0])),
            pulls.drop_first(),
        ));
    }
}

proof fn lemma_merge_pushes_push(
    plan: Map<Seq<char>, PlanPushView>,
    pushes: Seq<PushSpecView>,
    s: PushSpecView,
)
    ensures
        merge_config_pushes(plan, pushes.push(s)) == merge_config_pushes(plan, pushes).insert(
            s.path,
            push_of_spec(s),
        ),
    decreases pushes.len(),
{
    let whole = pushes.push(s);
    assert(merge_config_pushes(plan, whole) == merge_config_pushes(
        plan.insert(whole[0].path, push_of_spec(whole[0])),
        whole.drop_first(),
    ));
    if pushes.len() == 0 {
        assert(whole[0] == s);
        assert(whole.drop_first() =~= Seq::<PushSpecView>::empty());
        assert(merge_config_pushes(plan, pushes) == plan);
        assert(merge_config_pushes(
            plan.insert(s.path, push_of_spec(s)),
            whole.drop_first(),
        ) == plan.insert(s.path, push_of_spec(s)));
    } else {
        assert(whole[0] == pushes[0]);
        assert(whole.drop_first() =~= pushes.drop_first().push(s));
        lemma_merge_pushes_push(
            plan.insert(pushes[0].path, push_of_spec(pushes[0])),
            pushes.drop_first(),
            s,
        );
        assert(merge_config_pushes(plan, pushes) == merge_config_pushes(
            plan.insert(pushes[0].path, push_of_spec(pushes[0])),
            pushes.drop_first(),
        ));
    }
}

/// A path no pull spec names keeps its plan entry through the
/// configuration merge.
proof fn lemma_merge_pulls_untouched(
    plan: Map<Seq<char>, PlanPullView>,
    pulls: Seq<PullSpecView>,
    p: Seq<char>,
)
    requires
        forall|i: int| 0 <= i < pulls.len() ==> (#[trigger] pulls[i].path) != p,
    ensures
        merge_config_pulls(plan, pulls).contains_key(p) == plan.contains_key(p),
        plan.contains_key(p) ==> merge_config_pulls(plan, pulls)[p] == plan[p],
    decreases pulls.len(),
{
    if pulls.len() > 0 {
        let s = pulls[0];
        let cur = if plan.contains_key(s.path) {
            Some(plan[s.path])
        } else {
            None
        };
        assert(forall|i: int|
            0 <= i < pulls.drop_first().len() ==> (#[trigger] pulls.drop_first()[i].path) != p);
        lemma_merge_pulls_untouched(
            plan.insert(s.path, pull_merge_config(cur, s)),
            pulls.drop_first(),
            p,
        );
    }
}

/// What the configuration merge records for a pull spec that no later
/// spec overrides: exactly that spec's coordinate and version.
proof fn lemma_merge_pulls_at(
    plan: Map<Seq<char>, PlanPullView>,
    pulls: Seq<PullSpecView>,
    i: int,
)
    requires
        0 <= i < pulls.len(),
        forall|j: int| i < j < pulls.len() ==> pulls[j].path != pulls[i].path,
    ensures
        merge_config_pulls(plan, pulls).contains_key(pulls[i].path),
        merge_config_pulls(plan, pulls)[pulls[i].path].group == Some(pulls[i].group),
        merge_config_pulls(plan, pulls)[pulls[i].path].artifact == Some(pulls[i].artifact),
        merge_config_pulls(plan, pulls)[pulls[i].path].version == pulls[i].version,
    decreases pulls.len(),
{
    let s = pulls[0];
    let cur = if plan.contains_key(s.path) {
        Some(plan[s.path])
    } else {
        None
    };
    let plan2 = plan.insert(s.path, pull_merge_config(cur, s));
    if i == 0 {
        assert forall|j: int|
            0 <= j < pulls.drop_first().len() implies (#[trigger] pulls.drop_first()[j].path)
            != pulls[0].path by {
            assert(pulls.drop_first()[j] == pulls[j + 1]);
        }
        lemma_merge_pulls_untouched(plan2, pulls.drop_first(), pulls[0].path);
    } else {
        assert forall|j: int|
            i - 1 < j < pulls.drop_first().len() implies #[trigger] pulls.drop_first()[j].path
            != pulls.drop_first()[i - 1].path by {
            assert(pulls.drop_first()[j] == pulls[j + 1]);
            assert(pulls.drop_first()[i - 1] == pulls[i]);
        }
        lemma_merge_pulls_at(plan2, pulls.drop_first(), i - 1);
        assert(pulls.drop_first()[i - 1] == pulls[i]);
    }
}

/// Configuration over lockfile: when a path stands in both the
/// configuration (with a pinned version, and not overridden by a later
/// spec) and the lockfile, the plan built by merging the configuration and
/// then the lockfile carries the configuration's version — whatever
/// version the lockfile holds.
pub proof fn lemma_config_over_lockfile(
    plan: Map<Seq<char>, PlanPullView>,
    pulls: Seq<PullSpecView>,
    lock: Map<Seq<char>, LockedPullView>,
    i: int,
)
    requires
        0 <= i < pulls.len(),
        pulls[i].version is Some,
        forall|j: int| i < j < pulls.len() ==> pulls[j].path != pulls[i].path,
    ensures
        merge_lockfile_pulls(merge_config_pulls(plan, pulls), lock).contains_key(pulls[i].path),
        merge_lockfile_pulls(merge_config_pulls(plan, pulls), lock)[pulls[i].path].version
            == pulls[i].version,
{
    lemma_merge_pulls_at(plan, pulls, i);
}

} // verus!
