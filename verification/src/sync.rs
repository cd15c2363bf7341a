//! The sync executor: applies a built plan against the registry and the
//! working directory.
//!
//! The working directory is modelled as a map from relative path to file
//! content; the surrounding application loads the files a plan touches and
//! writes the results back. Pull always runs before push. Entries are
//! processed one at a time and the first failure aborts the run: a missing
//! required field or a missing local file is fatal, never skipped.

use vstd::prelude::*;

use crate::context::Auth;
use crate::error::Error;
use crate::plan::{Plan, PlanPullView, PlanPushView, PushArtifactRef};
use crate::provider::{Provider, PushArtifactMetadata, PushArtifactMetadataView};
use crate::string_map::StringMap;
use crate::views::{clone_opt_str, clone_opt_strs, clone_opt_pairs, lemma_take_to_set};

verus! {

/// Whether a plan pull entry carries everything a download needs.
pub open spec fn pull_complete(e: PlanPullView) -> bool {
    e.group is Some && e.artifact is Some && e.version is Some && e.global_id is Some
}

/// Whether a plan push entry carries everything an upload needs.
pub open spec fn push_complete(e: PlanPushView) -> bool {
    e.group is Some && e.artifact is Some
}

/// Whether a pull pass over these entries can succeed at all: every entry
/// is complete and the registry holds content for its global identifier.
pub open spec fn pull_ok(
    pull: Map<Seq<char>, PlanPullView>,
    content: Map<u64, Seq<u8>>,
) -> bool {
    forall|p: Seq<char>|
        pull.contains_key(p) ==> pull_complete(#[trigger] pull[p]) && content.contains_key(
            pull[p].global_id->0,
        )
}

/// Whether a push pass over these entries can succeed at all: every entry
/// is complete and the working directory holds its file.
pub open spec fn push_ok(
    push: Map<Seq<char>, PlanPushView>,
    files: Map<Seq<char>, Seq<u8>>,
) -> bool {
    forall|p: Seq<char>|
        push.contains_key(p) ==> push_complete(#[trigger] push[p]) && files.contains_key(p)
}

/// The file each pull entry writes: the registry content stored under the
/// entry's global identifier.
pub open spec fn pull_writes(
    pull: Map<Seq<char>, PlanPullView>,
    content: Map<u64, Seq<u8>>,
) -> Map<Seq<char>, Seq<u8>> {
    Map::new(
        |p: Seq<char>| pull.contains_key(p),
        |p: Seq<char>| content[pull[p].global_id->0],
    )
}

/// The working directory after a pull pass: every planned path is written
/// (overwriting whatever was there), every other file is untouched.
pub open spec fn pull_result(
    files: Map<Seq<char>, Seq<u8>>,
    pull: Map<Seq<char>, PlanPullView>,
    content: Map<u64, Seq<u8>>,
) -> Map<Seq<char>, Seq<u8>> {
    files.union_prefer_right(pull_writes(pull, content))
}

/// The working directory after the first `i` planned entries (in plan
/// iteration order `keys`) have been written.
pub open spec fn pull_partial(
    files: Map<Seq<char>, Seq<u8>>,
    pull: Map<Seq<char>, PlanPullView>,
    content: Map<u64, Seq<u8>>,
    keys: Seq<Seq<char>>,
    i: int,
) -> Map<Seq<char>, Seq<u8>> {
    files.union_prefer_right(
        Map::new(
            |p: Seq<char>| pull.contains_key(p) && keys.take(i).to_set().contains(p),
            |p: Seq<char>| content[pull[p].global_id->0],
        ),
    )
}

/// A path no pull entry plans is exactly as it was: present with the same
/// content, or still absent.
pub open spec fn untouched_outside_plan(
    pull: Map<Seq<char>, PlanPullView>,
    before: Map<Seq<char>, Seq<u8>>,
    after: Map<Seq<char>, Seq<u8>>,
) -> bool {
    forall|p: Seq<char>|
        !(#[trigger] pull.contains_key(p)) ==> after.contains_key(p) == before.contains_key(p) && (
        before.contains_key(p) ==> after[p] == before[p])
}

/// Every planned path is either exactly as it was, or now holds the
/// registry content of its (complete) entry's global identifier: a pass
/// that aborts midway leaves no file in any third state.
pub open spec fn written_or_untouched(
    pull: Map<Seq<char>, PlanPullView>,
    content: Map<u64, Seq<u8>>,
    before: Map<Seq<char>, Seq<u8>>,
    after: Map<Seq<char>, Seq<u8>>,
) -> bool {
    forall|p: Seq<char>|
        #[trigger] pull.contains_key(p) ==> {
            ||| {
                &&& after.contains_key(p) == before.contains_key(p)
                &&& (before.contains_key(p) ==> after[p] == before[p])
            }
            ||| {
                &&& pull_complete(pull[p])
                &&& content.contains_key(pull[p].global_id->0)
                &&& after.contains_key(p)
                &&& after[p] == content[pull[p].global_id->0]
            }
        }
}

proof fn lemma_pull_partial_state(
    files: Map<Seq<char>, Seq<u8>>,
    pull: Map<Seq<char>, PlanPullView>,
    content: Map<u64, Seq<u8>>,
    keys: Seq<Seq<char>>,
    i: int,
)
    requires
        0 <= i <= keys.len(),
        forall|m: int|
            0 <= m < i ==> pull.contains_key(#[trigger] keys[m]) && pull_complete(pull[keys[m]])
                && content.contains_key(pull[keys[m]].global_id->0),
    ensures
        untouched_outside_plan(pull, files, pull_partial(files, pull, content, keys, i)),
        written_or_untouched(pull, content, files, pull_partial(files, pull, content, keys, i)),
{
    let cur = pull_partial(files, pull, content, keys, i);
    let writes = Map::new(
        |p: Seq<char>| pull.contains_key(p) && keys.take(i).to_set().contains(p),
        |p: Seq<char>| content[pull[p].global_id->0],
    );
    assert forall|p: Seq<char>| !(#[trigger] pull.contains_key(p)) implies cur.contains_key(p)
        == files.contains_key(p) && (files.contains_key(p) ==> cur[p] == files[p]) by {
        assert(!writes.dom().contains(p));
    }
    assert forall|p: Seq<char>| #[trigger] pull.contains_key(p) implies {
        ||| {
            &&& cur.contains_key(p) == files.contains_key(p)
            &&& (files.contains_key(p) ==> cur[p] == files[p])
        }
        ||| {
            &&& pull_complete(pull[p])
            &&& content.contains_key(pull[p].global_id->0)
            &&& cur.contains_key(p)
            &&& cur[p] == content[pull[p].global_id->0]
        }
    } by {
        if keys.take(i).to_set().contains(p) {
            let m = choose|m: int|
                0 <= m < keys.take(i).len() && (#[trigger] keys.take(i)[m]) == p;
            assert(keys[m] == p);
            assert(pull_complete(pull[p]) && content.contains_key(pull[p].global_id->0));
            assert(writes.dom().contains(p));
            assert(cur[p] == content[pull[p].global_id->0]);
        } else {
            assert(!writes.dom().contains(p));
        }
    }
}

/// Downloads every planned pull entry and writes it to its path in the
/// working directory, overwriting existing files. An entry with a missing
/// field is fatal; a failed fetch aborts the pass (files already written
/// stay written).
pub fn pull_artifacts<P: Provider>(
    provider: &P,
    plan: &Plan,
    workdir: &mut StringMap<Vec<u8>>,
    auth: &Auth,
) -> (r: Result<(), Error>)
    ensures
        plan.pull@.len() == 0 ==> r is Ok,
        r is Ok ==> pull_ok(plan.pull@, provider.registry().content),
        r is Ok ==> final(workdir)@ == pull_result(
            old(workdir)@,
            plan.pull@,
            provider.registry().content,
        ),
        untouched_outside_plan(plan.pull@, old(workdir)@, final(workdir)@),
        written_or_untouched(
            plan.pull@,
            provider.registry().content,
            old(workdir)@,
            final(workdir)@,
        ),
{
    let ghost files0 = workdir@;
    let ghost pull = plan.pull@;
    let ghost content = provider.registry().content;
    let n = plan.pull.len();
    let ghost keys = plan.pull.key_seq();
    for i in 0..n
        invariant
            n == keys.len(),
            keys == plan.pull.key_seq(),
            pull == plan.pull@,
            pull.dom() == keys.to_set(),
            forall|a: int, b: int| 0 <= a < b < n ==> keys[a] != keys[b],
            forall|a: int| 0 <= a < n ==> pull.contains_key(keys[a]),
            content == provider.registry().content,
            forall|m: int|
                0 <= m < i ==> pull_complete(#[trigger] pull[keys[m]]) && content.contains_key(
                    pull[keys[m]].global_id->0,
                ),
            files0 == old(workdir)@,
            workdir@ == pull_partial(files0, pull, content, keys, i as int),
    {
        let path = plan.pull.key_at(i);
        let artifact = plan.pull.value_at(i);
        let global_id = match (
            &artifact.group,
            &artifact.artifact,
            &artifact.version,
            artifact.global_id,
        ) {
            (Some(_), Some(_), Some(_), Some(g)) => g,
            _ => {
                proof {
                    lemma_pull_partial_state(files0, pull, content, keys, i as int);
                }
                return Err(
                    Error::setup(
                        "pull entry is missing its group, artifact, version or global identifier",
                    ),
                );
            },
        };
        let bytes = match provider.fetch_artifact_by_global_id(global_id, auth) {
            Ok(b) => b,
            Err(e) => {
                proof {
                    lemma_pull_partial_state(files0, pull, content, keys, i as int);
                }
                return Err(e);
            },
        };
        workdir.insert(path.clone(), bytes);
        proof {
            lemma_take_to_set(keys, i as int);
            assert(workdir@ =~= pull_partial(files0, pull, content, keys, i + 1));
        }
    }
    proof {
        lemma_pull_partial_state(files0, pull, content, keys, n as int);
        assert(keys.take(n as int) =~= keys);
        assert(workdir@ =~= pull_result(files0, pull, content));
        assert forall|p: Seq<char>| pull.contains_key(p) implies pull_complete(#[trigger] pull[p])
            && content.contains_key(pull[p].global_id->0) by {
            assert(keys.to_set().contains(p));
            let m = choose|m: int| 0 <= m < keys.len() && keys[m] == p;
            assert(pull_complete(pull[keys[m]]));
        }
    }
    Ok(())
}

/// The upload metadata a plan push entry describes, for the path's file.
pub fn push_metadata_for(group: String, artifact: String, entry: &PushArtifactRef) -> (m:
    PushArtifactMetadata)
    ensures
        m@ == (PushArtifactMetadataView {
            group_id: group@,
            artifact_id: artifact@,
            name: entry@.name,
            description: entry@.description,
            artifact_type: entry@.artifact_type,
            labels: entry@.labels,
            properties: entry@.properties,
        }),
{
    PushArtifactMetadata {
        group_id: group,
        artifact_id: artifact,
        name: clone_opt_str(&entry.name),
        description: clone_opt_str(&entry.description),
        artifact_type: entry.artifact_type,
        labels: clone_opt_strs(&entry.labels),
        properties: clone_opt_pairs(&entry.properties),
    }
}

/// Uploads every planned push entry: the file at the entry's path is read
/// from the working directory and pushed with the entry's metadata. An
/// entry with a missing field or a missing file is fatal; a failed upload
/// aborts the pass.
pub fn push_artifacts<P: Provider>(
    provider: &P,
    plan: &Plan,
    workdir: &StringMap<Vec<u8>>,
    auth: &Auth,
) -> (r: Result<(), Error>)
    ensures
        plan.push@.len() == 0 ==> r is Ok,
        r is Ok ==> push_ok(plan.push@, workdir@),
{
    let ghost push = plan.push@;
    let n = plan.push.len();
    let ghost keys = plan.push.key_seq();
    for i in 0..n
        invariant
            n == keys.len(),
            keys == plan.push.key_seq(),
            push == plan.push@,
            push.dom() == keys.to_set(),
            forall|a: int| 0 <= a < n ==> push.contains_key(keys[a]),
            forall|m: int|
                0 <= m < i ==> push_complete(#[trigger] push[keys[m]]) && workdir@.contains_key(
                    keys[m],
                ),
    {
        let path = plan.push.key_at(i);
        let artifact = plan.push.value_at(i);
        let content = match workdir.get(path) {
            Some(c) => c,
            None => {
                return Err(Error::Io("a file to push does not exist in the working directory".to_owned()));
            },
        };
        let group = match &artifact.group {
            Some(g) => g.clone(),
            None => {
                return Err(Error::setup("push entry is missing its group"));
            },
        };
        let artifact_id = match &artifact.artifact {
            Some(a) => a.clone(),
            None => {
                return Err(Error::setup("push entry is missing its artifact identifier"));
            },
        };
        let metadata = push_metadata_for(group, artifact_id, artifact);
        let bytes = crate::views::clone_bytes(content);
        match provider.push_artifact(metadata, bytes, auth) {
            Ok(()) => {},
            Err(e) => {
                return Err(e);
            },
        }
    }
    proof {
        assert forall|p: Seq<char>| push.contains_key(p) implies push_complete(#[trigger] push[p])
            && workdir@.contains_key(p) by {
            assert(keys.to_set().contains(p));
            let m = choose|m: int| 0 <= m < keys.len() && keys[m] == p;
            assert(push_complete(push[keys[m]]));
        }
    }
    Ok(())
}

/// One synchronization run: pull everything first, then push everything.
pub fn sync_artifacts<P: Provider>(
    provider: &P,
    plan: &Plan,
    workdir: &mut StringMap<Vec<u8>>,
    auth: &Auth,
) -> (r: Result<(), Error>)
    ensures
        plan.pull@.len() == 0 && plan.push@.len() == 0 ==> r is Ok,
        r is Ok ==> pull_ok(plan.pull@, provider.registry().content),
        r is Ok ==> final(workdir)@ == pull_result(
            old(workdir)@,
            plan.pull@,
            provider.registry().content,
        ),
        r is Ok ==> push_ok(plan.push@, final(workdir)@),
        untouched_outside_plan(plan.pull@, old(workdir)@, final(workdir)@),
        written_or_untouched(
            plan.pull@,
            provider.registry().content,
            old(workdir)@,
            final(workdir)@,
        ),
{
    match pull_artifacts(provider, plan, workdir, auth) {
        Ok(()) => push_artifacts(provider, plan, workdir, auth),
        Err(e) => Err(e),
    }
}

/// Idempotence: against an unchanged registry, a second pull pass writes
/// exactly the bytes the first one wrote — the working directory after the
/// second run equals the one after the first. Pushes never touch the
/// working directory, so a whole second synchronization run is a no-op on
/// local files (it re-uploads the same content).
pub proof fn lemma_sync_idempotent(
    files: Map<Seq<char>, Seq<u8>>,
    pull: Map<Seq<char>, PlanPullView>,
    content: Map<u64, Seq<u8>>,
)
    ensures
        pull_result(pull_result(files, pull, content), pull, content) == pull_result(
            files,
            pull,
            content,
        ),
{
    assert(pull_result(pull_result(files, pull, content), pull, content) =~= pull_result(
        files,
        pull,
        content,
    ));
}

} // verus!
