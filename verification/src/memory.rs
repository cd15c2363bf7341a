//! An in-memory registry: a provider backed by a list of artifact version
//! records, for exercising the reconciliation core without a network.
//!
//! Each record holds one artifact version with its content; a record may be
//! flagged as its artifact's latest version. Queries scan the records in
//! order and the first match answers, which is what the provider's registry
//! view is defined from.

use vstd::prelude::*;

use crate::context::Auth;
use crate::error::Error;
use crate::provider::{
    ArtifactMetadata, ArtifactMetadataView, ArtifactType, ArtifactVersionMetadata,
    ArtifactVersionMetadataView, Provider, PushArtifactMetadata, RegistryView, SystemInfo,
};
use crate::views::clone_bytes;

verus! {

/// One artifact version stored by the in-memory registry.
pub struct RegistryEntry {
    pub group: String,
    pub artifact: String,
    pub version: String,
    pub artifact_type: ArtifactType,
    pub global_id: u64,
    pub content: Vec<u8>,
    /// Whether this record answers "latest version" queries for its
    /// artifact.
    pub latest: bool,
}

/// The view of a registry record.
pub struct RegistryEntryView {
    pub group: Seq<char>,
    pub artifact: Seq<char>,
    pub version: Seq<char>,
    pub artifact_type: ArtifactType,
    pub global_id: u64,
    pub content: Seq<u8>,
    pub latest: bool,
}

impl View for RegistryEntry {
    type V = RegistryEntryView;

    open spec fn view(&self) -> RegistryEntryView {
        RegistryEntryView {
            group: self.group@,
            artifact: self.artifact@,
            version: self.version@,
            artifact_type: self.artifact_type,
            global_id: self.global_id,
            content: self.content@,
            latest: self.latest,
        }
    }
}

/// The latest-version metadata a record answers with.
pub open spec fn latest_meta_of(e: RegistryEntryView) -> ArtifactMetadataView {
    ArtifactMetadataView {
        group_id: e.group,
        id: e.artifact,
        name: None,
        description: None,
        artifact_type: e.artifact_type,
        version: e.version,
        created_by: Seq::empty(),
        created_on: Seq::empty(),
        modified_by: Seq::empty(),
        modified_on: Seq::empty(),
        global_id: e.global_id,
        content_id: e.global_id,
        labels: Seq::empty(),
        properties: Seq::empty(),
    }
}

/// The version metadata a record answers with.
pub open spec fn version_meta_of(e: RegistryEntryView) -> ArtifactVersionMetadataView {
    ArtifactVersionMetadataView {
        group_id: e.group,
        id: e.artifact,
        name: None,
        description: None,
        artifact_type: e.artifact_type,
        version: e.version,
        created_by: Seq::empty(),
        created_on: Seq::empty(),
        global_id: e.global_id,
        content_id: e.global_id,
        labels: Seq::empty(),
        properties: Seq::empty(),
    }
}

/// The latest-version answers of a record list, earlier records winning.
pub open spec fn latest_of(s: Seq<RegistryEntryView>) -> Map<
    (Seq<char>, Seq<char>),
    ArtifactMetadataView,
>
    decreases s.len(),
{
    if s.len() == 0 {
        Map::empty()
    } else {
        let rest = latest_of(s.drop_first());
        if s[0].latest {
            rest.insert((s[0].group, s[0].artifact), latest_meta_of(s[0]))
        } else {
            rest
        }
    }
}

/// The version-metadata answers of a record list, earlier records winning.
pub open spec fn versions_of(s: Seq<RegistryEntryView>) -> Map<
    (Seq<char>, Seq<char>, Seq<char>),
    ArtifactVersionMetadataView,
>
    decreases s.len(),
{
    if s.len() == 0 {
        Map::empty()
    } else {
        versions_of(s.drop_first()).insert(
            (s[0].group, s[0].artifact, s[0].version),
            version_meta_of(s[0]),
        )
    }
}

/// The content answers of a record list, earlier records winning.
pub open spec fn contents_of(s: Seq<RegistryEntryView>) -> Map<u64, Seq<u8>>
    decreases s.len(),
{
    if s.len() == 0 {
        Map::empty()
    } else {
        contents_of(s.drop_first()).insert(s[0].global_id, s[0].content)
    }
}

proof fn lemma_versions_lookup(s: Seq<RegistryEntryView>, i: int)
    requires
        0 <= i < s.len(),
        forall|j: int|
            0 <= j < i ==> (#[trigger] s[j].group, s[j].artifact, s[j].version) != (
                s[i].group,
                s[i].artifact,
                s[i].version,
            ),
    ensures
        versions_of(s).contains_pair((s[i].group, s[i].artifact, s[i].version), version_meta_of(s[i])),
    decreases s.len(),
{
    if i > 0 {
        assert(s.drop_first()[i - 1] == s[i]);
        assert forall|j: int|
            0 <= j < i - 1 implies (
            #[trigger] s.drop_first()[j].group,
            s.drop_first()[j].artifact,
            s.drop_first()[j].version,
        ) != (s[i].group, s[i].artifact, s[i].version) by {
            assert(s.drop_first()[j] == s[j + 1]);
        }
        lemma_versions_lookup(s.drop_first(), i - 1);
        assert((s[0].group, s[0].artifact, s[0].version) != (s[i].group, s[i].artifact, s[i].version));
    }
}

proof fn lemma_latest_lookup(s: Seq<RegistryEntryView>, i: int)
    requires
        0 <= i < s.len(),
        s[i].latest,
        forall|j: int|
            0 <= j < i ==> !(#[trigger] s[j].latest && s[j].group == s[i].group && s[j].artifact
                == s[i].artifact),
    ensures
        latest_of(s).contains_pair((s[i].group, s[i].artifact), latest_meta_of(s[i])),
    decreases s.len(),
{
    if i > 0 {
        assert(s.drop_first()[i - 1] == s[i]);
        assert forall|j: int|
            0 <= j < i - 1 implies !(#[trigger] s.drop_first()[j].latest && s.drop_first()[j].group
            == s[i].group && s.drop_first()[j].artifact == s[i].artifact) by {
            assert(s.drop_first()[j] == s[j + 1]);
        }
        lemma_latest_lookup(s.drop_first(), i - 1);
        assert(!(s[0].latest && s[0].group == s[i].group && s[0].artifact == s[i].artifact));
    }
}

proof fn lemma_contents_lookup(s: Seq<RegistryEntryView>, i: int)
    requires
        0 <= i < s.len(),
        forall|j: int| 0 <= j < i ==> (#[trigger] s[j].global_id) != s[i].global_id,
    ensures
        contents_of(s).contains_pair(s[i].global_id, s[i].content),
    decreases s.len(),
{
    if i > 0 {
        assert(s.drop_first()[i - 1] == s[i]);
        assert forall|j: int|
            0 <= j < i - 1 implies (#[trigger] s.drop_first()[j].global_id) != s[i].global_id by {
            assert(s.drop_first()[j] == s[j + 1]);
        }
        lemma_contents_lookup(s.drop_first(), i - 1);
    }
}

proof fn lemma_latest_absent(s: Seq<RegistryEntryView>, g: Seq<char>, a: Seq<char>)
    requires
        forall|j: int|
            0 <= j < s.len() ==> !(#[trigger] s[j].latest && s[j].group == g && s[j].artifact
                == a),
    ensures
        !latest_of(s).contains_key((g, a)),
    decreases s.len(),
{
    if s.len() > 0 {
        assert(!(s[0].latest && s[0].group == g && s[0].artifact == a));
        assert forall|j: int|
            0 <= j < s.drop_first().len() implies !(#[trigger] s.drop_first()[j].latest
            && s.drop_first()[j].group == g && s.drop_first()[j].artifact == a) by {
            assert(s.drop_first()[j] == s[j + 1]);
        }
        lemma_latest_absent(s.drop_first(), g, a);
    }
}

proof fn lemma_versions_absent(s: Seq<RegistryEntryView>, g: Seq<char>, a: Seq<char>, v: Seq<char>)
    requires
        forall|j: int|
            0 <= j < s.len() ==> (#[trigger] s[j].group, s[j].artifact, s[j].version) != (g, a, v),
    ensures
        !versions_of(s).contains_key((g, a, v)),
    decreases s.len(),
{
    if s.len() > 0 {
        assert forall|j: int|
            0 <= j < s.drop_first().len() implies (
            #[trigger] s.drop_first()[j].group,
            s.drop_first()[j].artifact,
            s.drop_first()[j].version,
        ) != (g, a, v) by {
            assert(s.drop_first()[j] == s[j + 1]);
        }
        lemma_versions_absent(s.drop_first(), g, a, v);
    }
}

proof fn lemma_contents_absent(s: Seq<RegistryEntryView>, global_id: u64)
    requires
        forall|j: int| 0 <= j < s.len() ==> (#[trigger] s[j].global_id) != global_id,
    ensures
        !contents_of(s).contains_key(global_id),
    decreases s.len(),
{
    if s.len() > 0 {
        assert forall|j: int|
            0 <= j < s.drop_first().len() implies (#[trigger] s.drop_first()[j].global_id)
            != global_id by {
            assert(s.drop_first()[j] == s[j + 1]);
        }
        lemma_contents_absent(s.drop_first(), global_id);
    }
}

/// A registry held in memory: the provider used by tests and dry runs.
pub struct MemoryProvider {
    entries: Vec<RegistryEntry>,
}

impl MemoryProvider {
    /// The records in the registry, in answer precedence order.
    pub closed spec fn entries_view(&self) -> Seq<RegistryEntryView> {
        self.entries@.map_values(|e: RegistryEntry| e@)
    }

    /// An empty in-memory registry.
    pub fn new() -> (r: MemoryProvider)
        ensures
            r.entries_view() == Seq::<RegistryEntryView>::empty(),
    {
        let r = MemoryProvider { entries: Vec::new() };
        proof {
            assert(r.entries_view() =~= Seq::<RegistryEntryView>::empty());
        }
        r
    }

    /// Stores one artifact version record. Earlier records win over later
    /// ones when they answer the same query.
    pub fn add_entry(&mut self, e: RegistryEntry)
        ensures
            final(self).entries_view() == old(self).entries_view().push(e@),
    {
        let ghost before = self.entries@;
        self.entries.push(e);
        proof {
            assert(self.entries_view() =~= old(self).entries_view().push(
                self.entries@.last()@,
            ));
        }
    }
}

impl Provider for MemoryProvider {
    open spec fn registry(&self) -> RegistryView {
        RegistryView {
            latest: latest_of(self.entries_view()),
            versions: versions_of(self.entries_view()),
            content: contents_of(self.entries_view()),
        }
    }

    fn system_info(&self, auth: &Auth) -> (r: Result<SystemInfo, Error>)
        ensures
            r is Ok,
    {
        Ok(
            SystemInfo {
                name: "in-memory registry".to_owned(),
                description: "a registry held in memory".to_owned(),
                version: "0".to_owned(),
                built_on: String::new(),
            },
        )
    }

    fn fetch_artifact_metadata(&self, group_id: &String, artifact_id: &String, auth: &Auth) -> (r:
        Result<ArtifactMetadata, Error>)
        ensures
            r is Ok <==> self.registry().latest.contains_key((group_id@, artifact_id@)),
            r is Err ==> r matches Err(Error::Http(_)),
    {
        let n = self.entries.len();
        for i in 0..n
            invariant
                n == self.entries@.len(),
                forall|j: int|
                    0 <= j < i ==> !(#[trigger] self.entries_view()[j].latest
                        && self.entries_view()[j].group == group_id@ && self.entries_view()[j].artifact
                        == artifact_id@),
        {
            let e = &self.entries[i];
            if e.latest && e.group == *group_id && e.artifact == *artifact_id {
                let m = ArtifactMetadata {
                    group_id: e.group.clone(),
                    id: e.artifact.clone(),
                    name: None,
                    description: None,
                    artifact_type: e.artifact_type,
                    version: e.version.clone(),
                    created_by: String::new(),
                    created_on: String::new(),
                    modified_by: String::new(),
                    modified_on: String::new(),
                    global_id: e.global_id,
                    content_id: e.global_id,
                    labels: Vec::new(),
                    properties: Vec::new(),
                };
                proof {
                    lemma_latest_lookup(self.entries_view(), i as int);
                    assert(crate::views::str_seq_view(m.labels@) =~= Seq::<Seq<char>>::empty());
                    assert(crate::views::pair_seq_view(m.properties@) =~= Seq::<
                        (Seq<char>, Seq<char>),
                    >::empty());
                    assert(m@ == latest_meta_of(self.entries_view()[i as int]));
                }
                return Ok(m);
            }
        }
        proof {
            lemma_latest_absent(self.entries_view(), group_id@, artifact_id@);
        }
        Err(Error::Http("artifact not found".to_owned()))
    }

    fn fetch_artifact_version_metadata(
        &self,
        group_id: &String,
        artifact_id: &String,
        version: &String,
        auth: &Auth,
    ) -> (r: Result<ArtifactVersionMetadata, Error>)
        ensures
            r is Ok <==> self.registry().versions.contains_key((group_id@, artifact_id@, version@)),
            r is Err ==> r matches Err(Error::Http(_)),
    {
        let n = self.entries.len();
        for i in 0..n
            invariant
                n == self.entries@.len(),
                forall|j: int|
                    0 <= j < i ==> (
                        #[trigger] self.entries_view()[j].group,
                        self.entries_view()[j].artifact,
                        self.entries_view()[j].version,
                    ) != (group_id@, artifact_id@, version@),
        {
            let e = &self.entries[i];
            if e.group == *group_id && e.artifact == *artifact_id && e.version == *version {
                let m = ArtifactVersionMetadata {
                    group_id: e.group.clone(),
                    id: e.artifact.clone(),
                    name: None,
                    description: None,
                    artifact_type: e.artifact_type,
                    version: e.version.clone(),
                    created_by: String::new(),
                    created_on: String::new(),
                    global_id: e.global_id,
                    content_id: e.global_id,
                    labels: Vec::new(),
                    properties: Vec::new(),
                };
                proof {
                    lemma_versions_lookup(self.entries_view(), i as int);
                    assert(crate::views::str_seq_view(m.labels@) =~= Seq::<Seq<char>>::empty());
                    assert(crate::views::pair_seq_view(m.properties@) =~= Seq::<
                        (Seq<char>, Seq<char>),
                    >::empty());
                    assert(m@ == version_meta_of(self.entries_view()[i as int]));
                }
                return Ok(m);
            }
        }
        proof {
            lemma_versions_absent(self.entries_view(), group_id@, artifact_id@, version@);
        }
        Err(Error::Http("artifact version not found".to_owned()))
    }

    fn fetch_artifact_by_global_id(&self, global_id: u64, auth: &Auth) -> (r: Result<
        Vec<u8>,
        Error,
    >)
        ensures
            r is Ok <==> self.registry().content.contains_key(global_id),
            r is Err ==> r matches Err(Error::Http(_)),
    {
        let n = self.entries.len();
        for i in 0..n
            invariant
                n == self.entries@.len(),
                forall|j: int|
                    0 <= j < i ==> (#[trigger] self.entries_view()[j].global_id) != global_id,
        {
            let e = &self.entries[i];
            if e.global_id == global_id {
                proof {
                    lemma_contents_lookup(self.entries_view(), i as int);
                }
                return Ok(clone_bytes(&e.content));
            }
        }
        proof {
            lemma_contents_absent(self.entries_view(), global_id);
        }
        Err(Error::Http("no content under this global identifier".to_owned()))
    }

    /// The in-memory registry accepts every upload and discards it: it
    /// answers queries from its fixed records alone.
    fn push_artifact(&self, metadata: PushArtifactMetadata, content: Vec<u8>, auth: &Auth) -> (r:
        Result<(), Error>)
        ensures
            r is Ok,
    {
        Ok(())
    }
}

} // verus!
