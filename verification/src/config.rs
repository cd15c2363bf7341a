//! The declarative configuration: which artifacts to push and pull.
//!
//! The configuration is read once per run (the surrounding application
//! parses the file and hands the values over) and is never written by the
//! core, except for `init`, which starts a project from the default, empty
//! configuration.

use vstd::prelude::*;

use crate::provider::ArtifactType;
use crate::views::{opt_str_view, opt_strs_view, opt_pairs_view};

verus! {

/// One artifact to upload: the local file and the registry coordinate and
/// descriptive metadata to upload it under.
pub struct PushArtifactRef {
    pub group: String,
    pub artifact: String,
    pub path: String,
    pub artifact_type: Option<ArtifactType>,
    pub name: Option<String>,
    pub description: Option<String>,
    pub labels: Option<Vec<String>>,
    pub properties: Option<Vec<(String, String)>>,
}

/// The view of a push spec.
pub struct PushSpecView {
    pub group: Seq<char>,
    pub artifact: Seq<char>,
    pub path: Seq<char>,
    pub artifact_type: Option<ArtifactType>,
    pub name: Option<Seq<char>>,
    pub description: Option<Seq<char>>,
    pub labels: Option<Seq<Seq<char>>>,
    pub properties: Option<Seq<(Seq<char>, Seq<char>)>>,
}

impl View for PushArtifactRef {
    type V = PushSpecView;

    open spec fn view(&self) -> PushSpecView {
        PushSpecView {
            group: self.group@,
            artifact: self.artifact@,
            path: self.path@,
            artifact_type: self.artifact_type,
            name: opt_str_view(self.name),
            description: opt_str_view(self.description),
            labels: opt_strs_view(self.labels),
            properties: opt_pairs_view(self.properties),
        }
    }
}

/// One artifact to download: the registry coordinate, the version to pin
/// (or nothing, to track the latest), and the local file to write.
pub struct PullArtifactRef {
    pub group: String,
    pub artifact: String,
    pub version: Option<String>,
    pub path: String,
}

/// The view of a pull spec.
pub struct PullSpecView {
    pub group: Seq<char>,
    pub artifact: Seq<char>,
    pub version: Option<Seq<char>>,
    pub path: Seq<char>,
}

impl View for PullArtifactRef {
    type V = PullSpecView;

    open spec fn view(&self) -> PullSpecView {
        PullSpecView {
            group: self.group@,
            artifact: self.artifact@,
            version: opt_str_view(self.version),
            path: self.path@,
        }
    }
}

/// The configuration of a project: its push and pull specs, and the path
/// of the file they were read from.
pub struct Config {
    pub push: Vec<PushArtifactRef>,
    pub pull: Vec<PullArtifactRef>,
    pub path: String,
}

/// The view of a configuration.
pub struct ConfigView {
    pub push: Seq<PushSpecView>,
    pub pull: Seq<PullSpecView>,
    pub path: Seq<char>,
}

impl View for Config {
    type V = ConfigView;

    open spec fn view(&self) -> ConfigView {
        ConfigView {
            push: self.push@.map_values(|p: PushArtifactRef| p@),
            pull: self.pull@.map_values(|p: PullArtifactRef| p@),
            path: self.path@,
        }
    }
}

impl Default for Config {
    /// A configuration that pushes and pulls nothing, bound to no file.
    fn default() -> (r: Config)
        ensures
            r@.push == Seq::<PushSpecView>::empty(),
            r@.pull == Seq::<PullSpecView>::empty(),
            r@.path == Seq::<char>::empty(),
    {
        let r = Config { push: Vec::new(), pull: Vec::new(), path: String::new() };
        proof {
            assert(r@.push =~= Seq::<PushSpecView>::empty());
            assert(r@.pull =~= Seq::<PullSpecView>::empty());
        }
        r
    }
}

/// The set of local paths named by a sequence of pull specs.
pub open spec fn pull_paths(pulls: Seq<PullSpecView>) -> Set<Seq<char>> {
    Set::new(|p: Seq<char>| exists|i: int| 0 <= i < pulls.len() && pulls[i].path == p)
}

impl Config {
    /// Whether some pull spec of this configuration names the path.
    pub fn has_pull_path(&self, path: &String) -> (r: bool)
        ensures
            r == pull_paths(self@.pull).contains(path@),
    {
        let n = self.pull.len();
        for i in 0..n
            invariant
                n == self.pull@.len(),
                forall|j: int| 0 <= j < i ==> self@.pull[j].path != path@,
        {
            if self.pull[i].path == *path {
                proof {
                    assert(self@.pull[i as int].path == path@);
                }
                return true;
            }
        }
        false
    }
}

} // verus!
