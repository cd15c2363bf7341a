//! The registry capability: what the reconciliation core asks of a remote
//! artifact registry.
//!
//! A `Provider` answers metadata and content queries from some registry
//! state, modelled by the ghost `RegistryView`. Every call may fail (the
//! transport decides), but whatever an implementation answers must agree
//! with its registry view. The HTTP implementation lives in the surrounding
//! application; this crate provides the no-op provider and, in another
//! module, an in-memory one.

use vstd::prelude::*;

use crate::context::Auth;
use crate::error::Error;
use crate::views::{opt_str_view, opt_strs_view, opt_pairs_view, pair_seq_view, str_seq_view};

verus! {

/// The kind of document an artifact holds.
#[derive(Clone, Copy, PartialEq, Eq, Structural, Debug)]
pub enum ArtifactType {
    Avro,
    Protobuf,
    Json,
    KConnect,
    OpenAPI,
    AsyncAPI,
    GraphQL,
    Wsdl,
    Xsd,
}

impl ArtifactType {
    /// The registry's wire name for this artifact type.
    pub fn as_str(&self) -> (r: &'static str)
        ensures
            r@ == self.name_view(),
    {
        let r = match self {
            ArtifactType::Avro => "AVRO",
            ArtifactType::Protobuf => "PROTOBUF",
            ArtifactType::Json => "JSON",
            ArtifactType::KConnect => "KCONNECT",
            ArtifactType::OpenAPI => "OPENAPI",
            ArtifactType::AsyncAPI => "ASYNCAPI",
            ArtifactType::GraphQL => "GRAPHQL",
            ArtifactType::Wsdl => "WSDL",
            ArtifactType::Xsd => "XSD",
        };
        proof {
            assert(r@ == self.name_view());
        }
        r
    }

    /// The wire name, at the specification level.
    pub open spec fn name_view(&self) -> Seq<char> {
        match self {
            ArtifactType::Avro => "AVRO"@,
            ArtifactType::Protobuf => "PROTOBUF"@,
            ArtifactType::Json => "JSON"@,
            ArtifactType::KConnect => "KCONNECT"@,
            ArtifactType::OpenAPI => "OPENAPI"@,
            ArtifactType::AsyncAPI => "ASYNCAPI"@,
            ArtifactType::GraphQL => "GRAPHQL"@,
            ArtifactType::Wsdl => "WSDL"@,
            ArtifactType::Xsd => "XSD"@,
        }
    }
}

/// Diagnostic information about the registry itself.
pub struct SystemInfo {
    pub name: String,
    pub description: String,
    pub version: String,
    pub built_on: String,
}

/// The metadata the registry returns for an artifact's latest version.
pub struct ArtifactMetadata {
    pub group_id: String,
    pub id: String,
    pub name: Option<String>,
    pub description: Option<String>,
    pub artifact_type: ArtifactType,
    pub version: String,
    pub created_by: String,
    pub created_on: String,
    pub modified_by: String,
    pub modified_on: String,
    pub global_id: u64,
    pub content_id: u64,
    pub labels: Vec<String>,
    pub properties: Vec<(String, String)>,
}

/// The view of `ArtifactMetadata`.
pub struct ArtifactMetadataView {
    pub group_id: Seq<char>,
    pub id: Seq<char>,
    pub name: Option<Seq<char>>,
    pub description: Option<Seq<char>>,
    pub artifact_type: ArtifactType,
    pub version: Seq<char>,
    pub created_by: Seq<char>,
    pub created_on: Seq<char>,
    pub modified_by: Seq<char>,
    pub modified_on: Seq<char>,
    pub global_id: u64,
    pub content_id: u64,
    pub labels: Seq<Seq<char>>,
    pub properties: Seq<(Seq<char>, Seq<char>)>,
}

impl View for ArtifactMetadata {
    type V = ArtifactMetadataView;

    open spec fn view(&self) -> ArtifactMetadataView {
        ArtifactMetadataView {
            group_id: self.group_id@,
            id: self.id@,
            name: opt_str_view(self.name),
            description: opt_str_view(self.description),
            artifact_type: self.artifact_type,
            version: self.version@,
            created_by: self.created_by@,
            created_on: self.created_on@,
            modified_by: self.modified_by@,
            modified_on: self.modified_on@,
            global_id: self.global_id,
            content_id: self.content_id,
            labels: str_seq_view(self.labels@),
            properties: pair_seq_view(self.properties@),
        }
    }
}

/// The metadata the registry returns for one specific artifact version.
pub struct ArtifactVersionMetadata {
    pub group_id: String,
    pub id: String,
    pub name: Option<String>,
    pub description: Option<String>,
    pub artifact_type: ArtifactType,
    pub version: String,
    pub created_by: String,
    pub created_on: String,
    pub global_id: u64,
    pub content_id: u64,
    pub labels: Vec<String>,
    pub properties: Vec<(String, String)>,
}

/// The view of `ArtifactVersionMetadata`.
pub struct ArtifactVersionMetadataView {
    pub group_id: Seq<char>,
    pub id: Seq<char>,
    pub name: Option<Seq<char>>,
    pub description: Option<Seq<char>>,
    pub artifact_type: ArtifactType,
    pub version: Seq<char>,
    pub created_by: Seq<char>,
    pub created_on: Seq<char>,
    pub global_id: u64,
    pub content_id: u64,
    pub labels: Seq<Seq<char>>,
    pub properties: Seq<(Seq<char>, Seq<char>)>,
}

impl View for ArtifactVersionMetadata {
    type V = ArtifactVersionMetadataView;

    open spec fn view(&self) -> ArtifactVersionMetadataView {
        ArtifactVersionMetadataView {
            group_id: self.group_id@,
            id: self.id@,
            name: opt_str_view(self.name),
            description: opt_str_view(self.description),
            artifact_type: self.artifact_type,
            version: self.version@,
            created_by: self.created_by@,
            created_on: self.created_on@,
            global_id: self.global_id,
            content_id: self.content_id,
            labels: str_seq_view(self.labels@),
            properties: pair_seq_view(self.properties@),
        }
    }
}

/// The metadata sent along with an upload.
pub struct PushArtifactMetadata {
    pub group_id: String,
    pub artifact_id: String,
    pub name: Option<String>,
    pub description: Option<String>,
    pub artifact_type: Option<ArtifactType>,
    pub labels: Option<Vec<String>>,
    pub properties: Option<Vec<(String, String)>>,
}

/// The view of `PushArtifactMetadata`.
pub struct PushArtifactMetadataView {
    pub group_id: Seq<char>,
    pub artifact_id: Seq<char>,
    pub name: Option<Seq<char>>,
    pub description: Option<Seq<char>>,
    pub artifact_type: Option<ArtifactType>,
    pub labels: Option<Seq<Seq<char>>>,
    pub properties: Option<Seq<(Seq<char>, Seq<char>)>>,
}

impl View for PushArtifactMetadata {
    type V = PushArtifactMetadataView;

    open spec fn view(&self) -> PushArtifactMetadataView {
        PushArtifactMetadataView {
            group_id: self.group_id@,
            artifact_id: self.artifact_id@,
            name: opt_str_view(self.name),
            description: opt_str_view(self.description),
            artifact_type: self.artifact_type,
            labels: opt_strs_view(self.labels),
            properties: opt_pairs_view(self.properties),
        }
    }
}

/// The registry state a provider answers from: the latest-version metadata
/// of each artifact, the metadata of each stored version, and the content
/// behind each global identifier.
pub struct RegistryView {
    pub latest: Map<(Seq<char>, Seq<char>), ArtifactMetadataView>,
    pub versions: Map<(Seq<char>, Seq<char>, Seq<char>), ArtifactVersionMetadataView>,
    pub content: Map<u64, Seq<u8>>,
}

impl RegistryView {
    /// A registry that holds nothing.
    pub open spec fn empty() -> RegistryView {
        RegistryView {
            latest: Map::empty(),
            versions: Map::empty(),
            content: Map::empty(),
        }
    }
}

/// Remote operations against an artifact registry.
///
/// Every operation may fail — the transport, the credentials or the
/// registry itself decide — but a successful answer is pinned to the
/// provider's registry view: metadata answers are the view's entries for
/// the queried coordinates and echo those coordinates, and content answers
/// are the view's bytes for the queried global identifier.
pub trait Provider: Sized {
    /// The registry state this provider answers from.
    spec fn registry(&self) -> RegistryView;

    /// Fetches diagnostic information about the registry.
    fn system_info(&self, auth: &Auth) -> Result<SystemInfo, Error>;

    /// Fetches the metadata of an artifact's latest version.
    fn fetch_artifact_metadata(&self, group_id: &String, artifact_id: &String, auth: &Auth) -> (r:
        Result<ArtifactMetadata, Error>)
        ensures
            r matches Ok(m) ==> self.registry().latest.contains_pair(
                (group_id@, artifact_id@),
                m@,
            ) && m.group_id@ == group_id@ && m.id@ == artifact_id@,
    ;

    /// Fetches the metadata of one specific artifact version.
    fn fetch_artifact_version_metadata(
        &self,
        group_id: &String,
        artifact_id: &String,
        version: &String,
        auth: &Auth,
    ) -> (r: Result<ArtifactVersionMetadata, Error>)
        ensures
            r matches Ok(m) ==> self.registry().versions.contains_pair(
                (group_id@, artifact_id@, version@),
                m@,
            ) && m.group_id@ == group_id@ && m.id@ == artifact_id@ && m.version@ == version@,
    ;

    /// Fetches the content stored under a global identifier.
    fn fetch_artifact_by_global_id(&self, global_id: u64, auth: &Auth) -> (r: Result<
        Vec<u8>,
        Error,
    >)
        ensures
            r matches Ok(content) ==> self.registry().content.contains_pair(
                global_id,
                content@,
            ),
    ;

    /// Uploads an artifact: the registry creates it or updates it in place,
    /// and then applies the descriptive metadata.
    fn push_artifact(&self, metadata: PushArtifactMetadata, content: Vec<u8>, auth: &Auth) -> (r:
        Result<(), Error>);
}

/// A provider that is connected to nothing: its registry view is empty and
/// every operation fails. It stands in where a command needs a provider
/// that must not be used, such as initializing an empty project.
pub struct NoopProvider;

impl Provider for NoopProvider {
    open spec fn registry(&self) -> RegistryView {
        RegistryView::empty()
    }

    fn system_info(&self, auth: &Auth) -> (r: Result<SystemInfo, Error>)
        ensures
            r is Err,
    {
        Err(Error::setup("no registry is configured"))
    }

    fn fetch_artifact_metadata(&self, group_id: &String, artifact_id: &String, auth: &Auth) -> (r:
        Result<ArtifactMetadata, Error>)
        ensures
            r is Err,
    {
        Err(Error::setup("no registry is configured"))
    }

    fn fetch_artifact_version_metadata(
        &self,
        group_id: &String,
        artifact_id: &String,
        version: &String,
        auth: &Auth,
    ) -> (r: Result<ArtifactVersionMetadata, Error>)
        ensures
            r is Err,
    {
        Err(Error::setup("no registry is configured"))
    }

    fn fetch_artifact_by_global_id(&self, global_id: u64, auth: &Auth) -> (r: Result<
        Vec<u8>,
        Error,
    >)
        ensures
            r is Err,
    {
        Err(Error::setup("no registry is configured"))
    }

    fn push_artifact(&self, metadata: PushArtifactMetadata, content: Vec<u8>, auth: &Auth) -> (r:
        Result<(), Error>)
        ensures
            r is Err,
    {
        Err(Error::setup("no registry is configured"))
    }
}

} // verus!
