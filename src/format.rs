//! The closed set of package formats behind one interface: the host looks a
//! handler up by its key and calls the four metadata operations on it, and
//! request routing on the formats that serve a wire protocol.
use vstd::prelude::*;
use crate::http::artifacts_view;
use crate::json::documents_view;
use crate::pypi::{pypi_index, pypi_metadata, pypi_response, pypi_validation, PypiFormatHandler};
use crate::rpm::{rpm_index, rpm_metadata, rpm_response, rpm_validation, RpmFormatHandler};
use crate::text::str_eq;
use crate::types::{
    message_result, metadata_result, HttpRequest, HttpResponse, Metadata, MetadataView,
    RepoContext,
};
use crate::unity::{unity_index, unity_metadata, unity_validation, UnityFormatHandler};

verus! {

/// A package format this library handles.
#[derive(Clone, Copy, Debug, PartialEq, Eq, Structural)]
pub enum PackageFormat {
    /// Python wheels and source distributions.
    Python,
    /// RPM packages.
    Rpm,
    /// Unity asset packages.
    UnityAsset,
}

/// The key of each format.
pub open spec fn key_of(f: PackageFormat) -> Seq<char> {
    match f {
        PackageFormat::Python => "pypi-custom"@,
        PackageFormat::Rpm => "rpm-custom"@,
        PackageFormat::UnityAsset => "unity"@,
    }
}

/// Whether a format serves requests of its ecosystem's protocol.
pub open spec fn routes_requests(f: PackageFormat) -> bool {
    f != PackageFormat::UnityAsset
}

/// The outcome of validating an upload in format `f`.
pub open spec fn validation_of(f: PackageFormat, path: Seq<char>, data: Seq<u8>) -> Result<(), Seq<char>> {
    match f {
        PackageFormat::Python => pypi_validation(path, data),
        PackageFormat::Rpm => rpm_validation(path, data),
        PackageFormat::UnityAsset => unity_validation(path, data),
    }
}

/// The record made of an upload in format `f`.
pub open spec fn metadata_of(f: PackageFormat, path: Seq<char>, data: Seq<u8>) -> Result<MetadataView, Seq<char>> {
    match f {
        PackageFormat::Python => pypi_metadata(path, data),
        PackageFormat::Rpm => rpm_metadata(path, data),
        PackageFormat::UnityAsset => unity_metadata(path, data),
    }
}

/// The documents of the index of one or more artifacts in format `f`.
pub open spec fn index_of(f: PackageFormat, arts: Seq<MetadataView>) -> Seq<(Seq<char>, Seq<u8>)> {
    match f {
        PackageFormat::Python => pypi_index(arts),
        PackageFormat::Rpm => rpm_index(arts),
        PackageFormat::UnityAsset => unity_index(arts),
    }
}

impl PackageFormat {
    /// The format whose key is `key`, if any.
    pub fn from_key(key: &str) -> (r: Option<PackageFormat>)
        ensures
            r matches Some(f) ==> key_of(f) == key@,
            r is None ==> forall|f: PackageFormat| key_of(f) != key@,
    {
        if str_eq(key, "pypi-custom") {
            Some(PackageFormat::Python)
        } else if str_eq(key, "rpm-custom") {
            Some(PackageFormat::Rpm)
        } else if str_eq(key, "unity") {
            Some(PackageFormat::UnityAsset)
        } else {
            proof {
                assert forall|f: PackageFormat| key_of(f) != key@ by {
                    match f {
                        PackageFormat::Python => {},
                        PackageFormat::Rpm => {},
                        PackageFormat::UnityAsset => {},
                    }
                }
            }
            None
        }
    }

    /// The key the host routes uploads of this format by.
    pub fn format_key(self) -> (r: String)
        ensures
            r@ == key_of(self),
    {
        match self {
            PackageFormat::Python => PypiFormatHandler::format_key(),
            PackageFormat::Rpm => RpmFormatHandler::format_key(),
            PackageFormat::UnityAsset => UnityFormatHandler::format_key(),
        }
    }

    /// Whether this format serves requests of its ecosystem's protocol.
    pub fn supports_requests(self) -> (r: bool)
        ensures
            r == routes_requests(self),
    {
        !matches!(self, PackageFormat::UnityAsset)
    }

    /// The metadata of an upload, as the format's handler reads it.
    pub fn parse_metadata(self, path: String, data: Vec<u8>) -> (r: Result<Metadata, String>)
        ensures
            metadata_result(r) == metadata_of(self, path@, data@),
    {
        match self {
            PackageFormat::Python => PypiFormatHandler::parse_metadata(path, data),
            PackageFormat::Rpm => RpmFormatHandler::parse_metadata(path, data),
            PackageFormat::UnityAsset => UnityFormatHandler::parse_metadata(path, data),
        }
    }

    /// The format's strict upload gate.
    pub fn validate(self, path: String, data: Vec<u8>) -> (r: Result<(), String>)
        ensures
            message_result(r) == validation_of(self, path@, data@),
    {
        match self {
            PackageFormat::Python => PypiFormatHandler::validate(path, data),
            PackageFormat::Rpm => RpmFormatHandler::validate(path, data),
            PackageFormat::UnityAsset => UnityFormatHandler::validate(path, data),
        }
    }

    /// The format's index documents, or no index for no artifacts.
    pub fn generate_index(self, artifacts: Vec<Metadata>) -> (r: Result<
        Option<Vec<(String, Vec<u8>)>>,
        String,
    >)
        ensures
            artifacts@.len() == 0 ==> r matches Ok(None),
            artifacts@.len() > 0 ==> (r matches Ok(Some(docs)) && documents_view(docs@) == index_of(
                self,
                artifacts_view(artifacts@),
            )),
    {
        match self {
            PackageFormat::Python => PypiFormatHandler::generate_index(artifacts),
            PackageFormat::Rpm => RpmFormatHandler::generate_index(artifacts),
            PackageFormat::UnityAsset => UnityFormatHandler::generate_index(artifacts),
        }
    }

    /// Answers a request of the format's protocol; nothing for a format
    /// that serves none.
    pub fn handle_request(self, request: HttpRequest, context: RepoContext, artifacts: Vec<
        Metadata,
    >) -> (r: Option<Result<HttpResponse, String>>)
        ensures
            !routes_requests(self) ==> r is None,
            self == PackageFormat::Python ==> (r matches Some(Ok(resp)) && resp@ == pypi_response(
                request.method@,
                request.path@,
                context.base_url@,
                context.download_base_url@,
                artifacts_view(artifacts@),
            )),
            self == PackageFormat::Rpm ==> (r matches Some(Ok(resp)) && resp@ == rpm_response(
                request.method@,
                request.path@,
                context.download_base_url@,
                artifacts_view(artifacts@),
            )),
    {
        match self {
            PackageFormat::Python => Some(
                PypiFormatHandler::handle_request(request, context, artifacts),
            ),
            PackageFormat::Rpm => Some(RpmFormatHandler::handle_request(request, context, artifacts)),
            PackageFormat::UnityAsset => None,
        }
    }
}

} // verus!
