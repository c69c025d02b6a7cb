//! Format handlers for a package-repository server: filename grammars,
//! signature checks, catalog documents and read-only request routing for
//! Python packages, RPM packages and Unity asset packages.

mod codec;
mod format;
mod http;
mod json;
mod order;
mod pypi;
mod rpm;
mod text;
mod types;
mod unity;

pub use codec::{
    crc32, gzip_compress, lemma_block_count, lemma_gzip_length, lemma_gzip_round_trip,
    lemma_stored_block_at,
};
pub use format::PackageFormat;
pub use pypi::{
    check_filename, extract_package_name, extract_version, lemma_listing_order_free,
    lemma_wheel_round_trip,
    normalize_lowered, normalize_package_name, PypiFormatHandler,
};
pub use rpm::{
    extract_version_from_rpm_filename, parse_rpm_filename, xml_escape, RpmFileInfo,
    RpmFormatHandler, RPM_LEAD_SIZE, RPM_MAGIC,
};
pub use types::{HttpRequest, HttpResponse, Metadata, RepoContext};
pub use unity::{extract_version_from_path, is_semver_like, UnityFormatHandler};
