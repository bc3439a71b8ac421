//! The configurations a storage backend can be connected from. Connecting
//! itself is I/O and lives with the unverified adapters; this is the plain
//! configuration data they are built from.

use vstd::prelude::*;

verus! {

/// Connection settings for each interchangeable backend.
#[derive(Clone, Debug)]
pub enum BackendConfigs {
    Scylla {
        nodes: Vec<String>,
        username: Option<String>,
        password: Option<String>,
        keyspace: String,
        table: Option<String>,
    },
    FileSystem {
        /// The base output directory to store files.
        directory: String,
    },
    BlobStorage {
        /// The name of the bucket.
        name: String,
        /// The region of the bucket.
        region: String,
        /// The bucket endpoint.
        endpoint: String,
        /// Store objects with the `public-read` acl.
        store_public: bool,
    },
    GCPCloudStorage {
        /// The name of the bucket.
        name: String,
        /// The path to the service account json file.
        service_account: String,
    },
}

} // verus!
