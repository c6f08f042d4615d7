//! The plain data that travels between the boundary layer and the engine.

use vstd::prelude::*;

verus! {

/// One stored remote definition, as the configuration store holds it.
#[derive(Debug, Clone)]
pub struct RcloneConfig {
    pub name: String,
    pub config_type: String,
    pub url: Option<String>,
    pub username: Option<String>,
    pub password: Option<String>,
    /// Further `key = value` settings, in the order in which they were given.
    pub additional_fields: Vec<(String, String)>,
}

/// One entry of a local or remote directory listing.
#[derive(Debug, Clone)]
pub struct FileEntry {
    pub name: String,
    pub path: String,
    pub is_dir: bool,
    pub size: Option<u64>,
    pub modified: Option<String>,
}

/// A request to copy `source_path` to `remote_name:remote_path`.
#[derive(Debug, Clone)]
pub struct SyncRequest {
    pub source_path: String,
    pub remote_name: String,
    pub remote_path: String,
    /// Chunk hint such as `8M`, `16M` or `32M`.
    pub chunk_size: Option<String>,
    pub use_chunking: Option<bool>,
}

/// A request to store a remote definition.
#[derive(Debug, Clone)]
pub struct ConfigRequest {
    pub name: String,
    pub config_type: String,
    pub url: Option<String>,
    pub username: Option<String>,
    pub password: Option<String>,
    pub additional_fields: Option<Vec<(String, String)>>,
}

/// The envelope of every answer: either `data` or `error` is set.
#[derive(Debug)]
pub struct ApiResponse<T> {
    pub success: bool,
    pub data: Option<T>,
    pub error: Option<String>,
}

/// A stored, named transfer that can be started again and again.
#[derive(Debug, Clone)]
pub struct Task {
    pub id: String,
    pub name: String,
    pub source_path: String,
    pub remote_name: String,
    pub remote_path: String,
    pub chunk_size: Option<String>,
    pub use_chunking: bool,
    /// Seconds since the Unix epoch, UTC.
    pub created_at: i64,
}

/// A request to store a task.
#[derive(Debug, Clone)]
pub struct TaskRequest {
    pub name: String,
    pub source_path: String,
    pub remote_name: String,
    pub remote_path: String,
    pub chunk_size: Option<String>,
    pub use_chunking: Option<bool>,
}

/// A request to start the stored task of that name.
#[derive(Debug, Clone)]
pub struct StartTaskRequest {
    pub task_name: String,
}

impl<T> ApiResponse<T> {
    /// The answer that carries `data`.
    pub fn success(data: T) -> (r: Self)
        ensures
            r.success,
            r.data == Some(data),
            r.error is None,
    {
        Self { success: true, data: Some(data), error: None }
    }

    /// The answer that carries the error text `message`.
    pub fn error(message: &str) -> (r: Self)
        ensures
            !r.success,
            r.data is None,
            r.error is Some,
            r.error->0@ == message@,
    {
        Self { success: false, data: None, error: Some(message.to_owned()) }
    }
}

} // verus!
