//! Configuration of a connector to a Unix socket.
use std::path::{Path, PathBuf};
use vstd::prelude::*;

verus! {

#[verifier::external_type_specification]
#[verifier::external_body]
pub struct ExPathBuf(PathBuf);

/// Relies on `Path::to_path_buf` through `AsRef<Path>`: an owned copy of the path.
#[verifier::external_body]
fn owned_path<P: AsRef<Path>>(path: P) -> PathBuf {
    path.as_ref().to_path_buf()
}

/// Relies on `PathBuf::clone`: a copy equal to the original.
#[verifier::external_body]
fn copy_path(path: &PathBuf) -> (r: PathBuf)
    ensures
        r == *path,
{
    path.clone()
}

/// Unix socket modes.
#[derive(Clone, Copy, Debug, PartialEq, Eq, Structural)]
pub enum UnixMode {
    /// Datagram-oriented (`SOCK_DGRAM`).
    Datagram,
    /// Stream-oriented (`SOCK_STREAM`).
    Stream,
}

/// `UnixConnector` configuration.
#[derive(Debug)]
pub struct UnixConnectorConfig {
    /// The socket path; it should be absolute.
    pub path: PathBuf,
    /// The socket mode to use.
    pub unix_mode: UnixMode,
    /// The size of the socket's send buffer (`SO_SNDBUF`), if set.
    pub send_buffer_size: Option<usize>,
}

/// Connects to a Unix socket as configured.
#[derive(Debug)]
pub struct UnixConnector {
    pub path: PathBuf,
    pub mode: UnixMode,
    pub send_buffer_size: Option<usize>,
}

impl UnixConnectorConfig {
    /// A stream-mode configuration for the path, with the system's send buffer.
    pub fn from_path<P: AsRef<Path>>(path: P) -> (r: Self)
        ensures
            r.unix_mode == UnixMode::Stream,
            r.send_buffer_size is None,
    {
        UnixConnectorConfig { path: owned_path(path), unix_mode: UnixMode::Stream, send_buffer_size: None }
    }

    pub fn set_unix_mode(self, unix_mode: UnixMode) -> (r: Self)
        ensures
            r.unix_mode == unix_mode,
            r.path == self.path,
            r.send_buffer_size == self.send_buffer_size,
    {
        let mut this = self;
        this.unix_mode = unix_mode;
        this
    }

    pub fn as_connector(&self) -> (r: UnixConnector)
        ensures
            r.path == self.path,
            r.mode == self.unix_mode,
            r.send_buffer_size == self.send_buffer_size,
    {
        UnixConnector {
            path: copy_path(&self.path),
            mode: self.unix_mode,
            send_buffer_size: self.send_buffer_size,
        }
    }
}

} // verus!
