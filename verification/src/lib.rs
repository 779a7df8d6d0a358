//! Restore an archive into a named container-runtime volume.
//!
//! The library holds the decision logic of the restore: splitting an archive
//! path into extension, parent directory and file name, mapping the extension
//! to its decompression command, deciding whether an existing volume stops the
//! operation, and building the exact container command line that performs the
//! extraction. The surrounding binary supplies the effects: the volume
//! inventory query, the operator prompt, path canonicalization and process
//! execution.

pub mod command;
pub mod loader;
pub mod paths;
