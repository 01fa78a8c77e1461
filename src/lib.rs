//! Access-control indexing of Windows file shares.
//!
//! The core is a bounded depth-first walk of a share ([`walker`]) that emits
//! one [`record::ResourceEntry`] per file, directory and share root, with the
//! share's discretionary ACL decoded from the raw security descriptor
//! ([`acl`]), each SID rendered in text ([`sid`]) and each access mask named
//! ([`mask`]). The walk makes no I/O of its own: its driver lists directories,
//! reads metadata and descriptors, and hands the results back.
//!
//! Around the core stand the helpers of the collectors that share its output:
//! share selection ([`shares`]), directory identities ([`ldap`]), the graph
//! importer's statements ([`importer`]), the credential search report
//! ([`credz`]) and the saved queries ([`queries`]).

pub mod mask;
pub mod text;
pub mod sid;
pub mod acl;
pub mod record;
pub mod walker;
pub mod shares;
pub mod ldap;
pub mod importer;
pub mod credz;
pub mod queries;
