//! Merging documents: the source documents, the page plan, and the shared-resource table.
pub mod bare_ofd_doc;
pub mod doc_context;
pub mod page_entry;
pub mod resource_dedup;
pub mod ofd_merger;
