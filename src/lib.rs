//! Fetching preprint source archives: identifier validation, source URLs
//! and the decisions of a resumable single-file download.
pub mod arxiv_id;
pub mod fetch;
