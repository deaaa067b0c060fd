//! The network side: requests, the queue that serves them one by one, and
//! the settings of a transfer.

pub mod client;
pub mod curl;
pub mod encode;
pub mod retriever;
pub mod url_parse;
