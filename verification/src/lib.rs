pub mod accounts;
pub mod analysis;
pub mod bulk;
pub mod cipher;
pub mod json;
pub mod llm;
pub mod models;
pub mod providers;
pub mod remote_delete;
pub mod storage;
pub mod sync;
pub mod text;
