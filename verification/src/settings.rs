//! The alert and LLM settings, their updates, and their `KEY:value` files.
pub mod kv;
pub mod alerts;
pub mod llm;
pub mod alert_laws;
pub mod llm_laws;
