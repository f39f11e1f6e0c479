//! Client-side logic of a captive-portal campus network gateway: the
//! requests it is sent, the answers it gives, and the codec that obscures
//! stored credentials.

pub mod accounts;
pub mod encrypt;
pub mod envelope;
pub mod error;
pub mod form;
pub mod json;
pub mod login;
pub mod logout;
pub mod query;
pub mod text;
pub mod transport;
