//! An authenticated web backend: error taxonomy, path router, request
//! utilities and an OpenID-Connect login state machine, all verified.
pub mod auth;
pub mod cookies;
pub mod error;
pub mod http;
pub mod request;
pub mod response;
pub mod routes;
pub mod routing;
pub mod secure;
pub mod text;
