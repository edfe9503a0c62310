pub mod method;
pub mod query_string;
pub mod request;
pub mod response;
pub mod server;
pub mod status_code;
pub mod text;
