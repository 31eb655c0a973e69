pub mod decimal;
pub mod handlers;
pub mod http;
pub mod routing;
pub mod store;
pub mod transport;
