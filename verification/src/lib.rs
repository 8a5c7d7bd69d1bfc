pub mod address;
pub mod authentication;
pub mod cli;
pub mod daemon;
pub mod delegation;
pub mod demand_proxy;
pub mod ext;
pub mod ffi;
pub mod negotiation;
pub mod net;
pub mod numeral;
pub mod ordered;
pub mod peers;
pub mod proxy_tcp;
pub mod registry;
pub mod request_handler;
pub mod routing;
pub mod service;
pub mod slab;
pub mod table;
pub mod text;
pub mod tunnel;
pub mod tunnel_source;
pub mod uplink;
