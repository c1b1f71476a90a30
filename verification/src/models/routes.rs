pub mod bgp_config;
pub mod ospf_config;
pub mod rip_config;
pub mod rip_route;
pub mod route;
pub mod route_config;
pub mod static_route;
