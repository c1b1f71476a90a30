pub mod hardware_resources;
pub mod ip;
pub mod nic;
pub mod protocol;
pub mod routes;
pub mod nodes;
pub mod operating_system;
pub mod os_command;
pub mod link;
pub mod test;
pub mod network;
pub mod topology;
pub mod experiment;
pub mod network_stack;
pub mod routing_stack;
pub mod gns3;
