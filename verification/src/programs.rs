//! The built-in programs.

pub mod flow_nat;
pub mod basic;
pub mod rate_limiter;
pub mod round_robin;
pub mod state_migration;
pub mod ether_mirror;
pub mod firewall;
pub mod stringmatcher;
pub mod strip_ether_vlan_header;
pub mod target_port;
pub mod udp_tcp_classifier;
pub mod catalog;
pub mod dns_filter;
