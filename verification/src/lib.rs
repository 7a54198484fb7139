//! Oathgate: verified networking primitives for a small virtual network
//! of virtual machines (switch, router, DHCP, packet formats, wire framing).

pub mod checksum;
pub mod text;
pub mod bytes;
pub mod error;
pub mod types;
pub mod frame;
pub mod switch;
pub mod netaddress;
pub mod ipv4;
pub mod fabrial;
pub mod dhcp;
pub mod handler;
pub mod local;
pub mod arp;
pub mod router;
pub mod keys;
pub mod runner;
pub mod cli;
pub mod table;
pub mod models;
pub mod terminal;
pub mod hypervisor;
pub mod config;
pub mod bridge;
pub mod guest;
pub mod tap;
pub mod viewer;
pub mod kernel;
pub mod logger;
pub mod archive;
pub mod wan;
