pub mod activity;
pub mod cloudflared;
pub mod keepass;
pub mod named_map;
pub mod remote;
pub mod servers;
pub mod text;
pub mod util;
