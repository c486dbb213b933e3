//! Verified core of a ZFS-on-Kubernetes storage manager: parsing of `zfs`/`zpool`
//! output and event streams, the cached pool/dataset tree, and the decisions of the
//! controllers and the CSI plugin.
pub mod text;
pub mod number;
pub mod error;
pub mod scalar;
pub mod strmap;
pub mod event;
pub mod object;
pub mod tree;
pub mod watch;
pub mod crds;
pub mod common;
pub mod manager;
pub mod cli;
pub mod csi;
pub mod greeter;
