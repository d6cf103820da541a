//! The user-space side of the MediaTek APU "midware" ioctl interface
//! (`/dev/apusys`): the argument structures of the four ioctls, their
//! byte layout as the kernel reads and writes it, the ioctl request
//! numbers, and the decisions a probe or runner makes around the calls.
pub mod wire;
pub mod uapi;
pub mod ioctl;
pub mod probe;
pub mod runner;
pub mod decimal;
