//! A bounded GPU compute bridge for WebAssembly guests.
//!
//! - [`abi`], [`session`], [`device`] and [`host`] hold the kernel-agnostic
//!   `wasmer_gpu_v0` imports: status codes and ranges, the per-instance session
//!   (quotas, handle ownership, reclamation), the device's handle bookkeeping,
//!   and the decisions of every import. [`isolation`] states what they
//!   guarantee together, and [`readback`] what a guest reads back.
//! - [`memory`] copies between host and guest.
//! - [`linking`] registers those imports with the runtime, and [`hook`] decides
//!   which instances get them, and on which memory.
//! - [`guest`], [`kernels`] and [`smoke`] run small guests against CPU
//!   references and negative controls.
//! - [`image`], [`image_cli`] and [`image_run`] filter images; [`binomial`]
//!   gives the weights of the blur, and [`symmetry`] says what the filters make
//!   of images that are mirrored or turned.
//! - [`mnist_model`], [`mnist_cli`], [`mnist_data`] and [`mnist_host`] are the
//!   host's side of training on MNIST, and [`trainer`] is the guest's.
//! - [`args`], [`encoding`], [`sha256`] and [`text`] are what these share.
//! - [`bridge_laws`], [`kernel_laws`], [`image_laws`], [`mnist_laws`],
//!   [`training_laws`], [`encoding_laws`], [`request_laws`] and
//!   [`message_laws`] say what the results of all of them mean, in terms of
//!   what went in.
//!
//! What only a device can do is left to the caller: the functions here say what
//! to ask of it, and settle what it reported.

pub mod abi;
pub mod args;
pub mod binomial;
pub mod bridge_laws;
pub mod device;
pub mod encoding;
pub mod encoding_laws;
pub mod guest;
pub mod hook;
pub mod host;
pub mod image;
pub mod image_cli;
pub mod image_laws;
pub mod image_run;
pub mod isolation;
pub mod kernel_laws;
pub mod kernels;
pub mod linking;
pub mod memory;
pub mod message_laws;
pub mod mnist_cli;
pub mod mnist_data;
pub mod mnist_host;
pub mod mnist_laws;
pub mod mnist_model;
pub mod readback;
pub mod request_laws;
pub mod session;
pub mod sha256;
pub mod smoke;
pub mod symmetry;
pub mod text;
pub mod trainer;
pub mod training_laws;
