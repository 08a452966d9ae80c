# wasmer-gpu-demo

A bounded GPU compute bridge for WebAssembly guests, with its decisions verified
by Verus.

A guest uploads buffers, creates compute pipelines from its own WGSL and
dispatches them through seven `wasmer_gpu_v0` imports. The host checks every
range, handle and quota before it touches the device, turns device errors into
status codes, keeps instances apart, and reclaims everything when an instance
goes away.

- `src/` is the verified library: what every import decides, the bookkeeping of
  sessions and handles, the laws that hold across calls (`src/isolation.rs`, `src/readback.rs`), and
  the logic of three runners: a smoke run with CPU references and negative
  controls, an image filter workbench, and a trainer on MNIST.
- `tests/` runs the library on concrete values, with a device that only
  remembers bytes in place of a GPU.
- `app/` is the program around it: wasmer, WASIX, wgpu, files and JSON. It
  performs what the library decides and hands back what happened.

Floating-point numbers reach the library by their bits. What is computed with
them (the procedural scene, the softmax reference, scaling and averaging) is in
`app/`.

Guest modules and their shaders are read from `guest/` below the project, and
the MNIST files from `data/mnist/`.
