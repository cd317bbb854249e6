# bindless

Host-side logic of a GPU inference backend that uploads a GGUF file as raw bytes
and lets shaders read tensors straight out of it.

- `src/` is a library verified with Verus. It turns plain values into plans: how a
  file is split over storage buffers, where each tensor of each layer lies, how the
  key/value cache is laid out, which kernels run, on which buffers, with which
  uniforms and dispatch sizes. Public functions whose names start with `law_` state
  what holds across several operations. Two functions are trusted rather than
  proved: the calls of `String::from_utf8` and `bytemuck::cast_slice`.
- `app/` carries the plans out with `wgpu`: it opens files, creates buffers and
  pipelines, submits work and reads results back. What computes with floating-point
  numbers stands there too.
- `tests/` runs the library on concrete values.
