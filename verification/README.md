# splat_viewer

The core of a viewer for Gaussian splats, verified with Verus.

- `src/` is the library. Every function states in its contract what it returns
  or changes. Verus proves the contracts, except those of nine private functions
  that hand a call on to code outside; these it believes, and what is proved
  through them rests on that code:
  - `bytes::read_u32_le`, `read_u32_be`, `read_u16_le`: `read_u32` and `read_u16`
    of byteorder.
  - `bytes::split_records`, `join_records`, `bytes_of_signed`: `cast_slice` of
    bytemuck.
  - `header::read_header`: `Parser::read_header` of ply-rs. What it makes of a
    header is not written out, but named `ply_header`.
  - `animation::to_lowercase`: `str::to_lowercase` of the standard library, named
    `lowercase`; only of ASCII text is it written out what comes of it.
  - `events::random_number`: `random` of rand, of which nothing is believed.

  The modules are:
  - `header`, `ply`: PLY files, from bytes to splats and cameras.
  - `cloud`, `splat`, `bytes`: point clouds, downsampling and compression, and
    how they lie in memory.
  - `device`, `surface`: what a graphics device is given, how a surface is set
    up and in which steps a frame is drawn.
  - `window`, `views`, `animation`, `time`: the state of a window, saved views,
    and what moves the camera.
  - `events`, `requests`: keys, the pace of frames, and what a web page asks for.
  - `sort`: how the result of a sort is checked.
  - `shaders`: the texts of compute shaders for a radix sort. Nothing is proved
    of them and nothing runs them; the tests only see that they are valid.
- `app/` is ordinary Rust: files, the window, the graphics device, and what is
  computed in floating point. It is generic over the parts that draw, that
  listen to the user and that know the scene.
- `tests/` run the library with the crates that it calls.

Numbers of single and half precision are held in the library as their bit
patterns.
