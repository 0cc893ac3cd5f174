# player

The core of a video player whose demuxed packets can be kept in a cache file
and played back from it, written in Verus: the library's functions are proved against their
contracts, except a few small trusted wrappers around outside calls (the
CRC-32 of `crc32fast`, `Vec`/`VecDeque` capacity, channels and `Arc`),
whose contracts are believed, not proved.

- `src/` is the verified library: the binary formats of the cache (byte
  buffer, serializable values, packets, codec parameters, streams, segment
  lines, checksummed records), the keyframe index of cached segments and the
  reader and writer decisions over it, the queues between the input, decode
  and output threads, and the bookkeeping of the OpenGL renderer.
- `app/` is a small program around it: the cache file on disk, loading a
  cache and reading its packets, the input worker for cached sources, frame
  timing, and the OpenGL calls made with the values the library computes.
- `tests/` runs the library on concrete values.

Times are `f64` seconds; the library holds them as their bit patterns and
compares them exactly as `f64` comparisons and `f64::total_cmp` do.
