# krdmakit_syscall

The meta service of a kernel RDMA syscall layer, verified with Verus.

Nodes register the byte image of their DC endpoint under their GID, look up
other nodes' endpoints, and deregister. `src/` holds the verified part:

- `protocol`: request kinds and their tags; GIDs and their 16-byte image.
- `payload`, `reply`: the byte images of the requests and replies.
- `meta_kv`: the table of registered endpoints and the image of it that is
  written into shared memory.
- `handler`: what each request does to the table and what goes back.
- `caller`: the requests a node sends.
- `connect`: the order of the RC handshake used by the connection benchmarks.
- `tasks`: the bookkeeping of the cooperative runtime's demonstration task.
- `allocator`: when the vmalloc-backed allocator asks for memory and how it
  reads the answer.

`app/` holds the parts that touch the machine: raw buffers, the async
runtime, the RPC client, and the floating-point benchmark figures.
