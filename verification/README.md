# moss_kernel

Parts of a small Unix-like kernel, written in Rust and proved with Verus.

| Module | What it holds |
| --- | --- |
| `memory` | Physical memory: the early allocator, the buddy allocator with shared blocks, and tearing page tables down |
| `process` | Tasks, the list of them, signals, and waiting for children |
| `sched` | The run queue of a processor, and how processors find the one with the least to do |
| `drivers` | Memory for virtio devices, the process file system and the control group file system |
| `clock`, `fs` | Clocks that can be read, attributes of files and their permissions |
| `text`, `ordered`, `error` | Numbers as text, maps in key order, and errors |

Contracts are stated over models: `FrameModel` for the buddy allocator, `Walk`
for page tables, maps for what children have reported, `QueueModel` for a run
queue. What holds across calls is stated as public proof functions whose names
begin with `law_`.

The code in `app/` adds locks, global state, waiting and the traits of the rest
of the system. It is not verified.

The inode numbers of the made-up file systems are digests of the `rustc_hash`
crate. The library calls it through three small functions in
`drivers::fs::inode_id`, whose contracts are taken on trust: a digest depends on
what was hashed, piece by piece, and on the width of a pointer.
