# tock_virtio

VirtIO drivers, verified with Verus: split virtqueues, a network card driver on
top of them, and the choices of a board that brings them up.

- `src/virtio/mod.rs`: device types, and the interfaces between transports,
  queues and drivers
- `src/virtio/queues/layout.rs`: what lies in the memory shared with a device
- `src/virtio/queues/ring.rs`: the positions of the available ring
- `src/virtio/queues/model.rs`: the state of a queue as a mathematical value, and
  what each operation makes of it
- `src/virtio/queues/split_queue.rs`: the queue
- `src/virtio/queues/laws.rs`: what holds across operations, such as that buffers
  come back as they were provided
- `src/virtio/devices/virtio_net.rs`: the network card driver
- `src/board.rs`: discovery of peripherals, dispatch of system calls

The library computes on plain values and never touches a device. It takes what is
found in the memory that is shared with a device (`load_descriptors`,
`load_available_ring`, `load_used_ring`), and hands out what is to be done: the
descriptors and the available ring to write to memory, the `QueueNotification` to
send after that, the `UsedChain` or `NetEvent` to pass on to a client. `app/`
does these things: it keeps the memory, and shares a driver between its transport
and a client that may call back into it.
