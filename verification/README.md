# helios_virtio

The transport logic of a virtio-gpu display driver, verified with Verus.

`src/` is a library without I/O. It holds the state of one device: resource tables, the
host-visible window, commands in flight, fences, present streams, windowed copies, the FIFO
of scheduler submissions and the publication of the scan-out. Every operation is a function
on that state. What has to happen outside is returned as a list of actions, or as the next
step of a state machine that the caller performs and answers.

* A command is planned, handed to the device queue by the caller, and recorded with the
  queue's answer (`enqueue`, `bind`, `submit`).
* A completion is popped by the caller and drained here (`drain`).
* Control flows that need several commands are state machines (`ctrl`, `flows`, `init`).

Contracts speak of ghost states (`GpuState` and its parts). Most of them are equations: the
state after a call is a spec function of the state before it. Public proof functions whose
names start with `law_` state what holds across operations. Every operation on a running
transport also states that its result follows the state before it (`progress`); what holds
over any number of operations is drawn from that.

`app/` is the driver around the library: DMA memory, registers, the virtqueue, kernel waits.
It is not verified. `tests/` runs the library on concrete values.
