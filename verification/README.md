# typenet

A user-space IPv4 stack and echo/shout server over Linux TUN devices, with the protocol logic
verified by Verus.

- `src/` is the verified library: Internet checksums; IPv4 header parsing and writing; ICMP echo,
  UDP, and TCP (connection table, state machine, reassembly, retransmission with exponential
  backoff, flow control, active and passive close); the engine that turns incoming packets and
  timer and shutdown events into replies; the decisions of the server loop; configuration
  parsing; the applications (echo and shout); and the text of every log record.
- `app/` is the program around it: environment variables, the TUN device, `poll()`, the SIGINT
  handler and its eventfd, randomness, the clock, threads, and writing to the device and to
  stdout.
- `tests/` exercises the library on concrete packets and scripted server loops.
