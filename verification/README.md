# stage2

The second stage of a NixOS boot, written in Verus: everything between the moment that the real
root file system is in place and the moment that systemd takes over.

- `src/` is the verified library. The boot sequence is a machine: `machine::run` starts it, it
  hands out one request at a time, and it takes the reply to each. Every decision in between (which
  stages are run, which mount flags are kept, what an error is introduced with, when standard
  output is given back) is a verified function with an exact contract.
- `app/` is the program around it, `stage-2-init`: it reads the command line and the environment,
  and performs the requests. How a request is met is its own business: under which name a link is
  made before it is moved into place, and where the options of a mount are looked up.
- `tests/` drives whole boots against a made-up system.

What holds of every boot, whatever the replies are, is stated and proved in `order`, `outcome`,
`success`, `capture`, `termination` and `tracing`: the stages come in their order, every boot ends,
it fails on certain replies and on no other, the store changes nothing for the rest of it and keeps
every flag that is wanted, standard output is always given back, even after a capture that failed
halfway, a successful boot is recorded, has its directories and has run its scripts, one with
`boot.debugtrace` on the kernel command line announces its commands, and init sees none of the
variables that configured the boot.

What is not proved: that the driver does what a request says, and the contracts of the few items of
`nix` and of the standard library that `flags` and `text` declare.
