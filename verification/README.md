# Laplace

A deterministic hypervisor that runs JavaScript in forked virtual machines: a
guest is booted once, its state is saved as a template, and every request runs
in a copy-on-write fork of that template with virtual time and seeded
randomness.

- `src/` is the library: what the hypervisor, the guests and their tools decide
  and compute, with contracts that Verus proves. It makes no system calls: where
  a program has to act, the library says what to do and takes what came of it.
- `app/` holds the programs around it: the command line, KVM and
  Hypervisor.framework, memory mappings, the guest's init process and the
  JavaScript engines.
- `tests/` runs the library on concrete values.

| Module | Subject |
| --- | --- |
| `layout`, `registers`, `vcpu` | addresses, registers and exits that all parts share |
| `hvf`, `kvm` | how each hypervisor encodes registers and reports exits |
| `linux_boot`, `dtb`, `fdt` | loading a kernel, its initrd and its device tree |
| `linux_loop`, `exit_log`, `psci`, `pl011`, `uart8250`, `vtimer`, `timer_patch` | running a Linux guest: firmware calls, consoles, the virtual timer |
| `snapshot`, `commands`, `mailbox` | templates, forks and what passes between host and guest |
| `init`, `runner` | the processes inside the Linux guest |
| `bare_metal`, `elf`, `rng`, `bench` | the bare-metal guest's host side |
| `guest_heap`, `guest_js` | the bare-metal guest itself |
| `spike` | experiments on Hypervisor.framework |
| `cli`, `text`, `bytes` | arguments, texts and byte order |
