# nixvm

Launches a Nix flake output as a headless Linux virtual machine on macOS, by way of libkrun. The
terminal becomes the console of the guest.

- `nixvm run FLAKE` builds the image of a flake, copies it and boots the copy. The copy goes with the
  launch, unless `-p PATH` saves it; `--force` replaces what stands at PATH.
  The fragment of FLAKE names an entry of `nixosConfigurations`, `default` where there is none.
- `nixvm load PATH [FLAKE]` boots a saved image in place, with the system that its sidecar records, or
  with that of a flake.
- `--detach` leaves the launch to a daemon that writes to a log of its own.

## Layout

`src/` is the library, verified with Verus. It decides what is done and in which order, what a reply of
the host means, and what the user is told. It performs no input or output: whoever carries a launch out
asks it for the next operation, performs that, and reports what came of it.

| module | what it is about |
| --- | --- |
| `session`, `course`, `control`, `saving` | a launch from its beginning to its end, what every launch keeps to, in what order it gives back what it holds, and how a saved image is loaded again |
| `nix`, `realise`, `ownership`, `attributes`, `readings` | the calls into the Nix library that realise a flake output, what each reply means, when each object is freed, which value a walk reaches, and which reply gives what |
| `vmnet` | starting and stopping the network, hardware addresses, handing packets on |
| `krun`, `vm_process` | configuring the guest, its process, and its exit code |
| `daemon`, `terminal` | detaching, and taking the terminal over |
| `boot`, `sidecar`, `overlay`, `gc_root`, `state` | what the guest is booted with, and the files of a launch |
| `plan`, `host` | operations that are carried out one after the other |
| `args`, `error`, `guard`, `launch_id`, `path`, `text` | arguments, errors, identities, paths and texts |

The public proof functions whose names begin with `law_` state what holds of the library as a whole.

`app/` is the program around the library: the command line, files, processes, the terminal, and the C
interfaces of Nix, vmnet.framework and libkrun.
