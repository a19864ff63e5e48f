# jax

The decision-making core of the jax bucket daemon, written in Verus: each
function states what it returns in its contract, and Verus proves it.

- `src/` is the library. Gateway pages (`gateway`, `serve`, `directory`,
  `rewrite`, `page`, `paths`, `hexdump`, `size`), the bucket log and its version tree
  (`bucket_log`, `tree`), the peer sync protocol (`sync`), mounts and their
  API (`mounts`, `mount_api`), the desktop app's mount, unmount and upload
  sequences as steps from state and event to next state and action
  (`desktop`), the clients' view of the daemon (`client`), daemon start-up
  and blob-store recovery (`daemon`), and `jax update` (`update`,
  `version`).
  Calls into `regex`, `pulldown-cmark`, `uuid`, `base64`, `url` and `time` go through
  small trusted wrappers whose contracts name what those crates compute.
- `tests/` runs the library on concrete values.
- `app/` is the command line around it: it reads the machine and the
  network and hands the library plain values.
