# connectivity_monitor

Verified core of a desktop tool that watches the reachability of up to four
network devices by ICMP ping and reports changes through native
notifications and a tray icon.

`src/` is the verified library:

- `ipv4` – dotted-decimal IPv4 validation against a specification of the
  accepted syntax.
- `domain` – the rules for registering a device (valid address, at most four
  devices, no duplicate address) and the proof that admission keeps the
  registry within them.
- `monitor` – the per-device check loop as a state machine: what each check
  announces and records, with the proof that transitions are recorded exactly
  at status changes and that there is one notification per transition plus
  the initial one.
- `tray` – aggregation of device statuses into the tray status, icon choice
  and tray menu actions.
- `engine` – the bookkeeping of running monitors: syncing with the device
  table, recording statuses, check intervals; with proofs that a sync tracks
  exactly the listed devices and is idempotent.
- `settings` – autostart decisions.
- `text` – string equality and substring search.

`app/` is the desktop shell (Tauri commands, SQLite access, pinging, tasks,
notifications) that carries out what the library decides.
