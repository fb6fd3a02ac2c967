# DSH Launcher

A desktop launcher for a local DSH web service. It finds or installs DSH, starts and stops
the service, watches its process and its sessions, follows it when a plugin restarts it, and
shows its pages in a window.

- `src/` is the library: every decision of the launcher, with its contract, proved by Verus.
  What happens on disk, on the network and in other processes is not done there. The library
  says what is to be done next and is told how it went.
- `app/` is the program around it: files, processes, requests, windows and the tray.
- `tests/` runs the library on concrete values.

The modules of the library:

| Module | What it decides |
| --- | --- |
| `config` | the configuration, where it is kept, how a file is replaced |
| `service`, `monitor` | starting, stopping, watching and adopting the service |
| `guarantees` | what holds of the service over several of these steps |
| `process` | which process listens, and when it may be ended |
| `session_monitor` | cookies, requests and retries of the session watch |
| `discovery`, `login_shell`, `environment`, `search_path`, `version` | where DSH is, and in which environment it runs |
| `managed`, `install`, `upgrade` | the launcher's own Node and DSH |
| `profile` | profiles and their plugins |
| `update`, `app_update` | releases of the launcher, and its update |
| `opener`, `content_view`, `commands`, `dock_blink` | addresses, windows, the tray and the Dock icon |
| `text`, `path`, `raw_path` | text, and paths as text and as bytes |
| `adapters` | the calls into other crates |
