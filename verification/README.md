# comfy_patcher

The rules behind a desktop tool that manages a local ComfyUI installation and
the git checkouts around it (the core repository, a managed frontend, Comfy
Kitchen and custom nodes): resolving GitHub targets, tracking a base target
with a stack of pull-request overlays, previewing and applying changes with
checkpoints, planning dependency syncs, browsing the ComfyUI-Manager registry
and controlling the ComfyUI process through a launch profile.

The library in `src/` is written in Verus: every function states its
behaviour in `requires`/`ensures` and is proved against it. Git, the
filesystem, the network, SQLite and child processes stay outside it, in
`app/`, which performs that work and hands each decision to the library.

## Layout

* `src/` — the verified library
  * `models`, `errors` — the data the tool works on, and its error type
  * `text`, `unicode`, `ordering`, `paths`, `pathnorm`, `urls`, `patterns` —
    string, ordering and path rules
  * `git`, `github` — parsing git output; classifying and resolving targets
  * `stack`, `stacking` — dependency order of overlays; building, editing and
    materializing tracked stacks
  * `preview`, `previewing`, `restore` — what an update would change, the
    preview it reports, and restoring checkpoints
  * `registry`, `catalog` — registry entries, search and the browser's items,
    adoption of tracking installs
  * `install`, `launch`, `processes`, `execution` — directory choices, launch
    profiles, process commands and WSL command planning
  * `deps`, `kitchen`, `health`, `util`, `updates` — dependency plans, Comfy
    Kitchen provenance, live repository state, small rules, self-update
* `app/` — the desktop side: database, git and network work, processes, and
  the flows that tie them to the library
* `tests/` — tests of the library on concrete values
