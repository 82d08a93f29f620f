# plugin_setup

Decides how a desktop shell installs, upgrades and removes its plugins.

The shell runs `dsh plugin --profile web add|remove <package>`, which drives
pnpm. Around that command there is a good deal to decide: which of the chosen
plugins exist, whether the user's pnpm is new enough, what to do when pnpm
refuses to run a build script, when to try again and when to give up, what to
show and what to return. Those decisions are in `src/`, proved with Verus.

- `text`, `number`: strings as sequences of characters; `text_lemmas` holds facts
  about them.
- `allow_builds`: the keys that pnpm asks for in its output.
- `workspace`: the `allowBuilds` block of `pnpm-workspace.yaml`;
  `workspace_laws` says what every merge keeps.
- `pnpm`: which pnpm is used.
- `command`: the command line and its environment.
- `selection`, `report`, `cancel`: the chosen plugins, the results, the user's
  change of mind.
- `install`: a run, as a chain of steps; `install_laws` says what holds of every
  run.
- `manage`: upgrading and removing one plugin.
- `boot`: a script for the page that is shown while plugins load.

A run never does anything by itself. Each step names one thing to do and carries
the run so far; handing back what came of it gives the next step. `app/` is the
side that does things.
