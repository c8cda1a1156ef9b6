# OuterClaw

The logic of OuterClaw, the guardian that watches an OpenClaw gateway, keeps its
data safe and raises the alarm when something is wrong.

- `src/` is the library, in Verus. Each function states what it does, and the
  laws that hold of several functions together stand beside them as proof
  functions whose names begin with `law_`.
- `tests/` runs the library on concrete values.
- `app/` is the program around it: the command line, files, processes, the
  network. It performs the actions that the library decides on and hands back
  what came of them.

| Module     | What it holds                                                    |
|------------|------------------------------------------------------------------|
| `alert`    | alert lines and Telegram requests                                |
| `cli`      | the arguments of the commands                                    |
| `cloud`    | cloud backup: setup, sync, restore                               |
| `config`   | settings from the environment, the env file and `openclaw.json`  |
| `daemon`   | classification, healing, scheduling, watching, bot, status       |
| `platform` | systemd, launchd, rc.d and containers: commands and their output |
| `setup`    | units, scripts, ACLs, users; installing, deploying, uninstalling |
| `util`     | text, time, calendar, JSON, order, sizes                         |
| `vault`    | snapshots, LKG promotion, recovery, rollback, quota, postmortem  |
