# worktree-cleaner (`wtc`)

Finds git worktrees under a directory, ranks them by how worth deleting
they are (orphaned first, then stale, never the main working tree), and
removes the ones you pick — in a terminal UI, or non-interactively with
`--yes`.

The decision logic is a Verus library under `src/`, with its contracts
proved:

| module | what it decides |
| --- | --- |
| `text` | decimal rendering, column padding, trimming, prefixes |
| `size` | `1.5 KB`-style sizes (exactly as `{:.1}` prints an `f64`), partial totals |
| `worktree` | the worktree record, status labels, "3 days ago" labels |
| `score` | the relevance key and the stable ranking built on it |
| `sorting` | the other orders of the list (age, size, branch, path, reversed) |
| `selection` | which worktrees may be deleted, and the `--orphaned` / `--stale` filters |
| `paths` | parent directories and paths shown relative to the current directory |
| `scan` | pruned directories, staleness, `.git` files, classification of what was found |
| `delete` | the per-worktree removal state machine and the space reclaimed |
| `tui` | the interactive session: list, cursor, selection, keys, scan and deletion progress |
| `screen` | every line the session's screens show |
| `noninteractive` | the ranked table, the `--yes` plan and its report |
| `cli` | run mode and filter from the flags |

`app/` is the binary around it: argument parsing, the directory walk,
git, the terminal, threads and printing. It performs what the library
decides and hands back what happened.
