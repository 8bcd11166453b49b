# Video Tool

A desktop tool that downloads videos with yt-dlp and converts them with FFmpeg.

`src/` is a library verified with Verus. It holds every rule of the program: the
command lines, the file names, the download queue, what the output of the tools
means, when a download is let in, what is shown and what comes next. It starts
no process, opens no file and draws nothing.

`app/` is the program around it: egui windows, threads, processes, files and the
network. It asks the library what to do and tells it what came of it.

`tests/` exercises the library as a client does.

## The library

| Module | What it decides |
| --- | --- |
| `download`, `transfer`, `job` | the yt-dlp command, what its lines mean, one download from start to end |
| `codec`, `convert`, `conversion`, `probe` | the FFmpeg command, its progress, what ffprobe is asked |
| `queue`, `session` | which download is next, and what a message does to the window |
| `binaries`, `archive`, `digest`, `cache`, `setup` | where the tools are, where they come from and when they are let in |
| `update`, `updater` | which release is newer, and what the update dialog shows |
| `config`, `history`, `forms` | settings, finished jobs, and what the tabs ask for |
| `view`, `log`, `shell`, `i18n`, `labels`, `consts` | texts, logs, tabs and keys |
| `util` | names, times, sizes, versions |
| `text`, `number`, `path`, `pattern`, `json`, `dict`, `types` | the ground the rest stands on |

Contracts speak of texts as sequences of characters and of times as nanoseconds.
Each module ends with its laws: what holds of all inputs and across calls.

What the library has from other crates stands behind small functions whose
contracts are taken on trust: `regex` in `pattern`, `serde_json` in `json` and
`config`, `sha2` in `digest`, `zip` in `archive`. Paths go through `std::path` in
`path`; how a path falls into parts depends on the platform, so a contract over
paths holds for one of two readings: with backslashes and drives, or without.
