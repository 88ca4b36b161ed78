# opentorrent

A terminal BitTorrent client built on librqbit: a full-screen interface
with a library of torrents, a command palette and a download history, a
background daemon reached over a Unix socket, HTTP webseed downloads from
the GetRight bases of a torrent's `url-list`, and a plain progress-bar mode.

## Layout

- `src/` is the library, verified with Verus. It holds what the program
  decides: the screen drawn into a frame of cells (cards, popups, status
  bar, header and footer), the interface state machine (each key or mouse
  event gives the next state and the action the app must perform), line
  wrapping and truncation, the ordering of the library and of the history,
  message framing for the daemon, the resolution of torrent sources (bencode
  shape, HTML detection, `.torrent` links), webseed URLs, plans, response
  checks, progress tally and task registry, the systemd unit, and the
  choices of the add command (resume, skip, totals).
- `app/` is the program around it: argument parsing, the terminal, files
  and network, the session, the daemon's socket and the serde copies of the
  messages. It also computes what is floating point (rates, ratios,
  percentages and the colours that depend on them).
- `tests/` runs the library on concrete values.

## What is trusted

Verus checks the library against its contracts. The calls into other
crates and into parts of std that vstd does not specify go through small
functions whose contracts are believed, not proved; each carries a doc
comment saying what it claims:

- librqbit `torrent_from_bytes_ext` (whether bytes are a torrent, and the
  name, file list and padding flags a webseed task needs); it is only called
  on bytes that start with a complete bencode value, which the library
  checks itself;
- url `Url::parse`, `Url::join` and `path_segments_mut().extend`;
- semver version comparison, size_format binary sizes, chrono local dates;
- dirs home, config and data directories;
- std `String::from_utf8_lossy`, `str::to_lowercase`, `String::push` and
  `Instant`.

Where a result depends on the clock, the environment or the local time
zone, the contract states nothing of its value. A named result (a spec
function without a body) stands for what an outside function returns on
given arguments; the library's contracts speak of those names.
