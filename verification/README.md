# status_server

The status server of a node answers HTTP requests about the node: its metrics
and configuration, profiles of its heap and processor, searches in its log
files, and its fail points.

* `src/` decides: which route a request takes, what its query asks for, which
  log files and lines a search finds, what comes next for a profile, and what
  each reply holds. It is verified with Verus, except for the few functions that
  call `std` or another crate: what their contracts claim of those calls is
  trusted, and said in their comments.
  * `time`, `line`, `range`, `path`, `search`, `page`, `table`: log lines, the search over log
    files, its pages, and the searches that are open
  * `query`, `http`, `server`: requests, routes and replies
  * `fail_points`, `registry`: fail points
  * `profile`: the steps of a profile
  * `text`, `number`, `error`: what the others are built on
* `app/` does what was decided: it serves HTTP, walks directories, reads files
  and takes profiles.
* `tests/` runs the library.
