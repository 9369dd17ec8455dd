# x_video_downloader

The logic of an x.com video downloader with collaborative download teams,
written as a Verus library. The functions under `src/` carry contracts that
Verus proves, with two kinds of exception:

- about thirty small wrappers marked `#[verifier::external_body]` make the
  calls into the standard library and the `uuid`, `chrono`, `rand`, `hmac`,
  `sha2`, `hex` and `directories` crates; their contracts are trusted, and
  each one's doc comment says what it claims;
- functions whose answer depends on the environment say nothing of it:
  `config::default_output_dir` has no `ensures` at all (the directory comes
  from the platform), and the fresh ids, clock readings and random choices
  are stated only as far as they hold for every outcome.

- `src/` — the verified library: yt-dlp argument building and metadata
  filtering, download planning (retries, parallel segments, resume ranges),
  size and byte formatting, file-name sanitising, history and bookmarks,
  settings, the GUI state machine, and the collaboration protocol (tokens,
  hash ring, team and task rules, STUN parsing, the peer file server's
  request routing and range answers).
- `src/rounding.rs` — decimal text rounded to binary64 exactly as the
  standard library does, stated over rationals and computed with integers.
- `tests/` — tests of the library on concrete values.
- `app/` — the program around it: command line, processes, files, SQLite,
  WebSockets, HTTP and the iced window.
