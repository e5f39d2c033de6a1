# riceathon

A Slack bot and web page for a rice showcase: visitors sign in with Hackatime and submit the
projects they have configured their desktops in, and the participants of a huddle join, present and
vote with slash commands.

- `src/` holds the rules, verified with Verus: the voting session, the leaderboard, the reading of
  mentions, the course of a sign-in and of a submission, and the file of those who have submitted.
- `app/` is the server around them: HTTP, Slack, templates and files.
- `tests/` runs the library on concrete inputs.

The laws that hold over any run of commands stand in `src/history.rs`; those on winners in
`src/leaderboard.rs`, on submissions in `src/submit.rs`, on sign-ins in `src/signin.rs`, on the file
in `src/ledger.rs` and on mentions in `src/mention.rs`.

What is trusted: `rand::random_range` gives a number within its range, and `str::to_lowercase`
depends on its text alone.
