//! The fixed texts of the bot's replies and announcements.

use vstd::prelude::*;

verus! {

/// The channel for submissions and relayed messages.
pub const SHOWCASE_CHANNEL: &'static str = "#riceathon";

/// Refuses `/start` to anyone but the owner.
pub const ONLY_OWNER_STARTS: &'static str =
    "ONLY YOUSAFE CAN START THE VOTING HUDDLE \nYOU NOT SAFE /silly";

/// Refuses `/next` to anyone but the owner.
pub const ONLY_OWNER_NEXT: &'static str = "Nuh uh, only the YOUSAFE can use this";

/// Refuses `/stop` to anyone but the owner.
pub const ONLY_OWNER_STOPS: &'static str = "only YOUSAFE can stop this";

/// Refuses a command that needs a running session.
pub const NOT_RUNNING: &'static str = "Nuh uh";

/// Refuses `/current` while no session runs.
pub const NOT_RUNNING_CURRENT: &'static str = "umm, nop";

/// Refuses a second `/add_me` of one user.
pub const ALREADY_JOINED: &'static str = "Your already in the list silly!";

/// Refuses `/next` once everyone has presented.
pub const POOL_EMPTY: &'static str = "The participant pool is empty. :pensive-wobble:";

/// Refuses a `/vote` that mentions nobody.
pub const VOTE_FORMAT: &'static str = "format error ? please vote that way `/vote @user`";

/// Refuses a vote for oneself.
pub const SELF_VOTE: &'static str = "pfffff lmao what, what r u trying todo? u silly";

/// Refuses a second vote of one user.
pub const ALREADY_VOTED: &'static str = "You can only vote for one person";

/// Refuses a vote for someone who has not joined.
pub const NOT_A_PARTICIPANT: &'static str = "Huh ? the user is not in the list ??";

/// Announces a new session.
pub const STARTED: &'static str =
    ":yay: ayy, just started it, now ppl shall add themselves using `/add_me` so they can participate >:3\nyumm i wonder the rices im going to eat /silly";

/// Tells the thread that everyone has presented.
pub const NO_MORE_PARTICIPANTS: &'static str =
    "No more participants in the list! u can run `/stop` to show the results";

/// Tells the thread that a vote was counted.
pub const VOTE_COUNTED: &'static str =
    "looks like this rice impressed you! +1 point for them :happi:";

/// Answers `/current` while nobody presents.
pub const NOBODY_PRESENTS: &'static str =
    "no one showing their rice ?? YOUSAFE must call `/next` to choose a participant";

/// Opens the leaderboard.
pub const BOARD_HEADER: &'static str = "*:ultrafastparrot: final voting Leaderboard scores !* \n";

/// Stands in a leaderboard without participants.
pub const BOARD_EMPTY: &'static str = "_No registered participants joined this round._";

/// Closes an announcement without a winner.
pub const NO_WINNER: &'static str = "\nWAIT WHAT, NO WINNER WTH?!? there must be a mistake..";

} // verus!
