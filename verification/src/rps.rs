//! A game of rock, paper, scissors between two players, played by commit
//! and reveal: the rules of one session, apart from where a contract keeps
//! the session.

use vstd::prelude::*;
use crate::bytes::{bytes_eq, clone_bytes};
use crate::hashing::blake3_digest;
use crate::guest::verify_commit_reveal;

verus! {

/// A move of the game.
#[allow(non_camel_case_types)]
#[derive(Clone, Copy, Debug, PartialEq, Eq, Structural)]
pub enum Move {
    ROCK,
    PAPER,
    SCISSORS,
    INVALID,
}

/// One session of the game.
#[derive(Debug, PartialEq, Eq)]
pub struct RPS {
    pub players: (Vec<u8>, Vec<u8>),
    pub history: (Vec<Move>, Vec<Move>),
    pub scoring: (u32, u32),
    pub ante_in: u64,
    pub commits: (Option<Vec<u8>>, Option<Vec<u8>>),
    pub coomits_reveal: Option<((Move, Vec<u8>), (Move, Vec<u8>))>,
}

/// What an optional byte string holds.
pub open spec fn optional_view(bytes: Option<Vec<u8>>) -> Option<Seq<u8>> {
    match bytes {
        Some(b) => Some(b@),
        None => None,
    }
}

/// Which player wins a round: 1 for the first, 2 for the second, 0 for a
/// tie. Rock beats scissors, scissors beat paper, paper beats rock; a round
/// with an invalid move is a tie.
pub open spec fn round_winner(first: Move, second: Move) -> nat {
    if (first == Move::ROCK && second == Move::SCISSORS) || (first == Move::SCISSORS && second
        == Move::PAPER) || (first == Move::PAPER && second == Move::ROCK) {
        1
    } else if (first == Move::SCISSORS && second == Move::ROCK) || (first == Move::PAPER && second
        == Move::SCISSORS) || (first == Move::ROCK && second == Move::PAPER) {
        2
    } else {
        0
    }
}

/// The scores after a round that `winner` won: the first player's score
/// grows where the winner is the first player, else the second player's
/// where the winner is the second player; else nothing changes.
pub open spec fn scores_after(
    players: (Seq<u8>, Seq<u8>),
    scoring: (u32, u32),
    winner: Option<Seq<u8>>,
) -> (int, int) {
    match winner {
        Some(w) => if w == players.0 {
            (scoring.0 + 1, scoring.1 as int)
        } else if w == players.1 {
            (scoring.0 as int, scoring.1 + 1)
        } else {
            (scoring.0 as int, scoring.1 as int)
        },
        None => (scoring.0 as int, scoring.1 as int),
    }
}

/// The number of the next session of two players: one more than the larger
/// of their session counts.
pub fn next_game_id(player1_sessions: u64, player2_sessions: u64) -> (game_id: u64)
    requires
        player1_sessions < u64::MAX,
        player2_sessions < u64::MAX,
    ensures
        game_id == (if player1_sessions >= player2_sessions {
            player1_sessions
        } else {
            player2_sessions
        }) + 1,
{
    if player1_sessions >= player2_sessions {
        player1_sessions + 1
    } else {
        player2_sessions + 1
    }
}

/// Decides a round between two moves.
pub fn decide_round(first: Move, second: Move) -> (winner: u8)
    ensures
        winner == round_winner(first, second),
{
    match (first, second) {
        (Move::ROCK, Move::SCISSORS) => 1,
        (Move::SCISSORS, Move::PAPER) => 1,
        (Move::PAPER, Move::ROCK) => 1,
        (Move::SCISSORS, Move::ROCK) => 2,
        (Move::PAPER, Move::SCISSORS) => 2,
        (Move::ROCK, Move::PAPER) => 2,
        _ => 0,
    }
}

impl RPS {
    /// A new session between two players with an ante: no moves, no scores,
    /// no commits.
    pub fn new(player1: Vec<u8>, player2: Vec<u8>, ante_in: u64) -> (session: RPS)
        ensures
            session.players == (player1, player2),
            session.history.0@ == Seq::<Move>::empty(),
            session.history.1@ == Seq::<Move>::empty(),
            session.scoring == (0u32, 0u32),
            session.ante_in == ante_in,
            session.commits == (None::<Vec<u8>>, None::<Vec<u8>>),
            session.coomits_reveal is None,
    {
        RPS {
            players: (player1, player2),
            history: (Vec::new(), Vec::new()),
            scoring: (0, 0),
            ante_in,
            commits: (None, None),
            coomits_reveal: None,
        }
    }

    /// Records a player's commit. The first player's commit is recorded
    /// where none is recorded yet; the second player's commit is recorded
    /// as long as the first player has none recorded. Anyone else's commit
    /// is ignored.
    pub fn commit_move(&mut self, player: &Vec<u8>, commit: Vec<u8>)
        ensures
            final(self).players == old(self).players,
            final(self).history == old(self).history,
            final(self).scoring == old(self).scoring,
            final(self).ante_in == old(self).ante_in,
            final(self).coomits_reveal == old(self).coomits_reveal,
            optional_view(final(self).commits.0) == if old(self).players.0@ == player@ && old(
                self,
            ).commits.0 is None {
                Some(commit@)
            } else {
                optional_view(old(self).commits.0)
            },
            optional_view(final(self).commits.1) == if old(self).players.0@ != player@ && old(
                self,
            ).players.1@ == player@ && old(self).commits.0 is None {
                Some(commit@)
            } else {
                optional_view(old(self).commits.1)
            },
    {
        if bytes_eq(&self.players.0, player) {
            if self.commits.0.is_none() {
                self.commits.0 = Some(commit);
            }
        } else if bytes_eq(&self.players.1, player) {
            if self.commits.0.is_none() {
                self.commits.1 = Some(commit);
            }
        }
    }

    /// The commit that a reveal by `player` is held against: the first
    /// player's for the first player, the second player's for anyone else.
    pub open spec fn commit_of(&self, player: Seq<u8>) -> Option<Seq<u8>> {
        if self.players.0@ == player {
            optional_view(self.commits.0)
        } else {
            optional_view(self.commits.1)
        }
    }

    /// Whether a reveal by `player` holds: the commit it is held against is
    /// there and is the content hash of the serialised reveal.
    pub open spec fn reveal_holds(&self, player: Seq<u8>, serialized: Seq<u8>) -> bool {
        self.commit_of(player) == Some(blake3_digest(serialized))
    }

    /// Takes a player's reveal of a move: `serialized` is the JSON of the
    /// move and its salt. Where the reveal holds against the commit, the move
    /// joins the player's history, if the player is one of the two, and the
    /// result is `true`; where it does not, nothing changes.
    pub fn reveal_move(&mut self, player: &Vec<u8>, reveal: Move, serialized: &[u8]) -> (ok: bool)
        ensures
            ok == old(self).reveal_holds(player@, serialized@),
            final(self).players == old(self).players,
            final(self).scoring == old(self).scoring,
            final(self).ante_in == old(self).ante_in,
            final(self).commits == old(self).commits,
            final(self).coomits_reveal == old(self).coomits_reveal,
            final(self).history.0@ == if ok && old(self).players.0@ == player@ {
                old(self).history.0@.push(reveal)
            } else {
                old(self).history.0@
            },
            final(self).history.1@ == if ok && old(self).players.0@ != player@ && old(
                self,
            ).players.1@ == player@ {
                old(self).history.1@.push(reveal)
            } else {
                old(self).history.1@
            },
    {
        let first = bytes_eq(&self.players.0, player);
        let commit = if first {
            match &self.commits.0 {
                Some(c) => Some(clone_bytes(c)),
                None => None,
            }
        } else {
            match &self.commits.1 {
                Some(c) => Some(clone_bytes(c)),
                None => None,
            }
        };
        match commit {
            Some(commit) => {
                if verify_commit_reveal(commit, serialized) {
                    if first {
                        self.history.0.push(reveal);
                    } else if bytes_eq(&self.players.1, player) {
                        self.history.1.push(reveal);
                    }
                    return true;
                }
                false
            },
            None => false,
        }
    }

    /// The winner of the round of the two latest moves: `None` for a tie
    /// and where a player has not moved yet.
    pub open spec fn latest_winner(&self) -> Option<Seq<u8>> {
        if self.history.0.len() == 0 || self.history.1.len() == 0 {
            None
        } else if round_winner(self.history.0@.last(), self.history.1@.last()) == 1 {
            Some(self.players.0@)
        } else if round_winner(self.history.0@.last(), self.history.1@.last()) == 2 {
            Some(self.players.1@)
        } else {
            None
        }
    }

    /// Decides the round of the two latest moves and scores it. Returns the
    /// winner; `None` for a tie, and where a player has not moved yet, in
    /// which case nothing is scored.
    pub fn determine_round(&mut self) -> (winner: Option<Vec<u8>>)
        requires
            old(self).scoring.0 < u32::MAX,
            old(self).scoring.1 < u32::MAX,
        ensures
            optional_view(winner) == old(self).latest_winner(),
            final(self).players == old(self).players,
            final(self).history == old(self).history,
            final(self).ante_in == old(self).ante_in,
            final(self).commits == old(self).commits,
            final(self).coomits_reveal == old(self).coomits_reveal,
            (final(self).scoring.0 as int, final(self).scoring.1 as int) == scores_after(
                (old(self).players.0@, old(self).players.1@),
                old(self).scoring,
                old(self).latest_winner(),
            ),
    {
        if self.history.0.len() == 0 || self.history.1.len() == 0 {
            return None;
        }
        let move1 = self.history.0[self.history.0.len() - 1];
        let move2 = self.history.1[self.history.1.len() - 1];
        let decided = decide_round(move1, move2);
        let winner = if decided == 1 {
            Some(clone_bytes(&self.players.0))
        } else if decided == 2 {
            Some(clone_bytes(&self.players.1))
        } else {
            None
        };
        let scored = match &winner {
            Some(w) => Some(clone_bytes(w)),
            None => None,
        };
        self.update_scores(scored);
        winner
    }

    /// Scores a round for its winner: the first player's score grows by one
    /// where the winner is the first player, else the second player's where
    /// the winner is the second player.
    pub fn update_scores(&mut self, winner: Option<Vec<u8>>)
        requires
            old(self).scoring.0 < u32::MAX,
            old(self).scoring.1 < u32::MAX,
        ensures
            final(self).players == old(self).players,
            final(self).history == old(self).history,
            final(self).ante_in == old(self).ante_in,
            final(self).commits == old(self).commits,
            final(self).coomits_reveal == old(self).coomits_reveal,
            (final(self).scoring.0 as int, final(self).scoring.1 as int) == scores_after(
                (old(self).players.0@, old(self).players.1@),
                old(self).scoring,
                optional_view(winner),
            ),
    {
        match winner {
            Some(winner_addr) => {
                if bytes_eq(&winner_addr, &self.players.0) {
                    self.scoring.0 += 1;
                } else if bytes_eq(&winner_addr, &self.players.1) {
                    self.scoring.1 += 1;
                }
            },
            None => {},
        }
    }
}

/// What the contract reads of a JSON argument of a call: a text, a
/// non-negative whole number, a list, or anything else.
#[derive(Debug, PartialEq, Eq)]
pub enum Argument {
    Text(String),
    Number(u64),
    List(Vec<Argument>),
    Other,
}

/// The arguments that the argument of a call stands for: the items of a
/// list, and the argument alone where it is no list.
pub open spec fn listed(argument: Argument) -> Seq<Argument> {
    match argument {
        Argument::List(items) => items@,
        _ => seq![argument],
    }
}

/// Takes the argument of a call apart into the arguments it stands for.
pub fn call_arguments(argument: Argument) -> (args: Vec<Argument>)
    ensures
        args@ == listed(argument),
{
    match argument {
        Argument::List(items) => items,
        other => {
            let mut args: Vec<Argument> = Vec::new();
            args.push(other);
            args
        },
    }
}

/// A call of the contract, with its arguments read.
#[derive(Debug, PartialEq, Eq)]
pub enum Call {
    /// Open a session between two players with an ante.
    New { player1: Vec<u8>, player2: Vec<u8>, ante_in: u64 },
    /// Commit to a move in a session.
    CommitMove { player: Vec<u8>, game_id: u64, commit: Vec<u8> },
    /// Reveal a move in a session.
    RevealMove { player: Vec<u8>, game_id: u64, reveal: Move, salt: Vec<u8> },
    /// Decide the latest round of a session.
    DetermineRound { game_id: u64, player: Vec<u8> },
}

/// What a [`Call`] holds.
pub enum CallView {
    New { player1: Seq<u8>, player2: Seq<u8>, ante_in: u64 },
    CommitMove { player: Seq<u8>, game_id: u64, commit: Seq<u8> },
    RevealMove { player: Seq<u8>, game_id: u64, reveal: Move, salt: Seq<u8> },
    DetermineRound { game_id: u64, player: Seq<u8> },
}

impl View for Call {
    type V = CallView;

    open spec fn view(&self) -> CallView {
        match *self {
            Call::New { player1, player2, ante_in } => CallView::New {
                player1: player1@,
                player2: player2@,
                ante_in,
            },
            Call::CommitMove { player, game_id, commit } => CallView::CommitMove {
                player: player@,
                game_id,
                commit: commit@,
            },
            Call::RevealMove { player, game_id, reveal, salt } => CallView::RevealMove {
                player: player@,
                game_id,
                reveal,
                salt: salt@,
            },
            Call::DetermineRound { game_id, player } => CallView::DetermineRound {
                game_id,
                player: player@,
            },
        }
    }
}

/// The text of an argument, where it is one.
pub open spec fn text_of(argument: Argument) -> Option<Seq<char>> {
    match argument {
        Argument::Text(t) => Some(t@),
        _ => None,
    }
}

/// The number of an argument, where it is one.
pub open spec fn number_of(argument: Argument) -> Option<u64> {
    match argument {
        Argument::Number(n) => Some(n),
        _ => None,
    }
}

/// The address that a text names: its UTF-8 bytes.
pub open spec fn address_of(text: Seq<char>) -> Seq<u8> {
    vstd::utf8::encode_utf8(text)
}

/// The bytes that an argument gives in hexadecimal, where it is a
/// hexadecimal text.
pub open spec fn hex_of(argument: Argument) -> Option<Seq<u8>> {
    match text_of(argument) {
        Some(t) => crate::hashing::hex_bytes(t),
        None => None,
    }
}

/// The move that a text names; any other text names the invalid move.
pub open spec fn move_named(text: Seq<char>) -> Move {
    if text == "ROCK"@ {
        Move::ROCK
    } else if text == "PAPER"@ {
        Move::PAPER
    } else if text == "SCISSORS"@ {
        Move::SCISSORS
    } else {
        Move::INVALID
    }
}

/// The call that a function name and its arguments stand for. `new` takes
/// two players and an ante; `commit_move` a player, a session and a commit
/// in hexadecimal; `reveal_move` a player, a session, a move by name and a
/// salt in hexadecimal; `determine_round` a session and a player. Players
/// and moves are texts, sessions and antes are numbers. Any other name, a
/// wrong number of arguments, an argument of the wrong kind or a move that
/// is not one of the three is no call.
pub open spec fn call_of(function: Seq<char>, args: Seq<Argument>) -> Option<CallView> {
    if function == "new"@ {
        if args.len() == 3 && text_of(args[0]) is Some && text_of(args[1]) is Some && number_of(
            args[2],
        ) is Some {
            Some(
                CallView::New {
                    player1: address_of(text_of(args[0])->0),
                    player2: address_of(text_of(args[1])->0),
                    ante_in: number_of(args[2])->0,
                },
            )
        } else {
            None
        }
    } else if function == "commit_move"@ {
        if args.len() == 3 && text_of(args[0]) is Some && number_of(args[1]) is Some && hex_of(
            args[2],
        ) is Some {
            Some(
                CallView::CommitMove {
                    player: address_of(text_of(args[0])->0),
                    game_id: number_of(args[1])->0,
                    commit: hex_of(args[2])->0,
                },
            )
        } else {
            None
        }
    } else if function == "reveal_move"@ {
        if args.len() == 4 && text_of(args[0]) is Some && number_of(args[1]) is Some && text_of(
            args[2],
        ) is Some && hex_of(args[3]) is Some && move_named(text_of(args[2])->0) != Move::INVALID {
            Some(
                CallView::RevealMove {
                    player: address_of(text_of(args[0])->0),
                    game_id: number_of(args[1])->0,
                    reveal: move_named(text_of(args[2])->0),
                    salt: hex_of(args[3])->0,
                },
            )
        } else {
            None
        }
    } else if function == "determine_round"@ {
        if args.len() == 2 && number_of(args[0]) is Some && text_of(args[1]) is Some {
            Some(
                CallView::DetermineRound {
                    game_id: number_of(args[0])->0,
                    player: address_of(text_of(args[1])->0),
                },
            )
        } else {
            None
        }
    } else {
        None
    }
}

/// Whether a text is the given name.
fn is_named(text: &String, name: &str) -> (same: bool)
    ensures
        same == (text@ == name@),
{
    let owned = name.to_owned();
    *text == owned
}

/// The address that a text argument names.
fn read_address(argument: &Argument) -> (address: Option<Vec<u8>>)
    ensures
        match address {
            Some(a) => Some(a@),
            None => None,
        } == match text_of(*argument) {
            Some(t) => Some(address_of(t)),
            None => None,
        },
{
    match argument {
        Argument::Text(t) => Some(crate::bytes::slice_to_vec(t.as_str().as_bytes())),
        _ => None,
    }
}

/// The number that a number argument gives.
fn read_number(argument: &Argument) -> (number: Option<u64>)
    ensures
        number == number_of(*argument),
{
    match argument {
        Argument::Number(n) => Some(*n),
        _ => None,
    }
}

/// The bytes that a hexadecimal text argument gives.
fn read_hex(argument: &Argument) -> (bytes: Option<Vec<u8>>)
    ensures
        match bytes {
            Some(b) => Some(b@),
            None => None,
        } == hex_of(*argument),
{
    match argument {
        Argument::Text(t) => crate::hashing::from_hex(t.as_str()),
        _ => None,
    }
}

/// The move that a text argument names.
fn read_move(argument: &Argument) -> (named: Option<Move>)
    ensures
        named == match text_of(*argument) {
            Some(t) => Some(move_named(t)),
            None => None,
        },
{
    match argument {
        Argument::Text(t) => {
            if is_named(t, "ROCK") {
                Some(Move::ROCK)
            } else if is_named(t, "PAPER") {
                Some(Move::PAPER)
            } else if is_named(t, "SCISSORS") {
                Some(Move::SCISSORS)
            } else {
                Some(Move::INVALID)
            }
        },
        _ => None,
    }
}

/// Reads a call of the contract from a function name and its arguments.
pub fn parse_call(function: &String, args: &Vec<Argument>) -> (call: Option<Call>)
    ensures
        match call {
            Some(c) => Some(c@),
            None => None,
        } == call_of(function@, args@),
{
    if is_named(function, "new") {
        if args.len() != 3 {
            return None;
        }
        match (read_address(&args[0]), read_address(&args[1]), read_number(&args[2])) {
            (Some(player1), Some(player2), Some(ante_in)) => Some(
                Call::New { player1, player2, ante_in },
            ),
            _ => None,
        }
    } else if is_named(function, "commit_move") {
        if args.len() != 3 {
            return None;
        }
        match (read_address(&args[0]), read_number(&args[1]), read_hex(&args[2])) {
            (Some(player), Some(game_id), Some(commit)) => Some(
                Call::CommitMove { player, game_id, commit },
            ),
            _ => None,
        }
    } else if is_named(function, "reveal_move") {
        if args.len() != 4 {
            return None;
        }
        match (
            read_address(&args[0]),
            read_number(&args[1]),
            read_move(&args[2]),
            read_hex(&args[3]),
        ) {
            (Some(player), Some(game_id), Some(reveal), Some(salt)) => {
                match reveal {
                    Move::INVALID => None,
                    _ => Some(Call::RevealMove { player, game_id, reveal, salt }),
                }
            },
            _ => None,
        }
    } else if is_named(function, "determine_round") {
        if args.len() != 2 {
            return None;
        }
        match (read_number(&args[0]), read_address(&args[1])) {
            (Some(game_id), Some(player)) => Some(Call::DetermineRound { game_id, player }),
            _ => None,
        }
    } else {
        None
    }
}

} // verus!
