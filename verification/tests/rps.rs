use contract_engine::hashing::from_hex;
use contract_engine::rps::{
    call_arguments, decide_round, next_game_id, parse_call, Argument, Call, Move, RPS,
};

fn text(s: &str) -> Argument {
    Argument::Text(s.to_string())
}

fn commit_for(reveal: &[u8]) -> Vec<u8> {
    blake3::hash(reveal).as_bytes().to_vec()
}

fn session() -> RPS {
    RPS::new(b"alice".to_vec(), b"bob".to_vec(), 5)
}

#[test]
fn hex_texts_are_decoded() {
    assert_eq!(from_hex("0aFf10"), Some(vec![10, 255, 16]));
    assert_eq!(from_hex(""), Some(vec![]));
    assert_eq!(from_hex("48656c6c6f"), Some(b"Hello".to_vec()));
    assert_eq!(from_hex("ABCDEF"), Some(vec![0xab, 0xcd, 0xef]));
}

#[test]
fn texts_that_are_not_hex_are_refused() {
    assert_eq!(from_hex("abc"), None);
    assert_eq!(from_hex("zz"), None);
    assert_eq!(from_hex("0g"), None);
    assert_eq!(from_hex(" 00"), None);
    assert_eq!(from_hex("\u{e9}\u{e9}"), None);
    assert_eq!(from_hex("\u{e9}"), None);
}

#[test]
fn a_new_session_is_empty() {
    let s = session();
    assert_eq!(s.players, (b"alice".to_vec(), b"bob".to_vec()));
    assert_eq!(s.history, (vec![], vec![]));
    assert_eq!(s.scoring, (0, 0));
    assert_eq!(s.ante_in, 5);
    assert_eq!(s.commits, (None, None));
    assert_eq!(s.coomits_reveal, None);
}

#[test]
fn sessions_are_numbered_past_both_players() {
    assert_eq!(next_game_id(0, 0), 1);
    assert_eq!(next_game_id(3, 7), 8);
    assert_eq!(next_game_id(9, 2), 10);
    assert_eq!(next_game_id(u64::MAX - 1, 0), u64::MAX);
}

#[test]
fn rounds_are_decided_by_the_rules() {
    assert_eq!(decide_round(Move::ROCK, Move::SCISSORS), 1);
    assert_eq!(decide_round(Move::SCISSORS, Move::PAPER), 1);
    assert_eq!(decide_round(Move::PAPER, Move::ROCK), 1);
    assert_eq!(decide_round(Move::SCISSORS, Move::ROCK), 2);
    assert_eq!(decide_round(Move::PAPER, Move::SCISSORS), 2);
    assert_eq!(decide_round(Move::ROCK, Move::PAPER), 2);
    assert_eq!(decide_round(Move::ROCK, Move::ROCK), 0);
    assert_eq!(decide_round(Move::PAPER, Move::PAPER), 0);
    assert_eq!(decide_round(Move::INVALID, Move::ROCK), 0);
    assert_eq!(decide_round(Move::ROCK, Move::INVALID), 0);
}

#[test]
fn the_first_commit_of_the_first_player_stays() {
    let mut s = session();
    s.commit_move(&b"alice".to_vec(), vec![1]);
    assert_eq!(s.commits, (Some(vec![1]), None));
    s.commit_move(&b"alice".to_vec(), vec![2]);
    assert_eq!(s.commits, (Some(vec![1]), None));
    s.commit_move(&b"carol".to_vec(), vec![3]);
    assert_eq!(s.commits, (Some(vec![1]), None));
}

#[test]
fn the_second_player_commits_before_the_first() {
    let mut s = session();
    s.commit_move(&b"bob".to_vec(), vec![7]);
    assert_eq!(s.commits, (None, Some(vec![7])));
    s.commit_move(&b"bob".to_vec(), vec![8]);
    assert_eq!(s.commits, (None, Some(vec![8])));
    s.commit_move(&b"alice".to_vec(), vec![1]);
    assert_eq!(s.commits, (Some(vec![1]), Some(vec![8])));
    s.commit_move(&b"bob".to_vec(), vec![9]);
    assert_eq!(s.commits, (Some(vec![1]), Some(vec![8])));
}

#[test]
fn a_reveal_must_match_its_commit() {
    let reveal = b"[\"ROCK\",[1,2]]";
    let mut s = session();
    assert!(!s.reveal_move(&b"alice".to_vec(), Move::ROCK, reveal));
    s.commit_move(&b"bob".to_vec(), commit_for(b"[\"PAPER\",[3]]"));
    s.commit_move(&b"alice".to_vec(), commit_for(reveal));
    assert!(!s.reveal_move(&b"alice".to_vec(), Move::ROCK, b"[\"ROCK\",[1,3]]"));
    assert_eq!(s.history, (vec![], vec![]));
    assert!(s.reveal_move(&b"alice".to_vec(), Move::ROCK, reveal));
    assert_eq!(s.history, (vec![Move::ROCK], vec![]));
    assert!(s.reveal_move(&b"bob".to_vec(), Move::PAPER, b"[\"PAPER\",[3]]"));
    assert_eq!(s.history, (vec![Move::ROCK], vec![Move::PAPER]));
    // A stranger's reveal is held against the second player's commit and
    // joins no history.
    assert!(s.reveal_move(&b"carol".to_vec(), Move::PAPER, b"[\"PAPER\",[3]]"));
    assert_eq!(s.history, (vec![Move::ROCK], vec![Move::PAPER]));
}

#[test]
fn a_round_is_scored_for_its_winner() {
    let mut s = session();
    assert_eq!(s.determine_round(), None);
    s.history = (vec![Move::ROCK], vec![]);
    assert_eq!(s.determine_round(), None);
    s.history = (vec![Move::PAPER, Move::ROCK], vec![Move::ROCK, Move::SCISSORS]);
    assert_eq!(s.determine_round(), Some(b"alice".to_vec()));
    assert_eq!(s.scoring, (1, 0));
    s.history.1.push(Move::PAPER);
    assert_eq!(s.determine_round(), Some(b"bob".to_vec()));
    assert_eq!(s.scoring, (1, 1));
    s.history.0.push(Move::PAPER);
    assert_eq!(s.determine_round(), None);
    assert_eq!(s.scoring, (1, 1));
}

#[test]
fn scores_grow_for_a_player_only() {
    let mut s = session();
    s.update_scores(Some(b"alice".to_vec()));
    s.update_scores(Some(b"bob".to_vec()));
    s.update_scores(Some(b"bob".to_vec()));
    s.update_scores(Some(b"carol".to_vec()));
    s.update_scores(None);
    assert_eq!(s.scoring, (1, 2));
}

#[test]
fn a_list_argument_stands_for_its_items() {
    assert_eq!(
        call_arguments(Argument::List(vec![text("a"), Argument::Number(1)])),
        vec![text("a"), Argument::Number(1)]
    );
    assert_eq!(call_arguments(Argument::List(vec![])), vec![]);
    assert_eq!(call_arguments(text("a")), vec![text("a")]);
    assert_eq!(call_arguments(Argument::Other), vec![Argument::Other]);
    assert_eq!(
        call_arguments(Argument::List(vec![Argument::List(vec![text("a")])])),
        vec![Argument::List(vec![text("a")])]
    );
}

#[test]
fn calls_are_read_from_names_and_arguments() {
    assert_eq!(
        parse_call(&"new".to_string(), &vec![text("alice"), text("bob"), Argument::Number(5)]),
        Some(Call::New { player1: b"alice".to_vec(), player2: b"bob".to_vec(), ante_in: 5 })
    );
    assert_eq!(
        parse_call(
            &"commit_move".to_string(),
            &vec![text("alice"), Argument::Number(1), text("0aff")]
        ),
        Some(Call::CommitMove { player: b"alice".to_vec(), game_id: 1, commit: vec![10, 255] })
    );
    assert_eq!(
        parse_call(
            &"reveal_move".to_string(),
            &vec![text("bob"), Argument::Number(2), text("SCISSORS"), text("01")]
        ),
        Some(Call::RevealMove {
            player: b"bob".to_vec(),
            game_id: 2,
            reveal: Move::SCISSORS,
            salt: vec![1],
        })
    );
    assert_eq!(
        parse_call(&"determine_round".to_string(), &vec![Argument::Number(3), text("bob")]),
        Some(Call::DetermineRound { game_id: 3, player: b"bob".to_vec() })
    );
}

#[test]
fn malformed_calls_are_no_calls() {
    let new = "new".to_string();
    assert_eq!(parse_call(&new, &vec![text("a"), text("b")]), None);
    assert_eq!(parse_call(&new, &vec![text("a"), text("b"), text("5")]), None);
    assert_eq!(parse_call(&new, &vec![text("a"), Argument::Other, Argument::Number(5)]), None);
    assert_eq!(
        parse_call(&new, &vec![text("a"), text("b"), Argument::Number(5), Argument::Other]),
        None
    );
    let commit = "commit_move".to_string();
    assert_eq!(parse_call(&commit, &vec![text("a"), Argument::Number(1), text("xyz")]), None);
    assert_eq!(parse_call(&commit, &vec![text("a"), Argument::Number(1), text("abc")]), None);
    let reveal = "reveal_move".to_string();
    assert_eq!(
        parse_call(&reveal, &vec![text("a"), Argument::Number(1), text("LIZARD"), text("00")]),
        None
    );
    assert_eq!(
        parse_call(&reveal, &vec![text("a"), Argument::Number(1), text("rock"), text("00")]),
        None
    );
    assert_eq!(
        parse_call(&reveal, &vec![text("a"), Argument::Number(1), text("ROCK"), text("0")]),
        None
    );
    let determine = "determine_round".to_string();
    assert_eq!(parse_call(&determine, &vec![text("bob"), Argument::Number(3)]), None);
    assert_eq!(parse_call(&"other".to_string(), &vec![]), None);
    assert_eq!(parse_call(&"".to_string(), &vec![text("a"), text("b"), Argument::Number(1)]), None);
}
