use keres_engine::board::{Board, Position};
use keres_engine::cli::{create_game, get_board_hash, parse_position};
use keres_engine::game::{Game, Move};
use keres_engine::protocol::{
    engine_move_board_response, engine_move_game_response, moves_response, new_game_response,
    play_response, replay_response, RequestError,
};

fn legal_codes(game: &Game) -> Vec<u16> {
    let mut v = Vec::new();
    for pm in game.get_all_moves() {
        if pm.force_unstack {
            v.push(pm.to_move(true).to_u16());
        } else {
            v.push(pm.to_move(false).to_u16());
            if pm.unstackable {
                v.push(pm.to_move(true).to_u16());
            }
        }
    }
    v
}

#[test]
fn new_game_is_the_starting_board() {
    assert_eq!(new_game_response(), Game::new().to_binary());
}

#[test]
fn moves_lists_every_potential_move() {
    let board = new_game_response();
    let out = moves_response(&board).unwrap();
    let moves = Game::new().get_all_moves();
    assert_eq!(out.len(), 2 * moves.len());
    for (i, pm) in moves.iter().enumerate() {
        assert_eq!(u16::from_le_bytes([out[2 * i], out[2 * i + 1]]), pm.to_u16());
    }
    assert_eq!(moves_response(&board[..82]), Err(RequestError::BadRequest));
    let mut bad = board;
    bad[0] = 8;
    assert_eq!(moves_response(&bad), Err(RequestError::InvalidBoard));
}

#[test]
fn play_applies_the_move() {
    let game = Game::new();
    let code = legal_codes(&game)[0];
    let mut payload = game.to_binary().to_vec();
    payload.extend_from_slice(&code.to_le_bytes());
    let out = play_response(&payload).unwrap();
    let mut expected = game.clone();
    expected.apply_move(Move::from_u16(code)).unwrap();
    assert_eq!(out, expected.to_binary().to_vec());
    assert_eq!(play_response(&payload[..84]), Err(RequestError::BadRequest));
    payload[83] = 0x7F;
    assert_eq!(play_response(&payload), Err(RequestError::BadRequest));
}

#[test]
fn replay_rebuilds_the_game() {
    let move_bytes: &[u8] = &[0xC5, 0x21, 0x16, 0x0F, 0x3A, 0x19];
    let mut game = Game::new();
    for chunk in move_bytes.chunks_exact(2) {
        game.apply_move(Move::from_u16(u16::from_le_bytes([chunk[0], chunk[1]]))).unwrap();
    }
    assert_eq!(replay_response(move_bytes).unwrap(), game.to_binary().to_vec());
    assert_eq!(replay_response(&[]).unwrap(), Game::new().to_binary().to_vec());
    assert_eq!(replay_response(&move_bytes[..3]), Err(RequestError::BadRequest));
    // Moving from an empty square cannot be replayed.
    assert_eq!(replay_response(&[40, 0]), Err(RequestError::BadRequest));
}

#[test]
fn engine_answers_with_a_legal_move() {
    let board = new_game_response();
    let out = engine_move_board_response(&board).unwrap();
    assert_eq!(out.len(), 2);
    let code = u16::from_le_bytes([out[0], out[1]]);
    assert!(legal_codes(&Game::new()).contains(&code));
    assert_eq!(engine_move_board_response(&board[..10]), Err(RequestError::BadRequest));
    let mut over = Board::new();
    over.set_game_over(true, true, false);
    assert_eq!(engine_move_board_response(&over.to_binary()), Err(RequestError::NoMove));
}

#[test]
fn engine_answers_after_a_move_list() {
    let out = engine_move_game_response(&[0xC5, 0x21]).unwrap();
    let code = u16::from_le_bytes([out[0], out[1]]);
    let mut game = Game::new();
    game.apply_move(Move::from_u16(0x21C5)).unwrap();
    assert!(legal_codes(&game).contains(&code));
    assert_eq!(engine_move_game_response(&[1]), Err(RequestError::BadRequest));
}

#[test]
fn positions_parse_from_column_and_rank() {
    assert_eq!(parse_position("B4"), Ok(Position { x: 1, y: 5 }));
    assert_eq!(parse_position("A1"), Ok(Position { x: 0, y: 8 }));
    assert_eq!(parse_position("I9"), Ok(Position { x: 8, y: 0 }));
    assert_eq!(parse_position("b4"), Ok(Position { x: 33, y: 5 }));
    assert_eq!(parse_position("Z1"), Err("Invalid column. Use letters A-I.".to_string()));
    assert_eq!(parse_position("A0"), Err("Invalid row. Use numbers 1-9.".to_string()));
    assert_eq!(parse_position("A10"), Err("Invalid position format. Use e.g. 'B4'.".to_string()));
}

#[test]
fn saved_game_resumes() {
    assert_eq!(create_game(None).unwrap().board, Board::new());
    assert_eq!(create_game(Some("")).unwrap().board, Board::new());
    assert!(create_game(Some("not base64!")).is_err());
    assert_eq!(
        create_game(Some("AAAA")).err().unwrap(),
        "Invalid data length: expected 82 bytes, got 3"
    );
    let mut game = Game::new();
    game.apply_move(Move::from_u16(0x21C5)).unwrap();
    let text = get_board_hash(&game);
    let resumed = create_game(Some(&text)).unwrap();
    assert_eq!(resumed.board, game.board);
}
