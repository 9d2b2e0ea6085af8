use multiplayer_fps::{ColliderT, ColliderTypes, GameState, Player};

#[test]
fn collider_tags() {
    assert_eq!(ColliderT::player().collider_type, ColliderTypes::Player);
    assert_eq!(ColliderT::wall().collider_type, ColliderTypes::Wall);
    assert_ne!(ColliderT::player(), ColliderT::wall());
}

#[test]
fn player_keeps_its_collider() {
    let p = Player::new(ColliderT { collider_type: ColliderTypes::Player });
    assert_eq!(p.collider(), ColliderT::player());
}

#[test]
fn game_state_default() {
    assert_eq!(GameState::default(), GameState);
}
