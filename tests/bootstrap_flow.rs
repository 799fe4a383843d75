use edrferd::data_struct::{Block, BlockInfo, BlockPoint, PubKey};
use edrferd::key::Identity;
use edrferd::maintain::{MaintainBlock, MaintainRegistry};
use edrferd::message::{Action, Bootstrap, InitBroadcast, InitResponed, NetworkMessage};
use edrferd::params::{BlockWithTime, RemoveBlockParams, SetBlockParams};
use edrferd::world::{BlockWithPubKey, World};

#[test]
fn bootstrap_first_answer_only() {
    let j = Identity::from_seed([20u8; 32]);
    let e = Identity::from_seed([21u8; 32]);
    let mut joiner = Bootstrap::new();
    assert!(joiner.wait_pong);

    // The joiner hears its own announcement and stays silent.
    let own = InitBroadcast::new(false, 1415, j.verifying_key());
    let act = joiner.process_pack(NetworkMessage::Init(own), &j.verifying_key(), 1415, 0);
    assert!(matches!(act, Action::Ignore));

    // Another node hears it and answers.
    let mut responder = Bootstrap::new();
    let act = responder.process_pack(NetworkMessage::Init(own), &e.verifying_key(), 1415, 0);
    let answer = match act {
        Action::Reply(r) => r,
        _ => panic!("expected a reply"),
    };
    assert_eq!(answer, InitResponed { host_port: 1415, listen_only: false });

    // The first answer starts the download.
    let act = joiner.process_pack(NetworkMessage::Response(answer), &j.verifying_key(), 1415, 0);
    assert!(matches!(act, Action::FetchWorld(1415)));
    assert!(!joiner.wait_pong);

    let mut world = World::new();
    world.replace_with_block_with_pub_key(vec![BlockWithPubKey::new(
        Block::new(BlockPoint::new(1, 2, 3), BlockInfo::new("t1".to_string())),
        e.verifying_key(),
    )]);
    assert_eq!(world.get_block(&BlockPoint::new(1, 2, 3)).unwrap().block_info.type_id, "t1");

    // A second answer is ignored.
    let act = joiner.process_pack(NetworkMessage::Response(answer), &j.verifying_key(), 1415, 0);
    assert!(matches!(act, Action::Ignore));
    assert!(!joiner.wait_pong);
}

#[test]
fn replace_all_later_cell_wins() {
    let key = PubKey { bytes: [1u8; 32] };
    let mut world = World::new();
    world.set_block(BlockPoint::new(0, 0, 0), BlockInfo::new("gone".to_string()), key);
    world.replace_with_block_with_pub_key(vec![
        BlockWithPubKey::new(Block::new(BlockPoint::new(4, 4, 4), BlockInfo::new("a".to_string())), key),
        BlockWithPubKey::new(Block::new(BlockPoint::new(4, 4, 4), BlockInfo::new("b".to_string())), key),
    ]);
    assert!(world.get_block(&BlockPoint::new(0, 0, 0)).is_none());
    assert_eq!(world.get_block(&BlockPoint::new(4, 4, 4)).unwrap().block_info.type_id, "b");
    assert_eq!(world.as_block_with_pub_key().len(), 1);
}

#[test]
fn registry_add_and_remove() {
    let mut registry = MaintainRegistry::new();
    let params = SetBlockParams {
        duration: 3,
        x: 1,
        y: -2,
        z: 3,
        info: BlockInfo::new("stone".to_string()),
    };
    let (point, mb) = params.into_maintenance();
    assert_eq!(point, BlockPoint::new(1, -2, 3));
    registry.add_new_maintain_block(point, mb);
    assert_eq!(registry.get(&point).unwrap().duration, 3);
    registry.add_new_maintain_block(point, MaintainBlock::new(7, BlockInfo::new("dirt".to_string())));
    assert_eq!(registry.get(&point).unwrap().info.type_id, "dirt");
    let remove = RemoveBlockParams { x: 1, y: -2, z: 3 };
    registry.remove_maintain_block(remove.point());
    assert!(registry.get(&point).is_none());
}

#[test]
fn debug_request_point() {
    let req = BlockWithTime { block: [4, 5, 6], cost: 20 };
    assert_eq!(req.point(), BlockPoint::new(4, 5, 6));
}

#[test]
fn public_key_derivation_matches_dalek() {
    let id = Identity::from_seed([9u8; 32]);
    let expected = ed25519_dalek::SigningKey::from_bytes(&[9u8; 32]).verifying_key().to_bytes();
    assert_eq!(id.verifying_key().bytes, expected);
    assert_ne!(id.verifying_key().bytes, [9u8; 32]);
}

#[test]
fn maintenance_pass_one_chunk_per_entry() {
    let key = Identity::from_seed([22u8; 32]);
    let mut registry = MaintainRegistry::new();
    assert!(registry.mine_maintained(&key, &"s".to_string()).is_empty());
    registry.add_new_maintain_block(BlockPoint::new(1, 1, 1), MaintainBlock::new(0, BlockInfo::new("a".to_string())));
    registry.add_new_maintain_block(BlockPoint::new(2, 2, 2), MaintainBlock::new(2, BlockInfo::new("b".to_string())));
    let chunks = registry.mine_maintained(&key, &"s".to_string());
    assert_eq!(chunks.len(), 2);
    for c in &chunks {
        assert!(c.verify_pow() && c.verify_sign());
        let expected = if c.data.explanation.point == BlockPoint::new(1, 1, 1) { "a" } else { "b" };
        assert_eq!(c.data.explanation.block_info.type_id, expected);
    }
    assert_ne!(chunks[0].data.explanation.point, chunks[1].data.explanation.point);
}
