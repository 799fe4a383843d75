use edrferd::chunk::{Chunk, ChunkData};
use edrferd::data_struct::{Block, BlockInfo, BlockPoint, Signature};
use edrferd::hash::Hash256;
use edrferd::key::Identity;
use edrferd::maintain::{MaintainBlock, MaintainRegistry};
use edrferd::mining::mine_to_target;
use edrferd::receive::{accept_chunk, process_chuck, ChunkWithTime};
use edrferd::tick::TickClock;
use edrferd::work::{accumulate, run_tick, work};
use edrferd::world::World;

fn block(x: i64, y: i64, z: i64, ty: &str) -> Block {
    Block::new(BlockPoint::new(x, y, z), BlockInfo::new(ty.to_string()))
}

fn pow_ending(n: u8) -> Hash256 {
    let mut bytes = [0u8; 32];
    bytes[31] = n;
    Hash256 { bytes }
}

fn pow_leading(n: u8) -> Hash256 {
    let mut bytes = [0u8; 32];
    bytes[0] = n;
    Hash256 { bytes }
}

/// A chunk with a chosen proof of work, as the aggregator sees it.
fn raw(key: &Identity, b: Block, pow: Hash256, time: i64) -> ChunkWithTime {
    let data = ChunkData::new(pow, b, String::new(), 0, key.verifying_key(), time);
    ChunkWithTime::at(Chunk::new_from_raw(data, pow, Signature { bytes: [0u8; 64] }), time)
}

#[test]
fn single_proposer_single_position() {
    let a = Identity::from_seed([10u8; 32]);
    let target = Hash256 { bytes: [0xff; 32] };
    let c = mine_to_target(&a, &block(1, 2, 3, "t1"), &target, &"salt".to_string()).0.unwrap();
    assert_eq!(c.data.nonce, 0);
    assert_eq!(c.data.explanation.point, BlockPoint::new(1, 2, 3));
    assert_eq!(c.data.pub_key.bytes, a.verifying_key().bytes);
    let arrived = process_chuck(c).unwrap();
    let mut world = World::new();
    let mut clock = TickClock::new(arrived.time);
    let next = clock.current_tick + 50;
    let updates = run_tick(&mut world, &mut clock, vec![arrived], next);
    assert_eq!(updates.len(), 1);
    let e = world.get_block(&BlockPoint::new(1, 2, 3)).unwrap();
    assert_eq!(e.block_info.type_id, "t1");
    assert_eq!(e.pub_key.bytes, a.verifying_key().bytes);
    let snapshot = world.as_block_with_pub_key();
    assert_eq!(snapshot.len(), 1);
    assert_eq!(snapshot[0].block.point, BlockPoint::new(1, 2, 3));
}

#[test]
fn two_competing_proposers() {
    let a = Identity::from_seed([11u8; 32]);
    let b = Identity::from_seed([12u8; 32]);
    let p = BlockPoint::new(5, 5, 5);
    let buffer = vec![
        raw(&a, block(5, 5, 5, "t1"), pow_leading(0x01), 100),
        raw(&b, block(5, 5, 5, "t2"), pow_leading(0xfe), 100),
    ];
    let mut world = World::new();
    work(&mut world, buffer, 100);
    let e = world.get_block(&p).unwrap();
    assert_eq!(e.block_info.type_id, "t2");
    assert_eq!(e.pub_key.bytes, b.verifying_key().bytes);
}

#[test]
fn ties_go_to_the_smaller_key() {
    let a = Identity::from_seed([11u8; 32]);
    let p = BlockPoint::new(0, 0, 1);
    let buffer = vec![
        raw(&a, block(0, 0, 1, "tb"), pow_ending(7), 100),
        raw(&a, block(0, 0, 1, "ta"), pow_ending(7), 100),
    ];
    let mut world = World::new();
    work(&mut world, buffer, 100);
    assert_eq!(world.get_block(&p).unwrap().block_info.type_id, "ta");
}

#[test]
fn reassertion_convergence() {
    let a = Identity::from_seed([13u8; 32]);
    let p = BlockPoint::new(7, 8, 9);
    let mut registry = MaintainRegistry::new();
    registry.add_new_maintain_block(p, MaintainBlock::new(10, BlockInfo::new("t1".to_string())));
    let mut world = World::new();
    let mut clock = TickClock::new(0);
    let mut buffer: Vec<ChunkWithTime> = Vec::new();
    for tick in 1..=5i64 {
        let now = tick * 1000;
        run_tick(&mut world, &mut clock, buffer, now);
        if tick > 1 {
            let e = world.get_block(&p).unwrap();
            assert_eq!(e.block_info.type_id, "t1");
            assert_eq!(world.as_block_with_pub_key().len(), 1);
        }
        buffer = Vec::new();
        for c in registry.mine_maintained(&a, &"salt".to_string()) {
            let ts = c.data.timestamp;
            buffer.push(accept_chunk(c, ts).unwrap());
        }
        assert_eq!(buffer.len(), 1);
        for e in buffer.iter_mut() {
            e.time = now + 1;
        }
    }
    run_tick(&mut world, &mut clock, buffer, 6000);
    assert_eq!(world.get_block(&p).unwrap().block_info.type_id, "t1");
}

#[test]
fn late_arrival_is_dropped() {
    let a = Identity::from_seed([14u8; 32]);
    let p = BlockPoint::new(1, 1, 1);
    let mut world = World::new();
    let mut clock = TickClock::new(1000);
    clock.advance(1050);
    let late = raw(&a, block(1, 1, 1, "t1"), pow_leading(0xff), 999);
    let updates = run_tick(&mut world, &mut clock, vec![late], 1100);
    assert!(updates.is_empty());
    assert!(world.get_block(&p).is_none());
    let on_time = raw(&a, block(1, 1, 1, "t1"), pow_leading(0xff), 1100);
    run_tick(&mut world, &mut clock, vec![on_time], 1150);
    assert_eq!(world.get_block(&p).unwrap().block_info.type_id, "t1");
}

#[test]
fn pow_summation() {
    let a = Identity::from_seed([15u8; 32]);
    let b = Identity::from_seed([16u8; 32]);
    let p = BlockPoint::new(2, 2, 2);
    let buffer = vec![
        raw(&a, block(2, 2, 2, "t1"), pow_ending(1), 10),
        raw(&a, block(2, 2, 2, "t1"), pow_ending(2), 10),
        raw(&a, block(2, 2, 2, "t1"), pow_ending(3), 10),
        raw(&b, block(2, 2, 2, "t2"), pow_ending(5), 10),
    ];
    let list = accumulate(&buffer, 10);
    assert_eq!(list.len(), 2);
    let mine = list.iter().find(|e| e.key.block_appearance.type_id == "t1").unwrap();
    assert_eq!(mine.pow.bytes, pow_ending(6).bytes);
    let mut world = World::new();
    work(&mut world, buffer, 10);
    let e = world.get_block(&p).unwrap();
    assert_eq!(e.block_info.type_id, "t1");
    assert_eq!(e.pub_key.bytes, a.verifying_key().bytes);
}

#[test]
fn unclaimed_cells_keep_their_entries() {
    let a = Identity::from_seed([17u8; 32]);
    let mut world = World::new();
    world.set_block(BlockPoint::new(9, 9, 9), BlockInfo::new("old".to_string()), a.verifying_key());
    work(&mut world, vec![raw(&a, block(1, 0, 0, "new"), pow_ending(1), 5)], 0);
    assert_eq!(world.get_block(&BlockPoint::new(9, 9, 9)).unwrap().block_info.type_id, "old");
    assert_eq!(world.get_block(&BlockPoint::new(1, 0, 0)).unwrap().block_info.type_id, "new");
    assert_eq!(world.as_block_with_pub_key().len(), 2);
}
