use roggy::protocol::delta::{UpdateNet, WorldDelta, WorldDeltaBuilder};
use roggy::protocol::framing::{decode_frame, decode_frame_header, encode_frame, FrameError};
use roggy::protocol::messages::{InputCmd, MAX_MESSAGE_SIZE};
use roggy::protocol::quantization::Vec2i16;
use roggy::protocol::snapshots::{EntityKind, SpawnNet};
use roggy::use_legacy_networking;

#[test]
fn test_input_cmd_buttons() {
    let mut input = InputCmd::default();

    assert!(!input.is_pressed(InputCmd::BTN_PUSHBACK));

    input.set_button(InputCmd::BTN_PUSHBACK, true);
    assert!(input.is_pressed(InputCmd::BTN_PUSHBACK));

    input.set_button(InputCmd::BTN_SKILL1, true);
    assert!(input.is_pressed(InputCmd::BTN_PUSHBACK));
    assert!(input.is_pressed(InputCmd::BTN_SKILL1));

    input.set_button(InputCmd::BTN_PUSHBACK, false);
    assert!(!input.is_pressed(InputCmd::BTN_PUSHBACK));
    assert!(input.is_pressed(InputCmd::BTN_SKILL1));
}

#[test]
fn set_button_leaves_other_bits() {
    let mut input = InputCmd::default();
    input.buttons = 0b1010_1010;
    input.set_button(InputCmd::BTN_PUSHBACK, true);
    assert_eq!(input.buttons, 0b1010_1011);
    input.set_button(InputCmd::BTN_INTERACT, false);
    assert_eq!(input.buttons, 0b1010_1001);
    assert!(input.is_pressed(InputCmd::BTN_SKILL2));
    assert!(!input.is_pressed(InputCmd::BTN_SKILL1));
    assert!(input.is_pressed(InputCmd::BTN_SKILL4));
}

#[test]
fn test_update_net_flags() {
    let update = UpdateNet::new(123)
        .with_pos(Vec2i16::new(100, 200))
        .with_hp(50);

    assert!(update.has_pos());
    assert!(!update.has_vel());
    assert!(update.has_hp());
    assert!(update.has_updates());
    assert_eq!(update.id, 123);
    assert_eq!(update.pos.unwrap().x, 100);
    assert_eq!(update.hp.unwrap(), 50);
}

#[test]
fn update_flags_are_the_field_bits() {
    let update = UpdateNet::new(7).with_vel(Vec2i16::new(-3, 4));
    assert_eq!(update.flags, UpdateNet::FLAG_VEL);
    let update = update.with_pos(Vec2i16::new(1, 1)).with_hp(9);
    assert_eq!(update.flags, UpdateNet::FLAG_POS | UpdateNet::FLAG_VEL | UpdateNet::FLAG_HP);
    assert_eq!(update.vel, Some(Vec2i16::new(-3, 4)));
}

#[test]
fn test_empty_update() {
    let update = UpdateNet::new(123);
    assert!(!update.has_updates());
}

#[test]
fn test_world_delta_builder() {
    let delta = WorldDeltaBuilder::new()
        .spawn(SpawnNet {
            id: 1,
            kind: EntityKind::Projectile,
            pos: Vec2i16::zero(),
            vel: Vec2i16::zero(),
            hp: None,
            hp_max: None,
        })
        .update(UpdateNet::new(2).with_pos(Vec2i16::new(10, 20)))
        .despawn(3)
        .build();

    assert_eq!(delta.spawns.len(), 1);
    assert_eq!(delta.updates.len(), 1);
    assert_eq!(delta.despawns.len(), 1);
    assert!(!delta.is_empty());
    assert_eq!(delta.total_changes(), 3);
}

#[test]
fn builder_drops_empty_updates() {
    let delta = WorldDeltaBuilder::new().update(UpdateNet::new(5)).build();
    assert!(delta.is_empty());
    assert_eq!(delta.total_changes(), 0);
}

#[test]
fn world_delta_accumulates_in_order() {
    let mut delta = WorldDelta::new();
    assert!(delta.is_empty());
    delta.add_despawn(4);
    delta.add_despawn(9);
    delta.add_update(UpdateNet::new(1).with_hp(3));
    assert_eq!(delta.despawns, vec![4, 9]);
    assert_eq!(delta.updates.len(), 1);
    assert_eq!(delta.total_changes(), 3);
}

#[test]
fn frame_roundtrip() {
    let payload = vec![1u8, 2, 3, 250];
    let frame = encode_frame(&payload).unwrap();
    assert_eq!(frame, vec![4u8, 0, 0, 0, 1, 2, 3, 250]);
    let (body, used) = decode_frame(&frame).unwrap();
    assert_eq!(body, payload);
    assert_eq!(used, 8);
}

#[test]
fn frame_header_is_little_endian() {
    assert_eq!(decode_frame_header([0x10, 0x01, 0, 0]), Ok(0x110));
    assert_eq!(decode_frame_header([0, 0, 1, 0]), Ok(MAX_MESSAGE_SIZE));
    assert_eq!(decode_frame_header([1, 0, 1, 0]), Err(FrameError::MessageTooLarge(65537)));
}

#[test]
fn frame_too_large_is_refused() {
    let payload = vec![0u8; MAX_MESSAGE_SIZE + 1];
    assert_eq!(encode_frame(&payload), Err(FrameError::MessageTooLarge(MAX_MESSAGE_SIZE + 1)));
    let payload = vec![7u8; MAX_MESSAGE_SIZE];
    let frame = encode_frame(&payload).unwrap();
    assert_eq!(frame.len(), MAX_MESSAGE_SIZE + 4);
}

#[test]
fn frame_incomplete_input() {
    assert_eq!(decode_frame(&[3, 0, 0]), Err(FrameError::Incomplete));
    assert_eq!(decode_frame(&[3, 0, 0, 0, 1, 2]), Err(FrameError::Incomplete));
    let (body, used) = decode_frame(&[2, 0, 0, 0, 9, 8, 7]).unwrap();
    assert_eq!(body, vec![9, 8]);
    assert_eq!(used, 6);
}

#[test]
fn test_use_legacy_flag() {
    assert!(!use_legacy_networking());
}
