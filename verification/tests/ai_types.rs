use robokit::ai_types::{DummyAi, Id, Intent, Robot, RobotSelector, Team};

#[test]
fn robot_from_u8_roundtrips() {
    for n in 0u8..16 {
        let robot = Robot::from_u8(n).unwrap();
        assert_eq!(robot.index(), n);
    }
    assert_eq!(Robot::from_u8(0), Some(Robot::R0));
    assert_eq!(Robot::from_u8(15), Some(Robot::R15));
    assert_eq!(Robot::from_u8(16), None);
    assert_eq!(Robot::from_u8(255), None);
    assert_eq!(Robot::default(), Robot::R0);
}

#[test]
fn selector_constructors() {
    let none = RobotSelector::none();
    assert_eq!((none.own, none.opp), (0, 0));
    let own = RobotSelector::all_own();
    assert_eq!((own.own, own.opp), (0xffff, 0));
    let opp = RobotSelector::all_opp();
    assert_eq!((opp.own, opp.opp), (0, 0xffff));
    let all = RobotSelector::all();
    assert_eq!((all.own, all.opp), (0xffff, 0xffff));
    let new = RobotSelector::new(3, 4);
    assert_eq!((new.own, new.opp), (3, 4));
}

#[test]
fn selector_set_bits() {
    let s = RobotSelector::none().set_own(3).set_own(0).set_opp(15);
    assert_eq!((s.own, s.opp), (0b1001, 0x8000));
    let again = s.set_own(3);
    assert_eq!(again.own, 0b1001);
}

#[test]
fn selector_ignore_single_robot() {
    let s = RobotSelector::ignore_own(Robot::R5);
    assert_eq!((s.own, s.opp), (1 << 5, 0));
    let s = RobotSelector::ignore_opp(Robot::R15);
    assert_eq!((s.own, s.opp), (0, 1 << 15));
}

#[test]
fn selector_from_set() {
    let s = RobotSelector::from_set(&[Robot::R0, Robot::R2, Robot::R2], &[Robot::R15]);
    assert_eq!((s.own, s.opp), (0b101, 0x8000));
    let empty = RobotSelector::from_set(&[], &[]);
    assert_eq!((empty.own, empty.opp), (0, 0));
}

#[test]
fn selector_debug_text() {
    let s = RobotSelector::new(5, 0x8001);
    assert_eq!(
        s.to_debug_string(),
        "RobotSelector { own: 0000000000000101, opp: 1000000000000001 }"
    );
}

#[test]
fn ids_from_counter() {
    let (id, next) = Id::next_id(5);
    assert_eq!(id.get(), 5);
    assert_eq!(*id, 5);
    assert_eq!(next, 6);
    let (last, wrapped) = Id::next_id(u32::MAX);
    assert_eq!(last.get(), u32::MAX);
    assert_eq!(wrapped, 0);
    assert_eq!(Id::zero().get(), 0);
}

#[test]
fn simple_enums() {
    assert_ne!(Team::Own, Team::Opp);
    assert!(matches!(Intent::default(), Intent::Unknown));
    assert!(matches!(Intent::PassTo(Robot::R3), Intent::PassTo(Robot::R3)));
    let _ai = DummyAi::default();
}
