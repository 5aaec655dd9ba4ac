use dynamic_tournament::bracket::{EntrantScore, EntrantSpot, Node};
use dynamic_tournament::display::{placeholder_text, team_classes, team_label, LabelText, TeamLabel};
use dynamic_tournament::movable::{saturating_sub_i32, MovableBoxed, Coordinates, Message};
use dynamic_tournament::api::SystemId;
use dynamic_tournament::systems::{get_system, list_systems};

#[test]
fn box_moves_by_pointer_distance() {
    let mut b = MovableBoxed::create();
    assert_eq!(b.scale, 100);
    assert!(b.update(Message::MouseDown(Coordinates { x: 10, y: 20 })));
    assert!(b.is_moving);
    b.update(Message::Move(Coordinates { x: 15, y: 12 }));
    assert_eq!(b.translate, Coordinates { x: 5, y: -8 });
    assert_eq!(b.last_move, Coordinates { x: 15, y: 12 });
    b.update(Message::MouseUp);
    assert!(!b.is_moving);
    b.update(Message::ZoomIn(5));
    assert_eq!(b.scale, 105);
    b.update(Message::ZoomOut(200));
    assert_eq!(b.scale, 0);
    b.update(Message::ZoomIn(u32::MAX));
    b.update(Message::ZoomIn(1));
    assert_eq!(b.scale, u32::MAX);
    b.update(Message::ToggleLock);
    assert!(b.is_locked);
    b.update(Message::MouseDown(Coordinates { x: 0, y: 0 }));
    b.update(Message::Move(Coordinates { x: 3, y: 4 }));
    assert!(b.changed());
    assert_eq!(b.translate, Coordinates { x: 0, y: 0 });
    assert_eq!(b.scale, 100);
    assert!(b.is_locked);
}

#[test]
fn box_offset_saturates() {
    assert_eq!(saturating_sub_i32(i32::MIN, 1), i32::MIN);
    assert_eq!(saturating_sub_i32(i32::MAX, -1), i32::MAX);
    assert_eq!(saturating_sub_i32(3, 5), -2);
    let mut b = MovableBoxed::create();
    b.update(Message::MouseDown(Coordinates { x: i32::MAX, y: 0 }));
    b.update(Message::Move(Coordinates { x: i32::MIN, y: 0 }));
    assert_eq!(b.translate.x, -i32::MAX);
}

#[test]
fn systems_by_id() {
    let all = list_systems();
    assert_eq!(all.len(), 2);
    assert_eq!(all[0].name, "Single Elimination");
    assert_eq!(all[1].id, SystemId(2));
    assert_eq!(get_system(SystemId(1)).unwrap().name, "Single Elimination");
    assert_eq!(get_system(SystemId(2)).unwrap().name, "Double Elimination");
    assert!(get_system(SystemId(3)).is_none());
    assert!(get_system(SystemId(0)).is_none());
}

#[test]
fn team_labels() {
    let spot = EntrantSpot::Entrant(Node { index: 4, data: EntrantScore { score: 7, winner: true } });
    assert_eq!(team_label(&spot), TeamLabel { text: LabelText::Entrant(4), score: 7, winner: true });
    assert_eq!(team_label(&EntrantSpot::Empty), TeamLabel { text: LabelText::Bye, score: 0, winner: false });
    assert_eq!(team_label(&EntrantSpot::TBD), TeamLabel { text: LabelText::Tbd, score: 0, winner: false });
    assert_eq!(placeholder_text(LabelText::Bye), Some("BYE"));
    assert_eq!(placeholder_text(LabelText::Tbd), Some("TBD"));
    assert_eq!(placeholder_text(LabelText::Entrant(0)), None);
    assert_eq!(team_classes(true), "team winner");
    assert_eq!(team_classes(false), "team");
}
