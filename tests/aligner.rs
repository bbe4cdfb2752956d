use veryl_front::aligner::{Align, Aligner};
use veryl_front::location::Location;
use veryl_front::location_map::LocationMap;

fn item(a: &mut Align, line: u32, width: u32) -> Location {
    let l = Location::new(line, 1, width);
    a.start_item();
    a.token(l);
    a.finish_item();
    l
}

#[test]
fn group_pads_to_widest() {
    let mut a = Align::new();
    let l1 = item(&mut a, 1, 3);
    let l2 = item(&mut a, 2, 7);
    let l3 = item(&mut a, 3, 5);
    assert_eq!(a.max_width, 7);
    a.finish_group();
    assert_eq!(a.additions.get(l1), Some(4));
    assert_eq!(a.additions.get(l2), Some(0));
    assert_eq!(a.additions.get(l3), Some(2));
    assert_eq!(a.max_width, 0);
    assert!(a.rest.is_empty());
    assert_eq!(a.index, 3);
}

#[test]
fn blank_line_starts_new_group() {
    let mut a = Align::new();
    let l1 = item(&mut a, 1, 3);
    let l2 = item(&mut a, 2, 6);
    let l3 = item(&mut a, 4, 1);
    assert_eq!(a.additions.get(l1), Some(3));
    assert_eq!(a.additions.get(l2), Some(0));
    assert_eq!(a.additions.get(l3), None);
    assert_eq!(a.rest.len(), 1);
}

#[test]
fn auto_finish_disabled_keeps_group() {
    let mut a = Align::new();
    a.disable_auto_finish = true;
    item(&mut a, 1, 3);
    item(&mut a, 9, 6);
    assert_eq!(a.rest.len(), 2);
    assert_eq!(a.additions.len(), 0);
}

#[test]
fn disabled_align_ignores_tokens() {
    let mut a = Align::new();
    a.token(Location::new(1, 1, 4));
    a.space(3);
    assert_eq!(a.width, 0);
    assert_eq!(a.last_location, None);
    a.start_item();
    a.space(3);
    a.dummy_location(Location::new(5, 2, 9));
    a.duplicated_token(Location::new(5, 3, 2), 7);
    assert_eq!(a.width, 5);
    assert_eq!(a.last_location.unwrap().duplicated, Some(7));
    a.finish_item();
    assert!(!a.enable);
    assert_eq!(a.rest[0].1, 5);
}

#[test]
fn aligner_gathers_all_columns() {
    let mut al = Aligner::new();
    assert_eq!(al.aligns.len(), 10);
    assert!(!al.any_enabled());
    let l = Location::new(1, 1, 2);
    al.aligns[0].additions.insert(l, 2);
    al.aligns[3].additions.insert(l, 5);
    al.aligns[4].additions.insert(Location::new(2, 1, 1), 1);
    al.gather_additions();
    assert_eq!(al.additions.get(l), Some(7));
    assert_eq!(al.additions.get(Location::new(2, 1, 1)), Some(1));
    assert_eq!(al.additions.len(), 2);
}

#[test]
fn aligner_broadcasts() {
    let mut al = Aligner::new();
    al.aligns[2].start_item();
    assert!(al.any_enabled());
    al.token(Location::new(1, 1, 4));
    al.space(2);
    assert_eq!(al.aligns[2].width, 6);
    assert_eq!(al.aligns[1].width, 0);
    al.duplicated_token(Location::new(1, 7, 1), 3);
    assert_eq!(al.aligns[2].last_location, Some(Location::new(1, 7, 1).with_duplicated(3)));
    al.finish_item();
    assert!(!al.any_enabled());
    al.finish_group();
    assert_eq!(al.aligns[2].additions.get(Location::new(1, 7, 1).with_duplicated(3)), Some(0));
    al.disable_auto_finish();
    assert!(al.aligns.iter().all(|a| a.disable_auto_finish));
    al.enable_auto_finish();
    assert!(al.aligns.iter().all(|a| !a.disable_auto_finish));
}

#[test]
fn location_map_replaces() {
    let mut m = LocationMap::new();
    let l = Location::new(3, 4, 5);
    m.insert(l, 1);
    m.insert(l, 9);
    assert_eq!(m.len(), 1);
    assert_eq!(m.get(l), Some(9));
    assert_eq!(m.get(Location::new(3, 4, 5).with_duplicated(0)), None);
}

#[test]
fn measure_nested_spans() {
    let mut m = veryl_front::aligner::Measure::new();
    m.start();
    m.add(3);
    m.start();
    m.add(2);
    m.finish(7);
    m.add(1);
    m.finish(8);
    assert_eq!(m.get(7), Some(2));
    assert_eq!(m.get(8), Some(6));
    assert_eq!(m.get(9), None);
    assert!(m.widths.is_empty());
}
