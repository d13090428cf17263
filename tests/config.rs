use wonfy_tools::params::{CheckDirection, MatchMode, Order, Position};
use wonfy_tools::raster::Raster;

#[test]
fn direction_tokens() {
    for t in ["v", "V", "Vertical", "vertical"] {
        assert_eq!(CheckDirection::from_str(t).unwrap(), CheckDirection::Vertical);
    }
    for t in ["h", "H", "Horizontal", "horizontal"] {
        assert_eq!(CheckDirection::from_str(t).unwrap(), CheckDirection::Horizontal);
    }
    for t in ["s", "S", "Sideways", "sideways"] {
        assert_eq!(CheckDirection::from_str(t).unwrap(), CheckDirection::Sideways);
    }
    let err = CheckDirection::from_str("VERTICAL").unwrap_err();
    assert_eq!(err.name, "CheckDirection");
    assert_eq!(err.value, "VERTICAL");
    assert_eq!(err.expected.len(), 3);
    assert_eq!(err.expected[1].0, vec!["h", "H", "Horizontal", "horizontal"]);
    assert_eq!(err.expected[2].1, "Sideways");
}

#[test]
fn order_and_mode_tokens() {
    assert_eq!(Order::from_str("o").unwrap(), Order::Ordered);
    assert_eq!(Order::from_str("unordered").unwrap(), Order::Unordered);
    assert_eq!(MatchMode::from_str("N").unwrap(), MatchMode::Normal);
    assert_eq!(MatchMode::from_str("edges").unwrap(), MatchMode::Edges);
    let err = Order::from_str("x").unwrap_err();
    assert_eq!(err.name, "Order");
    assert_eq!(err.expected[0].1, "Ordered");
    let err = MatchMode::from_str("").unwrap_err();
    assert_eq!(err.name, "MatchMode");
    assert_eq!(err.expected[1].0, vec!["e", "E", "Edges", "edges"]);
}

#[test]
fn position_arithmetic() {
    let p = Position { x: 3, y: -4 };
    assert_eq!(p.add(Position { x: 1, y: 1 }), Position { x: 4, y: -3 });
    let mut q = p;
    q.add_assign(Position { x: -3, y: 4 });
    assert_eq!(q, Position { x: 0, y: 0 });
    assert_eq!(Position { x: i32::MAX, y: 0 }.checked_add(Position { x: 1, y: 0 }), None);
}

#[test]
fn raster_construction() {
    assert!(Raster::from_raw(2, 2, vec![[0, 0, 0, 0]; 3]).is_none());
    let r = Raster::new(2, 3);
    assert_eq!(r.get_pixel(1, 2), [0, 0, 0, 0]);
    let mut r = Raster::from_raw(2, 1, vec![[1, 2, 3, 4], [5, 6, 7, 8]]).unwrap();
    r.put_pixel(1, 0, [9, 9, 9, 9]);
    assert_eq!(r.into_raw(), vec![[1, 2, 3, 4], [9, 9, 9, 9]]);
}

#[test]
fn tokens_through_parse() {
    assert_eq!("sideways".parse::<CheckDirection>().unwrap(), CheckDirection::Sideways);
    assert_eq!("U".parse::<Order>().unwrap(), Order::Unordered);
    assert_eq!("e".parse::<MatchMode>().unwrap(), MatchMode::Edges);
    assert!("diagonal".parse::<CheckDirection>().is_err());
}

#[test]
fn unknown_value_message() {
    let err = Order::from_str("sideways").unwrap_err();
    assert_eq!(
        err.message(),
        "Unknown Order variant sideways. \nexpected: \n- o | O | Ordered | ordered => Ordered.\n- u | U | Unordered | unordered => Unordered."
    );
}

#[test]
fn missing_field_message() {
    let err = wonfy_tools::error::MissingFieldError("window_size".to_string());
    assert_eq!(err.message(), "Did not set the field \"window_size\" when building");
}
