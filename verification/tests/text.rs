use roguelike::text::{append_decimal, decimal, join2, join3};

#[test]
fn decimal_writes_integers_as_format_does() {
    for n in [0, 1, 9, 10, 11, 99, 100, 101, 350, 1000, 65535, i32::MAX, -1, -9, -10, -350, i32::MIN] {
        assert_eq!(decimal(n), format!("{}", n));
    }
}

#[test]
fn append_decimal_keeps_what_was_there() {
    let mut text = String::from("hp: ");
    append_decimal(&mut text, -42);
    append_decimal(&mut text, 7);
    assert_eq!(text, "hp: -427");
}

#[test]
fn join_concatenates() {
    assert_eq!(join2("You picked up ", "sword"), "You picked up sword");
    assert_eq!(join3("the ", "orc", " is no longer confused"), "the orc is no longer confused");
    assert_eq!(join3("", "", ""), "");
}

#[test]
fn the_log_keeps_its_entries_in_order() {
    let mut log = roguelike::messages::Messages::new();
    assert_eq!(log.len(), 0);
    log.add("one", roguelike::color::white());
    log.add("two", roguelike::color::red());
    assert_eq!(log.len(), 2);
    let texts: Vec<&str> = log.iter().map(|entry| entry.0.as_str()).collect();
    assert_eq!(texts, vec!["one", "two"]);
    let newest_first: Vec<&str> = log.iter().rev().map(|entry| entry.0.as_str()).collect();
    assert_eq!(newest_first, vec!["two", "one"]);
    assert_eq!(log.entries()[1], ("two".to_string(), roguelike::color::red()));
}
