use std::fmt::Debug;

use enigma_3d::formatting::{smart_format, FormatArg};
use uuid::Uuid;

fn arg<T: Debug>(value: &T) -> FormatArg {
    FormatArg { debug: format!("{:?}", value), pretty: format!("{:#?}", value) }
}

#[test]
fn test_smart_format() {
    let id = Uuid::new_v4();
    let num = 42;
    let formatted = smart_format("ID: {}, Number: {}", &vec![arg(&id), arg(&num)]);
    assert!(formatted.starts_with("ID: "));
    assert!(formatted.contains("Number: 42"));

    let text = "Hello";
    let formatted = smart_format("{}, world!", &vec![arg(&text)]);
    assert_eq!(formatted, "\"Hello\", world!");

    let vec = vec![Uuid::new_v4(), Uuid::new_v4()];
    let formatted = smart_format("UUIDs: {:?}", &vec![arg(&vec)]);
    assert!(formatted.starts_with("UUIDs: ["));

    let formatted = smart_format("No arguments", &vec![]);
    assert_eq!(formatted, "No arguments");
}

#[test]
fn format_specifications() {
    let v = vec![1, 2];
    // pretty debug
    assert_eq!(smart_format("v={:#?}", &vec![arg(&v)]), format!("v={:#?}", v));
    // blanks around the specification are ignored
    assert_eq!(smart_format("[{ :? }]", &vec![arg(&7)]), "[7]");
    assert_eq!(smart_format("[{  }]", &vec![arg(&"a")]), "[\"a\"]");
    // an unknown specification is written as it stands
    assert_eq!(smart_format("n={:>5}!", &vec![arg(&3)]), "n=:>5!");
}

#[test]
fn format_argument_count() {
    // more braces than arguments: the rest stays as written
    assert_eq!(smart_format("{} and {} and {}", &vec![arg(&1)]), "1 and {} and {}");
    // more arguments than braces: the extra ones are not used
    assert_eq!(smart_format("just {}", &vec![arg(&1), arg(&2)]), "just 1");
    // a brace without a closing one keeps its text
    assert_eq!(smart_format("open { here", &vec![arg(&1)]), "open { here");
    // no arguments: the text as written
    assert_eq!(smart_format("a {b} {", &vec![]), "a {b} {");
}
