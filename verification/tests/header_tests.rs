use mime_header::header::MIMEHeader;
use mime_header::normalize::{is_valid_header_byte, normalize_header_key};

#[test]
pub fn lib_test_valid_header_byte() {
    let objects = vec![
        'a', 'b', '1', '2', 'r', 'z', 'g', '+', '-', '_', '^', '$', '3', '4', '1', '1', 'f',
        'A', 'Z', 'X',
    ];
    for i in objects.into_iter() {
        assert_eq!(is_valid_header_byte(&(i as u8)), true);
    }
}

#[test]
pub fn lib_test_invalid_header_byte() {
    let objects = vec!['@', '{', '}', ' ', '=', ']', '[', '(', ')'];
    for i in objects.into_iter() {
        assert_eq!(is_valid_header_byte(&(i as u8)), false);
    }
}

#[test]
pub fn lib_test_normalize_valid() {
    let objects = vec![
        ("a-b-c", "A-B-C"),
        ("a-1-c", "A-1-C"),
        ("User-Agent", "User-Agent"),
        ("uSER-aGENT", "User-Agent"),
        ("user-agent", "User-Agent"),
        ("USER-AGENT", "User-Agent"),
        ("foo-bar_baz", "Foo-Bar_baz"),
        ("foo-bar$baz", "Foo-Bar$baz"),
        ("foo-bar~baz", "Foo-Bar~baz"),
        ("foo-bar*baz", "Foo-Bar*baz"),
    ];

    for (header, result) in objects.into_iter() {
        let mut header = header.as_bytes().to_owned();
        assert_eq!(
            normalize_header_key(header.as_mut()),
            Some(result.to_string())
        );
    }
}

#[test]
pub fn lib_test_valid_not_normalized() {
    let objects = vec![
        ("a B", "a B"),
        ("U ser-A gent", "U ser-A gent"),
        ("Re ce ived", "Re ce ived"),
        ("C Ontent-Transfer-Encoding", "C Ontent-Transfer-Encoding"),
        ("foo bar", "foo bar"),
    ];

    for (header, result) in objects.into_iter() {
        let mut header = header.as_bytes().to_owned();
        assert_eq!(
            normalize_header_key(header.as_mut()),
            Some(result.to_string())
        );
    }
}

#[test]
pub fn lib_test_invalid_not_normalized() {
    let objects = vec![
        ("üser-agenT", "üser-agenT"),
        ("こんにちは", "こんにちは"),
        ("Здравствуйте", "Здравствуйте"),
        ("Dobrý den", "Dobrý den"),
        ("Olá", "Olá"),
    ];

    for (header, _) in objects.into_iter() {
        let mut header = header.as_bytes().to_owned();
        assert_eq!(normalize_header_key(header.as_mut()), None);
    }
}

#[test]
pub fn test_mime_header() {
    let mut header = MIMEHeader::new_from("Subject".to_string(), vec!["headerTest".to_string()]);
    assert_eq!(header.get("Subject".to_string()), Some("headerTest"));
    assert_eq!(header.get("User-Agent".to_string()), None);

    header.add("user-aGENt", "mozilla".to_string());
    header.add("Set-Cookie", "xxxx".to_string());
    assert_eq!(header.get("user-aGENT".to_string()), Some("mozilla"));
    assert_eq!(header.get("Set-Cookie".to_string()), Some("xxxx"));

    header.add("Randomheader", "x".to_string());
    assert_eq!(header.get("Randomheader".to_string()), Some("x"));

    header.add("USeR-AGent", "chrome".to_string());
    assert_eq!(
        header.get_all("User-Agent".to_string()),
        Some(&["mozilla".to_string(), "chrome".to_string()][..])
    );
}

fn text(s: &str) -> String {
    s.to_string()
}

#[test]
fn new_collection_holds_nothing() {
    let header = MIMEHeader::new();
    assert_eq!(header.get(text("Subject")), None);
    assert_eq!(header.get_all(text("Subject")), None);
    assert_eq!(header.get(text("")), None);
}

#[test]
fn added_value_is_found_under_any_spelling() {
    let mut header = MIMEHeader::new();
    header.add("Subject", text("headerTest"));
    assert_eq!(header.get(text("subject")), Some("headerTest"));
    assert_eq!(header.get(text("SUBJECT")), Some("headerTest"));
    assert_eq!(header.get(text("User-Agent")), None);
}

#[test]
fn added_values_keep_their_order() {
    let mut header = MIMEHeader::new();
    header.add("User-Agent", text("mozilla"));
    header.add("USeR-AGent", text("chrome"));
    assert_eq!(
        header.get_all(text("user-agent")),
        Some(&[text("mozilla"), text("chrome")][..])
    );
    assert_eq!(header.get(text("user-agent")), Some("mozilla"));

    header.add("user-agent", text("mozilla"));
    assert_eq!(
        header.get_all(text("User-Agent")),
        Some(&[text("mozilla"), text("chrome"), text("mozilla")][..])
    );
}

#[test]
fn set_replaces_what_was_there() {
    let mut header = MIMEHeader::new();
    header.set(text("X"), text("1"));
    header.set(text("x"), text("2"));
    assert_eq!(header.get_all(text("X")), Some(&[text("2")][..]));

    header.add("Accept", text("a"));
    header.add("Accept", text("b"));
    header.set(text("ACCEPT"), text("c"));
    assert_eq!(header.get_all(text("accept")), Some(&[text("c")][..]));
    assert_eq!(header.get_all(text("X")), Some(&[text("2")][..]));
}

#[test]
fn delete_hands_out_the_former_values() {
    let mut header = MIMEHeader::new();
    assert_eq!(header.delete(text("Subject")), None);

    header.add("Subject", text("one"));
    header.add("subject", text("two"));
    header.add("To", text("someone"));
    assert_eq!(header.delete(text("SUBJECT")), Some(vec![text("one"), text("two")]));
    assert_eq!(header.get(text("Subject")), None);
    assert_eq!(header.get_all(text("Subject")), None);
    assert_eq!(header.delete(text("Subject")), None);
    assert_eq!(header.get(text("to")), Some("someone"));
}

#[test]
fn deleted_header_can_be_added_again() {
    let mut header = MIMEHeader::new();
    header.add("Date", text("old"));
    assert_eq!(header.delete(text("date")), Some(vec![text("old")]));
    header.add("DATE", text("new"));
    assert_eq!(header.get_all(text("Date")), Some(&[text("new")][..]));
}

#[test]
fn seeded_collection_holds_the_values_in_order() {
    let header = MIMEHeader::new_from(text("received"), vec![text("a"), text("b"), text("a")]);
    assert_eq!(
        header.get_all(text("Received")),
        Some(&[text("a"), text("b"), text("a")][..])
    );
    assert_eq!(header.get(text("RECEIVED")), Some("a"));
}

#[test]
fn seeding_is_adding_each_value_in_turn() {
    let values = vec![text("x"), text("y"), text("z")];
    let seeded = MIMEHeader::new_from(text("Via"), values.clone());
    let mut added = MIMEHeader::new();
    for value in values {
        added.add("Via", value);
    }
    assert_eq!(seeded.get_all(text("via")), added.get_all(text("via")));
}

#[test]
fn seeding_without_values_stores_no_header() {
    let header = MIMEHeader::new_from(text("Subject"), Vec::new());
    assert_eq!(header.get(text("Subject")), None);
    assert_eq!(header.get_all(text("Subject")), None);
}

#[test]
fn key_with_a_space_is_stored_as_written() {
    let mut header = MIMEHeader::new();
    header.add("foo bar", text("1"));
    assert_eq!(header.get(text("foo bar")), Some("1"));
    assert_eq!(header.get(text("Foo Bar")), None);
    assert_eq!(header.get(text("Foo bar")), None);
}

#[test]
fn keys_without_canonical_spelling_are_not_brought_together() {
    let mut header = MIMEHeader::new();
    header.add("üser-agent", text("lower"));
    header.add("Üser-agent", text("upper"));
    header.add("üser-AGENT", text("mixed"));
    assert_eq!(header.get_all(text("üser-agent")), Some(&[text("lower")][..]));
    assert_eq!(header.get_all(text("Üser-agent")), Some(&[text("upper")][..]));
    assert_eq!(header.get_all(text("üser-AGENT")), Some(&[text("mixed")][..]));
    assert_eq!(header.get(text("üser-Agent")), None);
    assert_eq!(header.delete(text("Üser-agent")), Some(vec![text("upper")]));
    assert_eq!(header.get(text("üser-agent")), Some("lower"));
}

#[test]
fn values_are_kept_as_given() {
    let mut header = MIMEHeader::new();
    header.add("Subject", text("user-agent"));
    header.add("Subject", text(""));
    header.add("Subject", text("üñí"));
    assert_eq!(
        header.get_all(text("subject")),
        Some(&[text("user-agent"), text(""), text("üñí")][..])
    );
}

#[test]
fn empty_key_is_a_key() {
    let mut header = MIMEHeader::new();
    header.add("", text("v"));
    assert_eq!(header.get(text("")), Some("v"));
    assert_eq!(header.delete(text("")), Some(vec![text("v")]));
    assert_eq!(header.get(text("")), None);
}

#[test]
fn other_headers_are_left_alone() {
    let mut header = MIMEHeader::new();
    header.add("Accept", text("a"));
    header.add("Accept-Charset", text("b"));
    header.set(text("Accept-Encoding"), text("c"));
    header.add("accept", text("d"));
    assert_eq!(header.delete(text("accept-charset")), Some(vec![text("b")]));
    assert_eq!(header.get_all(text("Accept")), Some(&[text("a"), text("d")][..]));
    assert_eq!(header.get_all(text("Accept-Encoding")), Some(&[text("c")][..]));
}
