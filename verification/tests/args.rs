use soapysdr::Args;

#[test]
fn parse_render_round_trip() {
    let args = Args::parse("driver=lime, serial=123456");
    assert_eq!(args.to_string(), "driver=lime, serial=123456");
}

#[test]
fn get_present_and_absent_keys() {
    let args = Args::parse("driver=lime, serial=123456");
    assert_eq!(args.get("driver"), Some("lime"));
    assert_eq!(args.get("serial"), Some("123456"));
    assert_eq!(args.get("antenna"), None);
    assert_eq!(args.get(""), None);
}

#[test]
fn parse_trims_whitespace() {
    let args = Args::parse("  driver =  lime ,\tserial\t= 42 ");
    assert_eq!(args.get("driver"), Some("lime"));
    assert_eq!(args.get("serial"), Some("42"));
    assert_eq!(args.to_string(), "driver=lime, serial=42");
}

#[test]
fn parse_skips_segments_without_equals() {
    let args = Args::parse("driver=lime, nonsense, serial=7");
    assert_eq!(args.get("driver"), Some("lime"));
    assert_eq!(args.get("serial"), Some("7"));
    assert_eq!(args.get("nonsense"), None);
    let mut it = args.iter();
    assert_eq!(it.next(), Some(("driver", "lime")));
    assert_eq!(it.next(), Some(("serial", "7")));
    assert_eq!(it.next(), None);
}

#[test]
fn parse_empty_string_is_empty() {
    let args = Args::parse("");
    let mut it = args.iter();
    assert_eq!(it.next(), None);
    assert_eq!(args.to_string(), "");
}

#[test]
fn parse_later_duplicate_overwrites() {
    let args = Args::parse("k=1, k=2");
    assert_eq!(args.get("k"), Some("2"));
    assert_eq!(args.to_string(), "k=2");
}

#[test]
fn set_appends_and_overwrites_first_match() {
    let mut args = Args::new();
    args.set("driver", "lime");
    args.set("serial", "123456");
    assert_eq!(args.to_string(), "driver=lime, serial=123456");
    args.set("driver", "rtlsdr");
    assert_eq!(args.get("driver"), Some("rtlsdr"));
    assert_eq!(args.to_string(), "driver=rtlsdr, serial=123456");
}

#[test]
fn set_value_may_be_empty() {
    let mut args = Args::new();
    args.set("key", "");
    assert_eq!(args.get("key"), Some(""));
    assert_eq!(args.to_string(), "key=");
}

#[test]
fn iterator_walks_pairs_in_storage_order() {
    let mut args = Args::new();
    args.set("a", "1");
    args.set("b", "2");
    args.set("c", "3");
    let mut it = args.iter();
    assert_eq!(it.next(), Some(("a", "1")));
    assert_eq!(it.next(), Some(("b", "2")));
    assert_eq!(it.next(), Some(("c", "3")));
    assert_eq!(it.next(), None);
    assert_eq!(it.next(), None);
}

#[test]
fn clone_copies_all_pairs() {
    let args = Args::parse("driver=lime, serial=123456");
    let copy = args.clone();
    assert_eq!(copy.get("driver"), Some("lime"));
    assert_eq!(copy.to_string(), args.to_string());
}

#[test]
fn default_is_empty() {
    let args = Args::default();
    assert_eq!(args.to_string(), "");
}

#[test]
fn matches_requires_every_filter_pair() {
    let cand = Args::parse("driver=lime, serial=123456");
    assert!(cand.matches(&Args::new()));
    assert!(cand.matches(&Args::parse("driver=lime")));
    assert!(cand.matches(&Args::parse("driver=lime, serial=123456")));
    assert!(!cand.matches(&Args::parse("driver=rtlsdr")));
    assert!(!cand.matches(&Args::parse("driver=lime, antenna=RX")));
}
