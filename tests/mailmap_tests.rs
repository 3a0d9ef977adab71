use mailmap::{mailmap_blob, Error, Mailmap, Repository, Signature, Source};

fn jane() -> Mailmap {
    let mut m = Mailmap::new().unwrap();
    m.add_entry(Some("Jane Doe"), None, None, "jane@old.com").unwrap();
    m
}

#[test]
fn new_mailmap_is_empty() {
    let m = Mailmap::new().unwrap();
    assert_eq!(m.len(), 0);
    assert_eq!(m.resolve("A", "a@x.com").unwrap(), ("A", "a@x.com"));
}

#[test]
fn unmatched_pair_is_unchanged() {
    let m = jane();
    assert_eq!(m.resolve("Bob", "bob@x.com").unwrap(), ("Bob", "bob@x.com"));
    assert_eq!(m.resolve("Jane Doe", "jane@new.com").unwrap(), ("Jane Doe", "jane@new.com"));
}

#[test]
fn resolving_twice_is_stable() {
    let m = Mailmap::from_buffer(b"Real Name <real@x.com> <old@x.com>\n").unwrap();
    let (n, e) = m.resolve("someone", "old@x.com").unwrap();
    let (n, e) = (n.to_string(), e.to_string());
    assert_eq!((n.as_str(), e.as_str()), ("Real Name", "real@x.com"));
    assert_eq!(m.resolve(&n, &e).unwrap(), ("Real Name", "real@x.com"));
}

#[test]
fn wildcard_name_matches_on_email() {
    let m = jane();
    assert_eq!(m.resolve("J. D.", "jane@old.com").unwrap(), ("Jane Doe", "jane@old.com"));
}

#[test]
fn qualified_entry_wins_over_wildcard() {
    let mut m = Mailmap::new().unwrap();
    m.add_entry(Some("A"), None, None, "x@y.com").unwrap();
    m.add_entry(Some("B"), None, Some("bob"), "x@y.com").unwrap();
    assert_eq!(m.resolve("bob", "x@y.com").unwrap().0, "B");
    assert_eq!(m.resolve("anyone-else", "x@y.com").unwrap().0, "A");
}

#[test]
fn qualified_entry_wins_whatever_the_order() {
    let mut m = Mailmap::new().unwrap();
    m.add_entry(Some("B"), None, Some("bob"), "x@y.com").unwrap();
    m.add_entry(Some("A"), None, None, "x@y.com").unwrap();
    assert_eq!(m.resolve("bob", "x@y.com").unwrap().0, "B");
    assert_eq!(m.resolve("Bob", "x@y.com").unwrap().0, "A");
}

#[test]
fn readding_replaces_in_place() {
    let mut m = jane();
    m.add_entry(Some("Other"), None, Some("x"), "other@x.com").unwrap();
    assert_eq!(m.len(), 2);
    m.add_entry(Some("Jane Q. Doe"), Some("jane@new.com"), None, "jane@old.com").unwrap();
    assert_eq!(m.len(), 2);
    assert_eq!(m.resolve("J", "jane@old.com").unwrap(), ("Jane Q. Doe", "jane@new.com"));
}

#[test]
fn readding_with_other_case_replaces() {
    let mut m = jane();
    m.add_entry(Some("Janet"), None, None, "JANE@OLD.COM").unwrap();
    assert_eq!(m.len(), 1);
    assert_eq!(m.resolve("J", "jane@old.com").unwrap(), ("Janet", "jane@old.com"));
}

#[test]
fn empty_replace_email_is_refused() {
    let mut m = jane();
    assert_eq!(m.add_entry(Some("X"), None, None, ""), Err(Error::InvalidArgument));
    assert_eq!(m.len(), 1);
}

#[test]
fn malformed_line_is_skipped() {
    let m = Mailmap::from_buffer(b"Good <good@x.com> <old@x.com>\nBad <bad@x.com\n").unwrap();
    assert_eq!(m.len(), 1);
    assert_eq!(m.resolve("n", "old@x.com").unwrap(), ("Good", "good@x.com"));
    assert_eq!(m.resolve("Bad", "bad@x.com").unwrap(), ("Bad", "bad@x.com"));
}

#[test]
fn email_match_ignores_case() {
    let m = Mailmap::from_buffer(b"Real Name <real@x.com> <old@x.com>\n").unwrap();
    assert_eq!(m.resolve("whatever", "OLD@X.COM").unwrap(), ("Real Name", "real@x.com"));
}

#[test]
fn comments_and_blank_lines_give_no_rules() {
    let m = Mailmap::from_buffer(b"# A <a@x.com> <b@x.com>\n\n   # indented\n   \n").unwrap();
    assert_eq!(m.len(), 0);
}

#[test]
fn one_email_line_sets_the_name() {
    let m = Mailmap::from_buffer(b"  Jane Doe   <Jane@Example.com>  \n").unwrap();
    assert_eq!(m.len(), 1);
    assert_eq!(m.resolve("jd", "jane@example.com").unwrap(), ("Jane Doe", "jane@example.com"));
}

#[test]
fn line_without_name_keeps_the_name() {
    let m = Mailmap::from_buffer(b"<new@x.com> <old@x.com>").unwrap();
    assert_eq!(m.resolve("Who", "old@x.com").unwrap(), ("Who", "new@x.com"));
}

#[test]
fn name_qualified_line() {
    let m = Mailmap::from_buffer(b"Proper <p@x.com> Nick Name <nick@x.com>\r\n").unwrap();
    assert_eq!(m.resolve("Nick Name", "nick@x.com").unwrap(), ("Proper", "p@x.com"));
    assert_eq!(m.resolve("Other", "nick@x.com").unwrap(), ("Other", "nick@x.com"));
}

#[test]
fn empty_emails_give_no_rules() {
    let m = Mailmap::from_buffer(b"A <>\nB <b@x.com> <>\nC <c@x.com> <d@x.com\n").unwrap();
    assert_eq!(m.len(), 0);
}

#[test]
fn later_lines_replace_earlier_ones() {
    let m = Mailmap::from_buffer(b"First <f@x.com> <o@x.com>\nSecond <s@x.com> <O@X.com>\n").unwrap();
    assert_eq!(m.len(), 1);
    assert_eq!(m.resolve("n", "o@x.com").unwrap(), ("Second", "s@x.com"));
}

#[test]
fn non_utf8_buffer_is_a_parse_error() {
    assert!(matches!(Mailmap::from_buffer(&[0x41, 0xff, 0x3c, 0x3e]), Err(Error::Parse)));
}

#[test]
fn empty_buffer_gives_empty_mailmap() {
    assert_eq!(Mailmap::from_buffer(b"").unwrap().len(), 0);
}

#[test]
fn unicode_names_are_kept() {
    let m = Mailmap::from_buffer("Zoë Ñúñez <zoe@x.com> <z@x.com>\n".as_bytes()).unwrap();
    assert_eq!(m.resolve("z", "Z@X.COM").unwrap(), ("Zoë Ñúñez", "zoe@x.com"));
}

#[test]
fn signature_is_resolved_and_time_kept() {
    let m = jane();
    let sig = Signature::new("J. D.", "jane@old.com", 1_500_000_000, -120).unwrap();
    let out = m.resolve_signature(&sig).unwrap();
    assert_eq!(out.name(), "Jane Doe");
    assert_eq!(out.email(), "jane@old.com");
    assert_eq!(out.time(), 1_500_000_000);
    assert_eq!(out.offset(), -120);
}

#[test]
fn signature_with_forbidden_result_is_refused() {
    let mut m = Mailmap::new().unwrap();
    m.add_entry(Some("a<b"), None, None, "x@y.com").unwrap();
    let sig = Signature::new("x", "x@y.com", 0, 0).unwrap();
    assert!(matches!(m.resolve_signature(&sig), Err(Error::InvalidSignature)));
}

#[test]
fn signature_new_refuses_forbidden_characters() {
    assert!(matches!(Signature::new("a>b", "x@y.com", 0, 0), Err(Error::InvalidSignature)));
    assert!(matches!(Signature::new("a", "x\ny", 0, 0), Err(Error::InvalidSignature)));
    assert!(Signature::new("a", "x@y", 0, 0).is_ok());
}

#[test]
fn repository_sources_apply_in_order() {
    let repo = Repository {
        workdir: Source::Contents(b"W <w@x.com> <o@x.com>\nK <k@x.com> <k@old.com>\n".to_vec()),
        blob: Source::Absent,
        file: Source::Contents(b"F <f@x.com> <o@x.com>\n".to_vec()),
    };
    let m = Mailmap::from_repository(&repo).unwrap();
    assert_eq!(m.len(), 2);
    assert_eq!(m.resolve("n", "o@x.com").unwrap(), ("F", "f@x.com"));
    assert_eq!(m.resolve("n", "k@old.com").unwrap(), ("K", "k@x.com"));
}

#[test]
fn repository_without_sources_gives_empty_mailmap() {
    let repo = Repository { workdir: Source::Absent, blob: Source::Absent, file: Source::Absent };
    assert_eq!(Mailmap::from_repository(&repo).unwrap().len(), 0);
}

#[test]
fn repository_failure_is_reported() {
    let repo = Repository {
        workdir: Source::Contents(b"W <w@x.com> <o@x.com>\n".to_vec()),
        blob: Source::Failed,
        file: Source::Absent,
    };
    assert!(matches!(Mailmap::from_repository(&repo), Err(Error::RepositoryAccess)));
}

#[test]
fn unreadable_repository_source_is_skipped() {
    let repo = Repository {
        workdir: Source::Contents(vec![0xff, 0xfe]),
        blob: Source::Contents(b"B <b@x.com> <o@x.com>\n".to_vec()),
        file: Source::Absent,
    };
    let m = Mailmap::from_repository(&repo).unwrap();
    assert_eq!(m.len(), 1);
}

#[test]
fn blob_reference_defaults_without_working_tree() {
    assert_eq!(mailmap_blob(false, None), Some("HEAD:.mailmap".to_string()));
    assert_eq!(mailmap_blob(true, None), None);
    assert_eq!(mailmap_blob(true, Some("HEAD:m")), Some("HEAD:m".to_string()));
}
