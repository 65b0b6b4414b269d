use sipnab::provenance::{CaptureEtag, CaptureIdentity, InstanceMint};

fn mint() -> InstanceMint {
    InstanceMint::new(4711, 1_700_000_000_000_000_000)
}

#[test]
fn every_minted_instance_is_distinct() {
    let mut mint = mint();
    let a = CaptureIdentity::new(&mut mint);
    let b = CaptureIdentity::new(&mut mint);
    assert_ne!(a.instance(), b.instance());
}

#[test]
fn rotate_replaces_the_instance() {
    let mut mint = mint();
    let mut id = CaptureIdentity::new(&mut mint);
    let before = id.instance().to_string();
    let after = id.rotate(&mut mint).to_string();
    assert_ne!(before, after, "a rotated identity must not reuse its id");
    assert_eq!(id.instance(), after, "rotate must return what it stored");
}

#[test]
fn etag_carries_both_store_generations() {
    let id = CaptureIdentity::new(&mut mint());
    let tag = id.etag(42, 7);
    assert_eq!(tag.instance, id.instance());
    assert_eq!(tag.dialog_generation, 42);
    assert_eq!(tag.stream_generation, 7);
}

#[test]
fn a_higher_generation_is_not_a_different_capture() {
    let id = CaptureIdentity::new(&mut mint());
    let before = id.etag(1, 1);
    let after = id.etag(9, 4);
    assert!(!before.is_different_capture(&after));
    assert_ne!(before, after, "the etag itself must still differ");
}

#[test]
fn a_rotated_identity_is_a_different_capture_at_the_same_generation() {
    let mut mint = mint();
    let mut id = CaptureIdentity::new(&mut mint);
    let before = id.etag(3, 3);
    id.rotate(&mut mint);
    let after = id.etag(3, 3);
    assert!(before.is_different_capture(&after));
}

#[test]
fn etag_round_trips_through_its_string_form() {
    let tag = CaptureIdentity::new(&mut mint()).etag(12, 34);
    let text = tag.to_string();
    let parsed: CaptureEtag = text.parse().expect("round trip");
    assert_eq!(parsed, tag, "parsed {text} did not match");
}

#[test]
fn a_malformed_etag_is_refused() {
    for bad in ["", "no-colon", "inst:", "inst:1", "inst:x.1", "inst:1.y", ":1.2"] {
        assert!(
            bad.parse::<CaptureEtag>().is_err(),
            "'{bad}' must not parse as an etag"
        );
    }
}

#[test]
fn an_instance_names_the_process_its_start_and_its_turn() {
    let mut mint = InstanceMint::new(0x1f, 0xabc);
    let first = CaptureIdentity::new(&mut mint);
    let second = CaptureIdentity::new(&mut mint);
    assert_eq!(first.instance(), "1fabc-1");
    assert_eq!(second.instance(), "1fabc-2");
    assert_eq!(first.etag(1, 2).to_string(), "1fabc-1:1.2");
}

#[test]
fn a_malformed_etag_says_what_is_wrong() {
    let cases = [
        ("no-colon", "'no-colon' is not an etag: expected <instance>:<dialogs>.<streams>"),
        ("inst:1", "'inst:1' has no generation pair: expected <instance>:<dialogs>.<streams>"),
        (":1.2", "':1.2' has an empty instance id"),
        ("inst:x.1", "'x' is not a dialog generation"),
        ("inst:1.y", "'y' is not a stream generation"),
        ("inst:1.2.3", "'2.3' is not a stream generation"),
        ("inst:18446744073709551616.0", "'18446744073709551616' is not a dialog generation"),
    ];
    for (bad, said) in cases {
        assert_eq!(CaptureEtag::from_text(bad), Err(said.to_string()));
    }
    let leading_plus = CaptureEtag::from_text("inst:+1.002").expect("as integers are read");
    assert_eq!((leading_plus.dialog_generation, leading_plus.stream_generation), (1, 2));
}
