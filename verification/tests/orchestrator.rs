use edge_filters::patterns::{Category, CategorySet, PiiPatternMatcher};

fn redact(matcher: &PiiPatternMatcher, input: &[u8]) -> (Vec<u8>, u32) {
    let r = matcher.redact(input);
    assert_eq!(r.redacted, r.match_count > 0);
    (r.content, r.match_count)
}

#[test]
fn invalid_utf8_passes_untouched() {
    let matcher = PiiPatternMatcher::all();
    let input: Vec<u8> = vec![0xff, 0xfe, b'1', b'2', b'3', b'-', b'4', b'5', b'-', b'6', b'7', b'8', b'9'];
    let result = matcher.redact(&input);
    assert!(!result.redacted);
    assert_eq!(result.match_count, 0);
    assert!(result.matched_patterns.is_empty());
    assert_eq!(result.content, input);

    // A truncated character at the end.
    let mut input = b"SSN: 123-45-6789 ".to_vec();
    input.push(0xe2);
    input.push(0x82);
    let result = matcher.redact(&input);
    assert!(!result.redacted);
    assert_eq!(result.content, input);
}

#[test]
fn valid_utf8_is_scanned_and_encoded_again() {
    let matcher = PiiPatternMatcher::default_patterns();
    let input = "\u{20ac}uro 123-45-6789 \u{1f600} caf\u{00e9}".as_bytes();
    let (content, count) = redact(&matcher, input);
    assert_eq!(count, 1);
    assert_eq!(content, "\u{20ac}uro XXX-XX-XXXX \u{1f600} caf\u{00e9}".as_bytes());
}

#[test]
fn clean_input_is_left_alone() {
    let matcher = PiiPatternMatcher::all();
    for input in [
        "",
        "nothing to see",
        "1234-5678-9012-345",
        "123456789012345678",
        "123-456-789",
        "a@b",
        "555-123.4567",
        "\u{00e9}\u{4e2d}\u{1f600}",
    ] {
        let result = matcher.redact(input.as_bytes());
        assert!(!result.redacted);
        assert_eq!(result.match_count, 0);
        assert!(result.matched_patterns.is_empty());
        assert_eq!(result.content, input.as_bytes());
    }
}

#[test]
fn rerun_on_output_changes_nothing() {
    let matcher = PiiPatternMatcher::all();
    let input = b"SSN: 123-45-6789, Card: 4111-1111-1111-1111 / 5500000000000004, \
Email: test@example.com, Phone: 555-123-4567";
    let once = matcher.redact(input);
    assert_eq!(once.match_count, 5);
    assert_eq!(
        String::from_utf8_lossy(&once.content),
        "SSN: XXX-XX-XXXX, Card: XXXX-XXXX-XXXX-1111 / XXXXXXXXXXXX0004, \
Email: [EMAIL REDACTED], Phone: (XXX) XXX-4567"
    );
    let twice = matcher.redact(&once.content);
    assert!(!twice.redacted);
    assert_eq!(twice.match_count, 0);
    assert_eq!(twice.content, once.content);
}

#[test]
fn kept_digits_can_make_a_new_match() {
    // The four digits a token keeps, with the three groups behind them,
    // read as a card number again.
    let matcher = PiiPatternMatcher::default_patterns();
    let once = matcher.redact(b"1111-2222-3333-4444-5555-6666-7777");
    assert_eq!(String::from_utf8_lossy(&once.content), "XXXX-XXXX-XXXX-4444-5555-6666-7777");
    assert_eq!(once.match_count, 1);
    let twice = matcher.redact(&once.content);
    assert!(twice.redacted);
    assert_eq!(String::from_utf8_lossy(&twice.content), "XXXX-XXXX-XXXX-XXXX-XXXX-XXXX-7777");
}

#[test]
fn a_token_can_end_a_domain() {
    // The domain runs on to a final dot and is no domain; cut short by the
    // phone token, it is one.
    let matcher = PiiPatternMatcher::all();
    let once = matcher.redact(b"a@x.y-555-123-4567.");
    assert_eq!(String::from_utf8_lossy(&once.content), "a@x.y-(XXX) XXX-4567.");
    let twice = matcher.redact(&once.content);
    assert!(twice.redacted);
    assert_eq!(String::from_utf8_lossy(&twice.content), "[EMAIL REDACTED](XXX) XXX-4567.");
}

#[test]
fn later_detectors_read_what_earlier_ones_wrote() {
    let matcher = PiiPatternMatcher::all();
    // The card token is part of the local part of the address.
    let r = matcher.redact(b"4111-1111-1111-1111@example.com");
    assert_eq!(String::from_utf8_lossy(&r.content), "[EMAIL REDACTED]");
    assert_eq!(r.match_count, 2);
    assert!(r.matched_patterns.contains("credit_card"));
    assert!(r.matched_patterns.contains("email"));
    assert!(!r.matched_patterns.contains("ssn"));
    assert!(!r.matched_patterns.contains("phone_us"));
}

#[test]
fn tokens_do_not_trigger_later_detectors() {
    let matcher = PiiPatternMatcher::all();
    let r = matcher.redact(b"4111-1111-1111-1111");
    assert_eq!(String::from_utf8_lossy(&r.content), "XXXX-XXXX-XXXX-1111");
    assert_eq!(r.match_count, 1);
    let r = matcher.redact(b"4111111111111111");
    assert_eq!(String::from_utf8_lossy(&r.content), "XXXXXXXXXXXX1111");
    assert_eq!(r.match_count, 1);
}

#[test]
fn only_enabled_detectors_run() {
    let input = b"123-45-6789 4111-1111-1111-1111 a@b.c 555-123-4567";
    let none = PiiPatternMatcher::new(false, false, false, false);
    let r = none.redact(input);
    assert!(!r.redacted);
    assert_eq!(r.content, input.to_vec());

    let ssn_only = PiiPatternMatcher::new(false, true, false, false);
    let r = ssn_only.redact(input);
    assert_eq!(
        String::from_utf8_lossy(&r.content),
        "XXX-XX-XXXX 4111-1111-1111-1111 a@b.c 555-123-4567"
    );
    assert_eq!(r.match_count, 1);
    assert!(r.matched_patterns.has(Category::Ssn));
    assert!(!r.matched_patterns.has(Category::CreditCard));

    let phone_only = PiiPatternMatcher::new(false, false, false, true);
    let r = phone_only.redact(input);
    assert_eq!(
        String::from_utf8_lossy(&r.content),
        "123-45-6789 4111-1111-1111-1111 a@b.c (XXX) XXX-4567"
    );
    assert!(r.matched_patterns.contains("phone_us"));

    assert!(ssn_only.is_enabled(Category::Ssn));
    assert!(!ssn_only.is_enabled(Category::Email));
    assert!(PiiPatternMatcher::all().is_enabled(Category::PhoneUs));
    assert!(!PiiPatternMatcher::default_patterns().is_enabled(Category::PhoneUs));
    assert!(PiiPatternMatcher::default_patterns().is_enabled(Category::Email));
}

#[test]
fn phone_example() {
    let off = PiiPatternMatcher::default_patterns();
    let on = PiiPatternMatcher::all();
    assert_eq!(off.redact(b"Phone: 555-123-4567").content, b"Phone: 555-123-4567".to_vec());
    assert_eq!(on.redact(b"Phone: 555-123-4567").content, b"Phone: (XXX) XXX-4567".to_vec());
}

#[test]
fn email_example() {
    let matcher = PiiPatternMatcher::default_patterns();
    let r = matcher.redact(b"Email: john.doe+tag@sub.domain.org");
    assert_eq!(String::from_utf8_lossy(&r.content), "Email: [EMAIL REDACTED]");
}

#[test]
fn category_sets() {
    let mut set = CategorySet::new();
    assert!(set.is_empty());
    assert!(!set.contains("ssn"));
    set.insert(Category::Ssn);
    set.insert(Category::Ssn);
    assert!(!set.is_empty());
    assert!(set.contains("ssn"));
    assert!(set.has(Category::Ssn));
    assert!(!set.has(Category::Email));
    assert!(!set.contains("SSN"));
    assert!(!set.contains(""));
    assert!(!set.contains("email"));
    let set = CategorySet::of(true, false, true, false);
    assert!(set.contains("credit_card"));
    assert!(set.contains("email"));
    assert!(!set.contains("ssn"));
    assert!(!set.contains("phone_us"));
    assert_eq!(Category::CreditCard.name(), "credit_card");
    assert_eq!(Category::Ssn.name(), "ssn");
    assert_eq!(Category::Email.name(), "email");
    assert_eq!(Category::PhoneUs.name(), "phone_us");
}
