use resource_id::{ResourceID, ResourceIDError};
use resource_id::ulid::{DecodeError, Ulid};

#[test]
fn construct_uppercases_tag() {
    let id = ResourceID::new("user").unwrap();

    assert_eq!(id.resource, "USER");

    let text = id.render();
    assert_eq!(text.len(), 30);
    assert!(text.starts_with("USER"));
}

#[test]
fn construct_mixed_case_tag() {
    let id = ResourceID::new("uSeR").unwrap();

    assert_eq!(id.resource, "USER");
}

#[test]
fn construct_keeps_digits_in_tag() {
    let id = ResourceID::new("us3r").unwrap();

    assert_eq!(id.resource, "US3R");
}

#[test]
fn construct_empty_tag_error() {
    let id = ResourceID::new("");

    assert_eq!(
        id.err(),
        Some(ResourceIDError::InvalidResourceType(String::new()))
    );
}

#[test]
fn parse_wrong_length_exact_error() {
    let result = ResourceID::from_str("USER1234");

    assert_eq!(
        result.err(),
        Some(ResourceIDError::InvalidLength("USER1234".to_string()))
    );
}

#[test]
fn parse_empty_error() {
    let result = ResourceID::from_str("");

    assert_eq!(
        result.err(),
        Some(ResourceIDError::InvalidLength(String::new()))
    );
}

#[test]
fn parse_invalid_suffix_char_error() {
    // 30 characters, but the suffix region ends with `I`, which the
    // suffix alphabet excludes.
    let text = "USER0123456789ABCDEFGHJKMNPQRI";
    assert_eq!(text.len(), 30);

    let result = ResourceID::from_str(text);

    assert_eq!(
        result.err(),
        Some(ResourceIDError::UnableToDecodeUlid(DecodeError::InvalidChar))
    );
}

#[test]
fn parse_non_ascii_suffix_error() {
    // 30 characters, but the suffix region holds a two-byte character, so
    // the codec sees 27 bytes and reports a length error.
    let text = "USER0123456789ABCDEFGHJKMNPQR\u{e9}";
    assert_eq!(text.chars().count(), 30);

    let result = ResourceID::from_str(text);

    assert_eq!(
        result.err(),
        Some(ResourceIDError::UnableToDecodeUlid(DecodeError::InvalidLength))
    );
}

#[test]
fn parse_splits_first_four_characters() {
    // The tag is always the first 4 characters: the rest of the word runs
    // into the suffix region, which here is made of valid characters only.
    let text = "FOOBARZZZZZZZZZZZZZZZZZZZZZZZZ";
    assert_eq!(text.len(), 30);

    let result = ResourceID::from_str(text);

    assert!(result.is_ok());
    assert_eq!(result.unwrap().resource, "FOOB");
}

#[test]
fn parse_render_round_trip() {
    let id = ResourceID::new("USER").unwrap();

    let text = id.render();
    let parsed = ResourceID::from_str(&text).unwrap();

    assert_eq!(parsed, id);
    assert_eq!(parsed.render(), text);
}

#[test]
fn distinct_suffixes_same_tag() {
    let a = ResourceID::new("USER").unwrap();
    let b = ResourceID::new("USER").unwrap();

    assert_eq!(a.resource, b.resource);
    assert_ne!(a.ulid(), b.ulid());
    assert_ne!(a, b);
    assert_ne!(a.render(), b.render());
}

#[test]
fn ulid_canonical_text_round_trip() {
    let text = "2D9RW50MA499CMAGHM6DD42DTP";

    let u = Ulid::from_str(text).unwrap();

    assert_eq!(u.render(), text);
}

#[test]
fn ulid_decode_accepts_lowercase() {
    let upper = Ulid::from_str("2D9RW50MA499CMAGHM6DD42DTP").unwrap();
    let lower = Ulid::from_str("2d9rw50ma499cmaghm6dd42dtp").unwrap();

    assert_eq!(lower, upper);
    assert_eq!(lower.render(), "2D9RW50MA499CMAGHM6DD42DTP");
}

#[test]
fn ulid_decode_wrong_length_error() {
    assert_eq!(Ulid::from_str("SHORT").err(), Some(DecodeError::InvalidLength));
    assert_eq!(
        Ulid::from_str("2D9RW50MA499CMAGHM6DD42DTP0").err(),
        Some(DecodeError::InvalidLength)
    );
}

#[test]
fn ulid_decode_invalid_char_error() {
    assert_eq!(
        Ulid::from_str("UUUUUUUUUUUUUUUUUUUUUUUUUU").err(),
        Some(DecodeError::InvalidChar)
    );
}

#[test]
fn schema_names() {
    assert_eq!(ResourceID::schema_name(), "ResourceID");
    assert_eq!(Ulid::schema_name(), "Ulid");
}
