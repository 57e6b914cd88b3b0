use resource_id::{ResourceID, ResourceIDError};
use resource_id::ulid::Ulid;

#[test]
fn resource_id_min_length_error() {
    let invalid_id = "FOO";

    let id = ResourceID::new(invalid_id);

    assert!(id.is_err());

    assert_eq!(
        id.err(),
        Some(ResourceIDError::InvalidResourceType(invalid_id.to_string()))
    );
}

#[test]
fn resource_id_max_length_error() {
    let invalid_id = "FOOBAR";

    let id = ResourceID::new(invalid_id);

    assert!(id.is_err());

    assert_eq!(
        id.err(),
        Some(ResourceIDError::InvalidResourceType(invalid_id.to_string()))
    );
}

#[test]
fn invalid_ulid_error() {
    let invalid_ulid = format!("USER{}", 1234);

    let result = ResourceID::from_str(&invalid_ulid);

    assert!(result.is_err());
}

#[test]
fn serialize_resource_id() {
    let valid_resource = "user";

    let id = ResourceID::new(valid_resource).unwrap();

    assert_eq!(&id.render()[..4], valid_resource.to_uppercase());

    assert_eq!(id.resource, valid_resource.to_uppercase());
}

#[test]
fn deserialize_resource_id() {
    let valid_resource = "USER";
    let valid_ulid = Ulid::new();

    let value = format!("{}{}", valid_resource, valid_ulid.render());

    let id = ResourceID::from_str(&value);

    assert!(id.is_ok());

    let id = id.unwrap();

    assert_eq!(id.resource, valid_resource);
    assert_eq!(*id.ulid(), valid_ulid);
}

#[test]
fn strum_resource_id() {
    let account_resource = ResourceID::new("ACCT");

    assert!(account_resource.is_ok());

    let account_resource = account_resource.unwrap();

    assert_eq!(account_resource.resource, "ACCT");
}
