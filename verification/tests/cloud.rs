use stampa::cloud::{copy_bytes, CloudClient, ObjectStore};
use stampa::errors::AppErrorType;

#[test]
fn the_address_of_an_object() {
    let client = CloudClient::new("my-bucket".to_string(), "eu-west-3".to_string()).unwrap();
    assert_eq!(
        client.url("folder/picture.png"),
        "https://my-bucket.s3.eu-west-3.amazonaws.com/folder/picture.png"
    );
    assert_eq!(client.url(""), "https://my-bucket.s3.eu-west-3.amazonaws.com/");
    let client = CloudClient::checked("b".to_string(), "r".to_string(), true).unwrap();
    assert_eq!(client.url("k"), "https://b.s3.r.amazonaws.com/k");
}

#[test]
fn a_client_needs_a_known_region() {
    let client = CloudClient::new("bucket".to_string(), "us-east-1".to_string()).unwrap();
    assert_eq!(client.bucket_name, "bucket");
    assert_eq!(client.region, "us-east-1");
    assert!(CloudClient::new("bucket".to_string(), "US-WEST-2".to_string()).is_ok());
    assert!(CloudClient::new("bucket".to_string(), "euwest3".to_string()).is_ok());
    let e = CloudClient::new("bucket".to_string(), "atlantis-1".to_string()).unwrap_err();
    assert_eq!(e.error_type, AppErrorType::S3Error);
    assert_eq!(e.message(), "Internal error");
    assert_eq!(e.cause.as_deref(), Some("Can not load region."));
    assert_eq!(CloudClient::new("bucket".to_string(), String::new()).unwrap_err().error_type, AppErrorType::S3Error);
    let e = CloudClient::checked("bucket".to_string(), "eu-west-3".to_string(), false).unwrap_err();
    assert_eq!(e.cause.as_deref(), Some("Can not load region."));
}

#[test]
fn the_client_of_the_application() {
    let client = CloudClient::new_application_client().unwrap();
    assert_eq!(client.bucket_name, "user-avatar-stampa");
    assert_eq!(client.region, "eu-west-3");
    assert_eq!(client.url("abc"), "https://user-avatar-stampa.s3.eu-west-3.amazonaws.com/abc");
}

#[test]
fn the_home_region_needs_no_location() {
    assert_eq!(CloudClient::bucket_location("us-east-1"), None);
    assert_eq!(CloudClient::bucket_location("eu-west-3"), Some("eu-west-3".to_string()));
    assert_eq!(CloudClient::bucket_location("US-EAST-1"), Some("US-EAST-1".to_string()));
    assert_eq!(CloudClient::bucket_location(""), Some(String::new()));
}

#[test]
fn a_bucket_is_made_once() {
    let mut store = ObjectStore::new();
    let made = CloudClient::create_bucket(&mut store, "b1".to_string(), "eu-west-3".to_string());
    assert_eq!(made.unwrap(), "b1");
    let e = CloudClient::create_bucket(&mut store, "b1".to_string(), "us-east-1".to_string())
        .unwrap_err();
    assert_eq!(e.error_type, AppErrorType::S3Error);
    assert_eq!(e.cause.as_deref(), Some("The bucket exists already."));
    let e = CloudClient::create_bucket(&mut store, "b2".to_string(), "atlantis-1".to_string())
        .unwrap_err();
    assert_eq!(e.cause.as_deref(), Some("Can not load region."));
    let e = CloudClient::create_bucket_checked(&mut store, "b2".to_string(), "eu-west-3".to_string(), false)
        .unwrap_err();
    assert_eq!(e.cause.as_deref(), Some("Can not load region."));
    // The refused bucket was not made.
    let client = CloudClient::new("b2".to_string(), "eu-west-3".to_string()).unwrap();
    assert!(client.put_object(&mut store, vec![1], "k").is_err());
    assert_eq!(
        CloudClient::create_bucket_checked(&mut store, "b2".to_string(), "eu-west-3".to_string(), true).unwrap(),
        "b2"
    );
    assert!(client.put_object(&mut store, vec![1], "k").is_ok());
}

#[test]
fn objects_are_put_and_got_back() {
    let mut store = ObjectStore::new();
    CloudClient::create_bucket(&mut store, "b1".to_string(), "eu-west-3".to_string()).unwrap();
    CloudClient::create_bucket(&mut store, "b2".to_string(), "eu-west-3".to_string()).unwrap();
    let one = CloudClient::new("b1".to_string(), "eu-west-3".to_string()).unwrap();
    let two = CloudClient::new("b2".to_string(), "eu-west-3".to_string()).unwrap();
    assert_eq!(store.writes(), 0);
    let address = one.put_object(&mut store, vec![1, 2, 3], "k").unwrap();
    assert_eq!(address, "https://b1.s3.eu-west-3.amazonaws.com/k");
    two.put_object(&mut store, vec![9], "k").unwrap();
    one.put_object(&mut store, vec![4], "other").unwrap();
    assert_eq!(store.writes(), 3);
    assert_eq!(one.get_object(&store, "k").unwrap(), vec![1, 2, 3]);
    assert_eq!(two.get_object(&store, "k").unwrap(), vec![9]);
    // A later write under the same key is the one that is read.
    one.put_object(&mut store, vec![5, 6], "k").unwrap();
    assert_eq!(one.get_object(&store, "k").unwrap(), vec![5, 6]);
    assert_eq!(one.get_object(&store, "other").unwrap(), vec![4]);
    assert_eq!(store.writes(), 4);
    let e = two.get_object(&store, "other").unwrap_err();
    assert_eq!(e.error_type, AppErrorType::S3Error);
    assert_eq!(e.cause.as_deref(), Some("Can not get object."));
}

#[test]
fn nothing_is_put_into_a_bucket_that_does_not_exist() {
    let mut store = ObjectStore::new();
    let client = CloudClient::new("nowhere".to_string(), "eu-west-3".to_string()).unwrap();
    let e = client.put_object(&mut store, vec![1], "k").unwrap_err();
    assert_eq!(e.error_type, AppErrorType::S3Error);
    assert_eq!(e.cause.as_deref(), Some("The bucket does not exist."));
    assert_eq!(store.writes(), 0);
    assert!(client.get_object(&store, "k").is_err());
    assert_eq!(copy_bytes(&vec![1, 2, 3]), vec![1, 2, 3]);
}
