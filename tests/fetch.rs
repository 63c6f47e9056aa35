use bytes::Bytes;
use herm::{Fetch, FetchCreationError};

#[test]
fn test_new() {
    let fetch = Fetch::new("test".to_string(), 0, 0, 1024).unwrap();
    assert_eq!(fetch.topic(), "test");
    assert_eq!(fetch.partition(), 0);
    assert_eq!(fetch.offset(), 0);
    assert_eq!(fetch.max_size(), 1024);
}

#[test]
fn test_new_long_topic_name() {
    let fetch = Fetch::new(
        String::from_utf8(vec![b'X'; (u16::MAX as usize) + 1]).unwrap(),
        0,
        0,
        1024,
    );

    assert!(fetch.is_err());
    assert_eq!(fetch.unwrap_err(), FetchCreationError::TopicTooLong)
}

#[test]
fn test_from_bytes() {
    let fetch = Fetch::new("test".to_string(), 0, 0, 1024).unwrap();
    let fetch_bytes = fetch.to_bytes();
    let fetch_from_bytes = Fetch::from_bytes(fetch_bytes).unwrap();

    assert_eq!(fetch.topic(), fetch_from_bytes.topic());
    assert_eq!(fetch.partition(), fetch_from_bytes.partition());
    assert_eq!(fetch.offset(), fetch_from_bytes.offset());
    assert_eq!(fetch.max_size(), fetch_from_bytes.max_size());
}

#[test]
fn test_malformed_bytes() {
    // Empty bytes
    let fetch = Fetch::from_bytes(Bytes::new());
    assert!(fetch.is_err());
    assert_eq!(fetch.unwrap_err(), FetchCreationError::MalformedBytes);

    // No u16 prefix
    let fetch = Fetch::from_bytes(Bytes::from_static(&[0x00]));
    assert!(fetch.is_err());
    assert_eq!(fetch.unwrap_err(), FetchCreationError::MalformedBytes);

    // Topic length is 4, but no topic name
    let fetch = Fetch::from_bytes(Bytes::from_static(&[0x00, 0x04]));
    assert!(fetch.is_err());
    assert_eq!(fetch.unwrap_err(), FetchCreationError::MalformedBytes);

    // Missing partition
    let fetch = Fetch::from_bytes(Bytes::from_static(&[
        0x00, 0x04, // Length of topic name
        b't', b'e', b's', b't', // Topic name
    ]));
    assert!(fetch.is_err());
    assert_eq!(fetch.unwrap_err(), FetchCreationError::MalformedBytes);

    // Missing offset
    let fetch = Fetch::from_bytes(Bytes::from_static(&[
        0x00, 0x04, // Length of topic name
        b't', b'e', b's', b't', // Topic name
        0x00, 0x00, 0x00, 0x06, // Partition
    ]));
    assert!(fetch.is_err());
    assert_eq!(fetch.unwrap_err(), FetchCreationError::MalformedBytes);

    // Missing size
    let fetch = Fetch::from_bytes(Bytes::from_static(&[
        0x00, 0x04, // Length of topic name
        b't', b'e', b's', b't', // Topic name
        0x00, 0x00, 0x00, 0x06, // Partition
        0x00, 0x00, 0x00, 0x00, 0x00, 0x00, 0x00, 0x08, // Offset
    ]));
    assert!(fetch.is_err());
    assert_eq!(fetch.unwrap_err(), FetchCreationError::MalformedBytes);

    // Works
    let fetch = Fetch::from_bytes(Bytes::from_static(&[
        0x00, 0x04, // Length of topic name
        b't', b'e', b's', b't', // Topic name
        0x00, 0x00, 0x00, 0x06, // Partition
        0x00, 0x00, 0x00, 0x00, 0x00, 0x00, 0x00, 0x08, // Offset
        0x00, 0x00, 0x00, 0x03, // Size
    ]));
    assert!(fetch.is_ok());

    let fetch = fetch.unwrap();
    assert_eq!(fetch.topic(), "test");
    assert_eq!(fetch.partition(), 6);
    assert_eq!(fetch.offset(), 8);
    assert_eq!(fetch.max_size(), 3);
}

#[test]
fn test_size() {
    let fetch = Fetch::new("test".to_string(), 0, 0, 1024).unwrap();
    assert_eq!(fetch.size(), 2 + 4 + 8 + 4 + 4);
}
