//! Decoding framed requests.

use kafka_core::error::Error;
use kafka_core::request::{Request, RequestBody, ResponsePartitionLimit};
use kafka_core::types::ApiKey;

#[test]
fn test_fetch() {
    let data: String = vec![
        "00 00 01 f4  00 00 00 01  03 20 00 00  00 00 00 00",
        "00 00 00 00  00 02 00 00  00 00 00 00  00 00 00 00",
        "00 00 00 00  43 35 02 00  00 00 00 ff  ff ff ff 00",
        "00 00 00 00  00 00 00 ff  ff ff ff ff  ff ff ff ff",
        "ff ff ff 00  10 00 00 00  00 01 01 00",
    ]
    .join("")
    .replace(" ", "");
    let bytes = hex::decode(data).expect("");
    let req = RequestBody::fetch(&bytes);

    println!("req {:?}", req);
    let req = req.expect("a fetch body decodes");
    match req {
        RequestBody::Fetch { max_wait, min_bytes, topics, .. } => {
            assert_eq!(max_wait.value(), 500);
            assert_eq!(min_bytes.value(), 1);
            assert_eq!(topics.len(), 1);
            assert_eq!(topics[0].partitions.len(), 1);
        },
        _ => panic!("expected a fetch body"),
    }
}

#[test]
fn header_decodes_and_unknown_key_is_tagged() {
    // api_key 18, version 4, correlation id 0x6f7fc661, client "kafka-cli"
    let frame = hex::decode("001200046f7fc66100096b61666b612d636c6900").unwrap();
    let req = Request::decode(&frame).expect("a handshake decodes");
    assert_eq!(req.header.api_key, ApiKey::ApiVersions);
    assert_eq!(req.header.api_version.value(), 4);
    assert_eq!(req.header.correlation_id.value(), 0x6f7f_c661);
    assert_eq!(req.header.client_id.value().as_str(), "kafka-cli");

    // an api key nobody serves: the error carries the correlation id
    let frame = hex::decode("006300046f7fc66100096b61666b612d636c6900").unwrap();
    assert_eq!(
        Request::decode(&frame).unwrap_err(),
        Error::UnsupportedApiKey(0x63, Some(0x6f7f_c661))
    );

    // a version past sixteen: the error carries the correlation id
    let frame = hex::decode("00120011deadbeef00096b61666b612d636c6900").unwrap();
    assert_eq!(
        Request::decode(&frame).unwrap_err(),
        Error::UnsupportedApiVersion(0x11, Some(0xdead_beef))
    );

    // too short to even hold a correlation id
    assert_eq!(Request::decode(&[0x00, 0x12]).unwrap_err(), Error::Incomplete);
}

#[test]
fn partition_limit_takes_exactly_four_bytes() {
    assert_eq!(
        ResponsePartitionLimit::mk(&[0x00, 0x00, 0x00, 0x01]),
        Ok(ResponsePartitionLimit::new(1))
    );
    assert_eq!(
        ResponsePartitionLimit::mk(&[0xff, 0xff, 0xff, 0xff]),
        Ok(ResponsePartitionLimit::new(-1))
    );
    assert_eq!(ResponsePartitionLimit::mk(&[]), Err(Error::BadLength));
    assert_eq!(ResponsePartitionLimit::mk(&[0x00, 0x00, 0x00]), Err(Error::BadLength));
    assert_eq!(
        ResponsePartitionLimit::mk(&[0x00, 0x00, 0x00, 0x01, 0x00]),
        Err(Error::BadLength)
    );
}

#[test]
fn describe_topic_partitions_body_decodes() {
    // one topic name "baz", limit 1, no cursor
    let mut body: Vec<u8> = Vec::new();
    body.push(0x02);
    body.push(0x04);
    body.extend(b"baz");
    body.extend([0x00, 0x00, 0x00, 0x01]);
    body.push(0xff);
    let decoded = RequestBody::describe_topic_partitions(&body).expect("decodes");
    match decoded {
        RequestBody::DescribeTopicPartitions { topics, limit, cursor } => {
            assert_eq!(topics.len(), 1);
            assert_eq!(topics[0].value().as_str(), "baz");
            assert_eq!(limit.value(), 1);
            assert!(cursor.is_none());
        },
        _ => panic!("expected a topic-metadata body"),
    }
}
