//! End-to-end scenarios: whole frames in, whole frames out.

use kafka_core::error::Error;
use kafka_core::fetch::{FetchPartition, FetchTopic};
use kafka_core::meta::{Batch, Log, Meta};
use kafka_core::partition::{
    CurrentLeaderEpoch, FetchOffset, LastFetchEpoch, LogStartOffset, PartitionIndex,
    PartitionMaxBytes, RackId,
};
use kafka_core::request::{Request, RequestBody, ResponsePartitionLimit};
use kafka_core::response::{error_response, Response};
use kafka_core::topic::{TopicId, TopicName};
use kafka_core::types::{ApiKey, ClientId, CorrelationId, ErrorCode, Version};
use kafka_core::request::RequestHeader;
use kafka_core::types::{IsolationLevel, MaxBytes, MaxWait, MinBytes, SessionEpoch, SessionId};

fn empty_meta() -> Meta {
    Meta::new(Vec::new())
}

fn metadata_fixture() -> Vec<u8> {
    let bytes_str = "00 00 00 00  00 00 00 01  00 00 00 4f  00 00 00 01  02 b0 69 45  7c 00 00 00  00 00 00 00  00 01 \
        91 e0  5a f8 18 00  00 01 91 e0  5a f8 18 ff  ff ff ff ff  ff ff ff ff  ff ff ff ff  ff 00 00 00  01 3a 00 00  00 01 2e 01  \
        0c 00 11 6d  65 74 61 64  61 74 61 2e  76 65 72 73  69 6f 6e 00  14 00 00 00  00 00 00 00  00 00 02 00  00 00 9a 00  00 00 01\
         02  fb c9 6e 51  00 00 00 00  00 01 00 00  01 91 e0 5b  2d 15 00 00  01 91 e0 5b  2d 15 ff ff  ff ff ff ff  ff ff ff ff  ff ff ff ff  00 00 00 02  3c 00 00 00  01 30 01 02  00 04 62 61  7a 00 00 00  00 00 00 40  00 80 00 00  00 00 00 00  11 00 00 90  01 00 00 02  01 82 01 01  03 01 00 00  00 00 00 00  00 00 00 00  40 00 80 00  00 00 00 00  00 11 02 00  00 00 01 02  00 00 00 01  01 01 00 00  00 01 00 00  00 00 00 00  00 00 02 10  00 00 00 00  00 40 00 80  00 00 00 00  00 00 01 00  00 00 00 00  00 00 00 00  04 00 00 00  9a 00 00 00  01 02 fa d9  f6 43 00 00  00 00 00 01  00 00 01 91  e0 5b 2d 15  00 00 01 91  e0 5b 2d 15  ff ff ff ff  ff ff ff ff  ff ff ff ff  ff ff 00 00  00 02 3c 00  00 00 01 30  01 02 00 04  70 61 78 00  00 00 00 00  00 40 00 80  00 00 00 00  00 00 14 00  00 90 01 00  00 02 01 82  01 01 03 01  00 00 00 00  00 00 00 00  00 00 40 00  80 00 00 00  00 00 00 14  02 00 00 00  01 02 00 00  00 01 01 01  00 00 00 01  00 00 00 00  00 00 00 00  02 10 00 00  00 00 00 40  00 80 00 00  00 00 00 00  01 00 00 00  00 00 00 00  00 00 06 00  00 00 e4 00  00 00 01 02  1d 7d f1 e7  00 00 00 00  00 02 00 00  01 91 e0 5b  2d 15 00 00  01 91 e0 5b  2d 15 ff ff  ff ff ff ff  ff ff ff ff  ff ff ff ff  00 00 00 03  3c 00 00 00  01 30 01 02  00 04 70 61  7a 00 00 00  00 00 00 40  00 80 00 00  00 00 00 00  93 00 00 90  01 00 00 02  01 82 01 01  03 01 00 00  00 00 00 00  00 00 00 00  40 00 80 00  00 00 00 00  00 93 02 00  00 00 01 02  00 00 00 01  01 01 00 00  00 01 00 00  00 00 00 00  00 00 02 10  00 00 00 00  00 40 00 80  00 00 00 00  00 00 01 00  00 90 01 00  00 04 01 82  01 01 03 01  00 00 00 01  00 00 00 00  00 00 40 00  80 00 00 00  00 00 00 93  02 00 00 00  01 02 00 00  00 01 01 01  00 00 00 01  00 00 00 00  00 00 00 00  02 10 00 00  00 00 00 40  00 80 00 00  00 00 00 00  01 00 00".replace(" ", "");
    hex::decode(bytes_str).expect("Invalid hex string")
}

fn partition_log_fixture() -> Vec<u8> {
    let bytes_str = "00 00 00 00  00 00 00 00  00 00 00 44  00 00 00 00  02 ab fd 04  91 00 00 00  00 00 00 00  00 01 91 e0  5b 6d 8b 00  00 01 91 e0  5b 6d 8b 00  00 00 00 00  00 00 00 00  00 00 00 00  00 00 00 00  01 24 00 00  00 01 18 48  65 6c 6c 6f  20 4b 61 66  6b 61 21 00  00 00 00 00  00 00 00 01  00 00 00 52  00 00 00 00  02 8b aa 87  2a 00 00 00  00 00 00 00  00 01 91 e0  5b 6d 8b 00  00 01 91 e0  5b 6d 8b 00  00 00 00 00  00 00 00 00  00 00 00 00  00 00 00 00  01 40 00 00  00 01 34 48  65 6c 6c 6f  20 52 65 76  65 72 73 65  20 45 6e 67  69 6e 65 65  72 69 6e 67  21 00";
    hex::decode(bytes_str.replace(" ", "")).unwrap()
}

fn loaded_meta() -> Meta {
    Meta::new(Batch::split_by_batch(&metadata_fixture()).unwrap())
}

fn contains_subslice(haystack: &[u8], needle: &[u8]) -> bool {
    if needle.is_empty() {
        return true;
    }
    if haystack.len() < needle.len() {
        return false;
    }
    for start in 0..=(haystack.len() - needle.len()) {
        if &haystack[start..start + needle.len()] == needle {
            return true;
        }
    }
    false
}

#[test]
fn api_versions_handshake() {
    // the frame behind a message size of 0x23
    let frame = hex::decode("001200046f7fc66100096b61666b612d636c6900").unwrap();
    let req = Request::decode(&frame).expect("the handshake decodes");
    let resp = Response::response(&req, &empty_meta(), Vec::new()).expect("it is answered");
    let bytes = resp.to_bytes();
    // correlation id, error 0, compact count of four, entries for keys 18,
    // 75 and 1 with their version ranges, throttle, tag
    let body = hex::decode(
        "6f7fc66100000400120000000400004b0000000000000100000010000000000000",
    )
    .unwrap();
    assert_eq!(&bytes[4..], &body[..]);
    assert_eq!(&bytes[0..4], &(body.len() as u32).to_be_bytes());
}

#[test]
fn api_versions_unsupported_version() {
    let frame = hex::decode("001200056f7fc66100096b61666b612d636c6900").unwrap();
    let req = Request::decode(&frame).expect("version five still decodes");
    let err = Response::response(&req, &empty_meta(), Vec::new()).unwrap_err();
    assert_eq!(err, Error::UnsupportedApiVersion(5, Some(0x6f7f_c661)));
    let bytes = match err {
        Error::UnsupportedApiVersion(_, Some(cid)) => error_response(&CorrelationId::new(cid)),
        _ => panic!("the error carries the correlation id"),
    };
    assert_eq!(bytes, hex::decode("0000000a6f7fc6610023").unwrap());
}

#[test]
fn describe_topic_partitions_unknown_topic() {
    let req = Request::new(
        RequestHeader::new(
            ApiKey::DescribeTopicPartitions,
            Version::V0,
            CorrelationId::new(7),
            ClientId::new(String::from("kafka-cli")),
        ),
        RequestBody::DescribeTopicPartitions {
            topics: vec![TopicName::from_str("unknown-topic")],
            limit: ResponsePartitionLimit::new(1),
            cursor: None,
        },
    );
    let resp = Response::response(&req, &empty_meta(), Vec::new()).expect("answered");
    match &resp.body {
        kafka_core::response::ResponseBody::DescribeTopicPartitions { topics, .. } => {
            assert_eq!(topics.len(), 1);
            assert_eq!(topics[0].error_code, ErrorCode::UnknownTopicOrPartition);
            assert_eq!(topics[0].id.value(), &vec![0u8; 16]);
            assert!(topics[0].partitions.is_empty());
        },
        _ => panic!("expected a topic-metadata response"),
    }
}

#[test]
fn describe_topic_partitions_known_topic() {
    let meta = loaded_meta();
    let baz_id = meta.find_topic_id(&TopicName::from_str("baz")).unwrap();
    let req = Request::new(
        RequestHeader::new(
            ApiKey::DescribeTopicPartitions,
            Version::V0,
            CorrelationId::new(7),
            ClientId::new(String::from("kafka-cli")),
        ),
        RequestBody::DescribeTopicPartitions {
            topics: vec![TopicName::from_str("baz")],
            limit: ResponsePartitionLimit::new(1),
            cursor: None,
        },
    );
    let resp = Response::response(&req, &meta, Vec::new()).expect("answered");
    match &resp.body {
        kafka_core::response::ResponseBody::DescribeTopicPartitions { topics, .. } => {
            assert_eq!(topics.len(), 1);
            assert_eq!(topics[0].error_code, ErrorCode::NoError);
            assert_eq!(&topics[0].id, &baz_id);
            assert_eq!(topics[0].partitions.len(), meta.find_partitions(&baz_id).len());
        },
        _ => panic!("expected a topic-metadata response"),
    }
}

fn fetch_request_for(id: TopicId) -> Request {
    Request::new(
        RequestHeader::new(
            ApiKey::Fetch,
            Version::V16,
            CorrelationId::new(9),
            ClientId::new(String::from("kafka-cli")),
        ),
        RequestBody::Fetch {
            max_wait: MaxWait::new(500),
            min_bytes: MinBytes::new(1),
            max_bytes: MaxBytes::new(0x0320_0000),
            isolation_level: IsolationLevel::new(0),
            session_id: SessionId::new(0),
            session_epoch: SessionEpoch::new(0),
            topics: vec![FetchTopic {
                topic_id: id,
                partitions: vec![FetchPartition {
                    partition_index: PartitionIndex::new(0),
                    current_leader_epoch: CurrentLeaderEpoch::new(0),
                    fetch_offset: FetchOffset::new(0),
                    last_fetch_epoch: LastFetchEpoch::new(0),
                    log_start_offset: LogStartOffset::new(0),
                    partition_max_bytes: PartitionMaxBytes::new(0x0010_0000),
                }],
            }],
            forgotten_topics_data: Vec::new(),
            rack_id: RackId::new(String::new()),
        },
    )
}

#[test]
fn fetch_unknown_topic_id() {
    let unknown = TopicId::new(vec![0x53u8; 16]);
    let req = fetch_request_for(unknown);
    let resp = Response::response(&req, &empty_meta(), vec![None]).expect("answered");
    match &resp.body {
        kafka_core::response::ResponseBody::Fetch { responses, .. } => {
            assert_eq!(responses.len(), 1);
            assert_eq!(responses[0].partitions.len(), 1);
            assert_eq!(responses[0].partitions[0].error_code, ErrorCode::UnknownTopic);
            assert_eq!(responses[0].partitions[0].error_code.value(), 100);
            assert!(responses[0].partitions[0].batches.is_empty());
        },
        _ => panic!("expected a fetch response"),
    }
}

#[test]
fn fetch_known_topic_with_batches_on_disk() {
    let meta = loaded_meta();
    let baz_id = meta.find_topic_id(&TopicName::from_str("baz")).unwrap();
    let log = Log::new(Batch::split_by_batch(&partition_log_fixture()).unwrap());
    let req = fetch_request_for(baz_id);
    let resp = Response::response(&req, &meta, vec![Some(log)]).expect("answered");
    match &resp.body {
        kafka_core::response::ResponseBody::Fetch { responses, .. } => {
            assert_eq!(responses[0].partitions[0].error_code, ErrorCode::NoError);
            assert_eq!(responses[0].partitions[0].batches.len(), 2);
        },
        _ => panic!("expected a fetch response"),
    }
    // the loaded batches sit at offsets zero and one already, so the
    // re-emitted record bytes, offsets renumbered and checksums recomputed,
    // are the fixture itself
    let bytes = resp.to_bytes();
    assert!(contains_subslice(&bytes, &partition_log_fixture()));
}
