use nfsserve::nfs::nfsstat3;
use nfsserve::rpcwire::write_fragment;
use nfsserve::tcp::{
    admit_record, fragment_read, fragment_room, generate_host_ip, next_fragment,
    refused_reply_message, reply_action, room_made, Admission, Connection, Plan, RecordError,
    RecordStep, ReplyAction, TransportLimits, GLOBAL_INFLIGHT_BYTES,
};
use nfsserve::text::export_path;

fn limits(requests: usize, record: usize) -> TransportLimits {
    TransportLimits {
        max_inflight_requests: requests,
        max_record_bytes: record,
        connection_inflight_bytes: requests * record,
    }
}

#[test]
fn host_addresses_are_loopback_addresses() {
    assert_eq!(generate_host_ip(0), "127.88.0.0");
    assert_eq!(generate_host_ip(0x0102), "127.88.1.2");
    assert_eq!(generate_host_ip(65535), "127.88.255.255");
    assert_eq!(generate_host_ip(10 * 256 + 100), "127.88.10.100");
}

#[test]
fn export_names_lose_the_slashes_around_them() {
    assert_eq!(export_path("foo"), "/foo");
    assert_eq!(export_path("/foo/"), "/foo");
    assert_eq!(export_path("//a/b//"), "/a/b");
    assert_eq!(export_path(""), "/");
    assert_eq!(export_path("///"), "/");
}

#[test]
fn default_limits() {
    let limits = TransportLimits::default();
    assert_eq!(limits.max_inflight_requests, 32);
    assert_eq!(limits.max_record_bytes, 2 * 1024 * 1024);
    assert_eq!(limits.connection_inflight_bytes, 64 * 1024 * 1024);
    assert_eq!(GLOBAL_INFLIGHT_BYTES, 256 * 1024 * 1024);
    assert!(limits.is_valid());
    assert!(!TransportLimits { max_inflight_requests: 0, ..limits }.is_valid());
    assert!(!TransportLimits { connection_inflight_bytes: 1, ..limits }.is_valid());
}

#[test]
fn oversized_record_is_rejected_before_its_body_is_read() {
    let limits = limits(1, 1024);
    let error = match admit_record(Some(1025_u32 | (1 << 31)), &limits) {
        Err(error) => error,
        Ok(_) => panic!("oversized record was admitted"),
    };
    assert!(error.message().contains("exceeds limit 1024"));
    assert_eq!(error.message(), "RPC record fragment length 1025 exceeds limit 1024");
}

#[test]
fn a_record_is_charged_at_the_limit() {
    let limits = limits(1, 1024);
    match admit_record(Some(3 | (1 << 31)), &limits) {
        Ok(Admission::Reserve { cost, marker }) => {
            assert_eq!(cost, 1024);
            assert_eq!(marker, 3 | (1 << 31));
        }
        _ => panic!("the record fits"),
    }
    assert!(matches!(admit_record(None, &limits), Ok(Admission::End)));
}

#[test]
fn a_limit_beyond_the_credits_is_refused() {
    let limits = limits(1, 1 << 40);
    match admit_record(Some(3 | (1 << 31)), &limits) {
        Err(error) => {
            assert!(matches!(error, RecordError::LimitTooLarge));
            assert_eq!(error.message(), "RPC record limit exceeds semaphore capacity");
        }
        Ok(_) => panic!("the limit has no credits"),
    }
}

#[test]
fn fragments_are_put_together() {
    let first = match next_fragment(Vec::new(), 2, 16) {
        Ok(fill) => fill,
        Err(error) => panic!("{}", error.message()),
    };
    assert_eq!(first.record, vec![0, 0]);
    assert_eq!(first.start, 0);
    assert!(!first.is_last);
    let mut first = first;
    first.record.copy_from_slice(b"ab");
    let record = match fragment_read(first) {
        RecordStep::More(record) => record,
        RecordStep::Complete(_) => panic!("another fragment follows"),
    };
    let mut second = match next_fragment(record, 3 | (1 << 31), 16) {
        Ok(fill) => fill,
        Err(error) => panic!("{}", error.message()),
    };
    assert_eq!(second.start, 2);
    second.record[2..].copy_from_slice(b"cde");
    match fragment_read(second) {
        RecordStep::Complete(record) => assert_eq!(record, b"abcde"),
        RecordStep::More(_) => panic!("this was the last fragment"),
    }
}

#[test]
fn memory_is_reserved_for_the_fragment() {
    let record = b"ab".to_vec();
    assert!(matches!(fragment_room(&record, 3 | (1 << 31), 16), Ok(3)));
    assert!(matches!(fragment_room(&record, 14, 16), Ok(14)));
    match fragment_room(&record, 15, 16) {
        Err(error) => assert_eq!(error.message(), "RPC record length 17 exceeds limit 16"),
        Ok(_) => panic!("the record is too long"),
    }
    match room_made(record, 3 | (1 << 31), Ok(())) {
        Ok(fill) => {
            assert_eq!(fill.record, b"ab\0\0\0");
            assert_eq!(fill.start, 2);
            assert!(fill.is_last);
        }
        Err(error) => panic!("{}", error.message()),
    }
}

#[test]
fn a_record_without_memory_is_refused() {
    let mut bytes: Vec<u8> = Vec::new();
    let lacking = bytes.try_reserve_exact(usize::MAX).unwrap_err();
    match room_made(b"ab".to_vec(), 3, Err(lacking.clone())) {
        Err(RecordError::Reserve(error)) => assert_eq!(error, lacking),
        _ => panic!("there is no memory"),
    }
}

#[test]
fn an_empty_last_fragment_keeps_the_record() {
    match next_fragment(b"abc".to_vec(), 1 << 31, 16) {
        Ok(fill) => {
            assert_eq!(fill.record, b"abc");
            assert!(fill.is_last);
        }
        Err(error) => panic!("{}", error.message()),
    }
}

#[test]
fn a_record_that_grows_beyond_its_limit_is_refused() {
    match next_fragment(vec![0; 10], 7, 16) {
        Err(error) => assert_eq!(error.message(), "RPC record length 17 exceeds limit 16"),
        Ok(_) => panic!("the record is too long"),
    }
    assert!(next_fragment(vec![0; 10], 6, 16).is_ok());
}

#[test]
fn messages_of_the_other_record_errors() {
    assert_eq!(RecordError::LengthOverflow.message(), "RPC record length overflow");
    let mut bytes: Vec<u8> = Vec::new();
    let error = bytes.try_reserve_exact(usize::MAX).unwrap_err();
    assert_eq!(RecordError::Reserve(error).message(), "unable to reserve RPC record");
}

#[test]
fn a_written_record_is_read_back() {
    let mut stream = vec![0xee];
    write_fragment(&mut stream, b"hello");
    assert_eq!(stream, [&[0xee, 0x80, 0, 0, 5][..], b"hello"].concat());
    let marker = u32::from_be_bytes([stream[1], stream[2], stream[3], stream[4]]);
    let mut fill = match next_fragment(Vec::new(), marker, 16) {
        Ok(fill) => fill,
        Err(error) => panic!("{}", error.message()),
    };
    assert!(fill.is_last);
    assert_eq!(fill.record.len(), 5);
    fill.record.copy_from_slice(&stream[5..]);
    match fragment_read(fill) {
        RecordStep::Complete(record) => assert_eq!(record, b"hello"),
        RecordStep::More(_) => panic!("one fragment holds the message"),
    }
}

#[test]
fn replies_are_written_until_the_writer_fails() {
    assert_eq!(reply_action(false, 16, 16), ReplyAction::Write);
    assert_eq!(reply_action(false, 17, 16), ReplyAction::Refuse);
    assert_eq!(reply_action(true, 17, 16), ReplyAction::Discard);
    assert_eq!(refused_reply_message(17, 16), "RPC reply length 17 exceeds limit 16");
}

fn commands_open(connection: &mut Connection<nfsstat3>) -> bool {
    matches!(connection.plan(false), Plan::Wait { commands: true, .. })
}

#[test]
fn write_ingress_stops_at_the_connection_limit() {
    let mut connection: Connection<nfsstat3> = Connection::new(&TransportLimits::default());
    let mut started = 0;
    for _ in 1..=40 {
        if commands_open(&mut connection) {
            connection.record_read(Some(Ok(())));
            started += 1;
        }
    }
    assert_eq!(started, 32);
}

#[test]
fn write_ingress_stops_at_the_byte_limit() {
    const RECORD_LIMIT: usize = 128 * 1024;
    let limits = TransportLimits {
        max_inflight_requests: 8,
        max_record_bytes: RECORD_LIMIT,
        connection_inflight_bytes: 2 * RECORD_LIMIT,
    };
    let mut connection: Connection<nfsstat3> = Connection::new(&limits);
    let mut started = 0;
    for _ in 1..=3 {
        assert!(commands_open(&mut connection));
        if connection.has_credit() {
            connection.record_read(Some(Ok(())));
            started += 1;
        }
    }
    assert_eq!(started, 2, "the byte budget admitted a third RPC");
    assert_eq!(connection.held_bytes(), 2 * RECORD_LIMIT);
    connection.request_served(Ok(true));
    assert!(!connection.has_credit(), "a reply that is not written holds its credits");
    connection.reply_written(Ok(()));
    assert!(connection.has_credit());
}

#[test]
fn bounded_reply_queue_drains_while_input_is_backpressured() {
    let mut connection: Connection<nfsstat3> = Connection::new(&limits(2, 128 * 1024));
    let mut to_read = 8;
    let mut replies_written = 0;
    loop {
        match connection.plan(false) {
            Plan::Finish => break,
            Plan::Wait { replies, requests, commands, .. } => {
                if commands && to_read > 0 {
                    connection.record_read(Some(Ok(())));
                    to_read -= 1;
                } else if requests {
                    connection.request_served(Ok(true));
                } else if replies {
                    connection.reply_written(Ok(()));
                    replies_written += 1;
                } else {
                    assert!(commands);
                    connection.record_read(None);
                }
                assert!(connection.held_bytes() <= 2 * 128 * 1024);
            }
        }
    }
    assert_eq!(replies_written, 8);
    assert_eq!(connection.held_bytes(), 0);
    assert_eq!(connection.into_result(), Ok(()));
}

#[test]
fn disconnect_drains_accepted_writes_and_returns_global_credit() {
    let mut connection: Connection<nfsstat3> = Connection::new(&limits(2, 128 * 1024));
    for _ in 1..=2 {
        assert!(commands_open(&mut connection));
        connection.record_read(Some(Ok(())));
    }
    assert_eq!(
        connection.plan(false),
        Plan::Wait { replies: false, requests: true, cancellation: true, commands: false }
    );
    let global_bytes = 2 * 128 * 1024;
    assert_eq!(global_bytes - connection.held_bytes(), 0);
    connection.request_served(Ok(true));
    connection.reply_written(Err(nfsstat3::NFS3ERR_IO));
    assert_eq!(
        connection.plan(false),
        Plan::Wait { replies: false, requests: true, cancellation: false, commands: false }
    );
    connection.request_served(Ok(true));
    connection.reply_written(Ok(()));
    assert_eq!(connection.plan(false), Plan::Finish);
    assert_eq!(global_bytes - connection.held_bytes(), 2 * 128 * 1024);
    assert_eq!(connection.into_result(), Err(nfsstat3::NFS3ERR_IO));
}

#[test]
fn cancellation_interrupts_an_idle_reader_without_leaking_credit() {
    let mut connection: Connection<nfsstat3> = Connection::new(&limits(1, 1024));
    assert_eq!(
        connection.plan(false),
        Plan::Wait { replies: false, requests: false, cancellation: true, commands: true }
    );
    connection.cancelled();
    assert_eq!(connection.plan(true), Plan::Finish);
    assert_eq!(connection.held_bytes(), 0);
    assert_eq!(connection.into_result(), Ok(()));
}

#[test]
fn cancellation_drains_already_accepted_writes() {
    let mut connection: Connection<nfsstat3> = Connection::new(&limits(2, 128 * 1024));
    connection.record_read(Some(Ok(())));
    connection.record_read(Some(Ok(())));
    let waiting = Plan::Wait { replies: false, requests: true, cancellation: false, commands: false };
    assert_eq!(connection.plan(true), waiting);
    connection.request_served(Ok(true));
    connection.request_served(Ok(false));
    let writing = Plan::Wait { replies: true, requests: false, cancellation: false, commands: false };
    assert_eq!(connection.plan(true), writing);
    connection.reply_written(Ok(()));
    assert_eq!(connection.plan(true), Plan::Finish);
    assert_eq!(connection.held_bytes(), 0);
    assert_eq!(connection.into_result(), Ok(()));
}

#[test]
fn the_first_error_is_kept() {
    let mut connection: Connection<nfsstat3> = Connection::new(&limits(2, 1024));
    connection.record_read(Some(Ok(())));
    connection.record_read(Some(Err(nfsstat3::NFS3ERR_IO)));
    connection.request_served(Err(nfsstat3::NFS3ERR_PERM));
    assert_eq!(connection.plan(false), Plan::Finish);
    assert_eq!(connection.into_result(), Err(nfsstat3::NFS3ERR_IO));
}
