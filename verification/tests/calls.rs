use nfsserve::nfs::{fattr3, nfsstat3};
use nfsserve::rpc::{
    auth_unix, prog_unavail_reply_message, rpc_body, rpc_msg, rpc_vers_mismatch,
};
use nfsserve::rpcwire::{handle_rpc, Peer, RpcError, RpcStep};
use nfsserve::tcp::MAX_RPC_RECORD_BYTES;
use nfsserve::transaction_tracker::TransactionTracker;
use nfsserve::vfs::{
    default_write_verf, fh_to_id, file_sync_result, FsAnswer, FsRequest, ReadDirResult,
    VFSCapabilities,
};
use nfsserve::xdr::{Input, XdrError};
use std::time::Duration;

struct CountingFs {
    reads: usize,
    writes: usize,
    readdir_calls: usize,
    readdir_max_entries: usize,
    uid: u32,
}

impl CountingFs {
    fn new() -> CountingFs {
        CountingFs { reads: 0, writes: 0, readdir_calls: 0, readdir_max_entries: 0, uid: 0 }
    }

    fn answer(&mut self, request: FsRequest) -> FsAnswer {
        match request {
            FsRequest::Capabilities => FsAnswer::Capabilities(VFSCapabilities::ReadWrite),
            FsRequest::FhToId { handle } => FsAnswer::Id(fh_to_id(0, handle)),
            FsRequest::Getattr { auth, .. } => {
                self.uid = auth.uid;
                FsAnswer::Attr(Ok(fattr3::default()))
            }
            FsRequest::Read { .. } => {
                self.reads += 1;
                FsAnswer::Bytes(Err(nfsstat3::NFS3ERR_NOTSUPP))
            }
            FsRequest::Write { .. } => {
                self.writes += 1;
                FsAnswer::Written(file_sync_result(Ok(fattr3::default()), default_write_verf()))
            }
            FsRequest::Readdir { max_entries, .. } => {
                self.readdir_calls += 1;
                self.readdir_max_entries = max_entries;
                FsAnswer::Listing(Ok(ReadDirResult { entries: Vec::new(), end: true }))
            }
            _ => panic!("nothing else is asked"),
        }
    }
}

fn peer() -> Peer {
    Peer {
        client_addr: "127.0.0.1:12345".to_string(),
        connection_incarnation: 3,
        auth: auth_unix::default(),
    }
}

fn tracker() -> TransactionTracker {
    TransactionTracker::new(Duration::from_secs(60).as_nanos())
}

fn serve(
    fs: &mut CountingFs,
    tracker: &mut TransactionTracker,
    record: Vec<u8>,
) -> Result<Option<Vec<u8>>, RpcError> {
    let mut step = handle_rpc(record, &peer());
    loop {
        step = match step {
            RpcStep::Reply(reply) => return Ok(Some(reply)),
            RpcStep::Drop => return Ok(None),
            RpcStep::Fail(e) => return Err(e),
            RpcStep::Track(call) => call.enter(tracker),
            RpcStep::Portmap(call) => call.settle(Ok(b"portmap".to_vec())),
            RpcStep::Mount(call) => call.settle(Ok(b"mount".to_vec())),
            RpcStep::Ask(call) => {
                let answer = fs.answer(call.request());
                call.resume(answer)
            }
            RpcStep::Settle(settled) => return settled.conclude(tracker).map(Some),
        }
    }
}

fn execute_one_call(fs: &mut CountingFs, call: Vec<u8>) -> Vec<u8> {
    serve(fs, &mut tracker(), call).unwrap().unwrap()
}

fn words(values: &[u32]) -> Vec<u8> {
    values.iter().flat_map(|value| value.to_be_bytes()).collect()
}

fn with_handle(mut call: Vec<u8>) -> Vec<u8> {
    call.extend_from_slice(&16u32.to_be_bytes());
    call.extend_from_slice(&0u64.to_le_bytes());
    call.extend_from_slice(&1u64.to_le_bytes());
    call
}

fn null_call(xid: u32) -> Vec<u8> {
    words(&[xid, 0, 2, 100003, 3, 0, 0, 0, 0, 0])
}

fn write_call(xid: u32, bytes: usize) -> Vec<u8> {
    let mut call = with_handle(words(&[xid, 0, 2, 100003, 3, 7, 0, 0, 0, 0]));
    call.extend_from_slice(&0u64.to_be_bytes());
    call.extend_from_slice(&(bytes as u32).to_be_bytes());
    call.extend_from_slice(&2u32.to_be_bytes());
    call.extend_from_slice(&(bytes as u32).to_be_bytes());
    call.resize(call.len() + bytes, 0xA5);
    call
}

fn read_call(xid: u32, count: u32) -> Vec<u8> {
    let mut call = with_handle(words(&[xid, 0, 2, 100003, 3, 6, 0, 0, 0, 0]));
    call.extend_from_slice(&0u64.to_be_bytes());
    call.extend_from_slice(&count.to_be_bytes());
    call
}

fn readdir_call(xid: u32, plus: bool, dircount: u32, maxcount: u32) -> Vec<u8> {
    let proc = if plus { 17 } else { 16 };
    let mut call = with_handle(words(&[xid, 0, 2, 100003, 3, proc, 0, 0, 0, 0]));
    call.extend_from_slice(&0u64.to_be_bytes());
    call.extend_from_slice(&[0; 8]);
    call.extend_from_slice(&dircount.to_be_bytes());
    if plus {
        call.extend_from_slice(&maxcount.to_be_bytes());
    }
    call
}

fn nfs_status(reply: &[u8]) -> u32 {
    u32::from_be_bytes(reply[24..28].try_into().unwrap())
}

#[test]
fn readdir_caps_client_count_before_calling_the_filesystem() {
    let mut fs = CountingFs::new();
    execute_one_call(&mut fs, readdir_call(1, false, u32::MAX, 0));

    assert_eq!(fs.readdir_calls, 1);
    assert!(fs.readdir_max_entries <= (MAX_RPC_RECORD_BYTES - 128) / 16);
}

#[test]
fn readdirplus_caps_both_client_counts_before_calling_the_filesystem() {
    let mut fs = CountingFs::new();
    execute_one_call(&mut fs, readdir_call(1, true, u32::MAX, u32::MAX));

    assert_eq!(fs.readdir_calls, 1);
    assert!(fs.readdir_max_entries <= (MAX_RPC_RECORD_BYTES - 128) / 16);
}

#[test]
fn readdir_rejects_counts_that_cannot_fit_required_entries() {
    for count in [127, 128, 129, 143, 144, 159] {
        let mut fs = CountingFs::new();
        let reply = execute_one_call(&mut fs, readdir_call(1, false, count, 0));

        assert_eq!(nfs_status(&reply), nfsstat3::NFS3ERR_TOOSMALL.to_u32(), "count {count}");
        assert_eq!(fs.readdir_calls, 0, "count {count}");
    }
}

#[test]
fn readdirplus_rejects_counts_that_cannot_fit_required_entries() {
    for count in [127, 128, 129, 143, 144, 159] {
        let mut fs = CountingFs::new();
        let reply = execute_one_call(&mut fs, readdir_call(1, true, count, count));

        assert_eq!(nfs_status(&reply), nfsstat3::NFS3ERR_TOOSMALL.to_u32(), "count {count}");
        assert_eq!(fs.readdir_calls, 0, "count {count}");
    }
}

#[test]
fn readdir_accepts_the_minimum_progress_budget() {
    for plus in [false, true] {
        let mut fs = CountingFs::new();
        let reply = execute_one_call(&mut fs, readdir_call(1, plus, 160, 160));

        assert_eq!(nfs_status(&reply), nfsstat3::NFS3_OK.to_u32());
        assert_eq!(fs.readdir_calls, 1);
        assert_eq!(fs.readdir_max_entries, 2);
    }
}

#[test]
fn an_oversized_read_call_is_answered_without_a_read() {
    let mut fs = CountingFs::new();
    let reply = execute_one_call(&mut fs, read_call(1, 1024 * 1024 + 1));
    assert_eq!(nfs_status(&reply), nfsstat3::NFS3ERR_INVAL.to_u32());
    assert_eq!(fs.reads, 0);
    execute_one_call(&mut fs, read_call(2, 1024 * 1024));
    assert_eq!(fs.reads, 1);
}

#[test]
fn retransmissions_share_one_bounded_transaction() {
    let mut fs = CountingFs::new();
    let mut tracker = tracker();
    let mut replies = 0;
    for _ in 0..100 {
        if serve(&mut fs, &mut tracker, null_call(7)).unwrap().is_some() {
            replies += 1;
        }
    }
    assert_eq!(replies, 1);
    assert_eq!(tracker.len(), 1);
}

#[test]
fn a_retransmitted_write_is_carried_out_once() {
    let mut fs = CountingFs::new();
    let mut tracker = tracker();
    let reply = serve(&mut fs, &mut tracker, write_call(1, 64 * 1024)).unwrap().unwrap();
    assert_eq!(nfs_status(&reply), 0);
    assert_eq!(serve(&mut fs, &mut tracker, write_call(1, 64 * 1024)), Ok(None));
    assert_eq!(fs.writes, 1);
}

#[test]
fn a_call_that_fails_is_processed_all_the_same() {
    let mut fs = CountingFs::new();
    let mut tracker = tracker();
    let mut call = null_call(5);
    call[23] = 1;
    assert_eq!(
        serve(&mut fs, &mut tracker, call.clone()),
        Err(RpcError::Decode(XdrError::UnexpectedEof))
    );
    assert_eq!(serve(&mut fs, &mut tracker, call), Ok(None));
}

#[test]
fn a_call_is_marked_under_the_identity_it_was_checked_under() {
    let mut tracker = TransactionTracker::new_with_capacity(100, 8);
    let settled = match handle_rpc(null_call(5), &peer()) {
        RpcStep::Track(call) => match call.enter_at(&mut tracker, 10) {
            RpcStep::Settle(settled) => settled,
            _ => panic!("NULL asks for nothing"),
        },
        _ => panic!("the call is tracked"),
    };
    assert!(tracker.is_retransmission_at(1000, 3, 5, "127.0.0.1:12345"));
    assert_eq!(settled.conclude_at(&mut tracker, 2000), Ok(words(&[5, 1, 0, 0, 0, 0])));
    assert_eq!(tracker.len(), 1);
    match handle_rpc(null_call(5), &peer()) {
        RpcStep::Track(call) => {
            assert!(matches!(call.enter_at(&mut tracker, 2099), RpcStep::Drop));
        }
        _ => panic!("the call is tracked"),
    }
    match handle_rpc(null_call(5), &peer()) {
        RpcStep::Track(call) => {
            assert!(matches!(call.enter_at(&mut tracker, 2100), RpcStep::Settle(_)));
        }
        _ => panic!("the call is tracked"),
    }
}

#[test]
fn an_answer_of_another_kind_settles_the_call() {
    let mut tracker = tracker();
    let pending = match handle_rpc(with_handle(words(&[1, 0, 2, 100003, 3, 1, 0, 0, 0, 0])), &peer())
    {
        RpcStep::Track(call) => match call.enter(&mut tracker) {
            RpcStep::Ask(pending) => pending,
            _ => panic!("GETATTR asks for its file"),
        },
        _ => panic!("the call is tracked"),
    };
    match pending.resume(FsAnswer::Capabilities(VFSCapabilities::ReadWrite)) {
        RpcStep::Settle(settled) => {
            assert_eq!(settled.conclude(&mut tracker), Err(RpcError::UnexpectedAnswer));
        }
        _ => panic!("the call is over"),
    }
    assert_eq!(tracker.len(), 1);
}

#[test]
fn programs_that_nobody_serves_are_unavailable() {
    for program in [100227, 100270, 200024, 4711] {
        let mut fs = CountingFs::new();
        let call = words(&[9, 0, 2, program, 3, 0, 0, 0, 0, 0]);
        assert_eq!(execute_one_call(&mut fs, call), prog_unavail_reply_message(9));
    }
    assert_eq!(
        prog_unavail_reply_message(9),
        words(&[9, 1, 0, 0, 0, 1])
    );
}

#[test]
fn other_programs_are_handed_on() {
    let mut fs = CountingFs::new();
    let call = words(&[9, 0, 2, 100000, 2, 0, 0, 0, 0, 0]);
    assert_eq!(execute_one_call(&mut fs, call), b"portmap");
    let call = words(&[9, 0, 2, 100005, 3, 0, 0, 0, 0, 0]);
    assert_eq!(execute_one_call(&mut fs, call), b"mount");
}

#[test]
fn a_program_that_fails_leaves_its_call_processed() {
    let mut tracker = TransactionTracker::new_with_capacity(100, 1);
    let call = words(&[9, 0, 2, 100005, 3, 0, 0, 0, 0, 0]);
    let step = match handle_rpc(call, &peer()) {
        RpcStep::Track(call) => match call.enter_at(&mut tracker, 1) {
            RpcStep::Mount(call) => call.settle(Err(RpcError::ProgramFailed)),
            _ => panic!("the mount protocol serves the call"),
        },
        _ => panic!("the call is tracked"),
    };
    match step {
        RpcStep::Settle(settled) => {
            assert_eq!(settled.conclude_at(&mut tracker, 2), Err(RpcError::ProgramFailed));
        }
        _ => panic!("the call is over"),
    }
    // The only place is free for another call.
    assert!(!tracker.is_retransmission_at(3, 3, 10, "127.0.0.1:12345"));
}

#[test]
fn another_protocol_version_is_denied_without_tracking() {
    let mut tracker = tracker();
    let call = words(&[9, 0, 3, 100003, 3, 0, 0, 0, 0, 0]);
    let reply = serve(&mut CountingFs::new(), &mut tracker, call).unwrap().unwrap();
    assert_eq!(reply, rpc_vers_mismatch(9));
    assert_eq!(reply, words(&[9, 1, 1, 0, 2, 2]));
    assert_eq!(tracker.len(), 0);
}

#[test]
fn replies_and_other_messages_are_no_calls() {
    let mut fs = CountingFs::new();
    assert_eq!(
        serve(&mut fs, &mut tracker(), words(&[9, 1, 0, 0, 0, 0])),
        Err(RpcError::NotACall)
    );
    assert_eq!(
        serve(&mut fs, &mut tracker(), words(&[9, 2])),
        Err(RpcError::Decode(XdrError::InvalidEnum))
    );
    assert_eq!(
        serve(&mut fs, &mut tracker(), words(&[9])),
        Err(RpcError::Decode(XdrError::UnexpectedEof))
    );
    assert_eq!(
        serve(&mut fs, &mut tracker(), words(&[9, 0, 2, 100003, 3, 0, 7, 0, 0, 0])),
        Err(RpcError::Decode(XdrError::InvalidEnum))
    );
}

#[test]
fn a_unix_credential_names_the_caller() {
    let body = words(&[0, 3, 0x61626300, 1000, 100, 2, 100, 20]);
    let mut call = words(&[1, 0, 2, 100003, 3, 1, 1, body.len() as u32]);
    call.extend_from_slice(&body);
    call.extend_from_slice(&words(&[0, 0]));
    let call = with_handle(call);
    let mut fs = CountingFs::new();
    execute_one_call(&mut fs, call.clone());
    assert_eq!(fs.uid, 1000);
    match handle_rpc(call, &peer()) {
        RpcStep::Track(call) => {
            assert_eq!(call.context.auth.gid, 100);
            assert_eq!(call.context.auth.gids, vec![100, 20]);
            assert_eq!(call.context.rpc.client_addr, "127.0.0.1:12345");
            assert_eq!(call.context.rpc.connection_incarnation, 3);
        }
        _ => panic!("the call is tracked"),
    }
    // A credential that is cut short fails, whatever the version.
    let mut short = words(&[1, 0, 3, 100003, 3, 1, 1, 8]);
    short.extend_from_slice(&words(&[0, 3, 0, 0]));
    assert_eq!(
        serve(&mut fs, &mut tracker(), short),
        Err(RpcError::Decode(XdrError::UnexpectedEof))
    );
}

#[test]
fn the_parts_of_a_call_are_decoded() {
    let mut input = Input::new(null_call(7));
    let msg = rpc_msg::deserialize(&mut input).unwrap();
    assert_eq!(msg.xid, 7);
    match msg.body {
        rpc_body::CALL(call) => {
            assert_eq!((call.rpcvers, call.prog, call.vers, call.proc), (2, 100003, 3, 0));
        }
        rpc_body::REPLY => panic!("this is a call"),
    }
    assert!(input.into_rest().is_empty());
}
