use nfsserve::nfs::{
    fattr3, fsinfo3, fsstat3, ftype3, nfs_fh3, nfsstat3, nfsstring, nfstime3, post_op_attr,
    post_op_fh3, pre_op_attr, specdata3, stable_how, wcc_attr, wcc_data, writeverf3,
};
use nfsserve::nfs_args::{
    createmode3, devicedata3, diropargs3, mknoddata3, sattr3, sattrguard3, set_mode3, symlinkdata3,
    COMMIT3args, LINK3args, MKDIR3args, MKNOD3args, READ3args, READDIR3args, READDIRPLUS3args,
    RENAME3args, SETATTR3args, SYMLINK3args, WRITE3args,
};
use nfsserve::nfs_handlers::readdir::{entry_capacity, fits_with_tail};
use nfsserve::nfs_handlers::{handle_nfs, nfsproc3_null, Step};
use nfsserve::rpc::{
    garbage_args_reply_message, make_success_reply, proc_unavail_reply_message,
    prog_mismatch_reply_message,
};
use nfsserve::vfs::{
    default_fsinfo, default_fsstat, fh_to_id, id_to_fh, AuthContext, CallContext, CommitResult,
    DirEntry, FsAnswer, FsRequest, ReadDirResult, RpcRequestContext, VFSCapabilities, WriteResult,
};
use nfsserve::xdr::{Input, XdrError};

const XID: u32 = 0xabcd;

fn context(xid: u32, connection_incarnation: u64) -> CallContext {
    CallContext {
        rpc: RpcRequestContext {
            xid,
            client_addr: "127.0.0.1:51000".to_string(),
            connection_incarnation,
        },
        auth: AuthContext { uid: 1000, gid: 100, gids: vec![100, 20] },
    }
}

fn attr(id: u64, size: u64) -> fattr3 {
    fattr3 {
        fileid: id,
        size,
        mtime: nfstime3 { seconds: 90, nseconds: 100 },
        ctime: nfstime3 { seconds: 90, nseconds: 101 },
        ..fattr3::default()
    }
}

fn before(id: u64, size: u64) -> pre_op_attr {
    let a = attr(id, size);
    pre_op_attr::attributes(wcc_attr { size: a.size, mtime: a.mtime, ctime: a.ctime })
}

fn wcc(id: u64) -> wcc_data {
    wcc_data { before: before(id, 512), after: post_op_attr::attributes(attr(id, 512)) }
}

/// A file system that records what is asked of it, and in which every operation
/// succeeds unless a name or a number says otherwise.
struct World {
    read_only: bool,
    getattr_fails: bool,
    fails: Option<nfsstat3>,
    exists: bool,
    listing: Vec<(u64, Vec<u8>)>,
    end: bool,
    context: CallContext,
    log: Vec<String>,
}

impl World {
    fn new() -> World {
        World {
            read_only: false,
            getattr_fails: false,
            fails: None,
            exists: false,
            listing: Vec::new(),
            end: true,
            context: context(XID, 77),
            log: Vec::new(),
        }
    }

    fn done<T>(&self, value: T) -> Result<T, nfsstat3> {
        match self.fails {
            Some(stat) => Err(stat),
            None => Ok(value),
        }
    }

    fn answer(&mut self, request: FsRequest) -> FsAnswer {
        let (line, answer) = match request {
            FsRequest::Capabilities => (
                "capabilities".to_string(),
                FsAnswer::Capabilities(if self.read_only {
                    VFSCapabilities::ReadOnly
                } else {
                    VFSCapabilities::ReadWrite
                }),
            ),
            FsRequest::FhToId { handle } => {
                ("fh_to_id".to_string(), FsAnswer::Id(fh_to_id(0, handle)))
            }
            FsRequest::IdToFh { id } => {
                (format!("id_to_fh {id}"), FsAnswer::Handle(id_to_fh(0, id)))
            }
            FsRequest::Getattr { id, auth } => {
                assert_eq!(auth.uid, 1000);
                let found =
                    if self.getattr_fails { Err(nfsstat3::NFS3ERR_IO) } else { Ok(attr(id, 512)) };
                (format!("getattr {id}"), FsAnswer::Attr(found))
            }
            FsRequest::Setattr { id, attr: set, .. } => (
                format!("setattr {id} {:?}", set.mode),
                FsAnswer::Attr(self.done(attr(id, 99))),
            ),
            FsRequest::Lookup { dirid, name, .. } => {
                let found = if self.exists { Ok(55) } else { Err(nfsstat3::NFS3ERR_NOENT) };
                (format!("lookup {dirid} {}", text(name)), FsAnswer::Id(found))
            }
            FsRequest::Read { id, offset, count, .. } => (
                format!("read {id} {offset} {count}"),
                FsAnswer::Bytes(self.done((b"data".to_vec(), true))),
            ),
            FsRequest::Write { write_context, auth, id, offset, data } => {
                assert_eq!(auth, &self.context.auth);
                assert_eq!(write_context.rpc, self.context.rpc);
                (
                    format!("write {id} {offset} {data:?} {:?}", write_context.requested_stability),
                    FsAnswer::Written(self.done(WriteResult {
                        attributes: attr(id, offset + data.len() as u64),
                        committed: stable_how::UNSTABLE,
                        verifier: [9, 8, 7, 6, 5, 4, 3, 2],
                    })),
                )
            }
            FsRequest::Create { dirid, name, attr: set, .. } => (
                format!("create {dirid} {} {:?}", text(name), set.mode),
                FsAnswer::Created(self.done((70, attr(70, 0)))),
            ),
            FsRequest::CreateExclusive { dirid, name, .. } => (
                format!("create_exclusive {dirid} {}", text(name)),
                FsAnswer::Id(self.done(70)),
            ),
            FsRequest::Mkdir { dirid, name, attr: set, .. } => (
                format!("mkdir {dirid} {} {:?}", text(name), set.mode),
                FsAnswer::Created(self.done((70, attr(70, 0)))),
            ),
            FsRequest::Remove { dirid, name, .. } => {
                (format!("remove {dirid} {}", text(name)), FsAnswer::Done(self.done(())))
            }
            FsRequest::Rename { from_dirid, from_name, to_dirid, to_name, .. } => (
                format!("rename {from_dirid} {} {to_dirid} {}", text(from_name), text(to_name)),
                FsAnswer::Done(self.done(())),
            ),
            FsRequest::Readdir { dirid, start_after, max_entries, .. } => {
                let entries = self
                    .listing
                    .iter()
                    .map(|(id, name)| DirEntry {
                        fileid: *id,
                        name: nfsstring(name.clone()),
                        attr: attr(id + 1000, 1),
                        cookie: id * 2,
                    })
                    .collect();
                let listing = ReadDirResult { entries, end: self.end };
                (
                    format!("readdir {dirid} {start_after} {max_entries}"),
                    FsAnswer::Listing(self.done(listing)),
                )
            }
            FsRequest::Symlink { dirid, name, target, attr: set, .. } => (
                format!("symlink {dirid} {} {} {:?}", text(name), text(target), set.mode),
                FsAnswer::Created(self.done((70, attr(70, 0)))),
            ),
            FsRequest::Readlink { id, .. } => (
                format!("readlink {id}"),
                FsAnswer::Path(self.done(nfsstring(b"target".to_vec()))),
            ),
            FsRequest::Mknod { dirid, name, ftype, attr: set, spec, .. } => (
                format!("mknod {dirid} {} {ftype:?} {:?} {spec:?}", text(name), set.mode),
                FsAnswer::Created(self.done((70, attr(70, 0)))),
            ),
            FsRequest::Link { id, dirid, name, .. } => {
                (format!("link {id} {dirid} {}", text(name)), FsAnswer::Done(self.done(())))
            }
            FsRequest::Commit { commit_context, auth, id, offset, count } => {
                assert_eq!(auth, &self.context.auth);
                assert_eq!(commit_context.rpc, self.context.rpc);
                (
                    format!("commit {id} {offset} {count}"),
                    FsAnswer::Committed(
                        self.done(CommitResult { verifier: [1, 2, 3, 4, 5, 6, 7, 8] }),
                    ),
                )
            }
            FsRequest::Fsinfo { id, .. } => (
                format!("fsinfo {id}"),
                FsAnswer::Fsinfo(self.done(default_fsinfo(&Ok(attr(id, 512))))),
            ),
            FsRequest::Fsstat { id, .. } => (
                format!("fsstat {id}"),
                FsAnswer::Fsstat(self.done(default_fsstat(&Ok(attr(id, 512))))),
            ),
        };
        self.log.push(line);
        answer
    }

    fn serve(&mut self, proc: u32, args: Vec<u8>) -> Result<Vec<u8>, XdrError> {
        let context = self.context.clone();
        let xid = context.rpc.xid;
        let mut step = handle_nfs(xid, 3, proc, Input::new(args));
        loop {
            match step {
                Step::Reply(reply) => return Ok(reply),
                Step::Fail(e) => return Err(e),
                Step::Unexpected => panic!("the answer was of another kind"),
                Step::Ask(call) => {
                    let answer = self.answer(call.request(&context));
                    assert!(answer.is_encodable());
                    step = call.resume(xid, answer);
                }
            }
        }
    }
}

fn text(name: &nfsstring) -> String {
    String::from_utf8(name.0.clone()).unwrap()
}

fn fh(id: u64) -> nfs_fh3 {
    id_to_fh(0, id)
}

fn name(text: &str) -> nfsstring {
    nfsstring(text.as_bytes().to_vec())
}

fn dirop(dir: u64, text: &str) -> diropargs3 {
    diropargs3 { dir: fh(dir), name: name(text) }
}

fn bad_dirop(text: &str) -> diropargs3 {
    diropargs3 { dir: nfs_fh3 { data: vec![1, 2, 3] }, name: name(text) }
}

fn encoded_fh(fh: &nfs_fh3) -> Vec<u8> {
    let mut out = Vec::new();
    fh.serialize(&mut out);
    out
}

fn encoded_dirop(args: &diropargs3) -> Vec<u8> {
    let mut out = Vec::new();
    args.serialize(&mut out);
    out
}

fn status(stat: nfsstat3) -> Vec<u8> {
    let mut out = make_success_reply(XID);
    stat.serialize(&mut out);
    out
}

fn with_attr(stat: nfsstat3, attr: post_op_attr) -> Vec<u8> {
    let mut out = status(stat);
    attr.serialize(&mut out);
    out
}

fn with_wcc(stat: nfsstat3, wcc: wcc_data) -> Vec<u8> {
    let mut out = status(stat);
    wcc.serialize(&mut out);
    out
}

fn known(id: u64) -> post_op_attr {
    post_op_attr::attributes(attr(id, 512))
}

const BAD: nfsstat3 = nfsstat3::NFS3ERR_BADHANDLE;

#[test]
fn null_appends_a_bare_success() {
    let mut output = vec![1, 2];
    nfsproc3_null(7, &mut output);
    assert_eq!(output[..2], [1, 2]);
    assert_eq!(output[2..], make_success_reply(7)[..]);
    assert_eq!(World::new().serve(0, vec![]).unwrap(), make_success_reply(XID));
}

#[test]
fn unknown_procedures_are_unavailable() {
    for proc in [22, 23, u32::MAX] {
        let mut world = World::new();
        assert_eq!(world.serve(proc, vec![]).unwrap(), proc_unavail_reply_message(XID));
        assert!(world.log.is_empty());
    }
}

#[test]
fn another_version_is_a_mismatch() {
    match handle_nfs(9, 4, 1, Input::new(vec![])) {
        Step::Reply(reply) => assert_eq!(reply, prog_mismatch_reply_message(9, 3)),
        _ => panic!("only version 3 is served"),
    }
}

#[test]
fn arguments_that_end_early_fail_without_a_reply() {
    for proc in [1, 3, 4, 5, 6, 11, 15, 16, 17, 18, 19, 20, 21] {
        let mut world = World::new();
        assert_eq!(world.serve(proc, vec![0, 0, 0]), Err(XdrError::UnexpectedEof), "{proc}");
        assert!(world.log.is_empty());
    }
    for proc in [2, 7, 8, 9, 10, 12, 13, 14] {
        let mut world = World::new();
        assert_eq!(world.serve(proc, vec![0, 0, 0]), Err(XdrError::UnexpectedEof), "{proc}");
        assert_eq!(world.log, ["capabilities"]);
    }
}

#[test]
fn a_file_system_that_cannot_be_written_is_left_alone() {
    for proc in [2, 7, 8, 9, 10, 12, 13, 14] {
        let mut world = World::new();
        world.read_only = true;
        // RENAME tells of two directories.
        let mut expected = with_wcc(nfsstat3::NFS3ERR_ROFS, wcc_data::default());
        if proc == 14 {
            wcc_data::default().serialize(&mut expected);
        }
        assert_eq!(world.serve(proc, vec![]).unwrap(), expected, "{proc}");
        assert_eq!(world.log, ["capabilities"]);
    }
}

#[test]
fn getattr_answers_with_attributes_or_status() {
    let mut world = World::new();
    let mut expected = status(nfsstat3::NFS3_OK);
    attr(8, 512).serialize(&mut expected);
    assert_eq!(world.serve(1, encoded_fh(&fh(8))).unwrap(), expected);
    assert_eq!(world.log, ["fh_to_id", "getattr 8"]);
    world.getattr_fails = true;
    assert_eq!(world.serve(1, encoded_fh(&fh(8))).unwrap(), status(nfsstat3::NFS3ERR_IO));
    assert_eq!(world.serve(1, encoded_fh(&nfs_fh3 { data: vec![] })).unwrap(), status(BAD));
}

#[test]
fn lookup_answers_with_the_object_and_the_directory() {
    let mut world = World::new();
    world.exists = true;
    let reply = world.serve(3, encoded_dirop(&dirop(8, "name"))).unwrap();
    let mut expected = status(nfsstat3::NFS3_OK);
    fh(55).serialize(&mut expected);
    known(55).serialize(&mut expected);
    known(8).serialize(&mut expected);
    assert_eq!(reply, expected);
    assert_eq!(world.log, ["fh_to_id", "getattr 8", "lookup 8 name", "getattr 55", "id_to_fh 55"]);
    world.exists = false;
    assert_eq!(
        world.serve(3, encoded_dirop(&dirop(8, "name"))).unwrap(),
        with_attr(nfsstat3::NFS3ERR_NOENT, known(8))
    );
    assert_eq!(
        world.serve(3, encoded_dirop(&bad_dirop("name"))).unwrap(),
        with_attr(BAD, post_op_attr::Void)
    );
}

fn access_args(access: u32) -> Vec<u8> {
    let mut args = encoded_fh(&fh(8));
    args.extend_from_slice(&access.to_be_bytes());
    args
}

#[test]
fn access_is_cut_where_nothing_can_be_written() {
    let mut world = World::new();
    let mut expected = with_attr(nfsstat3::NFS3_OK, known(8));
    expected.extend_from_slice(&0x3f_u32.to_be_bytes());
    assert_eq!(world.serve(4, access_args(0x3f)).unwrap(), expected);
    assert_eq!(world.log, ["fh_to_id", "getattr 8", "capabilities"]);
    world.read_only = true;
    world.getattr_fails = true;
    let mut expected = with_attr(nfsstat3::NFS3_OK, post_op_attr::Void);
    expected.extend_from_slice(&3_u32.to_be_bytes());
    assert_eq!(world.serve(4, access_args(0x3f)).unwrap(), expected);
}

#[test]
fn readlink_answers_with_the_path() {
    let mut world = World::new();
    let mut expected = with_attr(nfsstat3::NFS3_OK, known(8));
    name("target").serialize(&mut expected);
    assert_eq!(world.serve(5, encoded_fh(&fh(8))).unwrap(), expected);
    world.fails = Some(nfsstat3::NFS3ERR_INVAL);
    assert_eq!(
        world.serve(5, encoded_fh(&fh(8))).unwrap(),
        with_attr(nfsstat3::NFS3ERR_INVAL, known(8))
    );
    world.getattr_fails = true;
    assert_eq!(
        world.serve(5, encoded_fh(&fh(8))).unwrap(),
        with_attr(nfsstat3::NFS3ERR_IO, post_op_attr::Void)
    );
    assert_eq!(
        world.serve(5, encoded_fh(&nfs_fh3 { data: vec![] })).unwrap(),
        with_attr(BAD, post_op_attr::Void)
    );
}

fn read_args(count: u32) -> Vec<u8> {
    let mut args = Vec::new();
    READ3args { file: fh(8), offset: 4096, count }.serialize(&mut args);
    args
}

#[test]
fn read_answers_with_the_bytes() {
    let mut world = World::new();
    let reply = world.serve(6, read_args(1024 * 1024)).unwrap();
    let mut expected = with_attr(nfsstat3::NFS3_OK, known(8));
    expected.extend_from_slice(&[0, 0, 0, 4, 0, 0, 0, 1, 0, 0, 0, 4]);
    expected.extend_from_slice(b"data");
    assert_eq!(reply, expected);
    assert_eq!(world.log, ["fh_to_id", "getattr 8", "read 8 4096 1048576"]);
    world.fails = Some(nfsstat3::NFS3ERR_ISDIR);
    assert_eq!(
        world.serve(6, read_args(4)).unwrap(),
        with_attr(nfsstat3::NFS3ERR_ISDIR, known(8))
    );
}

#[test]
fn oversized_read_is_rejected_before_entering_the_filesystem() {
    let mut world = World::new();
    let reply = world.serve(6, read_args(1024 * 1024 + 1)).unwrap();
    assert_eq!(reply, with_attr(nfsstat3::NFS3ERR_INVAL, post_op_attr::Void));
    assert_eq!(world.log.len(), 0);
}

fn write_args(id: u64, stable: u32, count: u32, data: &[u8]) -> Vec<u8> {
    let mut args = Vec::new();
    WRITE3args { file: fh(id), offset: 4096, count, stable, data: data.to_vec() }
        .serialize(&mut args);
    args
}

#[test]
fn write_forwards_context_and_result_reaches_the_wire() {
    let verifier: writeverf3 = [9, 8, 7, 6, 5, 4, 3, 2];
    let mut world = World::new();
    let fileid: u64 = 42;
    let data = b"some bytes".to_vec();

    let request = write_args(fileid, stable_how::DATA_SYNC.to_u32(), data.len() as u32, &data);
    let output = world.serve(7, request).unwrap();

    let writes: Vec<&String> = world.log.iter().filter(|line| line.starts_with("write")).collect();
    assert_eq!(writes.len(), 1);
    assert_eq!(*writes[0], format!("write {fileid} 4096 {data:?} DATA_SYNC"));

    let mut expected = with_wcc(
        nfsstat3::NFS3_OK,
        wcc_data {
            before: before(fileid, 512),
            after: post_op_attr::attributes(attr(fileid, 4096 + data.len() as u64)),
        },
    );
    expected.extend_from_slice(&(data.len() as u32).to_be_bytes());
    expected.extend_from_slice(&stable_how::UNSTABLE.to_u32().to_be_bytes());
    expected.extend_from_slice(&verifier);
    assert_eq!(output, expected);
}

#[test]
fn write_with_invalid_stable_how_returns_garbage_args() {
    let xid = 99;
    let mut world = World::new();
    world.context = context(xid, 1);
    let data = b"abc".to_vec();
    let mut request = Vec::new();
    WRITE3args {
        file: fh(7),
        offset: 0,
        count: data.len() as u32,
        stable: 3, // not a valid stable_how value
        data,
    }
    .serialize(&mut request);
    let output = world.serve(7, request).unwrap();
    assert_eq!(world.log, ["capabilities"]);
    assert_eq!(output, garbage_args_reply_message(xid));
}

#[test]
fn write_of_another_length_than_its_data_is_garbage() {
    let mut world = World::new();
    assert_eq!(world.serve(7, write_args(7, 2, 4, b"abc")).unwrap(), garbage_args_reply_message(XID));
    assert_eq!(
        world.serve(7, write_args(7, 2, 1024 * 1024 + 1, b"abc")).unwrap(),
        with_wcc(nfsstat3::NFS3ERR_INVAL, wcc_data::default())
    );
    assert_eq!(world.log, ["capabilities", "capabilities"]);
}

#[test]
fn write_that_fails_tells_nothing_of_the_file() {
    let mut world = World::new();
    world.fails = Some(nfsstat3::NFS3ERR_NOSPC);
    assert_eq!(
        world.serve(7, write_args(7, 2, 3, b"abc")).unwrap(),
        with_wcc(nfsstat3::NFS3ERR_NOSPC, wcc_data::default())
    );
}

fn commit_args() -> Vec<u8> {
    let mut args = Vec::new();
    COMMIT3args { file: fh(8), offset: 100, count: 200 }.serialize(&mut args);
    args
}

#[test]
fn commit_forwards_context_and_verifier_reaches_the_wire() {
    let xid = 0x1234;
    let mut world = World::new();
    world.context = context(xid, 5);
    let output = world.serve(21, commit_args()).unwrap();
    assert_eq!(
        world.log,
        ["capabilities", "fh_to_id", "getattr 8", "commit 8 100 200", "getattr 8"]
    );
    let mut expected = make_success_reply(xid);
    nfsstat3::NFS3_OK.serialize(&mut expected);
    wcc(8).serialize(&mut expected);
    expected.extend_from_slice(&[1, 2, 3, 4, 5, 6, 7, 8]);
    assert_eq!(output, expected);
}

#[test]
fn commit_that_fails_tells_nothing_of_the_file() {
    let mut world = World::new();
    world.fails = Some(nfsstat3::NFS3ERR_IO);
    assert_eq!(
        world.serve(21, commit_args()).unwrap(),
        with_wcc(nfsstat3::NFS3ERR_IO, wcc_data::default())
    );
    world.read_only = true;
    assert_eq!(
        world.serve(21, commit_args()).unwrap(),
        with_wcc(nfsstat3::NFS3ERR_ROFS, wcc_data::default())
    );
}

fn mode(bits: u32) -> sattr3 {
    sattr3 { mode: set_mode3::mode(bits), ..sattr3::default() }
}

fn create_args(dir: &diropargs3, how: createmode3, attributes: Option<sattr3>) -> Vec<u8> {
    let mut args = encoded_dirop(dir);
    how.serialize(&mut args);
    if let Some(attributes) = attributes {
        attributes.serialize(&mut args);
    }
    args
}

fn created(obj: post_op_attr) -> Vec<u8> {
    let mut expected = status(nfsstat3::NFS3_OK);
    post_op_fh3::handle(fh(70)).serialize(&mut expected);
    obj.serialize(&mut expected);
    wcc(8).serialize(&mut expected);
    expected
}

#[test]
fn create_unchecked_makes_the_file() {
    let mut world = World::new();
    let args = create_args(&dirop(8, "new"), createmode3::UNCHECKED, Some(mode(0o644)));
    let reply = world.serve(8, args.clone()).unwrap();
    assert_eq!(reply, created(post_op_attr::attributes(attr(70, 0))));
    assert_eq!(
        world.log,
        [
            "capabilities",
            "fh_to_id",
            "getattr 8",
            "create 8 new mode(420)",
            "getattr 8",
            "id_to_fh 70"
        ]
    );
    world.fails = Some(nfsstat3::NFS3ERR_DQUOT);
    assert_eq!(world.serve(8, args).unwrap(), with_wcc(nfsstat3::NFS3ERR_DQUOT, wcc(8)));
}

#[test]
fn create_guarded_spares_what_exists() {
    let mut world = World::new();
    world.exists = true;
    let args = create_args(&dirop(8, "new"), createmode3::GUARDED, Some(mode(0o644)));
    let reply = world.serve(8, args.clone()).unwrap();
    assert_eq!(reply, with_wcc(nfsstat3::NFS3ERR_EXIST, wcc(8)));
    assert_eq!(
        world.log,
        ["capabilities", "fh_to_id", "getattr 8", "lookup 8 new", "getattr 8"]
    );
    world.exists = false;
    let reply = world.serve(8, args).unwrap();
    assert_eq!(reply, created(post_op_attr::attributes(attr(70, 0))));
}

#[test]
fn create_exclusive_tells_no_attributes() {
    let mut world = World::new();
    let args = create_args(&dirop(8, "new"), createmode3::EXCLUSIVE, None);
    assert_eq!(world.serve(8, args).unwrap(), created(post_op_attr::Void));
    assert_eq!(world.log[3], "create_exclusive 8 new");
}

#[test]
fn create_needs_its_directory() {
    let mut world = World::new();
    let args = create_args(&bad_dirop("new"), createmode3::UNCHECKED, Some(mode(0)));
    assert_eq!(world.serve(8, args).unwrap(), with_wcc(BAD, wcc_data::default()));
    world.getattr_fails = true;
    let args = create_args(&dirop(8, "new"), createmode3::UNCHECKED, Some(mode(0)));
    assert_eq!(
        world.serve(8, args).unwrap(),
        with_wcc(nfsstat3::NFS3ERR_IO, wcc_data::default())
    );
}

#[test]
fn create_looks_at_its_attributes_last() {
    let mut world = World::new();
    let args = create_args(&dirop(8, "new"), createmode3::GUARDED, None);
    assert_eq!(world.serve(8, args), Err(XdrError::UnexpectedEof));
    assert_eq!(world.log, ["capabilities", "fh_to_id", "getattr 8"]);
    let mut args = encoded_dirop(&dirop(8, "new"));
    args.extend_from_slice(&[0, 0, 0, 3]);
    assert_eq!(world.serve(8, args), Err(XdrError::InvalidEnum));
}

#[test]
fn mkdir_makes_the_directory() {
    let mut world = World::new();
    let mut args = Vec::new();
    MKDIR3args { dirops: dirop(8, "new"), attributes: mode(0o755) }.serialize(&mut args);
    let reply = world.serve(9, args.clone()).unwrap();
    assert_eq!(reply, created(post_op_attr::attributes(attr(70, 0))));
    assert_eq!(world.log[3], "mkdir 8 new mode(493)");
    world.fails = Some(nfsstat3::NFS3ERR_EXIST);
    assert_eq!(world.serve(9, args).unwrap(), with_wcc(nfsstat3::NFS3ERR_EXIST, wcc(8)));
}

#[test]
fn symlink_makes_the_link() {
    let mut world = World::new();
    let mut args = Vec::new();
    SYMLINK3args {
        dirops: dirop(8, "new"),
        symlink: symlinkdata3 { symlink_attributes: mode(0o777), symlink_data: name("to") },
    }
    .serialize(&mut args);
    let reply = world.serve(10, args.clone()).unwrap();
    assert_eq!(reply, created(post_op_attr::attributes(attr(70, 0))));
    assert_eq!(world.log[3], "symlink 8 new to mode(511)");
    world.fails = Some(nfsstat3::NFS3ERR_NAMETOOLONG);
    assert_eq!(world.serve(10, args).unwrap(), with_wcc(nfsstat3::NFS3ERR_NAMETOOLONG, wcc(8)));
}

fn mknod_args(dir: diropargs3, what: mknoddata3) -> Vec<u8> {
    let mut args = Vec::new();
    MKNOD3args { where_: dir, what }.serialize(&mut args);
    args
}

#[test]
fn mknod_makes_special_files() {
    let mut world = World::new();
    let spec = specdata3 { specdata1: 8, specdata2: 1 };
    let what = mknoddata3::NF3BLK(devicedata3 { dev_attributes: mode(0o600), spec });
    let reply = world.serve(11, mknod_args(dirop(8, "new"), what)).unwrap();
    assert_eq!(reply, created(post_op_attr::attributes(attr(70, 0))));
    assert_eq!(
        world.log,
        [
            "fh_to_id".to_string(),
            "getattr 8".to_string(),
            format!("mknod 8 new NF3BLK mode(384) {:?}", Some(spec)),
            "id_to_fh 70".to_string(),
            "getattr 8".to_string(),
        ]
    );
    world.log.clear();
    world.serve(11, mknod_args(dirop(8, "new"), mknoddata3::NF3FIFO(mode(0o600)))).unwrap();
    assert_eq!(world.log[2], "mknod 8 new NF3FIFO mode(384) None");
    world.fails = Some(nfsstat3::NFS3ERR_ACCES);
    assert_eq!(
        world.serve(11, mknod_args(dirop(8, "new"), mknoddata3::NF3SOCK(mode(0)))).unwrap(),
        with_wcc(nfsstat3::NFS3ERR_ACCES, wcc(8))
    );
}

#[test]
fn mknod_refuses_ordinary_types() {
    for what in [mknoddata3::NF3REG, mknoddata3::NF3DIR, mknoddata3::NF3LNK] {
        let mut world = World::new();
        assert_eq!(
            world.serve(11, mknod_args(dirop(8, "new"), what)).unwrap(),
            with_wcc(nfsstat3::NFS3ERR_BADTYPE, wcc(8))
        );
        assert_eq!(world.log, ["fh_to_id", "getattr 8", "getattr 8"]);
    }
    let reply = World::new().serve(11, mknod_args(bad_dirop("new"), mknoddata3::NF3REG)).unwrap();
    assert_eq!(reply, with_wcc(nfsstat3::NFS3ERR_STALE, wcc_data::default()));
}

fn setattr_args(guard: sattrguard3) -> Vec<u8> {
    let mut args = Vec::new();
    SETATTR3args { object: fh(8), new_attribute: mode(0o600), guard }.serialize(&mut args);
    args
}

#[test]
fn setattr_sets_attributes() {
    let mut world = World::new();
    let expected = with_wcc(
        nfsstat3::NFS3_OK,
        wcc_data { before: before(8, 512), after: post_op_attr::attributes(attr(8, 99)) },
    );
    assert_eq!(world.serve(2, setattr_args(sattrguard3::Void)).unwrap(), expected);
    assert_eq!(world.log, ["capabilities", "fh_to_id", "getattr 8", "setattr 8 mode(384)"]);
    let guard = sattrguard3::obj_ctime(nfstime3 { seconds: 90, nseconds: 101 });
    assert_eq!(world.serve(2, setattr_args(guard)).unwrap(), expected);
    world.fails = Some(nfsstat3::NFS3ERR_PERM);
    assert_eq!(
        world.serve(2, setattr_args(sattrguard3::Void)).unwrap(),
        with_wcc(nfsstat3::NFS3ERR_PERM, wcc_data::default())
    );
    world.getattr_fails = true;
    assert_eq!(
        world.serve(2, setattr_args(sattrguard3::Void)).unwrap(),
        with_wcc(nfsstat3::NFS3ERR_IO, wcc_data::default())
    );
}

#[test]
fn setattr_tells_of_a_guard_that_does_not_hold() {
    let mut world = World::new();
    let guard = sattrguard3::obj_ctime(nfstime3 { seconds: 90, nseconds: 102 });
    assert_eq!(
        world.serve(2, setattr_args(guard)).unwrap(),
        with_wcc(nfsstat3::NFS3ERR_NOT_SYNC, wcc_data::default())
    );
    assert_eq!(world.log, ["capabilities", "fh_to_id", "getattr 8"]);
    let guard = sattrguard3::obj_ctime(nfstime3 { seconds: 91, nseconds: 101 });
    assert_eq!(
        world.serve(2, setattr_args(guard)).unwrap(),
        with_wcc(nfsstat3::NFS3ERR_NOT_SYNC, wcc_data::default())
    );
}

#[test]
fn setattr_tells_of_a_bad_handle() {
    let mut args = Vec::new();
    SETATTR3args {
        object: nfs_fh3 { data: vec![] },
        new_attribute: mode(0o600),
        guard: sattrguard3::Void,
    }
    .serialize(&mut args);
    assert_eq!(World::new().serve(2, args).unwrap(), with_wcc(BAD, wcc_data::default()));
}

fn both_unknown(stat: nfsstat3) -> Vec<u8> {
    let mut out = with_wcc(stat, wcc_data::default());
    wcc_data::default().serialize(&mut out);
    out
}

#[test]
fn remove_serves_rmdir_too() {
    for proc in [12, 13] {
        let mut world = World::new();
        let reply = world.serve(proc, encoded_dirop(&dirop(8, "old"))).unwrap();
        assert_eq!(reply, with_wcc(nfsstat3::NFS3_OK, wcc(8)));
        assert_eq!(
            world.log,
            ["capabilities", "fh_to_id", "getattr 8", "remove 8 old", "getattr 8"]
        );
        world.fails = Some(nfsstat3::NFS3ERR_NOTEMPTY);
        assert_eq!(
            world.serve(proc, encoded_dirop(&dirop(8, "old"))).unwrap(),
            with_wcc(nfsstat3::NFS3ERR_NOTEMPTY, wcc(8))
        );
    }
}

#[test]
fn rename_tells_of_both_directories() {
    let mut world = World::new();
    let mut args = Vec::new();
    RENAME3args { from: dirop(8, "old"), to: dirop(9, "new") }.serialize(&mut args);
    let mut expected = with_wcc(nfsstat3::NFS3_OK, wcc(8));
    wcc(9).serialize(&mut expected);
    assert_eq!(world.serve(14, args.clone()).unwrap(), expected);
    assert_eq!(
        world.log,
        [
            "capabilities",
            "fh_to_id",
            "fh_to_id",
            "getattr 8",
            "getattr 9",
            "rename 8 old 9 new",
            "getattr 8",
            "getattr 9"
        ]
    );
    world.fails = Some(nfsstat3::NFS3ERR_XDEV);
    let mut expected = with_wcc(nfsstat3::NFS3ERR_XDEV, wcc(8));
    wcc(9).serialize(&mut expected);
    assert_eq!(world.serve(14, args.clone()).unwrap(), expected);
    world.getattr_fails = true;
    assert_eq!(world.serve(14, args.clone()).unwrap(), both_unknown(nfsstat3::NFS3ERR_IO));
    world.read_only = true;
    world.log.clear();
    let refused = world.serve(14, args).unwrap();
    assert_eq!(refused, both_unknown(nfsstat3::NFS3ERR_ROFS));
    assert_eq!(refused.len(), 44);
    assert_eq!(world.log, ["capabilities"]);
    let mut args = Vec::new();
    RENAME3args { from: dirop(8, "old"), to: bad_dirop("new") }.serialize(&mut args);
    assert_eq!(World::new().serve(14, args).unwrap(), both_unknown(BAD));
    let mut args = Vec::new();
    RENAME3args { from: bad_dirop("old"), to: dirop(9, "new") }.serialize(&mut args);
    assert_eq!(World::new().serve(14, args).unwrap(), both_unknown(BAD));
}

fn link_reply(stat: nfsstat3, file: post_op_attr, dir: wcc_data) -> Vec<u8> {
    let mut out = with_attr(stat, file);
    dir.serialize(&mut out);
    out
}

#[test]
fn link_tells_of_the_file_and_the_directory() {
    let mut world = World::new();
    let mut args = Vec::new();
    LINK3args { file: fh(7), link: dirop(8, "new") }.serialize(&mut args);
    assert_eq!(
        world.serve(15, args.clone()).unwrap(),
        link_reply(nfsstat3::NFS3_OK, known(7), wcc(8))
    );
    assert_eq!(
        world.log,
        ["fh_to_id", "fh_to_id", "getattr 7", "getattr 8", "link 7 8 new", "getattr 7", "getattr 8"]
    );
    world.log.clear();
    world.fails = Some(nfsstat3::NFS3ERR_MLINK);
    assert_eq!(
        world.serve(15, args).unwrap(),
        link_reply(nfsstat3::NFS3ERR_MLINK, known(7), wcc(8))
    );
    assert_eq!(world.log[5..], ["getattr 8"]);
    let mut args = Vec::new();
    LINK3args { file: fh(7), link: bad_dirop("new") }.serialize(&mut args);
    assert_eq!(
        world.serve(15, args).unwrap(),
        link_reply(nfsstat3::NFS3ERR_STALE, post_op_attr::Void, wcc_data::default())
    );
}

#[test]
fn fsinfo_answers_with_the_information() {
    let mut world = World::new();
    let info: fsinfo3 = default_fsinfo(&Ok(attr(8, 512)));
    let mut expected = status(nfsstat3::NFS3_OK);
    info.serialize(&mut expected);
    assert_eq!(world.serve(19, encoded_fh(&fh(8))).unwrap(), expected);
    world.fails = Some(nfsstat3::NFS3ERR_NOTSUPP);
    assert_eq!(
        world.serve(19, encoded_fh(&fh(8))).unwrap(),
        with_attr(nfsstat3::NFS3ERR_NOTSUPP, post_op_attr::Void)
    );
}

#[test]
fn fsstat_answers_with_the_statistics() {
    let mut world = World::new();
    let stat: fsstat3 = default_fsstat(&Ok(attr(8, 512)));
    let mut expected = status(nfsstat3::NFS3_OK);
    stat.serialize(&mut expected);
    assert_eq!(world.serve(18, encoded_fh(&fh(8))).unwrap(), expected);
    world.fails = Some(nfsstat3::NFS3ERR_NOTSUPP);
    assert_eq!(
        world.serve(18, encoded_fh(&fh(8))).unwrap(),
        with_attr(nfsstat3::NFS3ERR_NOTSUPP, known(8))
    );
    assert_eq!(world.log[world.log.len() - 1], "getattr 8");
}

#[test]
fn pathconf_answers_with_constants() {
    let mut world = World::new();
    let mut expected = with_attr(nfsstat3::NFS3_OK, known(8));
    for value in [0_u32, 32768, 1, 1, 0, 1] {
        expected.extend_from_slice(&value.to_be_bytes());
    }
    assert_eq!(world.serve(20, encoded_fh(&fh(8))).unwrap(), expected);
}

#[test]
fn budgets_leave_room_for_the_tail() {
    assert!(fits_with_tail(10, 2, 20));
    assert!(!fits_with_tail(10, 3, 20));
    assert!(!fits_with_tail(usize::MAX, 1, usize::MAX));
    assert!(!fits_with_tail(usize::MAX - 4, 0, usize::MAX));
    assert_eq!(entry_capacity(160, 96, 24), 2);
    assert_eq!(entry_capacity(103, 96, 24), 0);
    assert_eq!(entry_capacity(104, 96, 24), 0);
    assert_eq!(entry_capacity(usize::MAX, usize::MAX, 24), 0);
}

fn readdir_args(dircount: u32) -> Vec<u8> {
    let mut args = Vec::new();
    READDIR3args { dir: fh(8), cookie: 5, cookieverf: [0; 8], dircount }.serialize(&mut args);
    args
}

fn readdirplus_args(dircount: u32, maxcount: u32) -> Vec<u8> {
    let mut args = Vec::new();
    READDIRPLUS3args { dir: fh(8), cookie: 5, cookieverf: [0; 8], dircount, maxcount }
        .serialize(&mut args);
    args
}

fn listing_head() -> Vec<u8> {
    let mut out = with_attr(nfsstat3::NFS3_OK, known(8));
    out.extend_from_slice(&[0, 0, 0, 90, 0, 0, 0, 100]);
    out
}

fn entry(id: u64, name: &[u8], cookie: u64) -> Vec<u8> {
    let mut out = vec![0, 0, 0, 1];
    out.extend_from_slice(&id.to_be_bytes());
    nfsstring(name.to_vec()).serialize(&mut out);
    out.extend_from_slice(&cookie.to_be_bytes());
    out
}

fn tail(eof: u8) -> Vec<u8> {
    vec![0, 0, 0, 0, 0, 0, 0, eof]
}

#[test]
fn readdir_lists_the_directory() {
    let mut world = World::new();
    world.listing = vec![(2, b".".to_vec()), (3, b"..".to_vec())];
    let reply = world.serve(16, readdir_args(160)).unwrap();
    let expected =
        [listing_head(), entry(2, b".", 4), entry(3, b"..", 6), tail(1)].concat();
    // Each entry fills 28 bytes, so both and the tail fill 160 bytes behind the status.
    assert_eq!(reply, expected);
    assert_eq!(reply.len(), 28 + 160);
    assert_eq!(world.log, ["fh_to_id", "getattr 8", "readdir 8 5 2"]);
}

#[test]
fn readdir_is_cut_at_the_client_count() {
    let mut world = World::new();
    world.listing = vec![(2, b"aaaa".to_vec()), (3, b"bbbb".to_vec()), (4, b"cccc".to_vec())];
    let reply = world.serve(16, readdir_args(187)).unwrap();
    assert_eq!(
        reply,
        [listing_head(), entry(2, b"aaaa", 4), entry(3, b"bbbb", 6), tail(0)].concat()
    );
    let reply = world.serve(16, readdir_args(188)).unwrap();
    assert_eq!(reply.len(), 28 + 188);
    assert_eq!(reply[reply.len() - 8..], tail(1));
    world.end = false;
    let reply = world.serve(16, readdir_args(188)).unwrap();
    assert_eq!(reply[reply.len() - 8..], tail(0));
}

#[test]
fn readdir_fails_where_it_cannot_make_progress() {
    let mut world = World::new();
    world.listing = vec![(2, vec![b'x'; 100])];
    assert_eq!(
        world.serve(16, readdir_args(160)).unwrap(),
        with_attr(nfsstat3::NFS3ERR_TOOSMALL, known(8))
    );
    world.listing.clear();
    world.end = false;
    assert_eq!(
        world.serve(16, readdir_args(160)).unwrap(),
        with_attr(nfsstat3::NFS3ERR_SERVERFAULT, known(8))
    );
    world.fails = Some(nfsstat3::NFS3ERR_NOTDIR);
    assert_eq!(
        world.serve(16, readdir_args(160)).unwrap(),
        with_attr(nfsstat3::NFS3ERR_NOTDIR, known(8))
    );
}

#[test]
fn readdir_without_attributes_has_no_version() {
    let mut world = World::new();
    world.getattr_fails = true;
    let reply = world.serve(16, readdir_args(160)).unwrap();
    let head = with_attr(nfsstat3::NFS3_OK, post_op_attr::Void);
    assert_eq!(reply, [head, vec![0; 8], tail(1)].concat());
    assert_eq!(world.log[2], "readdir 8 5 5");
    // The head is shorter by the attributes, and so is the smallest listing.
    world.log.clear();
    world.serve(16, readdir_args(100)).unwrap();
    assert_eq!(world.log[2], "readdir 8 5 3");
    for (dircount, entries) in [(44, 1), (60, 1), (67, 1), (68, 2), (76, 2)] {
        world.log.clear();
        world.serve(16, readdir_args(dircount)).unwrap();
        assert_eq!(world.log[2], format!("readdir 8 5 {entries}"));
    }
    world.log.clear();
    assert_eq!(
        world.serve(16, readdir_args(43)).unwrap(),
        with_attr(nfsstat3::NFS3ERR_TOOSMALL, post_op_attr::Void)
    );
    assert_eq!(world.log, ["fh_to_id", "getattr 8"]);
}

#[test]
fn readdirplus_asks_for_what_the_count_has_room_for() {
    for (maxcount, entries) in [(160, 2), (223, 2), (224, 1), (343, 1), (344, 2), (464, 3)] {
        let mut world = World::new();
        world.serve(17, readdirplus_args(4096, maxcount)).unwrap();
        assert_eq!(world.log[2], format!("readdir 8 5 {entries}"));
    }
    for (maxcount, entries) in [(140, 1), (259, 1), (260, 2)] {
        let mut world = World::new();
        world.getattr_fails = true;
        world.serve(17, readdirplus_args(4096, maxcount)).unwrap();
        assert_eq!(world.log[2], format!("readdir 8 5 {entries}"));
    }
    let mut world = World::new();
    world.getattr_fails = true;
    assert_eq!(
        world.serve(17, readdirplus_args(4096, 139)).unwrap(),
        with_attr(nfsstat3::NFS3ERR_TOOSMALL, post_op_attr::Void)
    );
    assert_eq!(world.log, ["fh_to_id", "getattr 8"]);
}

fn plus_entry(id: u64, name: &[u8], cookie: u64) -> Vec<u8> {
    let mut out = entry(id + 1000, name, cookie);
    post_op_attr::attributes(attr(id + 1000, 1)).serialize(&mut out);
    post_op_fh3::handle(fh(id)).serialize(&mut out);
    out
}

#[test]
fn readdirplus_lists_attributes_and_handles() {
    let mut world = World::new();
    world.listing = vec![(2, b".".to_vec()), (3, b"..".to_vec())];
    let reply = world.serve(17, readdirplus_args(4096, 4096)).unwrap();
    assert_eq!(
        reply,
        [listing_head(), plus_entry(2, b".", 4), plus_entry(3, b"..", 6), tail(1)].concat()
    );
    assert_eq!(
        world.log,
        ["fh_to_id", "getattr 8", "readdir 8 5 33", "id_to_fh 2", "id_to_fh 3"]
    );
}

#[test]
fn readdirplus_is_cut_at_either_count() {
    let mut world = World::new();
    world.listing = vec![(2, b"a".to_vec()), (3, b"b".to_vec()), (4, b"c".to_vec())];
    let one = [listing_head(), plus_entry(2, b"a", 4), tail(0)].concat();
    // A plain entry fills 28 bytes, a full one 140.
    assert_eq!(world.serve(17, readdirplus_args(63, 4096)).unwrap(), one);
    assert_eq!(world.log[3..], ["id_to_fh 2", "id_to_fh 3"]);
    assert_eq!(world.serve(17, readdirplus_args(4096, 383)).unwrap(), one);
    let two = [listing_head(), plus_entry(2, b"a", 4), plus_entry(3, b"b", 6), tail(0)].concat();
    assert_eq!(world.serve(17, readdirplus_args(64, 384)).unwrap(), two);
}

#[test]
fn readdirplus_fails_where_it_cannot_make_progress() {
    let mut world = World::new();
    world.listing = vec![(2, b"a".to_vec())];
    assert_eq!(
        world.serve(17, readdirplus_args(4096, 160)).unwrap(),
        with_attr(nfsstat3::NFS3ERR_TOOSMALL, known(8))
    );
    world.log.clear();
    assert_eq!(
        world.serve(17, readdirplus_args(31, 4096)).unwrap(),
        with_attr(nfsstat3::NFS3ERR_TOOSMALL, known(8))
    );
    assert_eq!(world.log, ["fh_to_id", "getattr 8"]);
    world.listing.clear();
    assert_eq!(
        world.serve(17, readdirplus_args(4096, 4096)).unwrap(),
        [listing_head(), tail(1)].concat()
    );
    world.end = false;
    assert_eq!(
        world.serve(17, readdirplus_args(4096, 4096)).unwrap(),
        with_attr(nfsstat3::NFS3ERR_SERVERFAULT, known(8))
    );
}

#[test]
fn an_answer_of_another_kind_is_unexpected() {
    let mut args = Vec::new();
    READ3args { file: fh(8), offset: 0, count: 1 }.serialize(&mut args);
    match handle_nfs(1, 3, 6, Input::new(args)) {
        Step::Ask(call) => {
            let answer = FsAnswer::Attr(Ok(attr(1, 1)));
            assert!(matches!(call.resume(1, answer), Step::Unexpected));
        }
        _ => panic!("READ asks for its file"),
    }
}

#[test]
fn special_types_are_told_apart() {
    let d = devicedata3 {
        dev_attributes: mode(1),
        spec: specdata3 { specdata1: 1, specdata2: 2 },
    };
    assert_eq!(
        mknoddata3::NF3CHR(d).to_special(),
        Some((ftype3::NF3CHR, mode(1), Some(d.spec)))
    );
    assert_eq!(mknoddata3::NF3SOCK(mode(2)).to_special(), Some((ftype3::NF3SOCK, mode(2), None)));
    assert_eq!(mknoddata3::NF3LNK.to_special(), None);
}
