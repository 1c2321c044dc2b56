use nfsserve::nfs::{
    fattr3, nfs_fh3, nfsstat3, nfsstring, nfstime3, post_op_attr, stable_how, writeverf3,
    NFS3_WRITEVERFSIZE,
};
use nfsserve::rpc::auth_unix;
use nfsserve::vfs::{
    commit_result, default_fsinfo, default_fsstat, default_write_verf, fh_to_id, file_sync_result,
    id_to_fh, serverid, AuthContext, CommitRequestContext, DirEntry, FsAnswer, FsRequest, PathWalk,
    ReadDirResult, ReadDirSimpleResult, RpcRequestContext, WriteRequestContext,
};

fn auth() -> AuthContext {
    AuthContext { uid: 1000, gid: 100, gids: vec![100, 20] }
}

#[test]
fn auth_context_takes_the_credential() {
    let credential = auth_unix {
        stamp: 9,
        machinename: b"testhost".to_vec(),
        uid: 1000,
        gid: 100,
        gids: vec![100, 20],
    };
    assert_eq!(AuthContext::from_rpc_auth(&credential), auth());
}

#[test]
fn group_membership_covers_primary_and_additional_groups() {
    let auth = AuthContext { uid: 1, gid: 7, gids: vec![20, 30] };
    assert!(auth.is_member_of_group(7));
    assert!(auth.is_member_of_group(20));
    assert!(auth.is_member_of_group(30));
    assert!(!auth.is_member_of_group(1));
}

fn entry(fileid: u64, name: &[u8], cookie: u64) -> DirEntry {
    DirEntry { fileid, name: nfsstring(name.to_vec()), attr: fattr3::default(), cookie }
}

#[test]
fn simple_listing_drops_the_attributes() {
    let listing = ReadDirResult {
        entries: vec![
            entry(4, b"a", 5),
            entry(6, b"bc", 7),
        ],
        end: true,
    };
    let simple = ReadDirSimpleResult::from_readdir_result(&listing);
    assert!(simple.end);
    assert_eq!(simple.entries.len(), 2);
    assert_eq!(simple.entries[1].fileid, 6);
    assert_eq!(simple.entries[1].name, nfsstring(b"bc".to_vec()));
    assert_eq!(simple.entries[1].cookie, 7);
}

fn rpc_context() -> RpcRequestContext {
    RpcRequestContext {
        xid: 7,
        client_addr: "127.0.0.1:1048".to_string(),
        connection_incarnation: 42,
    }
}

/// Takes no context itself, and counts how often it writes and commits.
struct RecordingFs {
    write_calls: usize,
    commit_calls: usize,
}

impl RecordingFs {
    fn new() -> RecordingFs {
        RecordingFs { write_calls: 0, commit_calls: 0 }
    }

    fn get_write_verf(&self) -> writeverf3 {
        [7u8; NFS3_WRITEVERFSIZE as usize]
    }

    fn write(&mut self, id: u64, offset: u64, data: &[u8]) -> Result<fattr3, nfsstat3> {
        self.write_calls += 1;
        Ok(fattr3 { fileid: id, size: offset + data.len() as u64, ..fattr3::default() })
    }

    fn commit(&mut self) -> Result<writeverf3, nfsstat3> {
        self.commit_calls += 1;
        Ok(self.get_write_verf())
    }

    fn perform(&mut self, request: FsRequest) -> FsAnswer {
        match request {
            FsRequest::Write { id, offset, data, .. } => {
                let written = self.write(id, offset, data);
                FsAnswer::Written(file_sync_result(written, self.get_write_verf()))
            }
            FsRequest::Commit { .. } => FsAnswer::Committed(commit_result(self.commit())),
            _ => panic!("nothing else is asked"),
        }
    }
}

#[test]
fn write_with_context_delegates_to_write_exactly_once() {
    let mut fs = RecordingFs::new();
    let context = WriteRequestContext {
        rpc: rpc_context(),
        requested_stability: stable_how::UNSTABLE,
    };
    let answer = fs.perform(FsRequest::Write {
        write_context: context,
        auth: &auth(),
        id: 3,
        offset: 10,
        data: &b"hello".to_vec(),
    });
    let result = match answer {
        FsAnswer::Written(result) => result.unwrap(),
        _ => panic!("a write is answered as one"),
    };
    assert_eq!(fs.write_calls, 1);
    assert_eq!(fs.commit_calls, 0);
    assert_eq!(result.committed, stable_how::FILE_SYNC);
    assert_eq!(result.verifier, [7u8; NFS3_WRITEVERFSIZE as usize]);
    assert_eq!(result.attributes.size, 15);
    assert_eq!(
        file_sync_result(Err(nfsstat3::NFS3ERR_NOTSUPP), [7u8; NFS3_WRITEVERFSIZE as usize]),
        Err(nfsstat3::NFS3ERR_NOTSUPP)
    );
}

#[test]
fn commit_with_context_delegates_to_commit_exactly_once() {
    let mut fs = RecordingFs::new();
    let answer = fs.perform(FsRequest::Commit {
        commit_context: CommitRequestContext { rpc: rpc_context() },
        auth: &auth(),
        id: 3,
        offset: 0,
        count: 100,
    });
    let result = match answer {
        FsAnswer::Committed(result) => result.unwrap(),
        _ => panic!("a commit is answered as one"),
    };
    assert_eq!(fs.commit_calls, 1);
    assert_eq!(fs.write_calls, 0);
    assert_eq!(result.verifier, [7u8; NFS3_WRITEVERFSIZE as usize]);
    assert_eq!(commit_result(Err(nfsstat3::NFS3ERR_IO)), Err(nfsstat3::NFS3ERR_IO));
}

#[test]
fn legacy_implementor_without_commit_gets_defaults() {
    let zero = [0u8; NFS3_WRITEVERFSIZE as usize];
    assert_eq!(default_write_verf(), zero);
    let write = file_sync_result(Ok(fattr3::default()), default_write_verf()).unwrap();
    assert_eq!(write.committed, stable_how::FILE_SYNC);
    assert_eq!(write.verifier, zero);
    let commit = commit_result(Ok(default_write_verf())).unwrap();
    assert_eq!(commit.verifier, zero);
}

#[test]
fn default_file_system_information() {
    let info = default_fsinfo(&Ok(fattr3::default()));
    assert_eq!(info.obj_attributes, post_op_attr::attributes(fattr3::default()));
    assert_eq!(info.rtmax, 1024 * 1024);
    assert_eq!(info.rtpref, 1024 * 124);
    assert_eq!(info.wtmult, 1024 * 1024);
    assert_eq!(info.maxfilesize, 128 * 1024 * 1024 * 1024);
    assert_eq!(info.time_delta, nfstime3 { seconds: 0, nseconds: 1000000 });
    assert_eq!(info.properties, 0x0002 | 0x0008 | 0x0010);
    let unknown = default_fsinfo(&Err(nfsstat3::NFS3ERR_IO));
    assert_eq!(unknown.obj_attributes, post_op_attr::Void);
}

#[test]
fn default_file_system_statistics() {
    let stat = default_fsstat(&Err(nfsstat3::NFS3ERR_IO));
    assert_eq!(stat.obj_attributes, post_op_attr::Void);
    assert_eq!(stat.tbytes, 1024 * 1024 * 1024 * 1024);
    assert_eq!(stat.afiles, 1024 * 1024 * 1024);
    assert_eq!(stat.invarsec, 0);
}

#[test]
fn a_handle_leads_back_to_its_file() {
    let fh = id_to_fh(5, 0x0102);
    assert_eq!(fh.data, vec![5, 0, 0, 0, 0, 0, 0, 0, 2, 1, 0, 0, 0, 0, 0, 0]);
    assert_eq!(fh_to_id(5, &fh), Ok(0x0102));
}

#[test]
fn a_handle_of_another_generation_is_not_accepted() {
    assert_eq!(fh_to_id(6, &id_to_fh(5, 1)), Err(nfsstat3::NFS3ERR_STALE));
    assert_eq!(fh_to_id(4, &id_to_fh(5, 1)), Err(nfsstat3::NFS3ERR_BADHANDLE));
    let short = nfs_fh3 { data: vec![0; 15] };
    assert_eq!(fh_to_id(0, &short), Err(nfsstat3::NFS3ERR_BADHANDLE));
}

#[test]
fn the_server_is_identified_by_its_generation() {
    assert_eq!(serverid(0x0a0b), [0x0b, 0x0a, 0, 0, 0, 0, 0, 0]);
}

fn walk(path: &[u8]) -> (Vec<(u64, Vec<u8>)>, Result<u64, nfsstat3>) {
    let auth = auth();
    let mut asked = Vec::new();
    let mut walk = PathWalk::new(1, path);
    loop {
        if let Some(id) = walk.arrived() {
            return (asked, Ok(id));
        }
        let found = match walk.request(&auth) {
            FsRequest::Lookup { dirid, name, .. } => {
                asked.push((dirid, name.0.clone()));
                if name.0 == b"gone" {
                    Err(nfsstat3::NFS3ERR_NOENT)
                } else {
                    Ok(dirid + 10)
                }
            }
            _ => panic!("a walk only looks names up"),
        };
        if let Err(e) = walk.resume(found) {
            return (asked, Err(e));
        }
    }
}

#[test]
fn a_path_is_walked_name_by_name() {
    let (asked, found) = walk(b"/usr//lib/");
    assert_eq!(asked, vec![(1, b"usr".to_vec()), (11, b"lib".to_vec())]);
    assert_eq!(found, Ok(21));
    assert_eq!(walk(b"usr/lib").0, asked);
    assert_eq!(walk(b"/"), (vec![], Ok(1)));
    assert_eq!(walk(b""), (vec![], Ok(1)));
}

#[test]
fn a_name_that_is_not_found_ends_the_walk() {
    let (asked, found) = walk(b"a/gone/b");
    assert_eq!(asked.len(), 2);
    assert_eq!(found, Err(nfsstat3::NFS3ERR_NOENT));
}

#[test]
fn ordinary_answers_can_be_encoded() {
    assert!(FsAnswer::Handle(nfs_fh3 { data: vec![1; 64] }).is_encodable());
    assert!(FsAnswer::Bytes(Ok((vec![0; 4096], false))).is_encodable());
    assert!(FsAnswer::Path(Ok(nfsstring(b"target".to_vec()))).is_encodable());
    assert!(FsAnswer::Attr(Err(nfsstat3::NFS3ERR_IO)).is_encodable());
    let listing = ReadDirResult {
        entries: vec![entry(4, b"a", 5)],
        end: true,
    };
    assert!(FsAnswer::Listing(Ok(listing)).is_encodable());
}
