use nfsserve::nfs::{nfs_fh3, nfsstring, nfstime3, specdata3, stable_how};
use nfsserve::nfs_args::{
    createhow3, createmode3, devicedata3, diropargs3, mknoddata3, sattr3, sattrguard3, set_atime,
    set_gid3, set_mode3, set_mtime, set_size3, set_uid3, symlinkdata3, COMMIT3args, CREATE3args,
    LINK3args, MKDIR3args, MKNOD3args, READ3args, READDIR3args, READDIRPLUS3args, RENAME3args,
    SETATTR3args, SYMLINK3args, WRITE3args,
};
use nfsserve::rpc::auth_unix;
use nfsserve::xdr::{Input, XdrError};

fn attributes() -> sattr3 {
    sattr3 {
        mode: set_mode3::mode(0o640),
        uid: set_uid3::uid(7),
        gid: set_gid3::Void,
        size: set_size3::size(1 << 40),
        atime: set_atime::SET_TO_SERVER_TIME,
        mtime: set_mtime::SET_TO_CLIENT_TIME(nfstime3 { seconds: 1, nseconds: 2 }),
    }
}

fn dirop(text: &str) -> diropargs3 {
    diropargs3 {
        dir: nfs_fh3 { data: vec![1, 2, 3, 4, 5] },
        name: nfsstring(text.as_bytes().to_vec()),
    }
}

#[test]
fn numbers_are_big_endian() {
    let mut input = Input::new(vec![0, 0, 1, 2, 0, 0, 0, 0, 0, 0, 1, 0, 0, 0, 0, 9]);
    assert_eq!(input.read_u32(), Ok(0x102));
    assert_eq!(input.read_u64(), Ok(0x100));
    assert_eq!(input.read_bool(), Ok(true));
    assert_eq!(input.read_u32(), Err(XdrError::UnexpectedEof));
    assert_eq!(input.read_u64(), Err(XdrError::UnexpectedEof));
}

#[test]
fn opaque_data_is_padded() {
    let mut out = Vec::new();
    nfsstring(b"abcde".to_vec()).serialize(&mut out);
    assert_eq!(out, [0, 0, 0, 5, 97, 98, 99, 100, 101, 0, 0, 0]);
    out.push(7);
    let mut input = Input::new(out);
    assert_eq!(nfsstring::deserialize(&mut input), Ok(nfsstring(b"abcde".to_vec())));
    assert_eq!(input.into_rest(), vec![7]);
}

#[test]
fn padding_is_skipped_but_must_be_there() {
    let mut input = Input::new(vec![0, 0, 0, 1, 9, 1, 2, 3]);
    assert_eq!(input.read_opaque(), Ok(vec![9]));
    let mut input = Input::new(vec![0, 0, 0, 1, 9, 1, 2]);
    assert_eq!(input.read_opaque(), Err(XdrError::UnexpectedEof));
    let mut input = Input::new(vec![0xff, 0xff, 0xff, 0xff, 9]);
    assert_eq!(input.read_opaque(), Err(XdrError::UnexpectedEof));
    let mut input = Input::new(vec![1, 2, 3, 4, 5, 6, 7, 8, 9]);
    assert_eq!(input.read_opaque8(), Ok([1, 2, 3, 4, 5, 6, 7, 8]));
    assert_eq!(input.read_opaque8(), Err(XdrError::UnexpectedEof));
}

#[test]
fn attributes_are_read_back() {
    let mut out = Vec::new();
    attributes().serialize(&mut out);
    assert_eq!(
        out,
        [
            0, 0, 0, 1, 0, 0, 1, 0xa0, 0, 0, 0, 1, 0, 0, 0, 7, 0, 0, 0, 0, 0, 0, 0, 1, 0, 0, 1, 0,
            0, 0, 0, 0, 0, 0, 0, 1, 0, 0, 0, 2, 0, 0, 0, 1, 0, 0, 0, 2
        ]
    );
    assert_eq!(sattr3::deserialize(&mut Input::new(out)), Ok(attributes()));
    let bad = [vec![0; 16], vec![0, 0, 0, 3]].concat();
    assert_eq!(sattr3::deserialize(&mut Input::new(bad)), Err(XdrError::InvalidEnum));
    let bad = [vec![0; 20], vec![0, 0, 0, 3]].concat();
    assert_eq!(sattr3::deserialize(&mut Input::new(bad)), Err(XdrError::InvalidEnum));
}

#[test]
fn arguments_are_read_back() {
    let file = nfs_fh3 { data: vec![3; 16] };
    let mut out = Vec::new();
    let read = READ3args { file: file.clone(), offset: 1 << 33, count: 4 };
    let write = WRITE3args {
        file: file.clone(),
        offset: 8,
        count: 3,
        stable: stable_how::DATA_SYNC.to_u32(),
        data: b"abc".to_vec(),
    };
    let commit = COMMIT3args { file: file.clone(), offset: 9, count: 10 };
    let readdir = READDIR3args { dir: file.clone(), cookie: 1, cookieverf: [7; 8], dircount: 2 };
    let plus = READDIRPLUS3args {
        dir: file.clone(),
        cookie: 1,
        cookieverf: [8; 8],
        dircount: 2,
        maxcount: 3,
    };
    let guard = sattrguard3::obj_ctime(nfstime3 { seconds: 5, nseconds: 6 });
    let setattr = SETATTR3args { object: file.clone(), new_attribute: attributes(), guard };
    read.serialize(&mut out);
    write.serialize(&mut out);
    commit.serialize(&mut out);
    readdir.serialize(&mut out);
    plus.serialize(&mut out);
    setattr.serialize(&mut out);
    let mut input = Input::new(out);
    assert_eq!(READ3args::deserialize(&mut input), Ok(read));
    assert_eq!(WRITE3args::deserialize(&mut input), Ok(write));
    assert_eq!(COMMIT3args::deserialize(&mut input), Ok(commit));
    assert_eq!(READDIR3args::deserialize(&mut input), Ok(readdir));
    assert_eq!(READDIRPLUS3args::deserialize(&mut input), Ok(plus));
    assert_eq!(SETATTR3args::deserialize(&mut input), Ok(setattr));
    assert!(input.into_rest().is_empty());
}

#[test]
fn arguments_with_names_are_read_back() {
    let mut out = Vec::new();
    let mkdir = MKDIR3args { dirops: dirop("a"), attributes: attributes() };
    let rename = RENAME3args { from: dirop("a"), to: dirop("bb") };
    let symlink = SYMLINK3args {
        dirops: dirop("ccc"),
        symlink: symlinkdata3 {
            symlink_attributes: sattr3::default(),
            symlink_data: nfsstring(b"/target".to_vec()),
        },
    };
    let link = LINK3args { file: nfs_fh3 { data: vec![] }, link: dirop("dddd") };
    mkdir.serialize(&mut out);
    rename.serialize(&mut out);
    symlink.serialize(&mut out);
    link.serialize(&mut out);
    let mut input = Input::new(out);
    assert_eq!(MKDIR3args::deserialize(&mut input), Ok(mkdir));
    assert_eq!(RENAME3args::deserialize(&mut input), Ok(rename));
    assert_eq!(SYMLINK3args::deserialize(&mut input), Ok(symlink));
    assert_eq!(LINK3args::deserialize(&mut input), Ok(link));
    assert!(input.into_rest().is_empty());
}

#[test]
fn special_files_are_read_back() {
    let device = devicedata3 {
        dev_attributes: attributes(),
        spec: specdata3 { specdata1: 8, specdata2: 1 },
    };
    for what in [
        mknoddata3::NF3REG,
        mknoddata3::NF3DIR,
        mknoddata3::NF3BLK(device),
        mknoddata3::NF3CHR(device),
        mknoddata3::NF3LNK,
        mknoddata3::NF3SOCK(attributes()),
        mknoddata3::NF3FIFO(attributes()),
    ] {
        let args = MKNOD3args { where_: dirop("x"), what };
        let mut out = Vec::new();
        args.serialize(&mut out);
        assert_eq!(MKNOD3args::deserialize(&mut Input::new(out)), Ok(args));
    }
    let mut out = Vec::new();
    dirop("x").serialize(&mut out);
    out.extend_from_slice(&[0, 0, 0, 8]);
    assert_eq!(MKNOD3args::deserialize(&mut Input::new(out)), Err(XdrError::InvalidEnum));
}

#[test]
fn creation_keeps_an_error_in_its_attributes() {
    let mut out = Vec::new();
    dirop("x").serialize(&mut out);
    createmode3::GUARDED.serialize(&mut out);
    let args = CREATE3args::deserialize(&mut Input::new(out.clone())).unwrap();
    assert_eq!(args.how, createhow3::GUARDED(Err(XdrError::UnexpectedEof)));
    attributes().serialize(&mut out);
    let args = CREATE3args::deserialize(&mut Input::new(out)).unwrap();
    assert_eq!(args.how, createhow3::GUARDED(Ok(attributes())));
    assert_eq!(createmode3::default(), createmode3::UNCHECKED);
}

#[test]
fn stability_levels_have_three_numbers() {
    assert_eq!(stable_how::from_u32(0), Some(stable_how::UNSTABLE));
    assert_eq!(stable_how::from_u32(1), Some(stable_how::DATA_SYNC));
    assert_eq!(stable_how::from_u32(2), Some(stable_how::FILE_SYNC));
    assert_eq!(stable_how::from_u32(3), None);
}

#[test]
fn group_lists_may_end_early() {
    let mut body = vec![0; 16];
    body.extend_from_slice(&[0, 0, 0, 2, 0, 0, 0, 1]);
    assert_eq!(auth_unix::deserialize(&mut Input::new(body.clone())), Err(XdrError::UnexpectedEof));
    body.extend_from_slice(&[0, 0, 0, 2]);
    assert_eq!(auth_unix::deserialize(&mut Input::new(body)).unwrap().gids, vec![1, 2]);
}
