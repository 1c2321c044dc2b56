//! What whole calls are answered: the reply that a run of answers leads to.
use super::change::{
    guard_holds, link_reply, rename_lost, rename_reply, status_of, LinkCall, RemoveCall, RenameCall,
    SetattrCall,
};
use super::create::{CreateCall, MkdirCall, MknodCall, SymlinkCall};
use super::dispatch::Procedure;
use super::fs::{pathconf_reply, FsinfoCall, FsstatCall, PathconfCall};
use super::inspect::{
    granted, lookup_reply, read_reply, AccessCall, GetattrCall, LookupCall, ReadCall, ReadlinkCall,
};
use super::readdir::{readdir_entries, readdir_reply, ReaddirCall};
use super::{attr_reply, created_reply, lost_reply, stat_reply, wcc_reply, Outcome};
use crate::nfs::{
    fattr3, fileid3, fsinfo3, fsstat3, nfs_fh3, nfspath3, nfsstat3, post_op_attr, pre_op_attr,
    wcc_data,
};
use crate::nfs_args::{
    createhow3, diropargs3, sattr3, CREATE3args, LINK3args, MKDIR3args, MKNOD3args, READ3args,
    READDIR3args, RENAME3args, SETATTR3args, SYMLINK3args,
};
use crate::vfs::{FsAnswer, ReadDirResult, VFSCapabilities};
use crate::xdr::{xdr_opaque, xdr_u32};
use vstd::prelude::*;

verus! {

/// What a procedure comes to after a run of answers.
pub open spec fn served<P: Procedure>(p: P, xid: u32, answers: Seq<FsAnswer>) -> Outcome<P>
    decreases answers.len(),
{
    if answers.len() == 0 {
        Outcome::Ask(p)
    } else {
        match p.next(xid, answers[0]) {
            Outcome::Ask(q) => served(q, xid, answers.skip(1)),
            end => end,
        }
    }
}

/// The leave to change the file system.
pub open spec fn leave() -> FsAnswer {
    FsAnswer::Capabilities(VFSCapabilities::ReadWrite)
}

/// What is known of an object that had attributes before an operation.
pub open spec fn changed(before: fattr3, after: Result<fattr3, nfsstat3>) -> wcc_data {
    wcc_data {
        before: pre_op_attr::attributes(before.wcc()),
        after: post_op_attr::of_getattr(after),
    }
}

/// GETATTR answers with the attributes of the file that the handle stands for.
pub proof fn lemma_getattr_is_answered(xid: u32, handle: nfs_fh3, id: fileid3, attr: fattr3)
    ensures
        served(
            GetattrCall::Handle { handle },
            xid,
            seq![FsAnswer::Id(Ok(id)), FsAnswer::Attr(Ok(attr))],
        ) == Outcome::<GetattrCall>::Reply(stat_reply(xid, nfsstat3::NFS3_OK) + attr.encoding()),
{
    reveal_with_fuel(served, 3);
}

/// LOOKUP answers with the handle and the attributes of what was found, and with
/// the attributes of the directory.
pub proof fn lemma_lookup_is_answered(
    xid: u32,
    args: diropargs3,
    dirid: fileid3,
    dir: Result<fattr3, nfsstat3>,
    id: fileid3,
    obj: Result<fattr3, nfsstat3>,
    handle: nfs_fh3,
)
    ensures
        served(
            LookupCall::Handle { args },
            xid,
            seq![
                FsAnswer::Id(Ok(dirid)),
                FsAnswer::Attr(dir),
                FsAnswer::Id(Ok(id)),
                FsAnswer::Attr(obj),
                FsAnswer::Handle(handle),
            ],
        ) == Outcome::<LookupCall>::Reply(
            lookup_reply(
                xid,
                handle@,
                post_op_attr::of_getattr(obj),
                post_op_attr::of_getattr(dir),
            ),
        ),
{
    reveal_with_fuel(served, 6);
}

/// ACCESS answers with the access that the capabilities allow.
pub proof fn lemma_access_is_answered(
    xid: u32,
    handle: nfs_fh3,
    access: u32,
    id: fileid3,
    attr: Result<fattr3, nfsstat3>,
    capabilities: VFSCapabilities,
)
    ensures
        served(
            AccessCall::Handle { handle, access },
            xid,
            seq![
                FsAnswer::Id(Ok(id)),
                FsAnswer::Attr(attr),
                FsAnswer::Capabilities(capabilities),
            ],
        ) == Outcome::<AccessCall>::Reply(
            attr_reply(xid, nfsstat3::NFS3_OK, post_op_attr::of_getattr(attr))
                + xdr_u32(granted(capabilities, access)),
        ),
{
    reveal_with_fuel(served, 4);
}

/// READ answers with what the file system read.
pub proof fn lemma_read_is_answered(
    xid: u32,
    args: READ3args,
    id: fileid3,
    attr: Result<fattr3, nfsstat3>,
    bytes: Vec<u8>,
    eof: bool,
)
    ensures
        served(
            ReadCall::Handle { args },
            xid,
            seq![
                FsAnswer::Id(Ok(id)),
                FsAnswer::Attr(attr),
                FsAnswer::Bytes(Ok((bytes, eof))),
            ],
        ) == Outcome::<ReadCall>::Reply(
            read_reply(xid, post_op_attr::of_getattr(attr), bytes@, eof),
        ),
{
    reveal_with_fuel(served, 4);
}

/// READLINK answers with the attributes of the link and its path, or with the
/// attributes and why it failed.
pub proof fn lemma_readlink_is_answered(
    xid: u32,
    handle: nfs_fh3,
    id: fileid3,
    attr: fattr3,
    path: nfspath3,
    stat: nfsstat3,
)
    ensures
        served(
            ReadlinkCall::Handle { handle },
            xid,
            seq![FsAnswer::Id(Ok(id)), FsAnswer::Attr(Ok(attr)), FsAnswer::Path(Ok(path))],
        ) == Outcome::<ReadlinkCall>::Reply(
            attr_reply(xid, nfsstat3::NFS3_OK, post_op_attr::attributes(attr)) + xdr_opaque(path@),
        ),
        served(
            ReadlinkCall::Handle { handle },
            xid,
            seq![FsAnswer::Id(Ok(id)), FsAnswer::Attr(Ok(attr)), FsAnswer::Path(Err(stat))],
        ) == Outcome::<ReadlinkCall>::Reply(
            attr_reply(xid, stat, post_op_attr::attributes(attr)),
        ),
{
    reveal_with_fuel(served, 4);
}

/// FSINFO answers with the information, or that nothing is known of the object.
pub proof fn lemma_fsinfo_is_answered(
    xid: u32,
    handle: nfs_fh3,
    id: fileid3,
    info: fsinfo3,
    stat: nfsstat3,
)
    ensures
        served(
            FsinfoCall::Handle { handle },
            xid,
            seq![FsAnswer::Id(Ok(id)), FsAnswer::Fsinfo(Ok(info))],
        ) == Outcome::<FsinfoCall>::Reply(stat_reply(xid, nfsstat3::NFS3_OK) + info.encoding()),
        served(
            FsinfoCall::Handle { handle },
            xid,
            seq![FsAnswer::Id(Ok(id)), FsAnswer::Fsinfo(Err(stat))],
        ) == Outcome::<FsinfoCall>::Reply(attr_reply(xid, stat, post_op_attr::Void)),
{
    reveal_with_fuel(served, 3);
}

/// PATHCONF answers with the attributes and with constants.
pub proof fn lemma_pathconf_is_answered(
    xid: u32,
    handle: nfs_fh3,
    id: fileid3,
    attr: Result<fattr3, nfsstat3>,
)
    ensures
        served(
            PathconfCall::Handle { handle },
            xid,
            seq![FsAnswer::Id(Ok(id)), FsAnswer::Attr(attr)],
        ) == Outcome::<PathconfCall>::Reply(
            pathconf_reply(xid, post_op_attr::of_getattr(attr)),
        ),
{
    reveal_with_fuel(served, 3);
}

/// FSSTAT answers with the statistics.
pub proof fn lemma_fsstat_is_answered(xid: u32, handle: nfs_fh3, id: fileid3, res: fsstat3)
    ensures
        served(
            FsstatCall::Handle { handle },
            xid,
            seq![FsAnswer::Id(Ok(id)), FsAnswer::Fsstat(Ok(res))],
        ) == Outcome::<FsstatCall>::Reply(stat_reply(xid, nfsstat3::NFS3_OK) + res.encoding()),
{
    reveal_with_fuel(served, 3);
}

/// FSSTAT that fails answers with the attributes that are then asked for.
pub proof fn lemma_failed_fsstat_is_answered(
    xid: u32,
    handle: nfs_fh3,
    id: fileid3,
    stat: nfsstat3,
    attr: Result<fattr3, nfsstat3>,
)
    ensures
        served(
            FsstatCall::Handle { handle },
            xid,
            seq![FsAnswer::Id(Ok(id)), FsAnswer::Fsstat(Err(stat)), FsAnswer::Attr(attr)],
        ) == Outcome::<FsstatCall>::Reply(attr_reply(xid, stat, post_op_attr::of_getattr(attr))),
{
    reveal_with_fuel(served, 4);
}

/// READDIR of a count that is not refused answers with what the file system
/// listed, cut where it has to be.
pub proof fn lemma_readdir_is_answered(
    xid: u32,
    args: READDIR3args,
    dirid: fileid3,
    attr: Result<fattr3, nfsstat3>,
    listing: ReadDirResult,
)
    requires
        readdir_entries(attr, args.dircount) > 0,
    ensures
        served(
            ReaddirCall::Handle { args },
            xid,
            seq![FsAnswer::Id(Ok(dirid)), FsAnswer::Attr(attr), FsAnswer::Listing(Ok(listing))],
        ) == Outcome::<ReaddirCall>::Reply(
            readdir_reply(xid, attr, args.dircount, listing.entries@, listing.end),
        ),
{
    reveal_with_fuel(served, 4);
}

/// CREATE of a name that may be taken, or is not, answers with the handle and
/// the attributes of the new file, and with the directory before and after.
pub proof fn lemma_create_is_answered(
    xid: u32,
    args: CREATE3args,
    attributes: sattr3,
    dirid: fileid3,
    before: fattr3,
    id: fileid3,
    made: fattr3,
    after: Result<fattr3, nfsstat3>,
    handle: nfs_fh3,
    missing: nfsstat3,
)
    requires
        args.how == createhow3::UNCHECKED(Ok(attributes)) || args.how == createhow3::GUARDED(
            Ok(attributes),
        ),
    ensures
        ({
            let looked_up = if args.how is GUARDED {
                seq![FsAnswer::Id(Err(missing))]
            } else {
                seq![]
            };
            served(
                CreateCall::Caps { decoded: Ok(args) },
                xid,
                seq![leave(), FsAnswer::Id(Ok(dirid)), FsAnswer::Attr(Ok(before))] + looked_up
                    + seq![
                    FsAnswer::Created(Ok((id, made))),
                    FsAnswer::Attr(after),
                    FsAnswer::Handle(handle),
                ],
            ) == Outcome::<CreateCall>::Reply(
                created_reply(
                    xid,
                    handle@,
                    post_op_attr::attributes(made),
                    changed(before, after),
                ),
            )
        }),
{
    reveal_with_fuel(served, 8);
}

/// Exclusive CREATE answers with the handle of the new file but not with its
/// attributes.
pub proof fn lemma_exclusive_create_is_answered(
    xid: u32,
    args: CREATE3args,
    dirid: fileid3,
    before: fattr3,
    id: fileid3,
    after: Result<fattr3, nfsstat3>,
    handle: nfs_fh3,
)
    requires
        args.how == createhow3::EXCLUSIVE,
    ensures
        served(
            CreateCall::Caps { decoded: Ok(args) },
            xid,
            seq![
                leave(),
                FsAnswer::Id(Ok(dirid)),
                FsAnswer::Attr(Ok(before)),
                FsAnswer::Id(Ok(id)),
                FsAnswer::Attr(after),
                FsAnswer::Handle(handle),
            ],
        ) == Outcome::<CreateCall>::Reply(
            created_reply(xid, handle@, post_op_attr::Void, changed(before, after)),
        ),
{
    reveal_with_fuel(served, 7);
}

/// MKDIR answers with the new directory, and with its parent before and after.
pub proof fn lemma_mkdir_is_answered(
    xid: u32,
    args: MKDIR3args,
    dirid: fileid3,
    before: fattr3,
    id: fileid3,
    made: fattr3,
    after: Result<fattr3, nfsstat3>,
    handle: nfs_fh3,
)
    ensures
        served(
            MkdirCall::Caps { decoded: Ok(args) },
            xid,
            seq![
                leave(),
                FsAnswer::Id(Ok(dirid)),
                FsAnswer::Attr(Ok(before)),
                FsAnswer::Created(Ok((id, made))),
                FsAnswer::Attr(after),
                FsAnswer::Handle(handle),
            ],
        ) == Outcome::<MkdirCall>::Reply(
            created_reply(
                xid,
                handle@,
                post_op_attr::attributes(made),
                changed(before, after),
            ),
        ),
{
    reveal_with_fuel(served, 7);
}

/// SYMLINK answers with the new link, and with its directory before and after.
pub proof fn lemma_symlink_is_answered(
    xid: u32,
    args: SYMLINK3args,
    dirid: fileid3,
    before: fattr3,
    id: fileid3,
    made: fattr3,
    after: Result<fattr3, nfsstat3>,
    handle: nfs_fh3,
)
    ensures
        served(
            SymlinkCall::Caps { decoded: Ok(args) },
            xid,
            seq![
                leave(),
                FsAnswer::Id(Ok(dirid)),
                FsAnswer::Attr(Ok(before)),
                FsAnswer::Created(Ok((id, made))),
                FsAnswer::Attr(after),
                FsAnswer::Handle(handle),
            ],
        ) == Outcome::<SymlinkCall>::Reply(
            created_reply(
                xid,
                handle@,
                post_op_attr::attributes(made),
                changed(before, after),
            ),
        ),
{
    reveal_with_fuel(served, 7);
}

/// MKNOD of a special file answers with the new file, and with its directory
/// before and after; of another type it answers that the type is wrong.
pub proof fn lemma_mknod_is_answered(
    xid: u32,
    args: MKNOD3args,
    dirid: fileid3,
    before: fattr3,
    id: fileid3,
    made: fattr3,
    handle: nfs_fh3,
    after: Result<fattr3, nfsstat3>,
)
    ensures
        args.what.special() is Some ==> served(
            MknodCall::Handle { args },
            xid,
            seq![
                FsAnswer::Id(Ok(dirid)),
                FsAnswer::Attr(Ok(before)),
                FsAnswer::Created(Ok((id, made))),
                FsAnswer::Handle(handle),
                FsAnswer::Attr(after),
            ],
        ) == Outcome::<MknodCall>::Reply(
            created_reply(
                xid,
                handle@,
                post_op_attr::attributes(made),
                changed(before, after),
            ),
        ),
        args.what.special() is None ==> served(
            MknodCall::Handle { args },
            xid,
            seq![FsAnswer::Id(Ok(dirid)), FsAnswer::Attr(Ok(before)), FsAnswer::Attr(after)],
        ) == Outcome::<MknodCall>::Reply(
            wcc_reply(xid, nfsstat3::NFS3ERR_BADTYPE, changed(before, after)),
        ),
{
    reveal_with_fuel(served, 6);
}

/// SETATTR answers with the object before and after. Where the guard does not
/// hold, it answers that instead, and the attributes are not set.
pub proof fn lemma_setattr_is_answered(
    xid: u32,
    args: SETATTR3args,
    id: fileid3,
    before: fattr3,
    after: fattr3,
)
    ensures
        guard_holds(args.guard, before.ctime) ==> served(
            SetattrCall::Caps { decoded: Ok(args) },
            xid,
            seq![
                leave(),
                FsAnswer::Id(Ok(id)),
                FsAnswer::Attr(Ok(before)),
                FsAnswer::Attr(Ok(after)),
            ],
        ) == Outcome::<SetattrCall>::Reply(
            wcc_reply(xid, nfsstat3::NFS3_OK, changed(before, Ok(after))),
        ),
        !guard_holds(args.guard, before.ctime) ==> served(
            SetattrCall::Caps { decoded: Ok(args) },
            xid,
            seq![leave(), FsAnswer::Id(Ok(id)), FsAnswer::Attr(Ok(before))],
        ) == Outcome::<SetattrCall>::Reply(lost_reply(xid, nfsstat3::NFS3ERR_NOT_SYNC)),
{
    reveal_with_fuel(served, 5);
}

/// REMOVE answers with its status, and with the directory before and after.
pub proof fn lemma_remove_is_answered(
    xid: u32,
    args: diropargs3,
    dirid: fileid3,
    before: fattr3,
    done: Result<(), nfsstat3>,
    after: Result<fattr3, nfsstat3>,
)
    ensures
        served(
            RemoveCall::Caps { decoded: Ok(args) },
            xid,
            seq![
                leave(),
                FsAnswer::Id(Ok(dirid)),
                FsAnswer::Attr(Ok(before)),
                FsAnswer::Done(done),
                FsAnswer::Attr(after),
            ],
        ) == Outcome::<RemoveCall>::Reply(
            wcc_reply(xid, status_of(done), changed(before, after)),
        ),
{
    reveal_with_fuel(served, 6);
}

/// RENAME answers with its status, and with both directories before and after.
pub proof fn lemma_rename_is_answered(
    xid: u32,
    args: RENAME3args,
    from_dirid: fileid3,
    to_dirid: fileid3,
    from_before: fattr3,
    to_before: fattr3,
    done: Result<(), nfsstat3>,
    from_after: Result<fattr3, nfsstat3>,
    to_after: Result<fattr3, nfsstat3>,
)
    ensures
        served(
            RenameCall::Caps { decoded: Ok(args) },
            xid,
            seq![
                leave(),
                FsAnswer::Id(Ok(from_dirid)),
                FsAnswer::Id(Ok(to_dirid)),
                FsAnswer::Attr(Ok(from_before)),
                FsAnswer::Attr(Ok(to_before)),
                FsAnswer::Done(done),
                FsAnswer::Attr(from_after),
                FsAnswer::Attr(to_after),
            ],
        ) == Outcome::<RenameCall>::Reply(
            rename_reply(
                xid,
                status_of(done),
                changed(from_before, from_after),
                changed(to_before, to_after),
            ),
        ),
{
    reveal_with_fuel(served, 9);
}

/// RENAME that fails before anything is renamed answers why, with nothing known
/// of either directory.
pub proof fn lemma_failed_rename_is_answered(
    xid: u32,
    args: RENAME3args,
    from_dirid: fileid3,
    to_dirid: fileid3,
    from_before: fattr3,
    stat: nfsstat3,
)
    ensures
        served(
            RenameCall::Caps { decoded: Ok(args) },
            xid,
            seq![leave(), FsAnswer::Id(Err(stat))],
        ) == Outcome::<RenameCall>::Reply(rename_lost(xid, stat)),
        served(
            RenameCall::Caps { decoded: Ok(args) },
            xid,
            seq![leave(), FsAnswer::Id(Ok(from_dirid)), FsAnswer::Id(Err(stat))],
        ) == Outcome::<RenameCall>::Reply(rename_lost(xid, stat)),
        served(
            RenameCall::Caps { decoded: Ok(args) },
            xid,
            seq![
                leave(),
                FsAnswer::Id(Ok(from_dirid)),
                FsAnswer::Id(Ok(to_dirid)),
                FsAnswer::Attr(Err(stat)),
            ],
        ) == Outcome::<RenameCall>::Reply(rename_lost(xid, stat)),
        served(
            RenameCall::Caps { decoded: Ok(args) },
            xid,
            seq![
                leave(),
                FsAnswer::Id(Ok(from_dirid)),
                FsAnswer::Id(Ok(to_dirid)),
                FsAnswer::Attr(Ok(from_before)),
                FsAnswer::Attr(Err(stat)),
            ],
        ) == Outcome::<RenameCall>::Reply(rename_lost(xid, stat)),
{
    reveal_with_fuel(served, 6);
}

/// LINK answers with the file, after the link or, where that failed, as it was,
/// and with the directory before and after.
pub proof fn lemma_link_is_answered(
    xid: u32,
    args: LINK3args,
    id: fileid3,
    dirid: fileid3,
    file: Result<fattr3, nfsstat3>,
    before: fattr3,
    stat: nfsstat3,
    file_after: Result<fattr3, nfsstat3>,
    after: Result<fattr3, nfsstat3>,
)
    ensures
        served(
            LinkCall::FileHandle { args },
            xid,
            seq![
                FsAnswer::Id(Ok(id)),
                FsAnswer::Id(Ok(dirid)),
                FsAnswer::Attr(file),
                FsAnswer::Attr(Ok(before)),
                FsAnswer::Done(Ok(())),
                FsAnswer::Attr(file_after),
                FsAnswer::Attr(after),
            ],
        ) == Outcome::<LinkCall>::Reply(
            link_reply(
                xid,
                nfsstat3::NFS3_OK,
                post_op_attr::of_getattr(file_after),
                changed(before, after),
            ),
        ),
        served(
            LinkCall::FileHandle { args },
            xid,
            seq![
                FsAnswer::Id(Ok(id)),
                FsAnswer::Id(Ok(dirid)),
                FsAnswer::Attr(file),
                FsAnswer::Attr(Ok(before)),
                FsAnswer::Done(Err(stat)),
                FsAnswer::Attr(after),
            ],
        ) == Outcome::<LinkCall>::Reply(
            link_reply(xid, stat, post_op_attr::of_getattr(file), changed(before, after)),
        ),
{
    reveal_with_fuel(served, 8);
}

} // verus!
