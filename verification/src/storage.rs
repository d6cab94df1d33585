//! The storage effector: what the host must run to materialize or remove a
//! disk's backing file, and how its outcome is judged.
//!
//! The effector itself is a child process on the owning host; this module
//! holds the verified parts: the backing file's path, the exact command
//! line handed to the image tool, and the decisions on the outcomes. No
//! catalog record is written unless the tool exited zero; deleting a
//! backing file that is already gone succeeds.

use vstd::prelude::*;
use crate::ids::{uuid_chars, format_id};
use crate::strutil::{dec_chars, u64_to_string, push_char};
use crate::cluster::error::Error;

verus! {

/// The path of a disk's backing file: `<pool_path>/<id>.qcow2`.
pub open spec fn disk_file_chars(pool_path: Seq<char>, disk_id: u128) -> Seq<char> {
    pool_path + seq!['/'] + uuid_chars(disk_id) + ".qcow2"@
}

/// Builds the path of a disk's backing file inside its pool's directory.
pub fn disk_filename(pool_path: &str, disk_id: u128) -> (r: String)
    ensures
        r@ == disk_file_chars(pool_path@, disk_id),
{
    let mut r = pool_path.to_owned();
    push_char(&mut r, '/');
    let id_text = format_id(disk_id);
    r.append(id_text.as_str());
    r.append(".qcow2");
    proof {
        reveal_strlit(".qcow2");
        assert(r@ =~= disk_file_chars(pool_path@, disk_id));
    }
    r
}

/// The command that materializes a backing file of the requested size:
/// `qemu-img create -f qcow2 <filename> <size>`.
pub open spec fn create_command_chars(filename: Seq<char>, size: u64) -> Seq<char> {
    "qemu-img create -f qcow2 "@ + filename + seq![' '] + dec_chars(size as int)
}

/// Builds the image tool invocation for a new backing file.
pub fn create_disk_command(filename: &str, size: u64) -> (r: String)
    ensures
        r@ == create_command_chars(filename@, size),
{
    let mut r = String::from_str("qemu-img create -f qcow2 ");
    r.append(filename);
    push_char(&mut r, ' ');
    let size_text = u64_to_string(size);
    r.append(size_text.as_str());
    proof {
        assert(r@ =~= create_command_chars(filename@, size));
    }
    r
}

/// Judges the image tool's exit: the disk may be recorded exactly when the
/// tool exited zero; otherwise the failure carries the tool's stderr and
/// nothing may be recorded.
pub fn create_disk_outcome(exit_ok: bool, stderr: &str) -> (r: Result<(), Error>)
    ensures
        exit_ok <==> r is Ok,
        !exit_ok ==> (r matches Err(Error::CommandFailed(m)) && m@ == stderr@),
{
    if exit_ok {
        Ok(())
    } else {
        Err(Error::CommandFailed(stderr.to_owned()))
    }
}

/// Judges the removal of a backing file: a file that was already gone is
/// not an error, so the removal succeeds whether or not the file existed.
pub fn delete_disk_outcome(_file_existed: bool) -> (r: Result<(), Error>)
    ensures
        r is Ok,
{
    Ok(())
}

/// Effector idempotence for deletes: removing a disk's backing file
/// succeeds whatever the file's state, so running the removal again after
/// the file is already gone succeeds too.
pub proof fn lemma_delete_disk_idempotent(first_existed: bool)
    ensures
        spec_delete_outcome(first_existed) is Ok,
        spec_delete_outcome(false) is Ok,
{
}

/// The outcome of a backing file removal, by whether the file existed.
pub open spec fn spec_delete_outcome(_file_existed: bool) -> Result<(), Error> {
    Ok(())
}

} // verus!
