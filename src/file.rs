use vstd::prelude::*;

use crate::error::Error;

verus! {

/// The kind of object behind a descriptor, as the guest sees it.
#[derive(Clone, Copy, Debug, PartialEq, Eq, Structural)]
pub enum FileType {
    Unknown,
    BlockDevice,
    CharacterDevice,
    Directory,
    RegularFile,
    SocketDgram,
    SocketStream,
    SymbolicLink,
}

/// The type predicates that the host's metadata answers for one object.
#[derive(Clone, Copy, Debug, PartialEq, Eq, Structural)]
pub struct HostFileType {
    pub is_dir: bool,
    pub is_symlink: bool,
    pub is_socket: bool,
    pub is_block_device: bool,
    pub is_char_device: bool,
    pub is_file: bool,
}

/// The first predicate that holds decides: directory, symbolic link, socket
/// (a datagram socket where the block-device predicate also holds), block
/// device, character device, regular file; where none holds, the type is unknown.
pub open spec fn classify(ft: HostFileType) -> FileType {
    if ft.is_dir {
        FileType::Directory
    } else if ft.is_symlink {
        FileType::SymbolicLink
    } else if ft.is_socket {
        if ft.is_block_device {
            FileType::SocketDgram
        } else {
            FileType::SocketStream
        }
    } else if ft.is_block_device {
        FileType::BlockDevice
    } else if ft.is_char_device {
        FileType::CharacterDevice
    } else if ft.is_file {
        FileType::RegularFile
    } else {
        FileType::Unknown
    }
}

/// Classifies an object from its host type predicates.
pub fn filetype_from(ft: &HostFileType) -> (r: FileType)
    ensures
        r == classify(*ft),
{
    if ft.is_dir {
        FileType::Directory
    } else if ft.is_symlink {
        FileType::SymbolicLink
    } else if ft.is_socket {
        if ft.is_block_device {
            FileType::SocketDgram
        } else {
            FileType::SocketStream
        }
    } else if ft.is_block_device {
        FileType::BlockDevice
    } else if ft.is_char_device {
        FileType::CharacterDevice
    } else if ft.is_file {
        FileType::RegularFile
    } else {
        FileType::Unknown
    }
}

/// The host type with exactly one predicate set: the one at `k`, in the order
/// directory, symbolic link, socket, block device, character device, regular
/// file; for any other `k`, none.
pub open spec fn single_predicate(k: int) -> HostFileType {
    HostFileType {
        is_dir: k == 0,
        is_symlink: k == 1,
        is_socket: k == 2,
        is_block_device: k == 3,
        is_char_device: k == 4,
        is_file: k == 5,
    }
}

/// Each host predicate that holds alone gives its own file type, no predicate
/// gives `Unknown`, and a socket that is also a block device is a datagram socket.
pub proof fn lemma_classify_total()
    ensures
        classify(single_predicate(0)) == FileType::Directory,
        classify(single_predicate(1)) == FileType::SymbolicLink,
        classify(single_predicate(2)) == FileType::SocketStream,
        classify(single_predicate(3)) == FileType::BlockDevice,
        classify(single_predicate(4)) == FileType::CharacterDevice,
        classify(single_predicate(5)) == FileType::RegularFile,
        classify(single_predicate(6)) == FileType::Unknown,
        forall|ft: HostFileType|
            ft.is_socket && ft.is_block_device && !ft.is_dir && !ft.is_symlink ==> classify(ft)
                == FileType::SocketDgram,
{
}

/// A byte count reported by the host, as the guest's 64-bit count.
pub fn byte_count(n: usize) -> (r: Result<u64, Error>)
    ensures
        r == Ok::<u64, Error>(n as u64),
{
    if n as u128 > u64::MAX as u128 {
        return Err(Error::Overflow);
    }
    Ok(n as u64)
}

} // verus!
