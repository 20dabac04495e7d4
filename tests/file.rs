use wasi_cap_std_sync::{byte_count, filetype_from, FileType, HostFileType};

fn none() -> HostFileType {
    HostFileType {
        is_dir: false,
        is_symlink: false,
        is_socket: false,
        is_block_device: false,
        is_char_device: false,
        is_file: false,
    }
}

#[test]
fn each_predicate_alone_names_its_type() {
    assert_eq!(filetype_from(&HostFileType { is_dir: true, ..none() }), FileType::Directory);
    assert_eq!(filetype_from(&HostFileType { is_symlink: true, ..none() }), FileType::SymbolicLink);
    assert_eq!(filetype_from(&HostFileType { is_socket: true, ..none() }), FileType::SocketStream);
    assert_eq!(filetype_from(&HostFileType { is_block_device: true, ..none() }), FileType::BlockDevice);
    assert_eq!(filetype_from(&HostFileType { is_char_device: true, ..none() }), FileType::CharacterDevice);
    assert_eq!(filetype_from(&HostFileType { is_file: true, ..none() }), FileType::RegularFile);
    assert_eq!(filetype_from(&none()), FileType::Unknown);
}

#[test]
fn socket_wins_over_block_device() {
    let ft = HostFileType { is_socket: true, is_block_device: true, ..none() };
    assert_eq!(filetype_from(&ft), FileType::SocketDgram);
}

#[test]
fn directory_and_symlink_come_first() {
    let all = HostFileType {
        is_dir: true,
        is_symlink: true,
        is_socket: true,
        is_block_device: true,
        is_char_device: true,
        is_file: true,
    };
    assert_eq!(filetype_from(&all), FileType::Directory);
    assert_eq!(filetype_from(&HostFileType { is_dir: false, ..all }), FileType::SymbolicLink);
    assert_eq!(
        filetype_from(&HostFileType { is_block_device: true, is_char_device: true, is_file: true, ..none() }),
        FileType::BlockDevice
    );
    assert_eq!(
        filetype_from(&HostFileType { is_char_device: true, is_file: true, ..none() }),
        FileType::CharacterDevice
    );
}

#[test]
fn byte_counts_convert_exactly() {
    assert_eq!(byte_count(0), Ok(0));
    assert_eq!(byte_count(4096), Ok(4096));
    assert_eq!(byte_count(usize::MAX), Ok(usize::MAX as u64));
}
