use wasi_cap_std_sync::{
    get_fd_flags, open_plan, to_host_options, to_sysif_fdflags, Error, FdFlags, HostFdFlags,
    HostOpenOptions, OFlags,
};

fn fd(append: bool, dsync: bool, nonblock: bool, rsync: bool, sync: bool) -> FdFlags {
    FdFlags { append, dsync, nonblock, rsync, sync }
}

fn all_fdflags() -> Vec<FdFlags> {
    let mut out = Vec::new();
    for bits in 0u8..32 {
        out.push(fd(
            bits & 1 != 0,
            bits & 2 != 0,
            bits & 4 != 0,
            bits & 8 != 0,
            bits & 16 != 0,
        ));
    }
    out
}

#[test]
fn fdflags_round_trip_every_subset() {
    for f in all_fdflags() {
        let h = to_sysif_fdflags(f);
        assert_eq!(get_fd_flags(h), f);
        assert_eq!(to_sysif_fdflags(get_fd_flags(h)), h);
    }
}

#[test]
fn fdflags_translate_bit_for_bit() {
    let h = to_sysif_fdflags(fd(true, false, true, false, false));
    assert_eq!(
        h,
        HostFdFlags { append: true, dsync: false, nonblock: true, rsync: false, sync: false }
    );
    let g = get_fd_flags(HostFdFlags { append: false, dsync: true, nonblock: false, rsync: true, sync: true });
    assert_eq!(g, fd(false, true, false, true, true));
    assert_eq!(get_fd_flags(to_sysif_fdflags(FdFlags::empty())), FdFlags::empty());
}

fn oflags(create: bool, exclusive: bool, truncate: bool) -> OFlags {
    OFlags { create, directory: false, exclusive, truncate }
}

#[test]
fn create_exclusive_asks_for_new_file() {
    let o = to_host_options(oflags(true, true, false), FdFlags::empty(), false, false, true).unwrap();
    assert_eq!(
        o,
        HostOpenOptions {
            create: false,
            create_new: true,
            truncate: false,
            read: true,
            write: true,
            append: false,
            follow_symlinks: true,
        }
    );
}

#[test]
fn create_alone_opens_existing_and_truncates_only_on_request() {
    let o = to_host_options(oflags(true, false, false), FdFlags::empty(), true, false, false).unwrap();
    assert!(o.create && !o.create_new && !o.truncate && o.write && o.read && !o.follow_symlinks);
    let t = to_host_options(oflags(true, false, true), FdFlags::empty(), true, false, false).unwrap();
    assert!(t.create && !t.create_new && t.truncate);
}

#[test]
fn read_is_forced_when_write_is_not_asked() {
    let o = to_host_options(OFlags::empty(), FdFlags::empty(), false, false, true).unwrap();
    assert!(o.read && !o.write && !o.create && !o.create_new);
    let w = to_host_options(OFlags::empty(), FdFlags::empty(), false, true, true).unwrap();
    assert!(!w.read && w.write);
}

#[test]
fn append_passes_through() {
    let o = to_host_options(OFlags::empty(), fd(true, false, false, false, false), true, true, true).unwrap();
    assert!(o.append);
}

#[test]
fn sync_family_is_not_supported() {
    for f in all_fdflags() {
        let r = to_host_options(oflags(true, false, false), f, true, true, true);
        let p = open_plan(true, oflags(true, false, false), true, true, f);
        if f.dsync || f.rsync || f.sync {
            assert_eq!(r, Err(Error::NotSupported));
            assert_eq!(p, Err(Error::NotSupported));
        } else {
            assert!(r.is_ok());
            assert!(p.is_ok());
        }
    }
}

#[test]
fn nonblock_is_applied_after_open() {
    let p = open_plan(false, OFlags::empty(), true, false, fd(false, false, true, false, false)).unwrap();
    assert!(p.set_nonblock);
    assert!(p.options.read && !p.options.follow_symlinks);
    let q = open_plan(false, OFlags::empty(), true, false, FdFlags::empty()).unwrap();
    assert!(!q.set_nonblock);
}
