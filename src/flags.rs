use vstd::prelude::*;

use crate::error::Error;

verus! {

/// Descriptor flags in the guest's vocabulary.
#[derive(Clone, Copy, Debug, PartialEq, Eq, Structural)]
pub struct FdFlags {
    pub append: bool,
    pub dsync: bool,
    pub nonblock: bool,
    pub rsync: bool,
    pub sync: bool,
}

/// Descriptor flags in the host's vocabulary.
#[derive(Clone, Copy, Debug, PartialEq, Eq, Structural)]
pub struct HostFdFlags {
    pub append: bool,
    pub dsync: bool,
    pub nonblock: bool,
    pub rsync: bool,
    pub sync: bool,
}

/// Open flags in the guest's vocabulary.
#[derive(Clone, Copy, Debug, PartialEq, Eq, Structural)]
pub struct OFlags {
    pub create: bool,
    pub directory: bool,
    pub exclusive: bool,
    pub truncate: bool,
}

/// The options handed to the host's open call.
#[derive(Clone, Copy, Debug, PartialEq, Eq, Structural)]
pub struct HostOpenOptions {
    pub create: bool,
    pub create_new: bool,
    pub truncate: bool,
    pub read: bool,
    pub write: bool,
    pub append: bool,
    pub follow_symlinks: bool,
}

impl FdFlags {
    pub fn empty() -> (r: FdFlags)
        ensures
            !r.append && !r.dsync && !r.nonblock && !r.rsync && !r.sync,
    {
        FdFlags { append: false, dsync: false, nonblock: false, rsync: false, sync: false }
    }

    /// Whether any flag of the synchronized-I/O family is set.
    pub open spec fn spec_wants_sync(self) -> bool {
        self.dsync || self.rsync || self.sync
    }

    #[verifier::when_used_as_spec(spec_wants_sync)]
    pub fn wants_sync(self) -> (r: bool)
        ensures
            r == self.spec_wants_sync(),
    {
        self.dsync || self.rsync || self.sync
    }
}

impl OFlags {
    pub fn empty() -> (r: OFlags)
        ensures
            !r.create && !r.directory && !r.exclusive && !r.truncate,
    {
        OFlags { create: false, directory: false, exclusive: false, truncate: false }
    }
}

/// The host flag that each guest flag stands for, bit for bit.
pub open spec fn host_of(f: FdFlags) -> HostFdFlags {
    HostFdFlags { append: f.append, dsync: f.dsync, nonblock: f.nonblock, rsync: f.rsync, sync: f.sync }
}

/// The guest flag that each host flag stands for, bit for bit.
pub open spec fn guest_of(h: HostFdFlags) -> FdFlags {
    FdFlags { append: h.append, dsync: h.dsync, nonblock: h.nonblock, rsync: h.rsync, sync: h.sync }
}

/// Guest descriptor flags as host descriptor flags.
pub fn to_sysif_fdflags(f: FdFlags) -> (r: HostFdFlags)
    ensures
        r == host_of(f),
{
    let mut out = HostFdFlags { append: false, dsync: false, nonblock: false, rsync: false, sync: false };
    if f.append {
        out.append = true;
    }
    if f.dsync {
        out.dsync = true;
    }
    if f.nonblock {
        out.nonblock = true;
    }
    if f.rsync {
        out.rsync = true;
    }
    if f.sync {
        out.sync = true;
    }
    out
}

/// Host descriptor flags, as read from an open handle, in the guest's vocabulary.
pub fn get_fd_flags(host: HostFdFlags) -> (r: FdFlags)
    ensures
        r == guest_of(host),
{
    let mut out = FdFlags::empty();
    if host.append {
        out.append = true;
    }
    if host.dsync {
        out.dsync = true;
    }
    if host.nonblock {
        out.nonblock = true;
    }
    if host.rsync {
        out.rsync = true;
    }
    if host.sync {
        out.sync = true;
    }
    out
}

/// Translating to the host and back gives the flags one started from, and a
/// second trip to the host gives the same host flags as the first.
pub proof fn lemma_fdflags_round_trip(f: FdFlags, h: HostFdFlags)
    ensures
        guest_of(host_of(f)) == f,
        host_of(guest_of(h)) == h,
        host_of(guest_of(host_of(f))) == host_of(f),
{
}

/// The host open options for a request, or `None` where the request asks for
/// synchronized I/O, which the host cannot open with.
pub open spec fn host_options_of(
    oflags: OFlags,
    fdflags: FdFlags,
    read: bool,
    write: bool,
    symlink_follow: bool,
) -> Option<HostOpenOptions> {
    if fdflags.spec_wants_sync() {
        None
    } else {
        Some(
            HostOpenOptions {
                create: oflags.create && !oflags.exclusive,
                create_new: oflags.create && oflags.exclusive,
                truncate: oflags.truncate,
                read: read || !write,
                write: write || oflags.create,
                append: fdflags.append,
                follow_symlinks: symlink_follow,
            },
        )
    }
}

/// Builds the host open options for an open request.
pub fn to_host_options(
    oflags: OFlags,
    fdflags: FdFlags,
    read: bool,
    write: bool,
    symlink_follow: bool,
) -> (r: Result<HostOpenOptions, Error>)
    ensures
        fdflags.wants_sync() ==> r == Err::<HostOpenOptions, Error>(Error::NotSupported),
        !fdflags.wants_sync() ==> r == Ok::<HostOpenOptions, Error>(
            host_options_of(oflags, fdflags, read, write, symlink_follow)->Some_0,
        ),
{
    if fdflags.wants_sync() {
        return Err(Error::NotSupported);
    }
    let mut opts = HostOpenOptions {
        create: false,
        create_new: false,
        truncate: false,
        read: false,
        write: false,
        append: false,
        follow_symlinks: false,
    };
    if oflags.create && oflags.exclusive {
        opts.create_new = true;
        opts.write = true;
    } else if oflags.create {
        opts.create = true;
        opts.write = true;
    }
    if oflags.truncate {
        opts.truncate = true;
    }
    if read {
        opts.read = true;
    }
    if write {
        opts.write = true;
    } else {
        opts.read = true;
    }
    if fdflags.append {
        opts.append = true;
    }
    opts.follow_symlinks = symlink_follow;
    Ok(opts)
}

} // verus!
