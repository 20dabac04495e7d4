use vstd::prelude::*;

use crate::error::Error;
use crate::flags::{host_options_of, to_host_options, FdFlags, HostOpenOptions, OFlags};

verus! {

/// What the host must do to open a file relative to a directory handle:
/// open with `options`, then, where `set_nonblock` holds, switch the new
/// handle to non-blocking mode.
#[derive(Clone, Copy, Debug, PartialEq, Eq, Structural)]
pub struct OpenPlan {
    pub options: HostOpenOptions,
    pub set_nonblock: bool,
}

/// The plan for opening a file, decided before the host is touched. A request
/// for synchronized I/O is refused with `NotSupported`: the host has no open
/// mode for it. Non-blocking mode has no open option and is applied after the
/// open. The path itself is handed to the host unchanged.
pub fn open_plan(
    symlink_follow: bool,
    oflags: OFlags,
    read: bool,
    write: bool,
    fdflags: FdFlags,
) -> (r: Result<OpenPlan, Error>)
    ensures
        fdflags.wants_sync() <==> r == Err::<OpenPlan, Error>(Error::NotSupported),
        !fdflags.wants_sync() ==> r == Ok::<OpenPlan, Error>(
            OpenPlan {
                options: host_options_of(oflags, fdflags, read, write, symlink_follow)->Some_0,
                set_nonblock: fdflags.nonblock,
            },
        ),
{
    if fdflags.wants_sync() {
        return Err(Error::NotSupported);
    }
    let options = match to_host_options(oflags, fdflags, read, write, symlink_follow) {
        Ok(o) => o,
        Err(e) => {
            return Err(e);
        },
    };
    Ok(OpenPlan { options, set_nonblock: fdflags.nonblock })
}

/// Opening with both `create` and `exclusive` asks the host for a new file
/// only, so an existing path is refused; `create` alone opens an existing
/// path, and truncates it only where `truncate` is also asked for.
pub proof fn lemma_create_modes(oflags: OFlags, fdflags: FdFlags, read: bool, write: bool, follow: bool)
    requires
        !fdflags.spec_wants_sync(),
        oflags.create,
    ensures
        ({
            let o = host_options_of(oflags, fdflags, read, write, follow)->Some_0;
            &&& o.create_new == oflags.exclusive
            &&& o.create == !oflags.exclusive
            &&& o.truncate == oflags.truncate
            &&& o.write
        }),
{
}

} // verus!
