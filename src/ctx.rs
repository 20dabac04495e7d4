use vstd::prelude::*;

use crate::error::Error;
use crate::string_array::{bytes_of, env_bytes, env_entry, push_all, push_outcome, StringArray, StringArrayError};
use vstd::utf8::encode_utf8;
use vstd::string::StringSliceAdditionalSpecFns;

verus! {

/// Flush a file's data.
pub const CAP_DATASYNC: u32 = 0b1;
/// Read from a file.
pub const CAP_READ: u32 = 0b10;
/// Move a file's position.
pub const CAP_SEEK: u32 = 0b100;
/// Change a descriptor's flags.
pub const CAP_FDSTAT_SET_FLAGS: u32 = 0b1000;
/// Flush a file's data and metadata.
pub const CAP_SYNC: u32 = 0b10000;
/// Report a file's position.
pub const CAP_TELL: u32 = 0b100000;
/// Write to a file.
pub const CAP_WRITE: u32 = 0b1000000;
/// Advise the host on access patterns.
pub const CAP_ADVISE: u32 = 0b10000000;
/// Allocate space for a file.
pub const CAP_ALLOCATE: u32 = 0b100000000;
/// Read a file's metadata.
pub const CAP_FILESTAT_GET: u32 = 0b1000000000;
/// Change a file's size.
pub const CAP_FILESTAT_SET_SIZE: u32 = 0b10000000000;
/// Change a file's timestamps.
pub const CAP_FILESTAT_SET_TIMES: u32 = 0b100000000000;
/// Wait for a file to become readable or writable.
pub const CAP_POLL_READWRITE: u32 = 0b1000000000000;
/// Every capability above.
pub const CAP_ALL: u32 = 0b1111111111111;
/// What a preopened socket is granted: its flags, its metadata, reading and
/// readiness polling; never writing.
pub const SOCKET_CAPS: u32 = 0b1001000001010;
/// What a terminal on a standard stream loses: it has no position.
pub const TTY_WITHHELD: u32 = 0b100100;

/// A set of capabilities over a file, one bit each.
#[derive(Clone, Copy, Debug, PartialEq, Eq, Structural)]
pub struct FileCaps {
    pub bits: u32,
}

impl FileCaps {
    pub open spec fn spec_contains(self, cap: u32) -> bool {
        self.bits & cap == cap
    }

    /// Whether every capability in `cap` is granted.
    #[verifier::when_used_as_spec(spec_contains)]
    pub fn contains(self, cap: u32) -> (r: bool)
        ensures
            r == self.spec_contains(cap),
    {
        self.bits & cap == cap
    }
}

/// A resource in the descriptor table.
pub enum Resource<F, D> {
    File(F),
    Dir(D),
}

/// One binding of the descriptor table: a descriptor number, what it refers
/// to, the capabilities granted on files reached through it and, for a
/// preopened directory, the path under which the guest sees it.
pub struct TableEntry<F, D> {
    pub fd: u32,
    pub resource: Resource<F, D>,
    pub caps: FileCaps,
    pub preopen: Option<String>,
}

/// Whether some entry of `t` is bound at `fd`.
pub open spec fn fd_used<F, D>(t: Seq<TableEntry<F, D>>, fd: u32) -> bool {
    exists|i: int| 0 <= i < t.len() && (#[trigger] t[i]).fd == fd
}

/// No two entries of `t` share a descriptor number.
pub open spec fn fds_unique<F, D>(t: Seq<TableEntry<F, D>>) -> bool {
    forall|i: int, j: int| 0 <= i < t.len() && 0 <= j < t.len() && i != j ==> t[i].fd != t[j].fd
}

/// The smallest descriptor number from 3 up (0 to 2 are the standard streams)
/// that no entry of `t` uses, where there is one.
pub open spec fn first_free_fd<F, D>(t: Seq<TableEntry<F, D>>, fd: u32) -> bool {
    &&& fd >= 3
    &&& !fd_used(t, fd)
    &&& forall|k: u32| 3 <= k < fd ==> fd_used(t, k)
}

/// `t` with `e` bound at its descriptor number: it replaces the entry bound
/// there, or is added at the end where there is none.
pub open spec fn bound_at<F, D>(t: Seq<TableEntry<F, D>>, e: TableEntry<F, D>, r: Seq<TableEntry<F, D>>) -> bool {
    ||| exists|i: int| 0 <= i < t.len() && (#[trigger] t[i]).fd == e.fd && r == t.update(i, e)
    ||| !fd_used(t, e.fd) && r == t.push(e)
}

/// The index of the entry bound at `fd`, if any.
fn find_fd<F, D>(table: &Vec<TableEntry<F, D>>, fd: u32) -> (r: Option<usize>)
    ensures
        r is Some ==> r->0 < table@.len() && table@[r->0 as int].fd == fd,
        r is None ==> !fd_used(table@, fd),
{
    let mut i: usize = 0;
    while i < table.len()
        invariant
            i <= table@.len(),
            forall|j: int| 0 <= j < i ==> table@[j].fd != fd,
        decreases table@.len() - i,
    {
        if table[i].fd == fd {
            return Some(i);
        }
        i += 1;
    }
    None
}

/// Binds `e` at its descriptor number, replacing what was bound there.
fn bind<F, D>(table: &mut Vec<TableEntry<F, D>>, e: TableEntry<F, D>)
    requires
        fds_unique(old(table)@),
    ensures
        fds_unique(final(table)@),
        bound_at(old(table)@, e, final(table)@),
{
    let ghost fd = e.fd;
    match find_fd(table, e.fd) {
        Some(i) => {
            table[i] = e;
            assert(table@[i as int].fd == fd);
        },
        None => {
            table.push(e);
            assert(table@.last().fd == fd);
        },
    }
}

/// The smallest free descriptor number from 3 up, or `None` where all are used.
fn free_fd<F, D>(table: &Vec<TableEntry<F, D>>) -> (r: Option<u32>)
    ensures
        r is Some ==> first_free_fd(table@, r->0),
        r is None ==> forall|k: u32| 3 <= k ==> fd_used(table@, k),
{
    let mut k: u32 = 3;
    loop
        invariant
            3 <= k,
            forall|j: u32| 3 <= j < k ==> fd_used(table@, j),
        decreases u32::MAX - k,
    {
        if find_fd(table, k).is_none() {
            return Some(k);
        }
        if k == u32::MAX {
            return None;
        }
        k = k + 1;
    }
}

/// The finished execution context: a descriptor table that no longer
/// changes, the environment and arguments laid out for the guest, and the
/// random source, clocks and scheduler handed in at construction.
pub struct WasiCtx<F, D, R, C, S> {
    table: Vec<TableEntry<F, D>>,
    env: StringArray,
    args: StringArray,
    random: R,
    clocks: C,
    sched: S,
}

/// Assembles an execution context step by step; `build` consumes it.
pub struct WasiCtxBuilder<F, D, R, C, S>(WasiCtx<F, D, R, C, S>);

impl<F, D, R, C, S> WasiCtx<F, D, R, C, S> {
    pub closed spec fn spec_table(&self) -> Seq<TableEntry<F, D>> {
        self.table@
    }

    pub closed spec fn spec_env(&self) -> Seq<Seq<u8>> {
        self.env@
    }

    pub closed spec fn spec_args(&self) -> Seq<Seq<u8>> {
        self.args@
    }

    pub closed spec fn spec_random(&self) -> R {
        self.random
    }

    pub closed spec fn spec_clocks(&self) -> C {
        self.clocks
    }

    pub closed spec fn spec_sched(&self) -> S {
        self.sched
    }

    /// The random source.
    pub fn random(&self) -> (r: &R)
        ensures
            *r == self.spec_random(),
    {
        &self.random
    }

    /// The clocks.
    pub fn clocks(&self) -> (r: &C)
        ensures
            *r == self.spec_clocks(),
    {
        &self.clocks
    }

    /// The scheduler.
    pub fn sched(&self) -> (r: &S)
        ensures
            *r == self.spec_sched(),
    {
        &self.sched
    }

    pub closed spec fn wf(&self) -> bool {
        &&& fds_unique(self.table@)
        &&& self.env.wf()
        &&& self.args.wf()
    }

    /// The bindings, in the order they were made.
    pub fn table(&self) -> (r: &Vec<TableEntry<F, D>>)
        ensures
            r@ == self.spec_table(),
    {
        &self.table
    }

    /// The environment, each variable as `key=value`.
    pub fn env(&self) -> (r: &StringArray)
        requires
            self.wf(),
        ensures
            r.wf(),
            r@ == self.spec_env(),
    {
        &self.env
    }

    /// The arguments.
    pub fn args(&self) -> (r: &StringArray)
        requires
            self.wf(),
        ensures
            r.wf(),
            r@ == self.spec_args(),
    {
        &self.args
    }

    /// Hands out every part of the context, for a runtime that takes ownership
    /// of the resources.
    pub fn into_parts(self) -> (r: (Vec<TableEntry<F, D>>, StringArray, StringArray, R, C, S))
        requires
            self.wf(),
        ensures
            r.0@ == self.spec_table(),
            fds_unique(r.0@),
            r.1.wf() && r.1@ == self.spec_env(),
            r.2.wf() && r.2@ == self.spec_args(),
            r.3 == self.spec_random(),
            r.4 == self.spec_clocks(),
            r.5 == self.spec_sched(),
    {
        (self.table, self.env, self.args, self.random, self.clocks, self.sched)
    }

    /// The entry bound at `fd`, if any.
    pub fn entry(&self, fd: u32) -> (r: Option<&TableEntry<F, D>>)
        requires
            self.wf(),
        ensures
            r is None <==> !fd_used(self.spec_table(), fd),
            r is Some ==> exists|i: int|
                0 <= i < self.spec_table().len() && #[trigger] self.spec_table()[i] == *r->0 && r->0.fd
                    == fd,
    {
        match find_fd(&self.table, fd) {
            Some(i) => {
                let e = &self.table[i];
                assert(self.spec_table()[i as int] == *e);
                Some(e)
            },
            None => None,
        }
    }
}

impl<F, D, R, C, S> WasiCtxBuilder<F, D, R, C, S> {
    pub closed spec fn ctx(&self) -> WasiCtx<F, D, R, C, S> {
        self.0
    }

    pub open spec fn wf(&self) -> bool {
        self.ctx().wf()
    }

    /// An empty context: no bindings, no environment, no arguments.
    pub fn new(random: R, clocks: C, sched: S) -> (r: Self)
        ensures
            r.wf(),
            r.ctx().spec_table() == Seq::<TableEntry<F, D>>::empty(),
            r.ctx().spec_env() == Seq::<Seq<u8>>::empty(),
            r.ctx().spec_args() == Seq::<Seq<u8>>::empty(),
            r.ctx().spec_random() == random,
            r.ctx().spec_clocks() == clocks,
            r.ctx().spec_sched() == sched,
    {
        let table: Vec<TableEntry<F, D>> = Vec::new();
        assert(table@ =~= Seq::<TableEntry<F, D>>::empty());
        WasiCtxBuilder(
            WasiCtx { table, env: StringArray::new(), args: StringArray::new(), random, clocks, sched },
        )
    }

    /// Adds the environment variable `var=value`.
    pub fn env(self, var: &str, value: &str) -> (r: Result<Self, StringArrayError>)
        requires
            self.wf(),
        ensures
            ({
                let e = env_entry(var.spec_bytes(), value.spec_bytes());
                &&& r is Err ==> r == Err::<Self, StringArrayError>(
                    push_outcome(self.ctx().spec_env(), e)->Err_0,
                )
                &&& r is Ok <==> push_outcome(self.ctx().spec_env(), e) is Ok
                &&& r is Ok ==> r->Ok_0.wf() && r->Ok_0.ctx().spec_env() == self.ctx().spec_env().push(e)
                    && r->Ok_0.ctx().spec_args() == self.ctx().spec_args()
                    && r->Ok_0.ctx().spec_table() == self.ctx().spec_table()
            }),
    {
        let mut b = self;
        let e = env_bytes(var, value);
        match b.0.env.push(e) {
            Ok(()) => Ok(b),
            Err(err) => Err(err),
        }
    }
}

/// The guest's form of each pair of `pairs`.
pub open spec fn env_entries(pairs: Seq<(String, String)>) -> Seq<Seq<u8>> {
    pairs.map_values(|p: (String, String)| env_entry(encode_utf8(p.0@), encode_utf8(p.1@)))
}

/// The bytes of each string of `strs`.
pub open spec fn arg_entries(strs: Seq<String>) -> Seq<Seq<u8>> {
    strs.map_values(|a: String| encode_utf8(a@))
}

impl<F, D, R, C, S> WasiCtxBuilder<F, D, R, C, S> {
    /// Adds each pair of `env`, in order, as `key=value`.
    pub fn envs(self, env: &[(String, String)]) -> (r: Result<Self, StringArrayError>)
        requires
            self.wf(),
        ensures
            ({
                let out = push_all(self.ctx().spec_env(), env_entries(env@));
                &&& r is Ok <==> out is Ok
                &&& r is Err ==> r == Err::<Self, StringArrayError>(out->Err_0)
                &&& r is Ok ==> r->Ok_0.wf() && r->Ok_0.ctx().spec_env() == out->Ok_0
                    && r->Ok_0.ctx().spec_args() == self.ctx().spec_args()
                    && r->Ok_0.ctx().spec_table() == self.ctx().spec_table()
            }),
    {
        let mut b = self;
        let ghost items = env_entries(env@);
        let ghost start = b.ctx().spec_env();
        let mut i: usize = 0;
        while i < env.len()
            invariant
                i <= env@.len(),
                items == env_entries(env@),
                start == self.ctx().spec_env(),
                b.wf(),
                b.ctx().spec_args() == self.ctx().spec_args(),
                b.ctx().spec_table() == self.ctx().spec_table(),
                push_all(start, items.subrange(0, i as int)) == Ok::<Seq<Seq<u8>>, StringArrayError>(
                    b.ctx().spec_env(),
                ),
            decreases env@.len() - i,
        {
            let pair = &env[i];
            let e = env_bytes(pair.0.as_str(), pair.1.as_str());
            assert(items.subrange(0, i + 1).drop_last() =~= items.subrange(0, i as int));
            assert(items.subrange(0, i + 1).last() == e@);
            match b.0.env.push(e) {
                Ok(()) => {},
                Err(err) => {
                    proof {
                        let pre = items.subrange(0, i + 1);
                        assert(push_all(start, pre) == Err::<Seq<Seq<u8>>, StringArrayError>(err));
                        lemma_push_all_stops(start, items, i as int + 1);
                    }
                    return Err(err);
                },
            }
            i += 1;
        }
        assert(items.subrange(0, i as int) =~= items);
        Ok(b)
    }

    /// Adds one argument.
    pub fn arg(self, arg: &str) -> (r: Result<Self, StringArrayError>)
        requires
            self.wf(),
        ensures
            ({
                let e = arg.spec_bytes();
                &&& r is Err ==> r == Err::<Self, StringArrayError>(push_outcome(self.ctx().spec_args(), e)->Err_0)
                &&& r is Ok <==> push_outcome(self.ctx().spec_args(), e) is Ok
                &&& r is Ok ==> r->Ok_0.wf() && r->Ok_0.ctx().spec_args() == self.ctx().spec_args().push(e)
                    && r->Ok_0.ctx().spec_env() == self.ctx().spec_env()
                    && r->Ok_0.ctx().spec_table() == self.ctx().spec_table()
            }),
    {
        let mut b = self;
        let e = bytes_of(arg);
        match b.0.args.push(e) {
            Ok(()) => Ok(b),
            Err(err) => Err(err),
        }
    }

    /// Adds each argument of `arg`, in order.
    pub fn args(self, arg: &[String]) -> (r: Result<Self, StringArrayError>)
        requires
            self.wf(),
        ensures
            ({
                let out = push_all(self.ctx().spec_args(), arg_entries(arg@));
                &&& r is Ok <==> out is Ok
                &&& r is Err ==> r == Err::<Self, StringArrayError>(out->Err_0)
                &&& r is Ok ==> r->Ok_0.wf() && r->Ok_0.ctx().spec_args() == out->Ok_0
                    && r->Ok_0.ctx().spec_env() == self.ctx().spec_env()
                    && r->Ok_0.ctx().spec_table() == self.ctx().spec_table()
            }),
    {
        let mut b = self;
        let ghost items = arg_entries(arg@);
        let ghost start = b.ctx().spec_args();
        let mut i: usize = 0;
        while i < arg.len()
            invariant
                i <= arg@.len(),
                items == arg_entries(arg@),
                start == self.ctx().spec_args(),
                b.wf(),
                b.ctx().spec_env() == self.ctx().spec_env(),
                b.ctx().spec_table() == self.ctx().spec_table(),
                push_all(start, items.subrange(0, i as int)) == Ok::<Seq<Seq<u8>>, StringArrayError>(
                    b.ctx().spec_args(),
                ),
            decreases arg@.len() - i,
        {
            let e = bytes_of(arg[i].as_str());
            assert(items.subrange(0, i + 1).drop_last() =~= items.subrange(0, i as int));
            assert(items.subrange(0, i + 1).last() == e@);
            match b.0.args.push(e) {
                Ok(()) => {},
                Err(err) => {
                    proof {
                        let pre = items.subrange(0, i + 1);
                        assert(push_all(start, pre) == Err::<Seq<Seq<u8>>, StringArrayError>(err));
                        lemma_push_all_stops(start, items, i as int + 1);
                    }
                    return Err(err);
                },
            }
            i += 1;
        }
        assert(items.subrange(0, i as int) =~= items);
        Ok(b)
    }
}

/// Once adding a prefix of `items` fails, adding all of them fails the same way.
proof fn lemma_push_all_stops(elems: Seq<Seq<u8>>, items: Seq<Seq<u8>>, n: int)
    requires
        0 <= n <= items.len(),
        push_all(elems, items.subrange(0, n)) is Err,
    ensures
        push_all(elems, items) == push_all(elems, items.subrange(0, n)),
    decreases items.len() - n,
{
    if n < items.len() {
        assert(items.subrange(0, n + 1).drop_last() =~= items.subrange(0, n));
        lemma_push_all_stops(elems, items, n + 1);
    } else {
        assert(items.subrange(0, n) =~= items);
    }
}

/// The capabilities of a standard stream: all of them, but a terminal has
/// no position to seek or report.
pub open spec fn stdio_caps(is_tty: bool) -> u32 {
    if is_tty {
        CAP_ALL & !TTY_WITHHELD
    } else {
        CAP_ALL
    }
}

/// The entry that binds file `f` at `fd` with capabilities `caps`.
pub open spec fn file_entry<F, D>(fd: u32, f: F, caps: u32) -> TableEntry<F, D> {
    TableEntry { fd, resource: Resource::File(f), caps: FileCaps { bits: caps }, preopen: None }
}

impl<F, D, R, C, S> WasiCtxBuilder<F, D, R, C, S> {
    /// Binds directory `dir` at the smallest free descriptor number from 3
    /// up, visible to the guest under `guest_path`, with every capability on
    /// the files opened through it. Fails with `TableFull` where no number is free.
    pub fn preopened_dir(self, dir: D, guest_path: &str) -> (r: Result<Self, Error>)
        requires
            self.wf(),
        ensures
            r is Err <==> forall|k: u32| 3 <= k ==> fd_used(self.ctx().spec_table(), k),
            r is Err ==> r == Err::<Self, Error>(Error::TableFull),
            r is Ok ==> ({
                let b = r->Ok_0;
                let t = b.ctx().spec_table();
                let e = t.last();
                &&& b.wf()
                &&& t.len() == self.ctx().spec_table().len() + 1
                &&& t.drop_last() == self.ctx().spec_table()
                &&& first_free_fd(self.ctx().spec_table(), e.fd)
                &&& e.resource == Resource::<F, D>::Dir(dir)
                &&& e.caps == FileCaps { bits: CAP_ALL }
                &&& e.preopen is Some
                &&& e.preopen->0@ == guest_path@
                &&& b.ctx().spec_env() == self.ctx().spec_env()
                &&& b.ctx().spec_args() == self.ctx().spec_args()
            }),
    {
        let mut b = self;
        let fd = match free_fd(&b.0.table) {
            Some(fd) => fd,
            None => {
                return Err(Error::TableFull);
            },
        };
        let e = TableEntry {
            fd,
            resource: Resource::Dir(dir),
            caps: FileCaps { bits: CAP_ALL },
            preopen: Some(guest_path.to_owned()),
        };
        let ghost before = b.0.table@;
        b.0.table.push(e);
        proof {
            assert(3 <= fd && !fd_used(before, fd));
            assert(!(forall|k: u32| 3 <= k ==> fd_used(before, k)));
            assert(before == self.ctx().spec_table());
            assert(b.0.table@.drop_last() =~= before);
            assert forall|i: int, j: int|
                0 <= i < b.0.table@.len() && 0 <= j < b.0.table@.len() && i != j implies b.0.table@[i].fd
                != b.0.table@[j].fd by {
                if i < before.len() && j < before.len() {
                    assert(b.0.table@[i] == before[i] && b.0.table@[j] == before[j]);
                } else if i < before.len() {
                    assert(b.0.table@[i] == before[i]);
                } else {
                    assert(b.0.table@[j] == before[j]);
                }
            }
        }
        Ok(b)
    }

    /// Binds `socket` at the caller's descriptor number `fd`, replacing what
    /// was bound there, with the fixed socket capabilities.
    pub fn preopened_socket(self, fd: u32, socket: F) -> (r: Result<Self, Error>)
        requires
            self.wf(),
        ensures
            r is Ok,
            r->Ok_0.wf(),
            bound_at(self.ctx().spec_table(), file_entry(fd, socket, SOCKET_CAPS), r->Ok_0.ctx().spec_table()),
            r->Ok_0.ctx().spec_env() == self.ctx().spec_env(),
            r->Ok_0.ctx().spec_args() == self.ctx().spec_args(),
    {
        let mut b = self;
        let caps = FileCaps { bits: CAP_FDSTAT_SET_FLAGS | CAP_FILESTAT_GET | CAP_READ | CAP_POLL_READWRITE };
        assert(CAP_FDSTAT_SET_FLAGS | CAP_FILESTAT_GET | CAP_READ | CAP_POLL_READWRITE == SOCKET_CAPS)
            by (bit_vector);
        bind(&mut b.0.table, TableEntry { fd, resource: Resource::File(socket), caps, preopen: None });
        Ok(b)
    }

    /// Binds `f` as standard input (descriptor 0), replacing what was bound there.
    pub fn stdin(self, f: F, is_tty: bool) -> (r: Self)
        requires
            self.wf(),
        ensures
            r.wf(),
            bound_at(self.ctx().spec_table(), file_entry(0, f, stdio_caps(is_tty)), r.ctx().spec_table()),
            r.ctx().spec_env() == self.ctx().spec_env(),
            r.ctx().spec_args() == self.ctx().spec_args(),
    {
        self.stdio(0, f, is_tty)
    }

    /// Binds `f` as standard output (descriptor 1), replacing what was bound there.
    pub fn stdout(self, f: F, is_tty: bool) -> (r: Self)
        requires
            self.wf(),
        ensures
            r.wf(),
            bound_at(self.ctx().spec_table(), file_entry(1, f, stdio_caps(is_tty)), r.ctx().spec_table()),
            r.ctx().spec_env() == self.ctx().spec_env(),
            r.ctx().spec_args() == self.ctx().spec_args(),
    {
        self.stdio(1, f, is_tty)
    }

    /// Binds `f` as standard error (descriptor 2), replacing what was bound there.
    pub fn stderr(self, f: F, is_tty: bool) -> (r: Self)
        requires
            self.wf(),
        ensures
            r.wf(),
            bound_at(self.ctx().spec_table(), file_entry(2, f, stdio_caps(is_tty)), r.ctx().spec_table()),
            r.ctx().spec_env() == self.ctx().spec_env(),
            r.ctx().spec_args() == self.ctx().spec_args(),
    {
        self.stdio(2, f, is_tty)
    }

    fn stdio(self, fd: u32, f: F, is_tty: bool) -> (r: Self)
        requires
            self.wf(),
        ensures
            r.wf(),
            bound_at(self.ctx().spec_table(), file_entry(fd, f, stdio_caps(is_tty)), r.ctx().spec_table()),
            r.ctx().spec_env() == self.ctx().spec_env(),
            r.ctx().spec_args() == self.ctx().spec_args(),
    {
        let mut b = self;
        let bits = if is_tty {
            CAP_ALL & !TTY_WITHHELD
        } else {
            CAP_ALL
        };
        bind(&mut b.0.table, TableEntry { fd, resource: Resource::File(f), caps: FileCaps { bits }, preopen: None });
        b
    }

    /// The finished context; the builder is used up.
    pub fn build(self) -> (r: WasiCtx<F, D, R, C, S>)
        requires
            self.wf(),
        ensures
            r.wf(),
            r == self.ctx(),
    {
        self.0
    }
}

/// Two directories preopened one after the other get distinct descriptor
/// numbers, and each number stays bound to its own directory and path.
pub proof fn lemma_preopens_distinct<F, D>(
    t: Seq<TableEntry<F, D>>,
    first: TableEntry<F, D>,
    second: TableEntry<F, D>,
)
    requires
        fds_unique(t),
        first_free_fd(t, first.fd),
        first_free_fd(t.push(first), second.fd),
    ensures
        first.fd != second.fd,
        fds_unique(t.push(first).push(second)),
        t.push(first).push(second)[t.len() as int] == first,
        t.push(first).push(second)[t.len() + 1int] == second,
{
    let t1 = t.push(first);
    assert(t1[t.len() as int].fd == first.fd);
    assert(fd_used(t1, first.fd));
    let t2 = t1.push(second);
    assert forall|i: int, j: int| 0 <= i < t2.len() && 0 <= j < t2.len() && i != j implies t2[i].fd != t2[j].fd by {
        if i < t.len() && j < t.len() {
            assert(t2[i] == t[i] && t2[j] == t[j]);
        } else if i < t.len() {
            assert(t2[i] == t1[i]);
            if j == t.len() {
                assert(!fd_used(t, first.fd));
            } else {
                assert(!fd_used(t1, second.fd));
            }
        } else if j < t.len() {
            assert(t2[j] == t1[j]);
            if i == t.len() {
                assert(!fd_used(t, first.fd));
            } else {
                assert(!fd_used(t1, second.fd));
            }
        }
    }
}

/// A preopened socket may query and set its descriptor flags, read its
/// metadata, read and poll for readiness, and nothing else: writing in
/// particular is never granted.
pub proof fn lemma_socket_caps()
    ensures
        (FileCaps { bits: SOCKET_CAPS }).spec_contains(CAP_FDSTAT_SET_FLAGS),
        (FileCaps { bits: SOCKET_CAPS }).spec_contains(CAP_FILESTAT_GET),
        (FileCaps { bits: SOCKET_CAPS }).spec_contains(CAP_READ),
        (FileCaps { bits: SOCKET_CAPS }).spec_contains(CAP_POLL_READWRITE),
        !(FileCaps { bits: SOCKET_CAPS }).spec_contains(CAP_WRITE),
        SOCKET_CAPS == CAP_FDSTAT_SET_FLAGS | CAP_FILESTAT_GET | CAP_READ | CAP_POLL_READWRITE,
{
    assert(SOCKET_CAPS & CAP_FDSTAT_SET_FLAGS == CAP_FDSTAT_SET_FLAGS) by (bit_vector);
    assert(SOCKET_CAPS & CAP_FILESTAT_GET == CAP_FILESTAT_GET) by (bit_vector);
    assert(SOCKET_CAPS & CAP_READ == CAP_READ) by (bit_vector);
    assert(SOCKET_CAPS & CAP_POLL_READWRITE == CAP_POLL_READWRITE) by (bit_vector);
    assert(SOCKET_CAPS & CAP_WRITE != CAP_WRITE) by (bit_vector);
    assert(SOCKET_CAPS == CAP_FDSTAT_SET_FLAGS | CAP_FILESTAT_GET | CAP_READ | CAP_POLL_READWRITE) by (bit_vector);
}

} // verus!
