use wasi_cap_std_sync::ctx::{CAP_ALL, CAP_READ, CAP_SEEK, CAP_TELL, CAP_WRITE, SOCKET_CAPS};
use wasi_cap_std_sync::{
    filetype_from, open_plan, FdFlags, FileType, HostFileType, OFlags, Resource, StringArrayError,
    WasiCtxBuilder,
};

type Builder = WasiCtxBuilder<String, String, (), (), ()>;

fn builder() -> Builder {
    WasiCtxBuilder::new((), (), ())
}

#[test]
fn env_and_args_keep_their_order() {
    let ctx = builder()
        .env("HOME", "/home/guest")
        .unwrap()
        .envs(&[("A".to_string(), "1".to_string()), ("B".to_string(), "".to_string())])
        .unwrap()
        .arg("prog")
        .unwrap()
        .args(&["-v".to_string(), "x".to_string()])
        .unwrap()
        .build();
    let env = ctx.env();
    assert_eq!(env.number_elements(), 3);
    assert_eq!(env.get(0), &b"HOME=/home/guest".to_vec());
    assert_eq!(env.get(1), &b"A=1".to_vec());
    assert_eq!(env.get(2), &b"B=".to_vec());
    assert_eq!(env.cumulative_size(), 17 + 4 + 3);
    let args = ctx.args();
    assert_eq!(args.number_elements(), 3);
    assert_eq!(args.get(0), &b"prog".to_vec());
    assert_eq!(args.get(2), &b"x".to_vec());
    assert_eq!(args.cumulative_size(), 5 + 3 + 2);
}

#[test]
fn nul_in_env_or_arg_is_refused() {
    assert_eq!(builder().env("K", "a\0b").err(), Some(StringArrayError::ContainsNul));
    assert_eq!(builder().arg("\0").err(), Some(StringArrayError::ContainsNul));
    let r = builder().args(&["ok".to_string(), "b\0d".to_string()]);
    assert_eq!(r.err(), Some(StringArrayError::ContainsNul));
    let e = builder().envs(&[("K\0".to_string(), "v".to_string())]);
    assert_eq!(e.err(), Some(StringArrayError::ContainsNul));
}

#[test]
fn two_preopened_dirs_get_distinct_descriptors() {
    let ctx = builder()
        .preopened_dir("host-a".to_string(), "/a")
        .unwrap()
        .preopened_dir("host-b".to_string(), "/b")
        .unwrap()
        .build();
    let t = ctx.table();
    assert_eq!(t.len(), 2);
    assert_eq!(t[0].fd, 3);
    assert_eq!(t[1].fd, 4);
    let a = ctx.entry(3).unwrap();
    let b = ctx.entry(4).unwrap();
    assert!(matches!(&a.resource, Resource::Dir(d) if d == "host-a"));
    assert!(matches!(&b.resource, Resource::Dir(d) if d == "host-b"));
    assert_eq!(a.preopen.as_deref(), Some("/a"));
    assert_eq!(b.preopen.as_deref(), Some("/b"));
    assert_eq!(a.caps.bits, CAP_ALL);
    assert!(ctx.entry(5).is_none());
}

#[test]
fn preopened_dir_skips_taken_descriptors() {
    let ctx = builder()
        .preopened_socket(3, "sock".to_string())
        .unwrap()
        .preopened_dir("dir".to_string(), "/d")
        .unwrap()
        .build();
    assert_eq!(ctx.table().len(), 2);
    assert_eq!(ctx.table()[1].fd, 4);
}

#[test]
fn socket_gets_fixed_caps_without_write() {
    let ctx = builder().preopened_socket(7, "sock".to_string()).unwrap().build();
    let e = ctx.entry(7).unwrap();
    assert_eq!(e.caps.bits, SOCKET_CAPS);
    assert!(e.caps.contains(CAP_READ));
    assert!(!e.caps.contains(CAP_WRITE));
    assert!(e.preopen.is_none());
}

#[test]
fn socket_replaces_previous_binding() {
    let ctx = builder()
        .preopened_socket(9, "first".to_string())
        .unwrap()
        .preopened_socket(9, "second".to_string())
        .unwrap()
        .build();
    assert_eq!(ctx.table().len(), 1);
    assert!(matches!(&ctx.entry(9).unwrap().resource, Resource::File(f) if f == "second"));
}

#[test]
fn stdio_binds_fixed_slots() {
    let ctx = builder()
        .stdin("in".to_string(), false)
        .stdout("out".to_string(), true)
        .stderr("err".to_string(), false)
        .stdin("in2".to_string(), false)
        .build();
    assert_eq!(ctx.table().len(), 3);
    assert!(matches!(&ctx.entry(0).unwrap().resource, Resource::File(f) if f == "in2"));
    assert_eq!(ctx.entry(0).unwrap().caps.bits, CAP_ALL);
    let out = ctx.entry(1).unwrap();
    assert!(!out.caps.contains(CAP_SEEK) && !out.caps.contains(CAP_TELL));
    assert!(out.caps.contains(CAP_WRITE));
    assert!(matches!(&ctx.entry(2).unwrap().resource, Resource::File(f) if f == "err"));
}

#[test]
fn sandbox_scenario_plans_a_regular_file() {
    let ctx = builder().preopened_dir("sandbox-handle".to_string(), "/sandbox").unwrap().build();
    let dir = ctx.entry(3).unwrap();
    assert_eq!(dir.preopen.as_deref(), Some("/sandbox"));
    let create = OFlags { create: true, directory: false, exclusive: false, truncate: false };
    let plan = open_plan(true, create, true, true, FdFlags::empty()).unwrap();
    assert!(plan.options.create && plan.options.read && plan.options.write);
    assert!(!plan.options.create_new && !plan.options.truncate && !plan.set_nonblock);
    let created = HostFileType {
        is_dir: false,
        is_symlink: false,
        is_socket: false,
        is_block_device: false,
        is_char_device: false,
        is_file: true,
    };
    assert_eq!(filetype_from(&created), FileType::RegularFile);
}
