use d_buddy::bus::ProcessIdentity;
use d_buddy::identity::{
    identity_from_arguments, identity_from_cmdline, identity_with_name, needs_resolution,
    split_arguments, IdentityCache, Lookup,
};

fn texts(args: &[&str]) -> Vec<String> {
    args.iter().map(|a| a.to_string()).collect()
}

#[test]
fn only_anonymous_connections_are_resolved() {
    assert!(needs_resolution(":1.42"));
    assert!(needs_resolution(":"));
    assert!(!needs_resolution("org.freedesktop.DBus"));
    assert!(!needs_resolution(""));
    assert!(!needs_resolution("a:1"));
}

#[test]
fn a_command_line_is_split_at_zero_bytes() {
    assert_eq!(
        split_arguments(&b"/usr/bin/foo\0--bar\0baz\0".to_vec()),
        texts(&["/usr/bin/foo", "--bar", "baz"])
    );
    assert_eq!(split_arguments(&b"single".to_vec()), texts(&["single"]));
    assert_eq!(split_arguments(&b"a\0b".to_vec()), texts(&["a", "b"]));
}

#[test]
fn empty_arguments_are_dropped() {
    assert_eq!(split_arguments(&Vec::new()), Vec::<String>::new());
    assert_eq!(split_arguments(&vec![0u8]), Vec::<String>::new());
    assert_eq!(split_arguments(&vec![0u8, 0, 0]), Vec::<String>::new());
    assert_eq!(split_arguments(&b"\0a\0\0b\0\0".to_vec()), texts(&["a", "b"]));
}

#[test]
fn arguments_that_are_not_text_are_dropped() {
    let mut cmdline = b"/bin/tool\0".to_vec();
    cmdline.extend_from_slice(&[0xff, 0xfe, 0x00]);
    cmdline.extend_from_slice("grüß".as_bytes());
    cmdline.push(0);
    cmdline.extend_from_slice(&[0xc3]);
    assert_eq!(split_arguments(&cmdline), texts(&["/bin/tool", "grüß"]));
    assert_eq!(split_arguments(&vec![0x80u8]), Vec::<String>::new());
}

#[test]
fn the_identity_names_the_last_component_of_the_first_argument() {
    let identity = identity_from_cmdline(321, &b"/usr/lib/firefox/firefox\0-contentproc\0".to_vec());
    assert_eq!(
        identity,
        Some(ProcessIdentity {
            pid: 321,
            name: "firefox".to_string(),
            path: "/usr/lib/firefox/firefox".to_string(),
            args: texts(&["/usr/lib/firefox/firefox", "-contentproc"]),
        })
    );
    let bare = identity_from_cmdline(1, &b"systemd".to_vec()).unwrap();
    assert_eq!(bare.name, "systemd");
    assert_eq!(bare.path, "systemd");
    let trailing = identity_from_cmdline(1, &b"/opt/tool/\0".to_vec()).unwrap();
    assert_eq!(trailing.name, "tool");
    assert_eq!(trailing.path, "/opt/tool/");
}

#[test]
fn an_empty_command_line_gives_the_unknown_identity() {
    let unknown =
        ProcessIdentity { pid: 9, name: "Unknown".to_string(), path: String::new(), args: vec![] };
    assert_eq!(identity_from_cmdline(9, &Vec::new()), Some(unknown.clone()));
    assert_eq!(identity_from_cmdline(9, &vec![0u8, 0]), Some(unknown.clone()));
    assert_eq!(identity_from_cmdline(9, &vec![0xffu8]), Some(unknown.clone()));
    assert_eq!(identity_from_arguments(9, Vec::new()), Some(unknown.clone()));
    assert_eq!(identity_with_name(9, Vec::new(), None), Some(unknown.clone()));
    assert_eq!(identity_with_name(9, Vec::new(), Some("x".to_string())), Some(unknown));
}

#[test]
fn a_first_argument_without_a_last_component_gives_nothing() {
    assert_eq!(identity_from_cmdline(9, &b"/\0x".to_vec()), None);
    assert_eq!(identity_from_cmdline(9, &b"..\0".to_vec()), None);
    assert_eq!(identity_from_cmdline(9, &b"/usr/..".to_vec()), None);
    assert_eq!(identity_from_arguments(9, texts(&["/"])), None);
    assert_eq!(identity_with_name(9, texts(&["/bin/x"]), None), None);
}

#[test]
fn the_identity_with_a_given_name() {
    assert_eq!(
        identity_with_name(4, texts(&["/bin/x", "y"]), Some("x".to_string())),
        Some(ProcessIdentity {
            pid: 4,
            name: "x".to_string(),
            path: "/bin/x".to_string(),
            args: texts(&["/bin/x", "y"]),
        })
    );
}

#[test]
fn the_cache_remembers_what_it_learns() {
    let mut cache = IdentityCache::new();
    assert_eq!(cache.len(), 0);
    assert_eq!(cache.lookup(":1.1"), None);
    let learned = cache.learn(":1.1", 100, &b"/usr/bin/app\0-x\0".to_vec()).unwrap();
    assert_eq!(learned.name, "app");
    assert_eq!(learned.pid, 100);
    assert_eq!(cache.len(), 1);
    assert_eq!(cache.lookup(":1.1"), Some(learned));
    assert_eq!(cache.lookup(":1.2"), None);
    assert_eq!(cache.lookup(":1.10"), None);
    assert_eq!(cache.lookup(""), None);
}

#[test]
fn the_unknown_identity_is_returned_but_not_remembered() {
    let mut cache = IdentityCache::new();
    let unknown = cache.learn(":1.5", 7, &Vec::new()).unwrap();
    assert_eq!(unknown.name, "Unknown");
    assert_eq!(unknown.pid, 7);
    assert_eq!(cache.len(), 0);
    assert_eq!(cache.lookup(":1.5"), None);
    assert_eq!(cache.learn(":1.5", 7, &b"/".to_vec()), None);
    assert_eq!(cache.len(), 0);
}

#[test]
fn the_last_writer_wins() {
    let mut cache = IdentityCache::new();
    cache.learn(":1.1", 100, &b"/bin/first".to_vec());
    cache.learn(":1.2", 200, &b"/bin/other".to_vec());
    cache.learn(":1.1", 101, &b"/bin/second".to_vec());
    assert_eq!(cache.len(), 2);
    let found = cache.lookup(":1.1").unwrap();
    assert_eq!(found.pid, 101);
    assert_eq!(found.name, "second");
    assert_eq!(cache.lookup(":1.2").unwrap().name, "other");
    cache.remember(
        ":1.2",
        ProcessIdentity { pid: 1, name: "n".to_string(), path: "p".to_string(), args: vec![] },
    );
    assert_eq!(cache.len(), 2);
    assert_eq!(cache.lookup(":1.2").unwrap().name, "n");
}

#[test]
fn a_lookup_is_needed_only_for_unknown_anonymous_connections() {
    let mut cache = IdentityCache::new();
    assert_eq!(cache.plan("org.freedesktop.DBus"), Lookup::NotNeeded);
    assert_eq!(cache.plan(""), Lookup::NotNeeded);
    assert_eq!(cache.plan(":1.9"), Lookup::Needed);
    let learned = cache.learn(":1.9", 4, &b"/bin/tool".to_vec()).unwrap();
    assert_eq!(cache.plan(":1.9"), Lookup::Cached(learned));
    assert_eq!(cache.plan(":1.90"), Lookup::Needed);
    cache.remember(
        "org.example",
        ProcessIdentity { pid: 1, name: "n".to_string(), path: "p".to_string(), args: vec![] },
    );
    assert_eq!(cache.plan("org.example"), Lookup::NotNeeded);
}
