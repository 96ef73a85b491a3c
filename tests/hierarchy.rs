use subvol_tree::discovery::Discovery;
use subvol_tree::paths::{clean_rel, join_path, rel_below, relative_path};
use subvol_tree::replication::{DirOutcome, ReplicaStep, Replication};
use subvol_tree::subvolume::{FileType, Subvolume};
use subvol_tree::tool::{
    listing_result, parse_listing, parse_shown_path, show_result, split_lines, HierarchyError,
    ToolOutcome,
};

const HEADER: &str = "ID gen top level path\n-- --- --------- ----\n";

fn listing(paths: &[&str]) -> ToolOutcome {
    let mut s = HEADER.to_string();
    for (i, p) in paths.iter().enumerate() {
        s.push_str(&format!("ID {} gen 10 top level 5 path {}\n", 257 + i, p));
    }
    ToolOutcome::Succeeded(s)
}

fn shown(p: &str) -> ToolOutcome {
    ToolOutcome::Succeeded(format!("{}\n\tName: \t\t\tx\n", p))
}

/// Runs a discovery, answering each listing query from `tree`.
fn discover(sv: &mut Subvolume, tree: &[(&str, &[&str])]) {
    let mut d = sv.start_discovery();
    while let Some(q) = d.next_query() {
        let kids: &[&str] = tree.iter().find(|(l, _)| *l == q).map(|(_, k)| *k).unwrap_or(&[]);
        let children = listing_result(&listing(kids)).unwrap();
        d.record_children(&children);
    }
    sv.read_hierarchy(&d);
}

fn node(p: &str, k: FileType) -> (String, FileType) {
    (p.to_string(), k)
}

#[test]
fn one_nested_subvolume() {
    let mut sv = Subvolume::from("/mnt/src".to_string(), &shown("data/src")).unwrap();
    assert_eq!(sv.abs_path, "/data/src");
    let mut d = sv.start_discovery();
    assert_eq!(d.next_query(), Some("/mnt/src".to_string()));
    let children = listing_result(&listing(&["data/src/a/b"])).unwrap();
    assert_eq!(children, vec!["/data/src/a/b".to_string()]);
    d.record_children(&children);
    assert_eq!(d.next_query(), Some("/mnt/src/a/b".to_string()));
    d.record_children(&listing_result(&listing(&[])).unwrap());
    assert!(d.is_complete());
    sv.read_hierarchy(&d);
    assert_eq!(
        sv.hierachy,
        Some(vec![node("a", FileType::Directory), node("a/b", FileType::Subvolume)])
    );
}

#[test]
fn no_descendants_gives_empty_list() {
    let mut sv = Subvolume::from("/mnt/src".to_string(), &shown("/data/src")).unwrap();
    let out = ToolOutcome::Succeeded(HEADER.to_string());
    assert_eq!(listing_result(&out).unwrap(), Vec::<String>::new());
    discover(&mut sv, &[]);
    assert_eq!(sv.hierachy, Some(vec![]));
}

#[test]
fn subvolume_wins_over_directory_either_order() {
    for order in [["data/src/a", "data/src/a/b"], ["data/src/a/b", "data/src/a"]] {
        let mut sv = Subvolume::from("/mnt/src".to_string(), &shown("/data/src")).unwrap();
        let kids: Vec<&str> = order.to_vec();
        discover(&mut sv, &[("/mnt/src", &kids)]);
        assert_eq!(
            sv.hierachy,
            Some(vec![node("a", FileType::Subvolume), node("a/b", FileType::Subvolume)])
        );
    }
}

#[test]
fn nested_listing_is_recursed_and_merged() {
    let mut sv = Subvolume::from("/mnt/src".to_string(), &shown("/data/src")).unwrap();
    discover(
        &mut sv,
        &[("/mnt/src", &["data/src/x/y"]), ("/mnt/src/x/y", &["data/src/x/y/p/q", "data/src/zz"])],
    );
    let h = sv.hierachy.unwrap();
    assert_eq!(h.len(), 4);
    let lens: Vec<usize> = h.iter().map(|(p, _)| p.len()).collect();
    let mut sorted = lens.clone();
    sorted.sort();
    assert_eq!(lens, sorted);
    assert!(h.contains(&node("x", FileType::Directory)));
    assert!(h.contains(&node("x/y", FileType::Subvolume)));
    assert!(h.contains(&node("x/y/p", FileType::Directory)));
    assert!(h.contains(&node("x/y/p/q", FileType::Subvolume)));
}

#[test]
fn ancestors_present_and_first() {
    let mut sv = Subvolume::from("/m".to_string(), &shown("/r")).unwrap();
    discover(&mut sv, &[("/m", &["r/a/b/c", "r/d/e"])]);
    let h = sv.hierachy.unwrap();
    for (i, (p, _)) in h.iter().enumerate() {
        for (j, ch) in p.char_indices() {
            if ch == '/' {
                let a = &p[..j];
                let k = h.iter().position(|(q, _)| q == a).unwrap();
                assert!(k < i);
            }
        }
    }
    assert_eq!(h.len(), 5);
}

#[test]
fn paths_outside_the_root_are_ignored() {
    let mut sv = Subvolume::from("/mnt".to_string(), &shown("/data/src")).unwrap();
    discover(&mut sv, &[("/mnt", &["data/srcx/a", "data/src", "data/src//a", "data/src/ok"])]);
    assert_eq!(sv.hierachy, Some(vec![node("ok", FileType::Subvolume)]));
}

#[test]
fn top_level_root() {
    let mut sv = Subvolume::from("/mnt".to_string(), &shown("/")).unwrap();
    discover(&mut sv, &[("/mnt", &["home", "home/u"])]);
    assert_eq!(
        sv.hierachy,
        Some(vec![node("home", FileType::Subvolume), node("home/u", FileType::Subvolume)])
    );
}

#[test]
fn discovery_new_starts_at_root() {
    let d = Discovery::new("p".to_string(), "/a".to_string());
    assert_eq!(d.next_query(), Some("p".to_string()));
    assert!(!d.is_complete());
}

#[test]
fn show_errors() {
    let e = Subvolume::from("x".to_string(), &ToolOutcome::Failed("ERROR: not a subvolume".into()));
    assert_eq!(e.err(), Some(HierarchyError::NotASubvolume("ERROR: not a subvolume".into())));
    let e = Subvolume::from("x".to_string(), &ToolOutcome::Unavailable("no such file".into()));
    assert_eq!(e.err(), Some(HierarchyError::ExternalToolUnavailable("no such file".into())));
    let e = show_result(&ToolOutcome::Succeeded(String::new()));
    assert_eq!(e, Err(HierarchyError::NotASubvolume(String::new())));
    assert_eq!(
        listing_result(&ToolOutcome::Failed("bad".into())),
        Err(HierarchyError::ChildListingFailed("bad".into()))
    );
    assert_eq!(HierarchyError::ChildListingFailed("bad".into()).diagnostic(), "bad");
}

#[test]
fn show_parsing() {
    assert_eq!(parse_shown_path("a/b\nName: b\n"), Some("/a/b".to_string()));
    assert_eq!(parse_shown_path("/a/b\r\nName: b\n"), Some("/a/b".to_string()));
    assert_eq!(parse_shown_path(""), None);
    assert_eq!(parse_shown_path("\n"), Some("/".to_string()));
}

#[test]
fn line_splitting() {
    assert_eq!(split_lines("a\nb"), vec!["a".to_string(), "b".to_string()]);
    assert_eq!(split_lines("a\r\n\nb\n"), vec!["a".to_string(), "".to_string(), "b".to_string()]);
    assert_eq!(split_lines("a\r"), vec!["a\r".to_string()]);
    assert_eq!(split_lines(""), Vec::<String>::new());
}

#[test]
fn listing_parsing() {
    let out = "h1\nh2\nID 1 path a/b  \n\n   \nID 2 path\tc\u{a0}d\n";
    assert_eq!(parse_listing(out), vec!["/a/b".to_string(), "/d".to_string()]);
    assert_eq!(parse_listing("only\n"), Vec::<String>::new());
}

#[test]
fn path_helpers() {
    assert_eq!(relative_path("/data/src", "/data/src/a/b"), Some("a/b".to_string()));
    assert_eq!(relative_path("/", "/a"), Some("a".to_string()));
    assert_eq!(relative_path("/data/src", "/data/srcx"), None);
    assert_eq!(relative_path("/data/src", "/data/src/"), None);
    assert_eq!(join_path("/mnt", "a/b"), "/mnt/a/b");
    assert_eq!(join_path("/mnt/", "a"), "/mnt/a");
    assert_eq!(join_path("", "a"), "a");
    assert!(clean_rel("a/b"));
    assert!(!clean_rel("a//b"));
    assert!(!clean_rel("/a"));
    assert!(rel_below("a", "a/b"));
    assert!(!rel_below("a", "ab"));
    assert!(rel_below("", "ab"));
}

/// Runs a replication; `existing` are the paths that already are
/// subvolumes or directories. Returns the result and the steps taken.
fn replicate(
    dest: &str,
    nodes: Vec<(String, FileType)>,
    existing: &mut Vec<String>,
) -> (Result<Subvolume, HierarchyError>, Vec<ReplicaStep>) {
    let mut r: Replication = Subvolume::create(dest.to_string(), nodes);
    let mut steps = Vec::new();
    loop {
        let s = r.step();
        steps.push(s.clone());
        match s {
            ReplicaStep::Show(p) => {
                let out = if existing.contains(&p) { shown(&format!("/vol{}", p)) } else {
                    ToolOutcome::Failed("not a subvolume".into())
                };
                r.record_tool(&out);
            }
            ReplicaStep::CreateSubvolume(p) => {
                existing.push(p);
                r.record_tool(&ToolOutcome::Succeeded(String::new()));
            }
            ReplicaStep::CreateDirectory(p) => {
                if existing.contains(&p) {
                    r.record_directory(&DirOutcome::AlreadyExists);
                } else {
                    existing.push(p);
                    r.record_directory(&DirOutcome::Created);
                }
            }
            ReplicaStep::Finished => return (r.finish(), steps),
        }
    }
}

#[test]
fn replicate_into_existing_subvolume() {
    let mut existing = vec!["/dst".to_string(), "/dst/x".to_string()];
    let (res, steps) = replicate("/dst", vec![node("x", FileType::Directory)], &mut existing);
    let sv = res.unwrap();
    assert_eq!(sv.abs_path, "/vol/dst");
    assert_eq!(sv.path, "/dst");
    assert!(sv.hierachy.is_none());
    assert!(!steps.iter().any(|s| matches!(s, ReplicaStep::CreateSubvolume(_))));
    assert_eq!(existing.len(), 2);
}

#[test]
fn replicate_twice_is_idempotent() {
    let nodes = vec![
        node("a", FileType::Directory),
        node("a/b", FileType::Subvolume),
        node("a/b/c", FileType::Directory),
    ];
    let mut existing = Vec::new();
    let (res, steps) = replicate("/dst", nodes.clone(), &mut existing);
    assert!(res.is_ok());
    assert_eq!(
        steps,
        vec![
            ReplicaStep::Show("/dst".into()),
            ReplicaStep::CreateSubvolume("/dst".into()),
            ReplicaStep::Show("/dst".into()),
            ReplicaStep::CreateDirectory("/dst/a".into()),
            ReplicaStep::Show("/dst/a/b".into()),
            ReplicaStep::CreateSubvolume("/dst/a/b".into()),
            ReplicaStep::CreateDirectory("/dst/a/b/c".into()),
            ReplicaStep::Finished,
        ]
    );
    let after_first = existing.clone();
    let (res, steps) = replicate("/dst", nodes, &mut existing);
    assert!(res.is_ok());
    assert_eq!(existing, after_first);
    assert!(!steps.iter().any(|s| matches!(s, ReplicaStep::CreateSubvolume(_))));
}

#[test]
fn replication_failures() {
    let mut r = Subvolume::create("/dst".into(), vec![node("x", FileType::Directory)]);
    r.record_tool(&ToolOutcome::Failed("no".into()));
    assert_eq!(r.step(), ReplicaStep::CreateSubvolume("/dst".into()));
    r.record_tool(&ToolOutcome::Failed("denied".into()));
    assert_eq!(r.step(), ReplicaStep::Finished);
    assert_eq!(r.finish().err(), Some(HierarchyError::SubvolumeCreationFailed("denied".into())));

    let mut r = Subvolume::create("/dst".into(), vec![node("x", FileType::Directory)]);
    r.record_tool(&shown("/dst"));
    r.record_tool(&ToolOutcome::Failed("gone".into()));
    assert_eq!(
        r.finish().err(),
        Some(HierarchyError::ReplicationVerificationFailed("gone".into()))
    );

    let mut r = Subvolume::create("/dst".into(), vec![node("x", FileType::Directory)]);
    r.record_tool(&shown("/dst"));
    r.record_tool(&shown("/dst"));
    assert_eq!(r.step(), ReplicaStep::CreateDirectory("/dst/x".into()));
    r.record_directory(&DirOutcome::Failed("read-only".into()));
    assert_eq!(r.finish().err(), Some(HierarchyError::DirectoryCreationFailed("read-only".into())));

    let mut r = Subvolume::create("/dst".into(), vec![node("s", FileType::Subvolume)]);
    r.record_tool(&shown("/dst"));
    r.record_tool(&shown("/dst"));
    r.record_tool(&ToolOutcome::Failed("no".into()));
    assert_eq!(r.step(), ReplicaStep::CreateSubvolume("/dst/s".into()));
    r.record_tool(&ToolOutcome::Unavailable("missing".into()));
    assert_eq!(r.finish().err(), Some(HierarchyError::ExternalToolUnavailable("missing".into())));
}

#[test]
fn round_trip_through_replication() {
    let mut src = Subvolume::from("/s".to_string(), &shown("/s")).unwrap();
    discover(&mut src, &[("/s", &["s/a/b", "s/c"]), ("/s/a/b", &["s/a/b/d/e"])]);
    let nodes = src.hierachy.clone().unwrap();
    let mut existing = Vec::new();
    let (res, _) = replicate("/t", nodes.clone(), &mut existing);
    let mut dst = res.unwrap();
    assert_eq!(dst.abs_path, "/vol/t");
    // the destination's listings name the subvolumes that replication created
    let subs: Vec<&str> = existing.iter().filter(|p| {
        nodes.iter().any(|(r, k)| *k == FileType::Subvolume && format!("/t/{}", r) == **p)
    }).map(|p| p.as_str()).collect();
    let abs: Vec<String> = subs.iter().map(|p| format!("vol{}", p)).collect();
    let top: Vec<&str> = abs.iter().map(|s| s.as_str()).collect();
    discover(&mut dst, &[("/t", &top)]);
    let mut a = dst.hierachy.unwrap();
    let mut b = nodes;
    a.sort_by(|x, y| x.0.cmp(&y.0));
    b.sort_by(|x, y| x.0.cmp(&y.0));
    assert_eq!(a, b);
}
