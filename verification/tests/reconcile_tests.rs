use packsync::digest::sha256_hex;
use packsync::Directory;
use packsync::File;
use packsync::LocalDir;

fn remote_file(content: &[u8], url: &str) -> File {
    File {
        sha: sha256_hex(content),
        url: url.to_string(),
    }
}

fn empty_dir() -> Directory {
    Directory {
        files: Vec::new(),
        children: Vec::new(),
    }
}

fn empty_local() -> LocalDir {
    LocalDir {
        files: Vec::new(),
        dirs: Vec::new(),
    }
}

fn fetch_names(plan: &packsync::DirPlan) -> Vec<String> {
    plan.fetches.iter().map(|p| p.0.clone()).collect()
}

/// The concrete scenario: root holds `a.txt` and `b.txt`, one child `mods`
/// with `c.jar`; locally `a.txt` already matches, plus a stray `notes.txt`
/// and a stray `extra/` directory.
#[test]
fn scenario_root_upgrade() {
    let manifest = Directory {
        files: vec![
            ("a.txt".to_string(), remote_file(b"content a", "http://host/a.txt")),
            ("b.txt".to_string(), remote_file(b"content b", "http://host/b.txt")),
        ],
        children: vec![(
            "mods".to_string(),
            Directory {
                files: vec![("c.jar".to_string(), remote_file(b"content c", "http://host/c.jar"))],
                children: Vec::new(),
            },
        )],
    };
    let local = LocalDir {
        files: vec![
            ("a.txt".to_string(), sha256_hex(b"content a")),
            ("notes.txt".to_string(), sha256_hex(b"my notes")),
        ],
        dirs: vec![("extra".to_string(), empty_local())],
    };

    let plan = manifest.plan_upgrade(&local, true);

    // Root exemption: nothing at the root is deleted.
    assert!(plan.delete_dirs.is_empty());
    assert!(plan.delete_files.is_empty());
    // Root files are always re-fetched, even the matching a.txt.
    assert_eq!(fetch_names(&plan), vec!["a.txt".to_string(), "b.txt".to_string()]);
    // mods/ is created and its file fetched.
    assert_eq!(plan.children.len(), 1);
    assert_eq!(plan.children[0].0, "mods");
    let mods_plan = &plan.children[0].1;
    assert!(mods_plan.delete_dirs.is_empty());
    assert!(mods_plan.delete_files.is_empty());
    assert_eq!(fetch_names(mods_plan), vec!["c.jar".to_string()]);
    // The final task count delivered is 3.
    assert_eq!(plan.total_fetches(), Some(3));
}

/// Fetch-set minimality: below the root, a file whose name and digest both
/// match is neither fetched nor deleted.
#[test]
fn matching_file_not_refetched() {
    let manifest = Directory {
        files: vec![("lib.jar".to_string(), remote_file(b"jar bytes", "http://host/lib.jar"))],
        children: Vec::new(),
    };
    let local = LocalDir {
        files: vec![("lib.jar".to_string(), sha256_hex(b"jar bytes"))],
        dirs: Vec::new(),
    };
    let plan = manifest.plan_upgrade(&local, false);
    assert!(plan.fetches.is_empty());
    assert!(plan.delete_files.is_empty());
    assert!(plan.delete_dirs.is_empty());
    assert_eq!(plan.total_fetches(), Some(0));
}

/// Below the root: stale and unknown entries are deleted, mismatched files
/// are re-fetched, unknown directories go as well.
#[test]
fn stale_entries_deleted_below_root() {
    let manifest = Directory {
        files: vec![("data.bin".to_string(), remote_file(b"new data", "http://host/data.bin"))],
        children: vec![("keep".to_string(), empty_dir())],
    };
    let local = LocalDir {
        files: vec![
            ("data.bin".to_string(), sha256_hex(b"old data")),
            ("junk.tmp".to_string(), sha256_hex(b"junk")),
        ],
        dirs: vec![
            ("keep".to_string(), empty_local()),
            ("unknown".to_string(), empty_local()),
        ],
    };
    let plan = manifest.plan_upgrade(&local, false);
    assert_eq!(plan.delete_files, vec!["data.bin".to_string(), "junk.tmp".to_string()]);
    assert_eq!(plan.delete_dirs, vec!["unknown".to_string()]);
    assert_eq!(fetch_names(&plan), vec!["data.bin".to_string()]);
    assert_eq!(plan.children.len(), 1);
    assert_eq!(plan.children[0].0, "keep");
}

/// Idempotence: a tree that already agrees with a manifest without
/// root-level files plans no fetch and no deletion on the next run.
#[test]
fn second_run_plans_nothing() {
    let manifest = Directory {
        files: Vec::new(),
        children: vec![(
            "mods".to_string(),
            Directory {
                files: vec![("c.jar".to_string(), remote_file(b"content c", "http://host/c.jar"))],
                children: Vec::new(),
            },
        )],
    };
    // The state a successful run leaves behind: mods/ exists and c.jar matches.
    let converged = LocalDir {
        files: Vec::new(),
        dirs: vec![(
            "mods".to_string(),
            LocalDir {
                files: vec![("c.jar".to_string(), sha256_hex(b"content c"))],
                dirs: Vec::new(),
            },
        )],
    };
    let plan = manifest.plan_upgrade(&converged, true);
    assert!(plan.delete_dirs.is_empty());
    assert!(plan.delete_files.is_empty());
    assert!(plan.fetches.is_empty());
    assert_eq!(plan.total_fetches(), Some(0));
    let mods_plan = &plan.children[0].1;
    assert!(mods_plan.delete_dirs.is_empty());
    assert!(mods_plan.delete_files.is_empty());
    assert!(mods_plan.fetches.is_empty());
}

fn clone_local(d: &LocalDir) -> LocalDir {
    LocalDir {
        files: d.files.clone(),
        dirs: d.dirs.iter().map(|(n, s)| (n.clone(), clone_local(s))).collect(),
    }
}

/// Applies a plan to a snapshot the way the executor would, assuming every
/// fetch succeeds and writes bytes hashing to the declared digest.
fn apply_plan(plan: &packsync::DirPlan, local: &LocalDir) -> LocalDir {
    let mut files: Vec<(String, String)> = local
        .files
        .iter()
        .filter(|(name, _)| !plan.delete_files.contains(name))
        .cloned()
        .collect();
    for (name, file) in &plan.fetches {
        files.retain(|(n, _)| n != name);
        files.push((name.clone(), file.sha.clone()));
    }
    let mut dirs: Vec<(String, LocalDir)> = Vec::new();
    for (name, sub_plan) in &plan.children {
        let existing = local.dirs.iter().find(|(n, _)| n == name);
        let sub_local = match existing {
            Some((_, d)) => apply_plan(sub_plan, d),
            None => apply_plan(sub_plan, &empty_local()),
        };
        dirs.push((name.clone(), sub_local));
    }
    for (name, d) in &local.dirs {
        let planned = plan.children.iter().any(|(n, _)| n == name);
        let deleted = plan.delete_dirs.contains(name);
        if !planned && !deleted {
            dirs.push((name.clone(), clone_local(d)));
        }
    }
    LocalDir { files, dirs }
}

fn assert_plan_empty(plan: &packsync::DirPlan) {
    assert!(plan.delete_dirs.is_empty());
    assert!(plan.delete_files.is_empty());
    assert!(plan.fetches.is_empty());
    for (_, sub) in &plan.children {
        assert_plan_empty(sub);
    }
}

/// Convergence and idempotence, executed: from a messy starting state, one
/// simulated run converges the tree, and the next run plans nothing.
#[test]
fn simulated_run_converges_and_second_is_empty() {
    let manifest = Directory {
        files: Vec::new(),
        children: vec![
            (
                "mods".to_string(),
                Directory {
                    files: vec![
                        ("c.jar".to_string(), remote_file(b"content c", "http://host/c.jar")),
                        ("d.jar".to_string(), remote_file(b"content d", "http://host/d.jar")),
                    ],
                    children: Vec::new(),
                },
            ),
            ("config".to_string(), empty_dir()),
        ],
    };
    let messy = LocalDir {
        files: vec![("stray.txt".to_string(), sha256_hex(b"stray"))],
        dirs: vec![(
            "mods".to_string(),
            LocalDir {
                files: vec![
                    ("c.jar".to_string(), sha256_hex(b"old c")),
                    ("junk.jar".to_string(), sha256_hex(b"junk")),
                ],
                dirs: Vec::new(),
            },
        )],
    };

    let first_plan = manifest.plan_upgrade(&messy, true);
    assert_eq!(first_plan.total_fetches(), Some(2));
    let converged = apply_plan(&first_plan, &messy);

    // The stray root file survived the run.
    assert!(converged.files.iter().any(|(n, _)| n == "stray.txt"));
    // Every manifest file is present under its declared digest.
    let mods = &converged.dirs.iter().find(|(n, _)| n == "mods").unwrap().1;
    assert!(mods.files.contains(&("c.jar".to_string(), sha256_hex(b"content c"))));
    assert!(mods.files.contains(&("d.jar".to_string(), sha256_hex(b"content d"))));
    assert!(!mods.files.iter().any(|(n, _)| n == "junk.jar"));

    let second_plan = manifest.plan_upgrade(&converged, true);
    assert_plan_empty(&second_plan);
    assert_eq!(second_plan.total_fetches(), Some(0));
}

/// A manifest child missing locally is still planned, against an empty
/// snapshot: everything under it is fetched.
#[test]
fn missing_child_directory_fully_fetched() {
    let manifest = Directory {
        files: Vec::new(),
        children: vec![(
            "fresh".to_string(),
            Directory {
                files: vec![
                    ("x".to_string(), remote_file(b"x", "http://host/x")),
                    ("y".to_string(), remote_file(b"y", "http://host/y")),
                ],
                children: Vec::new(),
            },
        )],
    };
    let plan = manifest.plan_upgrade(&empty_local(), false);
    assert_eq!(plan.children.len(), 1);
    assert_eq!(fetch_names(&plan.children[0].1), vec!["x".to_string(), "y".to_string()]);
    assert_eq!(plan.total_fetches(), Some(2));
}
