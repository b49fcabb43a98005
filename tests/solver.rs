use popsicle::archive::{ArchiveEntry, TarBuilderExt};
use popsicle::solver::Solver;

fn link(target: &str, path: &str) -> ArchiveEntry {
    ArchiveEntry::Symlink { target: target.to_string(), path: path.to_string() }
}

fn file(p: &str) -> ArchiveEntry {
    ArchiveEntry::File { file_path: p.to_string(), archive_path: p[1..].to_string() }
}

fn strings(v: &[&str]) -> Vec<String> {
    v.iter().map(|s| s.to_string()).collect()
}

/// Runs the walk over a fixed graph: `deps(p)` lists what `p` needs.
fn walk(seeds: &[&str], deps: &dyn Fn(&str) -> Vec<String>) -> (Vec<String>, Vec<ArchiveEntry>) {
    let mut s = Solver::new();
    let mut visited = Vec::new();
    for seed in seeds {
        s.scan_file(seed);
        while let Some(p) = s.next_file() {
            let libs = deps(&p);
            s.push_libraries(&libs);
            visited.push(p);
        }
    }
    (visited, s.into_inner().entries().clone())
}

#[test]
fn archive_opens_with_layout_links() {
    let s = Solver::new();
    let a = s.into_inner();
    assert_eq!(a.entries(), &vec![link("bin", "sbin"), link(".", "usr")]);
}

#[test]
fn diamond_library_archived_once() {
    let deps = |p: &str| match p {
        "/bin/cc" => strings(&["/lib/liba.so", "/lib/libb.so"]),
        "/lib/liba.so" => strings(&["/lib/libc.so"]),
        "/lib/libb.so" => strings(&["/lib/libc.so"]),
        _ => Vec::new(),
    };
    let (visited, entries) = walk(&["/bin/cc"], &deps);
    assert_eq!(visited, strings(&["/bin/cc", "/lib/liba.so", "/lib/libc.so", "/lib/libb.so"]));
    assert_eq!(
        entries,
        vec![
            link("bin", "sbin"),
            link(".", "usr"),
            file("/bin/cc"),
            file("/lib/liba.so"),
            file("/lib/libc.so"),
            file("/lib/libb.so"),
        ]
    );
}

#[test]
fn cycle_is_visited_once() {
    let deps = |p: &str| match p {
        "/lib/liba.so" => strings(&["/lib/libb.so"]),
        "/lib/libb.so" => strings(&["/lib/liba.so"]),
        _ => Vec::new(),
    };
    let (visited, entries) = walk(&["/lib/liba.so", "/lib/libb.so"], &deps);
    assert_eq!(visited, strings(&["/lib/liba.so", "/lib/libb.so"]));
    assert_eq!(entries.len(), 4);
}

#[test]
fn seeds_share_libraries() {
    let deps = |p: &str| match p {
        "/usr/bin/gcc" | "/usr/bin/as" | "/bin/true" => strings(&["/lib/libc.so.6"]),
        _ => Vec::new(),
    };
    let (visited, _) = walk(&["/usr/bin/gcc", "/usr/bin/as", "/bin/true", "/usr/bin/gcc"], &deps);
    assert_eq!(visited, strings(&["/usr/bin/gcc", "/lib/libc.so.6", "/usr/bin/as", "/bin/true"]));
}

#[test]
fn next_file_on_empty_walk_is_none() {
    let mut s = Solver::new();
    assert_eq!(s.next_file(), None);
}

#[test]
fn walk_is_deterministic() {
    let deps = |p: &str| match p {
        "/bin/cc" => strings(&["/lib/libz.so", "/lib/liba.so"]),
        _ => Vec::new(),
    };
    assert_eq!(walk(&["/bin/cc"], &deps), walk(&["/bin/cc"], &deps));
}

#[test]
fn builder_appends_in_order() {
    let mut a = Solver::new().into_inner();
    a.empty("proc/cpuinfo");
    a.add("/bin/x", "bin/x");
    let e = a.entries();
    assert_eq!(e.len(), 4);
    assert_eq!(e[2], ArchiveEntry::Empty { path: "proc/cpuinfo".to_string() });
    assert_eq!(e[3], file("/bin/x"));
}
