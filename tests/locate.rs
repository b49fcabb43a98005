use popsicle::locate::Libraries;

fn strings(v: &[&str]) -> Vec<String> {
    v.iter().map(|s| s.to_string()).collect()
}

#[test]
fn search_order_is_run_paths_then_system_dirs() {
    let libs = Libraries::new(strings(&["/A", "/B"]), strings(&["libfoo.so"]));
    assert_eq!(libs.search_dirs(), strings(&["/A", "/B", "/lib", "/usr/lib"]));
    assert_eq!(
        libs.candidates("libfoo.so"),
        strings(&["/A/libfoo.so", "/B/libfoo.so", "/lib/libfoo.so", "/usr/lib/libfoo.so"])
    );
}

#[test]
fn first_run_path_wins_over_system_dir() {
    let libs = Libraries::new(strings(&["/A", "/B"]), strings(&["libfoo.so"]));
    let present = vec![true, false, false, true];
    assert_eq!(libs.resolve_path("libfoo.so", &present), Some("/A/libfoo.so".to_string()));
}

#[test]
fn system_dir_used_when_run_paths_miss() {
    let libs = Libraries::new(strings(&["/A"]), strings(&["libc.so.6"]));
    assert_eq!(libs.resolve_path("libc.so.6", &vec![false, false, true]), Some("/usr/lib/libc.so.6".to_string()));
    assert_eq!(libs.resolve_path("libc.so.6", &vec![false, true, true]), Some("/lib/libc.so.6".to_string()));
}

#[test]
fn missing_library_resolves_to_none() {
    let libs = Libraries::new(Vec::new(), strings(&["libgone.so"]));
    assert_eq!(libs.resolve_path("libgone.so", &vec![false, false]), None);
}

#[test]
fn resolve_all_keeps_order_and_skips_missing() {
    let libs = Libraries::new(strings(&["/opt/l"]), strings(&["liba.so", "libb.so", "libc.so"]));
    let present = vec![vec![false, false, true], vec![false, false, false], vec![true, true, true]];
    assert_eq!(libs.resolve_all(&present), strings(&["/usr/lib/liba.so", "/opt/l/libc.so"]));
}
