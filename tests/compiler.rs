use popsicle::archive::ArchiveEntry;
use popsicle::compiler::{
    compiler_binaries, compiler_binaries_clang, compiler_binaries_gcc, compiler_fixup_tar,
    compiler_info_from_output, file_name_from_answer, kind_of_name, print_file_name_result,
    CompilerInfoError, CompilerKind,
};
use popsicle::solver::Solver;

fn some(s: &str) -> Option<String> {
    Some(s.to_string())
}

#[test]
fn print_file_name_trims_output() {
    assert_eq!(
        print_file_name_result("/usr/lib/gcc/x86_64/12/cc1\n", "cc1"),
        some("/usr/lib/gcc/x86_64/12/cc1")
    );
    assert_eq!(print_file_name_result("  /p/cc1plus \n", "cc1plus"), some("/p/cc1plus"));
}

#[test]
fn print_file_name_echo_means_unknown() {
    assert_eq!(print_file_name_result("liblto_plugin.so\n", "liblto_plugin.so"), None);
    assert_eq!(file_name_from_answer("cc1", "cc1"), None);
}

#[test]
fn print_file_name_relative_is_refused() {
    assert_eq!(file_name_from_answer("lib/cc1", "cc1"), None);
    assert_eq!(file_name_from_answer("", "cc1"), None);
    assert_eq!(file_name_from_answer("/x/cc1", "cc1"), some("/x/cc1"));
}

#[test]
fn gcc_binaries_with_cxx_and_lto() {
    let r = compiler_binaries_gcc(&some("/g/cc1"), &some("/g/liblto_plugin.so"), &some("/g/cc1plus"), &some("/usr/bin/g++"));
    assert_eq!(
        r,
        Some(vec![
            "/g/cc1".to_string(),
            "/g/liblto_plugin.so".to_string(),
            "/g/cc1plus".to_string(),
            "/usr/bin/g++".to_string(),
        ])
    );
}

#[test]
fn gcc_binaries_c_only() {
    let r = compiler_binaries(CompilerKind::Gcc, &some("/g/cc1"), &None, &None, &None);
    assert_eq!(r, Some(vec!["/g/cc1".to_string()]));
}

#[test]
fn clang_has_no_helper_binaries() {
    assert_eq!(compiler_binaries_clang(), None);
    assert_eq!(compiler_binaries(CompilerKind::Clang, &None, &None, &None, &None), None);
}

#[test]
fn clang_fixups() {
    let mut tar = Solver::new().into_inner();
    compiler_fixup_tar(CompilerKind::Clang, &mut tar);
    let e = tar.entries();
    assert_eq!(e.len(), 4);
    assert_eq!(e[2], ArchiveEntry::Symlink { target: "clang".to_string(), path: "bin/clang++".to_string() });
    assert_eq!(e[3], ArchiveEntry::Empty { path: "proc/cpuinfo".to_string() });
}

#[test]
fn gcc_fixups_add_nothing() {
    let mut tar = Solver::new().into_inner();
    compiler_fixup_tar(CompilerKind::Gcc, &mut tar);
    assert_eq!(tar.entries().len(), 2);
}

#[test]
fn gcc_version_on_stderr() {
    let err = b"Using built-in specs.\nCOLLECT_GCC=gcc\nThread model: posix\ngcc version 12.2.0 (Debian 12.2.0-14)\n";
    let r = compiler_info_from_output(b"", err).unwrap();
    assert_eq!(r, (CompilerKind::Gcc, "gcc".to_string(), "12.2.0".to_string()));
}

#[test]
fn clang_version_on_stdout_first() {
    let out = b"clang version 14.0.6\nTarget: x86_64-pc-linux-gnu\n";
    let err = b"gcc version 1.0\n";
    let r = compiler_info_from_output(out, err).unwrap();
    assert_eq!(r, (CompilerKind::Clang, "clang".to_string(), "14.0.6".to_string()));
}

#[test]
fn version_must_start_the_line() {
    let out = b"Apple clang version 14.0.0\nfoo gcc version 3\n";
    assert_eq!(compiler_info_from_output(out, b""), Err(CompilerInfoError::NoVersionInformation));
    assert_eq!(compiler_info_from_output(b"", b""), Err(CompilerInfoError::NoVersionInformation));
}

#[test]
fn version_with_several_spaces() {
    let r = compiler_info_from_output(b"gcc  version\t4.9.2 x\n", b"").unwrap();
    assert_eq!(r.2, "4.9.2");
}

#[test]
fn kind_names() {
    assert_eq!(kind_of_name("gcc"), Some(CompilerKind::Gcc));
    assert_eq!(kind_of_name("clang"), Some(CompilerKind::Clang));
    assert_eq!(kind_of_name("icc"), None);
}
