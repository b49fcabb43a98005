//! The helper binaries and archive fix-ups that each kind of compiler needs.

use vstd::prelude::*;
use vstd::string::*;

use crate::archive::{Archive, EntrySpec, TarBuilderExt};
use crate::elfdeps::opt_string_view;
use crate::locate::strings_view;

verus! {

/// The kinds of compiler that can be packaged.
#[derive(Debug, Clone, Copy, PartialEq, Eq, Structural)]
pub enum CompilerKind {
    Gcc,
    Clang,
}

/// `s` without leading and trailing whitespace, as `str::trim` gives it.
pub uninterp spec fn trim_of(s: Seq<char>) -> Seq<char>;

/// Relies on str::trim: the text without leading and trailing white space,
/// which depends on the text alone.
#[verifier::external_body]
fn trim(s: &str) -> (r: &str)
    ensures
        r@ == trim_of(s@),
{
    s.trim()
}

/// What a `--print-file-name` answer means, once trimmed: the compiler
/// echoes the name back when it does not know the file, and an answer that
/// is not an absolute path is of no use.
pub open spec fn print_file_name_spec(answer: Seq<char>, file_name: Seq<char>) -> Option<Seq<char>> {
    if answer == file_name || answer.len() == 0 || answer[0] != '/' {
        None
    } else {
        Some(answer)
    }
}

/// The path that a compiler gave for `file_name`, from its trimmed answer.
pub fn file_name_from_answer(answer: &str, file_name: &str) -> (r: Option<String>)
    ensures
        match r {
            Some(p) => print_file_name_spec(answer@, file_name@) == Some(p@),
            None => print_file_name_spec(answer@, file_name@) is None,
        },
{
    let n = answer.unicode_len();
    let m = file_name.unicode_len();
    if n == m {
        let mut i: usize = 0;
        let mut same = true;
        while i < n
            invariant
                i <= n,
                n == answer@.len(),
                m == file_name@.len(),
                n == m,
                same == (forall|k: int| 0 <= k < i ==> answer@[k] == file_name@[k]),
            decreases n - i,
        {
            let a = answer.get_char(i);
            let b = file_name.get_char(i);
            same = same && a == b;
            i = i + 1;
        }
        proof {
            if same {
                assert(answer@ =~= file_name@);
            } else {
                let k = choose|k: int| 0 <= k < n && answer@[k] != file_name@[k];
                assert(answer@[k] != file_name@[k]);
            }
        }
        if same {
            return None;
        }
    }
    if n == 0 || answer.get_char(0) != '/' {
        return None;
    }
    Some(String::from_str(answer))
}

/// The path that a compiler printed for `file_name` on its standard output,
/// `output`, when asked with `--print-file-name`.
pub fn print_file_name_result(output: &str, file_name: &str) -> (r: Option<String>)
    ensures
        match r {
            Some(p) => print_file_name_spec(trim_of(output@), file_name@) == Some(p@),
            None => print_file_name_spec(trim_of(output@), file_name@) is None,
        },
{
    file_name_from_answer(trim(output), file_name)
}

/// The helper binaries of GCC: `cc1`, the LTO plug-in where there is one, and
/// `cc1plus` with the `g++` driver where C++ is supported.
pub open spec fn gcc_binaries_spec(
    cc1: Seq<char>,
    lto_plugin: Option<Seq<char>>,
    cc1plus: Option<Seq<char>>,
    gxx: Option<Seq<char>>,
) -> Seq<Seq<char>> {
    let base = seq![cc1];
    let with_lto = match lto_plugin {
        Some(p) => base.push(p),
        None => base,
    };
    match cc1plus {
        Some(c) => with_lto.push(c).push(gxx.unwrap()),
        None => with_lto,
    }
}

fn opt_view(o: &Option<String>) -> (r: Option<String>)
    ensures
        r == *o,
{
    match o {
        Some(s) => Some(s.clone()),
        None => None,
    }
}

/// The helper binaries that GCC needs besides its driver, from the paths the
/// driver gave for `cc1`, the LTO plug-in and `cc1plus`, and the `g++`
/// driver that goes with `cc1plus`.
pub fn compiler_binaries_gcc(
    cc1: &Option<String>,
    lto_plugin: &Option<String>,
    cc1plus: &Option<String>,
    gxx: &Option<String>,
) -> (r: Option<Vec<String>>)
    requires
        cc1 is Some,
        cc1plus is Some ==> gxx is Some,
    ensures
        r matches Some(v) && strings_view(v@) == gcc_binaries_spec(
            cc1.unwrap()@,
            opt_string_view(*lto_plugin),
            opt_string_view(*cc1plus),
            opt_string_view(*gxx),
        ),
{
    let mut v: Vec<String> = Vec::new();
    let c = opt_view(cc1).unwrap();
    v.push(c);
    proof {
        crate::locate::lemma_strings_view_push(Seq::<String>::empty(), c);
        assert(Seq::<String>::empty().push(c) =~= v@);
    }
    match lto_plugin {
        Some(p) => {
            let ghost before = v@;
            v.push(p.clone());
            proof {
                crate::locate::lemma_strings_view_push(before, *p);
            }
        },
        None => {},
    }
    match cc1plus {
        Some(p) => {
            let ghost b1 = v@;
            v.push(p.clone());
            let g = opt_view(gxx).unwrap();
            let ghost b2 = v@;
            v.push(g);
            proof {
                crate::locate::lemma_strings_view_push(b1, *p);
                crate::locate::lemma_strings_view_push(b2, g);
            }
        },
        None => {},
    }
    proof {
        assert(strings_view(Seq::<String>::empty()) =~= Seq::<Seq<char>>::empty());
        assert(Seq::<Seq<char>>::empty().push(cc1.unwrap()@) =~= seq![cc1.unwrap()@]);
    }
    Some(v)
}

/// Clang needs no helper binaries besides its driver.
pub fn compiler_binaries_clang() -> (r: Option<Vec<String>>)
    ensures
        r is None,
{
    None
}

/// The helper binaries that a compiler of `kind` needs; see
/// [`compiler_binaries_gcc`] for the arguments.
pub fn compiler_binaries(
    kind: CompilerKind,
    cc1: &Option<String>,
    lto_plugin: &Option<String>,
    cc1plus: &Option<String>,
    gxx: &Option<String>,
) -> (r: Option<Vec<String>>)
    requires
        kind == CompilerKind::Gcc ==> cc1 is Some,
        kind == CompilerKind::Gcc ==> (cc1plus is Some ==> gxx is Some),
    ensures
        kind == CompilerKind::Clang ==> r is None,
        kind == CompilerKind::Gcc ==> (r matches Some(v) && strings_view(v@) == gcc_binaries_spec(
            cc1.unwrap()@,
            opt_string_view(*lto_plugin),
            opt_string_view(*cc1plus),
            opt_string_view(*gxx),
        )),
{
    match kind {
        CompilerKind::Gcc => compiler_binaries_gcc(cc1, lto_plugin, cc1plus, gxx),
        CompilerKind::Clang => compiler_binaries_clang(),
    }
}

/// The entries that a compiler of `kind` adds after its binaries: none for
/// GCC; for Clang, `bin/clang++` pointing to `clang`, and an empty
/// `proc/cpuinfo`, which Clang reads and warns about when it is missing.
pub open spec fn fixup_spec(kind: CompilerKind) -> Seq<EntrySpec> {
    match kind {
        CompilerKind::Gcc => Seq::empty(),
        CompilerKind::Clang => seq![
            EntrySpec::Symlink(
                seq!['c', 'l', 'a', 'n', 'g'],
                seq!['b', 'i', 'n', '/', 'c', 'l', 'a', 'n', 'g', '+', '+'],
            ),
            EntrySpec::Empty(seq!['p', 'r', 'o', 'c', '/', 'c', 'p', 'u', 'i', 'n', 'f', 'o']),
        ],
    }
}

/// Appends the fix-up entries of GCC: there are none.
pub fn compiler_fixup_tar_gcc(tar: &mut Archive)
    ensures
        final(tar).view_entries() == old(tar).view_entries() + fixup_spec(CompilerKind::Gcc),
{
    proof {
        assert(old(tar).view_entries() + fixup_spec(CompilerKind::Gcc) =~= old(tar).view_entries());
    }
}

/// Appends the fix-up entries of Clang.
pub fn compiler_fixup_tar_clang(tar: &mut Archive)
    ensures
        final(tar).view_entries() == old(tar).view_entries() + fixup_spec(CompilerKind::Clang),
{
    tar.symlink("clang", "bin/clang++");
    tar.empty("proc/cpuinfo");
    proof {
        reveal_strlit("clang");
        reveal_strlit("bin/clang++");
        reveal_strlit("proc/cpuinfo");
        assert("clang"@ =~= seq!['c', 'l', 'a', 'n', 'g']);
        assert("bin/clang++"@ =~= seq!['b', 'i', 'n', '/', 'c', 'l', 'a', 'n', 'g', '+', '+']);
        assert("proc/cpuinfo"@ =~= seq!['p', 'r', 'o', 'c', '/', 'c', 'p', 'u', 'i', 'n', 'f', 'o']);
        assert(final(tar).view_entries() =~= old(tar).view_entries() + fixup_spec(CompilerKind::Clang));
    }
}

/// Appends the entries that a compiler of `kind` needs after its binaries.
pub fn compiler_fixup_tar(kind: CompilerKind, tar: &mut Archive)
    ensures
        final(tar).view_entries() == old(tar).view_entries() + fixup_spec(kind),
{
    match kind {
        CompilerKind::Gcc => compiler_fixup_tar_gcc(tar),
        CompilerKind::Clang => compiler_fixup_tar_clang(tar),
    }
}

/// The line separator of a compiler's output.
pub const NL: u8 = 0x0A;

/// The compiler name and version that the line `line` of a compiler's `-v`
/// output starts with, as the version pattern finds them.
pub uninterp spec fn version_match(line: Seq<u8>) -> Option<(Seq<char>, Seq<char>)>;

pub open spec fn gcc_name() -> Seq<char> {
    seq!['g', 'c', 'c']
}

pub open spec fn clang_name() -> Seq<char> {
    seq!['c', 'l', 'a', 'n', 'g']
}

/// Relies on regex::bytes::Regex::captures with the pattern
/// `^(clang|gcc)\s+version\s+([\d\.]+)`: its two groups on `line`, which
/// depend on the line alone. The first group is one of the two names.
#[verifier::external_body]
fn match_version_line(line: &[u8]) -> (r: Option<(String, String)>)
    ensures
        match r {
            Some((n, v)) => version_match(line@) == Some((n@, v@)),
            None => version_match(line@) is None,
        },
        r matches Some((n, _)) ==> n@ == gcc_name() || n@ == clang_name(),
{
    let re = regex::bytes::Regex::new(r"^(clang|gcc)\s+version\s+([\d\.]+)").unwrap();
    re.captures(line).map(|c| {
        (String::from_utf8_lossy(&c[1]).into_owned(), String::from_utf8_lossy(&c[2]).into_owned())
    })
}

/// The end of the line that starts at `s` in `b`: the position of the next
/// separator, or the end of `b`.
pub open spec fn line_end(b: Seq<u8>, s: int) -> int
    decreases b.len() - s,
{
    if s < 0 || s >= b.len() {
        b.len() as int
    } else if b[s] == NL {
        s
    } else {
        line_end(b, s + 1)
    }
}

/// The name and version announced by the first line of `b`, from the line
/// that starts at `s` on, that announces one.
pub open spec fn version_from(b: Seq<u8>, s: int) -> Option<(Seq<char>, Seq<char>)>
    decreases b.len() - s,
{
    let e = line_end(b, s);
    if s < 0 || s > b.len() || e < s {
        None
    } else {
        match version_match(b.subrange(s, e)) {
            Some(x) => Some(x),
            None => if e >= b.len() {
                None
            } else {
                version_from(b, e + 1)
            },
        }
    }
}

proof fn lemma_line_end(b: Seq<u8>, s: int)
    requires
        0 <= s <= b.len(),
    ensures
        s <= line_end(b, s) <= b.len(),
        line_end(b, s) < b.len() ==> b[line_end(b, s)] == NL,
    decreases b.len() - s,
{
    if s < b.len() && b[s] != NL {
        lemma_line_end(b, s + 1);
    }
}

/// The name and version that the first announcing line of `b` gives.
fn find_version(b: &[u8]) -> (r: Option<(String, String)>)
    ensures
        match r {
            Some((n, v)) => version_from(b@, 0) == Some((n@, v@)) && (n@ == gcc_name() || n@ == clang_name()),
            None => version_from(b@, 0) is None,
        },
{
    let n = b.len();
    let mut s: usize = 0;
    loop
        invariant
            n == b@.len(),
            s <= n,
            version_from(b@, 0) == version_from(b@, s as int),
        decreases n - s,
    {
        let mut e: usize = s;
        while e < n && b[e] != NL
            invariant
                s <= e <= n,
                n == b@.len(),
                line_end(b@, s as int) == line_end(b@, e as int),
            decreases n - e,
        {
            e = e + 1;
        }
        let mut line: Vec<u8> = Vec::new();
        let mut k: usize = s;
        while k < e
            invariant
                s <= k <= e <= n,
                n == b@.len(),
                line@ == b@.subrange(s as int, k as int),
            decreases e - k,
        {
            line.push(b[k]);
            proof {
                assert(b@.subrange(s as int, k + 1) =~= b@.subrange(s as int, k as int).push(b@[k as int]));
            }
            k = k + 1;
        }
        proof {
            lemma_line_end(b@, s as int);
            assert(line_end(b@, s as int) == e);
        }
        match match_version_line(line.as_slice()) {
            Some(found) => {
                return Some(found);
            },
            None => {
                if e >= n {
                    return None;
                }
                s = e + 1;
            },
        }
    }
}

/// The kind of compiler that a version line names.
pub fn kind_of_name(name: &str) -> (r: Option<CompilerKind>)
    ensures
        r == (if name@ == gcc_name() {
            Some(CompilerKind::Gcc)
        } else if name@ == clang_name() {
            Some(CompilerKind::Clang)
        } else {
            None
        }),
{
    let g = String::from_str("gcc");
    let c = String::from_str("clang");
    let owned = String::from_str(name);
    proof {
        reveal_strlit("gcc");
        reveal_strlit("clang");
        assert("gcc"@ =~= gcc_name());
        assert("clang"@ =~= clang_name());
    }
    if owned == g {
        Some(CompilerKind::Gcc)
    } else if owned == c {
        Some(CompilerKind::Clang)
    } else {
        None
    }
}

/// Why no compiler information could be had.
#[derive(Debug, Clone, Copy, PartialEq, Eq, Structural)]
pub enum CompilerInfoError {
    /// No line of the output announces a compiler and its version.
    NoVersionInformation,
}

/// The kind, name and version of a compiler, from what it printed on its
/// standard output and standard error when run with `-v`: the first line,
/// the output's lines before the error's, that announces them.
pub fn compiler_info_from_output(out: &[u8], err: &[u8]) -> (r: Result<(CompilerKind, String, String), CompilerInfoError>)
    ensures
        match (version_from(out@, 0), version_from(err@, 0)) {
            (Some((n, v)), _) | (None, Some((n, v))) => r matches Ok((k, name, version))
                && name@ == n && version@ == v
                && k == (if n == gcc_name() { CompilerKind::Gcc } else { CompilerKind::Clang }),
            (None, None) => r == Err::<(CompilerKind, String, String), CompilerInfoError>(CompilerInfoError::NoVersionInformation),
        },
{
    let found = match find_version(out) {
        Some(f) => f,
        None => match find_version(err) {
            Some(f) => f,
            None => {
                return Err(CompilerInfoError::NoVersionInformation);
            },
        },
    };
    let (name, version) = found;
    let kind = match kind_of_name(name.as_str()) {
        Some(k) => k,
        None => CompilerKind::Clang,
    };
    Ok((kind, name, version))
}

} // verus!
