//! Extraction of the run-paths and needed libraries of an ELF binary.

use vstd::prelude::*;
use vstd::string::*;

use crate::locate::{strings_view, Libraries};
use crate::runpath::{expand_spec, expand_tokens, RunPathError, RunPathToken};

verus! {

/// goblin's parse error, carried to the caller as it is.
#[verifier::external_type_specification]
#[verifier::external_body]
pub struct ExGoblinError(goblin::error::Error);

/// Dynamic-section tag of an old-style run-path entry.
pub const DT_RPATH: u64 = 15;

/// Dynamic-section tag of a run-path entry.
pub const DT_RUNPATH: u64 = 29;

/// One entry of the dynamic section: its tag and, where the dynamic string
/// table has one at the entry's value, that string.
pub struct DynEntry {
    pub tag: u64,
    pub text: Option<String>,
}

/// What the dependency walk reads of a parsed ELF binary.
pub struct ElfDynamic {
    pub entries: Vec<DynEntry>,
    pub needed: Vec<String>,
}

pub open spec fn opt_string_view(o: Option<String>) -> Option<Seq<char>> {
    match o {
        Some(s) => Some(s@),
        None => None,
    }
}

pub open spec fn entries_view(v: Seq<DynEntry>) -> Seq<(u64, Option<Seq<char>>)> {
    v.map_values(|e: DynEntry| (e.tag, opt_string_view(e.text)))
}

/// What goblin reads from the bytes `data` of an ELF binary: the dynamic
/// entries with their strings, and the needed library names; `None` when the
/// bytes are not an ELF binary it can parse.
pub uninterp spec fn elf_dynamic(data: Seq<u8>) -> Option<(Seq<(u64, Option<Seq<char>>)>, Seq<Seq<char>>)>;

/// Relies on goblin::elf::Elf::parse for the dynamic section and the needed
/// libraries of the binary, and on Strtab::get_at for the string of each
/// dynamic entry; both depend on the bytes alone.
#[verifier::external_body]
fn parse_elf(data: &[u8]) -> (r: Result<ElfDynamic, goblin::error::Error>)
    ensures
        match r {
            Ok(d) => elf_dynamic(data@) == Some((entries_view(d.entries@), strings_view(d.needed@))),
            Err(_) => elf_dynamic(data@) is None,
        },
{
    let elf = goblin::elf::Elf::parse(data)?;
    let dyns: &[goblin::elf::dynamic::Dyn] = match &elf.dynamic {
        Some(d) => &d.dyns,
        None => &[],
    };
    let entries = dyns.iter().map(|d| DynEntry {
        tag: d.d_tag,
        text: elf.dynstrtab.get_at(d.d_val as usize).map(String::from),
    }).collect();
    let needed = elf.libraries.iter().map(|s| s.to_string()).collect();
    Ok(ElfDynamic { entries, needed })
}

/// The strings of the run-path entries, in the order of the dynamic section;
/// entries whose string cannot be looked up are left out.
pub open spec fn run_path_templates(e: Seq<(u64, Option<Seq<char>>)>) -> Seq<Seq<char>>
    decreases e.len(),
{
    if e.len() == 0 {
        Seq::empty()
    } else {
        let rest = run_path_templates(e.drop_first());
        if (e[0].0 == DT_RPATH || e[0].0 == DT_RUNPATH) && e[0].1 is Some {
            seq![e[0].1.unwrap()] + rest
        } else {
            rest
        }
    }
}

/// Each template expanded against `origin`; `None` when one of them fails.
pub open spec fn expand_all(t: Seq<Seq<char>>, origin: Seq<char>) -> Option<Seq<Seq<char>>>
    decreases t.len(),
{
    if t.len() == 0 {
        Some(Seq::empty())
    } else {
        match (expand_spec(t[0], origin), expand_all(t.drop_first(), origin)) {
            (Some(x), Some(rest)) => Some(seq![x] + rest),
            _ => None,
        }
    }
}

/// Position of the last `/` in `p`, or -1.
pub open spec fn last_slash(p: Seq<char>) -> int
    decreases p.len(),
{
    if p.len() == 0 {
        -1
    } else if p.last() == '/' {
        p.len() - 1
    } else {
        last_slash(p.drop_last())
    }
}

/// The directory that holds the file at the absolute path `p`.
pub open spec fn parent_spec(p: Seq<char>) -> Seq<char> {
    let k = last_slash(p);
    if k <= 0 {
        seq!['/']
    } else {
        p.subrange(0, k)
    }
}

/// An absolute path that names a file rather than the root or a directory.
pub open spec fn is_file_path(p: Seq<char>) -> bool {
    p.len() >= 2 && p[0] == '/' && p.last() != '/'
}

/// The directory that holds the file at `path`: what `$ORIGIN` stands for.
pub fn parent_dir(path: &str) -> (r: String)
    requires
        is_file_path(path@),
    ensures
        r@ == parent_spec(path@),
{
    let n = path.unicode_len();
    let mut k: usize = n;
    proof {
        assert(path@.subrange(0, n as int) =~= path@);
    }
    while k > 0
        invariant
            k <= n,
            n == path@.len(),
            last_slash(path@) == last_slash(path@.subrange(0, k as int)),
        decreases k,
    {
        if path.get_char(k - 1) == '/' {
            proof {
                assert(path@.subrange(0, k as int).last() == '/');
            }
            if k - 1 == 0 {
                let r = String::from_str("/");
                proof {
                    reveal_strlit("/");
                    assert(r@ =~= seq!['/']);
                }
                return r;
            }
            let s = path.substring_char(0, k - 1);
            return String::from_str(s);
        }
        proof {
            assert(path@.subrange(0, k as int).drop_last() =~= path@.subrange(0, k - 1));
        }
        k = k - 1;
    }
    proof {
        assert(path@.subrange(0, 0) =~= Seq::<char>::empty());
    }
    let r = String::from_str("/");
    proof {
        reveal_strlit("/");
        assert(r@ =~= seq!['/']);
    }
    r
}

/// Why the dependencies of a binary could not be read.
#[derive(Debug)]
pub enum DependencyError {
    /// The bytes are not an ELF binary that can be parsed.
    Parse(goblin::error::Error),
    /// A run-path entry uses a token whose expansion is not supported.
    UnsupportedToken(RunPathToken),
}

pub open spec fn prepend_all(a: Seq<Seq<char>>, r: Option<Seq<Seq<char>>>) -> Option<Seq<Seq<char>>> {
    match r {
        Some(s) => Some(a + s),
        None => None,
    }
}

/// The run-path entries of `entries`, each expanded against `origin`.
fn expand_run_paths(entries: &Vec<DynEntry>, origin: &str) -> (r: Result<Vec<String>, RunPathError>)
    ensures
        match r {
            Ok(v) => expand_all(run_path_templates(entries_view(entries@)), origin@) == Some(strings_view(v@)),
            Err(_) => expand_all(run_path_templates(entries_view(entries@)), origin@) is None,
        },
{
    let ghost ev = entries_view(entries@);
    let mut out: Vec<String> = Vec::new();
    let mut i: usize = 0;
    proof {
        assert(ev.skip(0) =~= ev);
        assert(strings_view(out@) =~= Seq::<Seq<char>>::empty());
        match expand_all(run_path_templates(ev), origin@) {
            Some(e) => assert(Seq::<Seq<char>>::empty() + e =~= e),
            None => {},
        }
    }
    while i < entries.len()
        invariant
            i <= entries@.len(),
            ev == entries_view(entries@),
            expand_all(run_path_templates(ev), origin@)
                == prepend_all(strings_view(out@), expand_all(run_path_templates(ev.skip(i as int)), origin@)),
        decreases entries@.len() - i,
    {
        proof {
            assert(ev.skip(i as int).drop_first() =~= ev.skip(i + 1));
            assert(ev.skip(i as int)[0] == (entries@[i as int].tag, opt_string_view(entries@[i as int].text)));
        }
        let e = &entries[i];
        if e.tag == DT_RPATH || e.tag == DT_RUNPATH {
            match &e.text {
                Some(t) => {
                    match expand_tokens(t.as_str(), origin) {
                        Ok(x) => {
                            proof {
                                let rest = run_path_templates(ev.skip(i + 1));
                                assert(run_path_templates(ev.skip(i as int)) == seq![t@] + rest);
                                assert((seq![t@] + rest).drop_first() =~= rest);
                                crate::locate::lemma_strings_view_push(out@, x);
                                match expand_all(rest, origin@) {
                                    Some(rs) => {
                                        assert(strings_view(out@) + (seq![x@] + rs) =~= strings_view(out@).push(x@) + rs);
                                    },
                                    None => {},
                                }
                            }
                            out.push(x);
                        },
                        Err(err) => {
                            proof {
                                let rest = run_path_templates(ev.skip(i + 1));
                                assert(run_path_templates(ev.skip(i as int)) == seq![t@] + rest);
                                assert((seq![t@] + rest)[0] == t@);
                            }
                            return Err(err);
                        },
                    }
                },
                None => {},
            }
        }
        i = i + 1;
    }
    proof {
        assert(ev.skip(i as int) =~= Seq::<(u64, Option<Seq<char>>)>::empty());
        assert(strings_view(out@) + Seq::<Seq<char>>::empty() =~= strings_view(out@));
    }
    Ok(out)
}

/// The libraries that the ELF binary at `path`, whose bytes are `data`,
/// needs, with its run-paths expanded against the binary's directory. The
/// run-paths still have to be made canonical before they are searched.
pub fn libraries(path: &str, data: &[u8]) -> (r: Result<Libraries, DependencyError>)
    requires
        is_file_path(path@),
    ensures
        match elf_dynamic(data@) {
            None => r matches Err(DependencyError::Parse(_)),
            Some((e, n)) => match expand_all(run_path_templates(e), parent_spec(path@)) {
                None => r matches Err(DependencyError::UnsupportedToken(_)),
                Some(rps) => r matches Ok(l) && l.run_paths_view() == rps && l.libraries_view() == n,
            },
        },
{
    let parsed = match parse_elf(data) {
        Ok(d) => d,
        Err(e) => {
            return Err(DependencyError::Parse(e));
        },
    };
    let origin = parent_dir(path);
    match expand_run_paths(&parsed.entries, origin.as_str()) {
        Ok(run_paths) => Ok(Libraries::new(run_paths, parsed.needed)),
        Err(RunPathError::UnsupportedToken(tok)) => Err(DependencyError::UnsupportedToken(tok)),
    }
}

} // verus!
