//! Resolution of needed library names against a binary's search directories.

use vstd::prelude::*;
use vstd::string::*;

verus! {

/// The views of a sequence of strings.
pub open spec fn strings_view(v: Seq<String>) -> Seq<Seq<char>> {
    v.map_values(|s: String| s@)
}

pub proof fn lemma_strings_view_push(v: Seq<String>, x: String)
    ensures
        strings_view(v.push(x)) == strings_view(v).push(x@),
{
    assert(strings_view(v.push(x)) =~= strings_view(v).push(x@));
}

/// The system directories probed after the binary's own run-paths.
pub open spec fn fallback_dirs() -> Seq<Seq<char>> {
    seq![seq!['/', 'l', 'i', 'b'], seq!['/', 'u', 's', 'r', '/', 'l', 'i', 'b']]
}

/// The directories probed for a library, in order.
pub open spec fn search_dirs_spec(run_paths: Seq<Seq<char>>) -> Seq<Seq<char>> {
    run_paths + fallback_dirs()
}

/// The path of `name` inside directory `dir`.
pub open spec fn join_spec(dir: Seq<char>, name: Seq<char>) -> Seq<char> {
    dir + seq!['/'] + name
}

/// The paths probed for library `lib`, in order.
pub open spec fn candidates_spec(run_paths: Seq<Seq<char>>, lib: Seq<char>) -> Seq<Seq<char>> {
    search_dirs_spec(run_paths).map_values(|d: Seq<char>| join_spec(d, lib))
}

/// The first candidate whose flag in `present` is set.
pub open spec fn first_present(c: Seq<Seq<char>>, present: Seq<bool>) -> Option<Seq<char>>
    decreases c.len(),
{
    if c.len() == 0 || present.len() == 0 {
        None
    } else if present[0] {
        Some(c[0])
    } else {
        first_present(c.drop_first(), present.drop_first())
    }
}

/// The resolved paths of `libs`, in order, leaving out those found nowhere;
/// `present[k]` tells which candidates of `libs[k]` exist.
pub open spec fn resolved_spec(
    run_paths: Seq<Seq<char>>,
    libs: Seq<Seq<char>>,
    present: Seq<Seq<bool>>,
) -> Seq<Seq<char>>
    decreases libs.len(),
{
    if libs.len() == 0 || present.len() == 0 {
        Seq::empty()
    } else {
        let rest = resolved_spec(run_paths, libs.drop_first(), present.drop_first());
        match first_present(candidates_spec(run_paths, libs[0]), present[0]) {
            Some(p) => seq![p] + rest,
            None => rest,
        }
    }
}

/// The libraries that one binary needs, with the run-paths it declares.
pub struct Libraries {
    pub run_paths: Vec<String>,
    pub libraries: Vec<String>,
}

impl Libraries {
    pub open spec fn run_paths_view(&self) -> Seq<Seq<char>> {
        strings_view(self.run_paths@)
    }

    pub open spec fn libraries_view(&self) -> Seq<Seq<char>> {
        strings_view(self.libraries@)
    }

    /// The libraries named in `libraries`, searched for in `run_paths` (already
    /// expanded and canonical) before the system directories.
    pub fn new(run_paths: Vec<String>, libraries: Vec<String>) -> (r: Self)
        ensures
            r.run_paths@ == run_paths@,
            r.libraries@ == libraries@,
    {
        Libraries { run_paths, libraries }
    }

    /// The directories to probe: each run-path in order, then `/lib` and
    /// `/usr/lib`.
    pub fn search_dirs(&self) -> (r: Vec<String>)
        requires
            self.run_paths@.len() + 2 <= usize::MAX,
        ensures
            strings_view(r@) == search_dirs_spec(self.run_paths_view()),
    {
        let mut r: Vec<String> = Vec::new();
        let mut i: usize = 0;
        while i < self.run_paths.len()
            invariant
                i <= self.run_paths@.len(),
                strings_view(r@) == self.run_paths_view().subrange(0, i as int),
            decreases self.run_paths@.len() - i,
        {
            let ghost old_r = r@;
            r.push(self.run_paths[i].clone());
            proof {
                lemma_strings_view_push(old_r, self.run_paths@[i as int]);
                assert(self.run_paths_view().subrange(0, i + 1)
                    =~= self.run_paths_view().subrange(0, i as int).push(self.run_paths@[i as int]@));
            }
            i = i + 1;
        }
        let ghost r0 = r@;
        let a = String::from_str("/lib");
        r.push(a);
        let ghost r1 = r@;
        let b = String::from_str("/usr/lib");
        r.push(b);
        proof {
            lemma_strings_view_push(r0, a);
            lemma_strings_view_push(r1, b);
            reveal_strlit("/lib");
            reveal_strlit("/usr/lib");
            assert("/lib"@ =~= seq!['/', 'l', 'i', 'b']);
            assert("/usr/lib"@ =~= seq!['/', 'u', 's', 'r', '/', 'l', 'i', 'b']);
            assert(fallback_dirs()[0] == seq!['/', 'l', 'i', 'b']);
            assert(fallback_dirs()[1] == seq!['/', 'u', 's', 'r', '/', 'l', 'i', 'b']);
            assert(self.run_paths_view().subrange(0, i as int) =~= self.run_paths_view());
            assert(strings_view(r@) =~= search_dirs_spec(self.run_paths_view()));
        }
        r
    }

    /// The paths to probe for `lib`: `{dir}/{lib}` for each search directory.
    pub fn candidates(&self, lib: &str) -> (r: Vec<String>)
        requires
            self.run_paths@.len() + 2 <= usize::MAX,
        ensures
            strings_view(r@) == candidates_spec(self.run_paths_view(), lib@),
    {
        let dirs = self.search_dirs();
        let mut r: Vec<String> = Vec::new();
        let mut i: usize = 0;
        while i < dirs.len()
            invariant
                i <= dirs@.len(),
                strings_view(dirs@) == search_dirs_spec(self.run_paths_view()),
                strings_view(r@) == candidates_spec(self.run_paths_view(), lib@).subrange(0, i as int),
            decreases dirs@.len() - i,
        {
            let mut p = dirs[i].clone();
            p.append("/");
            p.append(lib);
            proof {
                reveal_strlit("/");
                assert(p@ =~= join_spec(dirs@[i as int]@, lib@));
                lemma_strings_view_push(r@, p);
                assert(candidates_spec(self.run_paths_view(), lib@).subrange(0, i + 1)
                    =~= candidates_spec(self.run_paths_view(), lib@).subrange(0, i as int).push(p@));
            }
            r.push(p);
            i = i + 1;
        }
        proof {
            assert(candidates_spec(self.run_paths_view(), lib@).subrange(0, i as int)
                =~= candidates_spec(self.run_paths_view(), lib@));
        }
        r
    }

    /// Resolves `lib` to the first of its candidates that exists; `present[i]`
    /// tells whether the `i`-th candidate exists. `None` when none does.
    pub fn resolve_path(&self, lib: &str, present: &Vec<bool>) -> (r: Option<String>)
        requires
            self.run_paths@.len() + 2 <= usize::MAX,
            present@.len() == self.run_paths@.len() + 2,
        ensures
            match r {
                Some(p) => first_present(candidates_spec(self.run_paths_view(), lib@), present@) == Some(p@),
                None => first_present(candidates_spec(self.run_paths_view(), lib@), present@) is None,
            },
    {
        let c = self.candidates(lib);
        let ghost cs = candidates_spec(self.run_paths_view(), lib@);
        let mut i: usize = 0;
        proof {
            assert(cs.skip(0) =~= cs);
            assert(present@.skip(0) =~= present@);
        }
        while i < c.len()
            invariant
                i <= c@.len(),
                c@.len() == present@.len(),
                strings_view(c@) == cs,
                cs == candidates_spec(self.run_paths_view(), lib@),
                first_present(cs, present@) == first_present(cs.skip(i as int), present@.skip(i as int)),
            decreases c@.len() - i,
        {
            proof {
                assert(cs.skip(i as int).drop_first() =~= cs.skip(i + 1));
                assert(present@.skip(i as int).drop_first() =~= present@.skip(i + 1));
            }
            if present[i] {
                proof {
                    assert(cs.skip(i as int)[0] == c@[i as int]@);
                    assert(present@.skip(i as int)[0] == present@[i as int]);
                    assert(cs.skip(i as int).len() > 0);
                    assert(first_present(cs.skip(i as int), present@.skip(i as int)) == Some(cs.skip(i as int)[0]));
                }
                let found = c[i].clone();
                proof {
                    assert(found@ == cs.skip(i as int)[0]);
                }
                return Some(found);
            }
            i = i + 1;
        }
        None
    }

    /// Resolves every needed library in order, leaving out the ones that
    /// cannot be found; `present[k]` holds the existence flags of the
    /// candidates of the `k`-th library.
    pub fn resolve_all(&self, present: &Vec<Vec<bool>>) -> (r: Vec<String>)
        requires
            self.run_paths@.len() + 2 <= usize::MAX,
            present@.len() == self.libraries@.len(),
            forall|k: int| 0 <= k < present@.len() ==> (#[trigger] present@[k])@.len() == self.run_paths@.len() + 2,
        ensures
            strings_view(r@) == resolved_spec(self.run_paths_view(), self.libraries_view(), present@.map_values(|v: Vec<bool>| v@)),
    {
        let ghost pv = present@.map_values(|v: Vec<bool>| v@);
        let ghost rp = self.run_paths_view();
        let ghost libs = self.libraries_view();
        let mut r: Vec<String> = Vec::new();
        let mut i: usize = self.libraries.len();
        proof {
            assert(libs.skip(i as int) =~= Seq::<Seq<char>>::empty());
        }
        while i > 0
            invariant
                i <= libs.len(),
                libs.len() == pv.len(),
                pv == present@.map_values(|v: Vec<bool>| v@),
                libs == self.libraries_view(),
                rp == self.run_paths_view(),
                self.run_paths@.len() + 2 <= usize::MAX,
                forall|k: int| 0 <= k < present@.len() ==> (#[trigger] present@[k])@.len() == self.run_paths@.len() + 2,
                strings_view(r@).reverse() == resolved_spec(rp, libs.skip(i as int), pv.skip(i as int)),
            decreases i,
        {
            i = i - 1;
            let found = self.resolve_path(self.libraries[i].as_str(), &present[i]);
            proof {
                assert(libs.skip(i as int).drop_first() =~= libs.skip(i + 1));
                assert(pv.skip(i as int).drop_first() =~= pv.skip(i + 1));
                assert(libs.skip(i as int)[0] == self.libraries@[i as int]@);
                assert(pv.skip(i as int)[0] == present@[i as int]@);
            }
            match found {
                Some(p) => {
                    proof {
                        assert(strings_view(r@.push(p)).reverse() =~= seq![p@] + strings_view(r@).reverse());
                    }
                    r.push(p);
                },
                None => {},
            }
        }
        proof {
            assert(libs.skip(0) =~= libs);
            assert(pv.skip(0) =~= pv);
        }
        let mut out: Vec<String> = Vec::new();
        let mut j: usize = r.len();
        while j > 0
            invariant
                j <= r@.len(),
                strings_view(out@) == strings_view(r@).reverse().subrange(0, (r@.len() - j) as int),
            decreases j,
        {
            j = j - 1;
            proof {
                lemma_strings_view_push(out@, r@[j as int]);
                assert(strings_view(r@).reverse().subrange(0, (r@.len() - j) as int)
                    =~= strings_view(r@).reverse().subrange(0, (r@.len() - j - 1) as int).push(r@[j as int]@));
            }
            out.push(r[j].clone());
        }
        proof {
            assert(strings_view(r@).reverse().subrange(0, r@.len() as int) =~= strings_view(r@).reverse());
        }
        out
    }
}

/// A library that the first run-path directory holds is taken from there,
/// whatever the later run-paths and the system directories hold.
pub proof fn lemma_first_run_path_wins(run_paths: Seq<Seq<char>>, lib: Seq<char>, present: Seq<bool>)
    requires
        run_paths.len() >= 1,
        present.len() == run_paths.len() + 2,
        present[0],
    ensures
        first_present(candidates_spec(run_paths, lib), present) == Some(join_spec(run_paths[0], lib)),
{
}

} // verus!
