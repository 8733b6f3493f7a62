//! Executable discovery: the search path is split into directories, each
//! directory is probed for the executable (or its `.exe` variant), and the
//! first hit wins.
//!
//! Reading the environment variable and asking the file system whether a file
//! exists are I/O and happen outside this crate; the probe results come in as
//! plain values, and the decision which directory wins is verified here.

use vstd::prelude::*;

use crate::text::lemma_find_sep_at;
use crate::text::split_char;

verus! {

/// One directory of the search path together with the two probe results for
/// it: whether `<dir>/inkscape` exists, and whether `<dir>/inkscape.exe`
/// does.
#[derive(Debug)]
pub struct DirProbe {
    pub dir: String,
    pub has_plain: bool,
    pub has_exe: bool,
}

/// Whether a probed directory holds the executable in either spelling.
pub open spec fn probe_hit(p: DirProbe) -> bool {
    p.has_plain || p.has_exe
}

/// The resolved path for a winning directory: the directory with the plain
/// executable name joined on, whichever spelling was found.
pub open spec fn probe_path(p: DirProbe) -> Seq<char> {
    p.dir@ + "/inkscape"@
}

/// The first directory of the search path that holds the executable, as a
/// resolved path, or none when no directory qualifies.
pub open spec fn spec_find_executable(probes: Seq<DirProbe>) -> Option<Seq<char>>
    decreases probes.len(),
{
    if probes.len() == 0 {
        None
    } else if probe_hit(probes[0]) {
        Some(probe_path(probes[0]))
    } else {
        spec_find_executable(probes.drop_first())
    }
}

/// Walks the probed directories in path order and returns the resolved path
/// of the first one that holds the executable, or `None` when none does —
/// the terminal condition for the worker.
pub fn find_inkscape_executable(probes: &Vec<DirProbe>) -> (r: Option<String>)
    ensures
        match r {
            Some(path) => spec_find_executable(probes@) == Some(path@),
            None => spec_find_executable(probes@) is None,
        },
{
    let ghost all = probes@;
    proof {
        assert(all.skip(0) =~= all);
    }
    let mut k: usize = 0;
    while k < probes.len()
        invariant
            0 <= k <= probes.len(),
            all == probes@,
            all.len() == probes.len(),
            spec_find_executable(all) == spec_find_executable(all.skip(k as int)),
            forall|j: int| 0 <= j < k ==> !probe_hit(all[j]),
        decreases probes.len() - k,
    {
        let ghost rest = all.skip(k as int);
        proof {
            assert(rest.drop_first() =~= all.skip(k as int + 1));
        }
        let p = &probes[k];
        if p.has_plain || p.has_exe {
            let mut path = p.dir.clone();
            path.append("/inkscape");
            proof {
                assert(rest[0] == all[k as int]);
                assert(spec_find_executable(rest) == Some(probe_path(all[k as int])));
            }
            return Some(path);
        }
        proof {
            assert(rest[0] == all[k as int]);
        }
        k = k + 1;
    }
    proof {
        assert(all.skip(all.len() as int) =~= Seq::<DirProbe>::empty());
    }
    None
}

/// The first qualifying directory wins: if directory `i` holds the
/// executable and no earlier one does, discovery resolves to directory `i`.
pub proof fn lemma_find_first_match(probes: Seq<DirProbe>, i: int)
    requires
        0 <= i < probes.len(),
        probe_hit(probes[i]),
        forall|j: int| 0 <= j < i ==> !probe_hit(probes[j]),
    ensures
        spec_find_executable(probes) == Some(probe_path(probes[i])),
    decreases i,
{
    if i == 0 {
    } else {
        assert forall|j: int| 0 <= j < i - 1 implies !probe_hit(probes.drop_first()[j]) by {
            assert(probes.drop_first()[j] == probes[j + 1]);
        }
        assert(probes.drop_first()[i - 1] == probes[i]);
        lemma_find_first_match(probes.drop_first(), i - 1);
    }
}

/// Discovery fails exactly when no directory on the search path holds the
/// executable.
pub proof fn lemma_find_none(probes: Seq<DirProbe>)
    ensures
        spec_find_executable(probes) is None <==> (forall|j: int|
            0 <= j < probes.len() ==> !probe_hit(#[trigger] probes[j])),
    decreases probes.len(),
{
    if probes.len() == 0 {
    } else {
        lemma_find_none(probes.drop_first());
        if spec_find_executable(probes) is None {
            assert forall|j: int| 0 <= j < probes.len() implies !probe_hit(
                #[trigger] probes[j],
            ) by {
                if j > 0 {
                    assert(!probe_hit(probes.drop_first()[j - 1]));
                }
            }
        } else {
            if !probe_hit(probes[0]) {
                let j = choose|j: int|
                    0 <= j < probes.drop_first().len() && probe_hit(
                        #[trigger] probes.drop_first()[j],
                    );
                assert(probes[j + 1] == probes.drop_first()[j]);
            }
        }
    }
}

/// Splits a search-path string into its directories, in listed order, at the
/// given separator character.
pub fn split_search_path(path: &str, sep: char) -> (dirs: Vec<String>)
    ensures
        dirs.deep_view() == split_char(path@, sep),
    decreases path@.len(),
{
    let n = path.unicode_len();
    let mut i: usize = 0;
    while i < n && path.get_char(i) != sep
        invariant
            0 <= i <= n,
            n == path@.len(),
            forall|j: int| 0 <= j < i ==> path@[j] != sep,
        decreases n - i,
    {
        i = i + 1;
    }
    proof {
        lemma_find_sep_at(path@, sep, i as int);
    }
    let head = path.substring_char(0, i);
    if i < n {
        let rest = path.substring_char(i + 1, n);
        let mut dirs = split_search_path(rest, sep);
        dirs.insert(0, head.to_owned());
        proof {
            assert(dirs.deep_view() =~= split_char(path@, sep));
        }
        dirs
    } else {
        let mut dirs: Vec<String> = Vec::new();
        dirs.push(head.to_owned());
        proof {
            assert(head@ =~= path@);
            assert(dirs.deep_view() =~= split_char(path@, sep));
        }
        dirs
    }
}

} // verus!
