//! The shell-family hint passed to a sandboxed plugin. The family is read
//! off the process path of the user's shell: the file stem of the last path
//! component, matched against a small closed set; anything unrecognized is
//! passed through verbatim rather than dropped.

use vstd::prelude::*;

use crate::text::{chars_of, str_eq_str, string_of_chars};

verus! {

/// A shell family, or the unrecognized stem itself.
#[derive(Debug, Clone, PartialEq, Eq)]
pub enum Shell {
    Bash,
    Zsh,
    Fish,
    Unknown(String),
}

/// `s` without its trailing path separators.
pub open spec fn strip_trailing_slashes(s: Seq<char>) -> Seq<char>
    decreases s.len(),
{
    if s.len() > 0 && s.last() == '/' {
        strip_trailing_slashes(s.drop_last())
    } else {
        s
    }
}

/// The suffix of `s` after its last path separator (all of `s` when there
/// is none).
pub open spec fn after_last_slash(s: Seq<char>) -> Seq<char>
    decreases s.len(),
{
    if s.len() == 0 {
        s
    } else if s.last() == '/' {
        Seq::empty()
    } else {
        after_last_slash(s.drop_last()).push(s.last())
    }
}

/// The prefix of `n` before its last dot; empty when `n` has no dot.
pub open spec fn before_last_dot(n: Seq<char>) -> Seq<char>
    decreases n.len(),
{
    if n.len() == 0 {
        n
    } else if n.last() == '.' {
        n.drop_last()
    } else {
        before_last_dot(n.drop_last())
    }
}

/// The stem of a file name: the part before the last dot, or the whole name
/// when there is no dot or when the part before the last dot is empty (a
/// leading-dot name keeps its dot).
pub open spec fn stem_of(n: Seq<char>) -> Seq<char> {
    if before_last_dot(n).len() == 0 {
        n
    } else {
        before_last_dot(n)
    }
}

/// The file stem of the last component of path `s`, if the path has a file
/// name at all.
pub open spec fn spec_file_stem(s: Seq<char>) -> Option<Seq<char>> {
    if after_last_slash(strip_trailing_slashes(s)).len() == 0 {
        None
    } else {
        Some(stem_of(after_last_slash(strip_trailing_slashes(s))))
    }
}

/// Which shell value stands for the stem `st`.
pub open spec fn shell_matches(sh: Shell, st: Seq<char>) -> bool {
    match sh {
        Shell::Bash => st == "bash"@,
        Shell::Zsh => st == "zsh"@,
        Shell::Fish => st == "fish"@,
        Shell::Unknown(u) => u@ == st && st != "bash"@ && st != "zsh"@ && st != "fish"@,
    }
}

/// The shell hint a process path yields, as data: the file stem decides,
/// an unrecognized stem is carried verbatim, and a path without a file
/// name yields no hint.
pub open spec fn spec_shell_hint(path: Seq<char>) -> Option<crate::plugin::ShellModel> {
    match spec_file_stem(path) {
        None => None,
        Some(st) => Some(
            if st == "bash"@ {
                crate::plugin::ShellModel::Bash
            } else if st == "zsh"@ {
                crate::plugin::ShellModel::Zsh
            } else if st == "fish"@ {
                crate::plugin::ShellModel::Fish
            } else {
                crate::plugin::ShellModel::Unknown(st)
            },
        ),
    }
}

impl Shell {
    /// Reads the shell family off a process path: the file stem of the last
    /// path component decides; an unrecognized stem is carried verbatim.
    /// Returns nothing when the path has no file name.
    pub fn from_process_path(process_path: &str) -> (r: Option<Shell>)
        ensures
            match r {
                None => spec_file_stem(process_path@) is None,
                Some(sh) => spec_file_stem(process_path@) matches Some(st) && shell_matches(
                    sh,
                    st,
                ),
            },
    {
        let v = chars_of(process_path);
        let ghost s0 = process_path@;
        let mut end: usize = v.len();
        proof {
            assert(s0.subrange(0, end as int) =~= s0);
        }
        while end > 0 && v[end - 1] == '/'
            invariant
                v@ == s0,
                end <= s0.len(),
                strip_trailing_slashes(s0) == strip_trailing_slashes(
                    s0.subrange(0, end as int),
                ),
            decreases end,
        {
            proof {
                let part = s0.subrange(0, end as int);
                assert(part.drop_last() =~= s0.subrange(0, end as int - 1));
            }
            end = end - 1;
        }
        let ghost stripped = s0.subrange(0, end as int);
        proof {
            assert(strip_trailing_slashes(s0) == stripped);
        }
        let mut start: usize = end;
        proof {
            assert(stripped.subrange(0, start as int) =~= stripped);
            assert(stripped.subrange(start as int, end as int) =~= Seq::<char>::empty());
            assert(after_last_slash(stripped) =~= after_last_slash(
                stripped.subrange(0, start as int),
            ) + stripped.subrange(start as int, end as int));
        }
        while start > 0 && v[start - 1] != '/'
            invariant
                v@ == s0,
                start <= end <= s0.len(),
                stripped == s0.subrange(0, end as int),
                after_last_slash(stripped) == after_last_slash(
                    stripped.subrange(0, start as int),
                ) + stripped.subrange(start as int, end as int),
            decreases start,
        {
            proof {
                let pre = stripped.subrange(0, start as int);
                assert(pre.drop_last() =~= stripped.subrange(0, start as int - 1));
                assert(pre.last() == s0[start as int - 1]);
                assert(after_last_slash(pre.drop_last()).push(pre.last()) + stripped.subrange(
                    start as int,
                    end as int,
                ) =~= after_last_slash(pre.drop_last()) + stripped.subrange(
                    start as int - 1,
                    end as int,
                ));
            }
            start = start - 1;
        }
        let ghost name = stripped.subrange(start as int, end as int);
        proof {
            if start > 0 {
                let pre = stripped.subrange(0, start as int);
                assert(pre.last() == s0[start as int - 1]);
                assert(after_last_slash(pre) =~= Seq::<char>::empty());
            } else {
                assert(stripped.subrange(0, 0) =~= Seq::<char>::empty());
            }
            assert(after_last_slash(stripped) =~= name);
        }
        if start == end {
            return None;
        }
        // Find the stem: the part of the name before its last dot, unless
        // that part is empty.
        let mut k: usize = end;
        proof {
            assert(name.subrange(0, k as int - start) =~= name);
            assert(before_last_dot(name) == before_last_dot(
                name.subrange(0, k as int - start),
            ));
        }
        let mut stem_hi: usize = end;
        let mut found: bool = false;
        while k > start
            invariant_except_break
                !found,
                before_last_dot(name) == before_last_dot(name.subrange(0, k as int - start)),
            invariant
                v@ == s0,
                start <= k <= end <= s0.len(),
                stripped == s0.subrange(0, end as int),
                name == stripped.subrange(start as int, end as int),
            ensures
                !found ==> before_last_dot(name) == before_last_dot(name.subrange(0, 0)),
                found ==> start <= stem_hi <= end && before_last_dot(name) == name.subrange(
                    0,
                    stem_hi as int - start,
                ),
            decreases k,
        {
            proof {
                let pre = name.subrange(0, k as int - start);
                assert(pre.last() == name[k as int - start - 1]);
                assert(name[k as int - start - 1] == s0[k as int - 1]);
                assert(pre.drop_last() =~= name.subrange(0, k as int - start - 1));
            }
            if v[k - 1] == '.' {
                proof {
                    let pre = name.subrange(0, k as int - start);
                    assert(pre.last() == '.');
                    assert(before_last_dot(pre) == pre.drop_last());
                    assert(before_last_dot(name) == name.subrange(0, k as int - start - 1));
                }
                stem_hi = k - 1;
                found = true;
                break;
            }
            proof {
                let pre = name.subrange(0, k as int - start);
                assert(pre.last() != '.');
                assert(before_last_dot(pre) == before_last_dot(pre.drop_last()));
            }
            k = k - 1;
        }
        let lo: usize = start;
        let hi: usize = if found && stem_hi > start {
            stem_hi
        } else {
            end
        };
        proof {
            assert(name =~= name.subrange(0, end as int - start));
            if !found {
                assert(name.subrange(0, 0) =~= Seq::<char>::empty());
                assert(before_last_dot(name).len() == 0);
            }
            assert(stem_of(name) == name.subrange(0, hi as int - start));
        }
        let mut stem_chars: Vec<char> = Vec::new();
        let mut i: usize = lo;
        while i < hi
            invariant
                v@ == s0,
                lo <= i <= hi <= s0.len(),
                lo == start,
                stem_chars@ == s0.subrange(lo as int, i as int),
            decreases hi - i,
        {
            stem_chars.push(v[i]);
            i = i + 1;
            proof {
                assert(stem_chars@ =~= s0.subrange(lo as int, i as int));
            }
        }
        proof {
            assert(stem_chars@ =~= name.subrange(0, hi as int - start));
        }
        let stem = string_of_chars(&stem_chars);
        if str_eq_str(stem.as_str(), "bash") {
            Some(Shell::Bash)
        } else if str_eq_str(stem.as_str(), "zsh") {
            Some(Shell::Zsh)
        } else if str_eq_str(stem.as_str(), "fish") {
            Some(Shell::Fish)
        } else {
            Some(Shell::Unknown(stem))
        }
    }
}


/// The extension of a file name: the part after the last dot, unless the
/// stem before it would be empty.
pub open spec fn extension_of(n: Seq<char>) -> Option<Seq<char>> {
    if before_last_dot(n).len() == 0 {
        None
    } else {
        Some(n.subrange(before_last_dot(n).len() as int + 1, n.len() as int))
    }
}

/// The file name of the last component of path `s`.
pub open spec fn spec_file_name(s: Seq<char>) -> Option<Seq<char>> {
    if after_last_slash(strip_trailing_slashes(s)).len() == 0 {
        None
    } else {
        Some(after_last_slash(strip_trailing_slashes(s)))
    }
}

/// The extension of the file name of path `s`.
pub open spec fn spec_path_extension(s: Seq<char>) -> Option<Seq<char>> {
    match spec_file_name(s) {
        None => None,
        Some(n) => extension_of(n),
    }
}

/// The file name of the last component of path `s`, if the path has one.
pub fn file_name_of(path: &str) -> (r: Option<String>)
    ensures
        match r {
            None => spec_file_name(path@) is None,
            Some(n) => spec_file_name(path@) == Some(n@),
        },
{
    let v = chars_of(path);
    let ghost s0 = path@;
    let mut end: usize = v.len();
    proof {
        assert(s0.subrange(0, end as int) =~= s0);
    }
    while end > 0 && v[end - 1] == '/'
        invariant
            v@ == s0,
            end <= s0.len(),
            strip_trailing_slashes(s0) == strip_trailing_slashes(s0.subrange(0, end as int)),
        decreases end,
    {
        proof {
            let part = s0.subrange(0, end as int);
            assert(part.drop_last() =~= s0.subrange(0, end as int - 1));
        }
        end = end - 1;
    }
    let ghost stripped = s0.subrange(0, end as int);
    proof {
        assert(strip_trailing_slashes(s0) == stripped);
    }
    let mut start: usize = end;
    proof {
        assert(stripped.subrange(0, start as int) =~= stripped);
        assert(stripped.subrange(start as int, end as int) =~= Seq::<char>::empty());
        assert(after_last_slash(stripped) =~= after_last_slash(
            stripped.subrange(0, start as int),
        ) + stripped.subrange(start as int, end as int));
    }
    while start > 0 && v[start - 1] != '/'
        invariant
            v@ == s0,
            start <= end <= s0.len(),
            stripped == s0.subrange(0, end as int),
            after_last_slash(stripped) == after_last_slash(stripped.subrange(0, start as int))
                + stripped.subrange(start as int, end as int),
        decreases start,
    {
        proof {
            let pre = stripped.subrange(0, start as int);
            assert(pre.drop_last() =~= stripped.subrange(0, start as int - 1));
            assert(pre.last() == s0[start as int - 1]);
            assert(after_last_slash(pre.drop_last()).push(pre.last()) + stripped.subrange(
                start as int,
                end as int,
            ) =~= after_last_slash(pre.drop_last()) + stripped.subrange(
                start as int - 1,
                end as int,
            ));
        }
        start = start - 1;
    }
    let ghost name = stripped.subrange(start as int, end as int);
    proof {
        if start > 0 {
            let pre = stripped.subrange(0, start as int);
            assert(pre.last() == s0[start as int - 1]);
            assert(after_last_slash(pre) =~= Seq::<char>::empty());
        } else {
            assert(stripped.subrange(0, 0) =~= Seq::<char>::empty());
        }
        assert(after_last_slash(stripped) =~= name);
    }
    if start == end {
        return None;
    }
    let mut out: Vec<char> = Vec::new();
    let mut i: usize = start;
    while i < end
        invariant
            v@ == s0,
            start <= i <= end <= s0.len(),
            out@ == s0.subrange(start as int, i as int),
        decreases end - i,
    {
        out.push(v[i]);
        i = i + 1;
        proof {
            assert(out@ =~= s0.subrange(start as int, i as int));
        }
    }
    proof {
        assert(out@ =~= name);
    }
    Some(string_of_chars(&out))
}

/// The extension of the file name of path `s`, if there is one.
pub fn path_extension(path: &str) -> (r: Option<String>)
    ensures
        match r {
            None => spec_path_extension(path@) is None,
            Some(e) => spec_path_extension(path@) == Some(e@),
        },
{
    let name = match file_name_of(path) {
        Some(n) => n,
        None => {
            return None;
        },
    };
    let v = chars_of(name.as_str());
    let ghost n0 = name@;
    let n = v.len();
    let mut k: usize = n;
    let mut dot: usize = 0;
    let mut found: bool = false;
    proof {
        assert(n0.subrange(0, k as int) =~= n0);
        assert(before_last_dot(n0) == before_last_dot(n0.subrange(0, k as int)));
    }
    while k > 0
        invariant_except_break
            !found,
            before_last_dot(n0) == before_last_dot(n0.subrange(0, k as int)),
        invariant
            v@ == n0,
            k <= n == n0.len(),
        ensures
            !found ==> before_last_dot(n0) == before_last_dot(n0.subrange(0, 0)),
            found ==> dot < n && before_last_dot(n0) == n0.subrange(0, dot as int),
        decreases k,
    {
        proof {
            let pre = n0.subrange(0, k as int);
            assert(pre.last() == n0[k as int - 1]);
            assert(pre.drop_last() =~= n0.subrange(0, k as int - 1));
        }
        if v[k - 1] == '.' {
            proof {
                let pre = n0.subrange(0, k as int);
                assert(before_last_dot(pre) == pre.drop_last());
                assert(before_last_dot(n0) == n0.subrange(0, k as int - 1));
            }
            dot = k - 1;
            found = true;
            break;
        }
        proof {
            let pre = n0.subrange(0, k as int);
            assert(before_last_dot(pre) == before_last_dot(pre.drop_last()));
        }
        k = k - 1;
    }
    proof {
        if !found {
            assert(n0.subrange(0, 0) =~= Seq::<char>::empty());
        }
    }
    if !found || dot == 0 {
        return None;
    }
    let mut out: Vec<char> = Vec::new();
    let mut i: usize = dot + 1;
    while i < n
        invariant
            v@ == n0,
            dot + 1 <= i <= n == n0.len(),
            out@ == n0.subrange(dot as int + 1, i as int),
        decreases n - i,
    {
        out.push(v[i]);
        i = i + 1;
        proof {
            assert(out@ =~= n0.subrange(dot as int + 1, i as int));
        }
    }
    proof {
        assert(out@ =~= n0.subrange(dot as int + 1, n as int));
    }
    Some(string_of_chars(&out))
}

} // verus!
