//! Profile selection: either a fixed name that must exist, or an
//! interactive choice from the role-bearing profiles. The interactive
//! facility itself (a fuzzy matcher on the terminal) is an external
//! collaborator: the library prepares the candidate list — role-bearing
//! names, sorted lexicographically — and resolves the confirmed name back
//! to a profile; a cancelled choice is a normal outcome, not an error.

use vstd::prelude::*;
use vstd::seq_lib::to_multiset_insert;

use crate::error::Error;
use crate::profile::{find_profile, Profile, ProfileSet};
use vstd::string::StrSliceExecFns;

verus! {

/// Lexicographic order on character sequences, by code point.
pub open spec fn lex_le(a: Seq<char>, b: Seq<char>) -> bool
    decreases a.len(),
{
    if a.len() == 0 {
        true
    } else if b.len() == 0 {
        false
    } else if a[0] as u32 != b[0] as u32 {
        (a[0] as u32) < (b[0] as u32)
    } else {
        lex_le(a.drop_first(), b.drop_first())
    }
}

/// Any two sequences are ordered one way or the other.
pub proof fn lemma_lex_total(a: Seq<char>, b: Seq<char>)
    ensures
        lex_le(a, b) || lex_le(b, a),
    decreases a.len(),
{
    if a.len() > 0 && b.len() > 0 && a[0] as u32 == b[0] as u32 {
        lemma_lex_total(a.drop_first(), b.drop_first());
    }
}

/// The order is transitive.
pub proof fn lemma_lex_trans(a: Seq<char>, b: Seq<char>, c: Seq<char>)
    requires
        lex_le(a, b),
        lex_le(b, c),
    ensures
        lex_le(a, c),
    decreases a.len(),
{
    if a.len() > 0 && b.len() > 0 && c.len() > 0 && a[0] as u32 == b[0] as u32 && b[0] as u32
        == c[0] as u32 {
        lemma_lex_trans(a.drop_first(), b.drop_first(), c.drop_first());
    }
}

/// Equal prefixes do not decide the order.
proof fn lemma_lex_skip(a: Seq<char>, b: Seq<char>, i: int)
    requires
        0 <= i <= a.len(),
        i <= b.len(),
        forall|j: int| 0 <= j < i ==> a[j] as u32 == #[trigger] (b[j] as u32),
    ensures
        lex_le(a, b) == lex_le(
            a.subrange(i, a.len() as int),
            b.subrange(i, b.len() as int),
        ),
    decreases i,
{
    if i > 0 {
        assert(a[0] as u32 == b[0] as u32);
        let at = a.drop_first();
        let bt = b.drop_first();
        assert(forall|j: int| 0 <= j < i - 1 ==> at[j] as u32 == #[trigger] (bt[j] as u32));
        lemma_lex_skip(at, bt, i - 1);
        assert(at.subrange(i - 1, at.len() as int) =~= a.subrange(i, a.len() as int));
        assert(bt.subrange(i - 1, bt.len() as int) =~= b.subrange(i, b.len() as int));
    } else {
        assert(a.subrange(0, a.len() as int) =~= a);
        assert(b.subrange(0, b.len() as int) =~= b);
    }
}

/// Whether `a` reads at or before `b`; matches `lex_le`.
pub fn lex_le_exec(a: &str, b: &str) -> (r: bool)
    ensures
        r == lex_le(a@, b@),
{
    let la = a.unicode_len();
    let lb = b.unicode_len();
    let min: usize = if la < lb {
        la
    } else {
        lb
    };
    let mut i: usize = 0;
    while i < min
        invariant
            la == a@.len(),
            lb == b@.len(),
            min == if la < lb {
                la
            } else {
                lb
            },
            i <= min,
            forall|j: int| 0 <= j < i ==> a@[j] as u32 == #[trigger] (b@[j] as u32),
        decreases min - i,
    {
        let ca = a.get_char(i);
        let cb = b.get_char(i);
        if ca as u32 != cb as u32 {
            proof {
                lemma_lex_skip(a@, b@, i as int);
            }
            return (ca as u32) < (cb as u32);
        }
        i = i + 1;
    }
    proof {
        lemma_lex_skip(a@, b@, min as int);
    }
    la <= lb
}

/// Whether the names read in nondecreasing lexicographic order.
pub open spec fn sorted_names(s: Seq<String>) -> bool {
    forall|i: int, j: int| 0 <= i < j < s.len() ==> lex_le((#[trigger] s[i])@, (#[trigger] s[j])@)
}

/// The views of a string sequence.
pub open spec fn name_views(s: Seq<String>) -> Seq<Seq<char>> {
    s.map_values(|t: String| t@)
}

/// Sorts names lexicographically; the result holds exactly the input names.
pub fn sort_names(v: Vec<String>) -> (r: Vec<String>)
    ensures
        sorted_names(r@),
        name_views(r@).to_multiset() == name_views(v@).to_multiset(),
{
    let n = v.len();
    let mut out: Vec<String> = Vec::new();
    let mut idx: usize = 0;
    proof {
        assert(name_views(out@) =~= name_views(v@.subrange(0, 0)));
    }
    while idx < n
        invariant
            n == v@.len(),
            idx <= n,
            sorted_names(out@),
            out@.len() == idx,
            name_views(out@).to_multiset() == name_views(v@.subrange(0, idx as int)).to_multiset(),
        decreases n - idx,
    {
        let x = v[idx].clone();
        let mut k: usize = 0;
        while k < out.len() && lex_le_exec(out[k].as_str(), x.as_str())
            invariant
                k <= out@.len(),
                forall|j: int| 0 <= j < k ==> lex_le((#[trigger] out@[j])@, x@),
            decreases out@.len() - k,
        {
            k = k + 1;
        }
        proof {
            if k < out@.len() {
                lemma_lex_total(out@[k as int]@, x@);
                assert forall|j: int| k <= j < out@.len() implies lex_le(
                    x@,
                    (#[trigger] out@[j])@,
                ) by {
                    if j > k {
                        lemma_lex_trans(x@, out@[k as int]@, out@[j]@);
                    }
                };
            }
        }
        let ghost pre = out@;
        out.insert(k, x);
        proof {
            assert(x == v@[idx as int]);
            assert forall|i: int, j: int|
                0 <= i < j < out@.len() implies lex_le((#[trigger] out@[i])@, (#[trigger] out@[j])@)
            by {
                pre.insert_ensures(k as int, x);
            };
            assert(name_views(out@) =~= name_views(pre).insert(k as int, x@)) by {
                pre.insert_ensures(k as int, x);
            };
            to_multiset_insert(name_views(pre), k as int, x@);
            assert(name_views(v@.subrange(0, idx as int + 1)) =~= name_views(
                v@.subrange(0, idx as int),
            ).push(v@[idx as int]@));
            vstd::seq_lib::to_multiset_build(name_views(v@.subrange(0, idx as int)), x@);
        }
        idx = idx + 1;
    }
    proof {
        assert(v@.subrange(0, n as int) =~= v@);
    }
    out
}

/// The names of the role-bearing profiles in `s`, in store order.
pub open spec fn role_names(s: Seq<Profile>) -> Seq<Seq<char>>
    decreases s.len(),
{
    if s.len() == 0 {
        Seq::empty()
    } else {
        role_names(s.drop_last()) + (if s.last().role_arn is Some {
            seq![s.last().name@]
        } else {
            Seq::empty()
        })
    }
}

/// The names of every profile that can be role-assumed, in store order.
pub fn profile_names(profiles: &ProfileSet) -> (r: Vec<String>)
    ensures
        name_views(r@) == role_names(profiles.profiles@),
{
    let n = profiles.profiles.len();
    let mut r: Vec<String> = Vec::new();
    let mut i: usize = 0;
    proof {
        assert(name_views(r@) =~= role_names(profiles.profiles@.subrange(0, 0)));
    }
    while i < n
        invariant
            n == profiles.profiles@.len(),
            i <= n,
            name_views(r@) == role_names(profiles.profiles@.subrange(0, i as int)),
        decreases n - i,
    {
        let ghost prefix = profiles.profiles@.subrange(0, i as int);
        let ghost prefix1 = profiles.profiles@.subrange(0, i as int + 1);
        proof {
            assert(prefix1.drop_last() =~= prefix);
            assert(prefix1.last() == profiles.profiles@[i as int]);
        }
        if profiles.profiles[i].role_arn.is_some() {
            r.push(profiles.profiles[i].name.clone());
            proof {
                assert(name_views(r@) =~= role_names(prefix1));
            }
        } else {
            proof {
                assert(name_views(r@) =~= role_names(prefix1));
            }
        }
        i = i + 1;
    }
    proof {
        assert(profiles.profiles@.subrange(0, n as int) =~= profiles.profiles@);
    }
    r
}

/// Wraps one fixed profile name that must exist in the store.
#[derive(Debug, Clone)]
pub struct StaticProfileSelector {
    pub profile_name: String,
}

impl StaticProfileSelector {
    /// Returns the named profile, or the absence error: an explicitly
    /// requested name that is missing is a failure, never a silent skip.
    pub fn select_profile<'a>(&self, profiles: &'a ProfileSet) -> (r: Result<
        Option<&'a Profile>,
        Error,
    >)
        ensures
            match r {
                Ok(Some(p)) => find_profile(profiles.profiles@, self.profile_name@) == Some(*p),
                Ok(None) => false,
                Err(e) => find_profile(profiles.profiles@, self.profile_name@) is None && (
                e matches Error::NotFound(n) && n@ == self.profile_name@),
            },
    {
        match profiles.get_profile(self.profile_name.as_str()) {
            Some(p) => Ok(Some(p)),
            None => Err(Error::NotFound(self.profile_name.clone())),
        }
    }
}

/// Presents the role-bearing profiles through an external interactive
/// fuzzy-match facility.
#[derive(Debug, Clone)]
pub struct SkimProfileSelector;

impl SkimProfileSelector {
    /// The list the facility presents: role-bearing names, sorted.
    pub fn candidates(&self, profiles: &ProfileSet) -> (r: Vec<String>)
        ensures
            sorted_names(r@),
            name_views(r@).to_multiset() == role_names(profiles.profiles@).to_multiset(),
    {
        sort_names(profile_names(profiles))
    }
}

/// Resolves the name the user confirmed (or did not) back to a profile.
/// No confirmation, or a confirmed name that is not in the store, is a
/// normal "nothing selected" outcome.
pub fn resolve_choice<'a>(profiles: &'a ProfileSet, choice: Option<&str>) -> (r: Option<
    &'a Profile,
>)
    ensures
        match choice {
            None => r is None,
            Some(name) => match r {
                Some(p) => find_profile(profiles.profiles@, name@) == Some(*p),
                None => find_profile(profiles.profiles@, name@) is None,
            },
        },
{
    match choice {
        None => None,
        Some(name) => profiles.get_profile(name),
    }
}

/// The closed choice of selectors, fixed before the pipeline runs.
#[derive(Debug, Clone)]
pub enum ProfileSelector {
    Skim(SkimProfileSelector),
    Static(StaticProfileSelector),
}

/// Picks the selector the way the command line decides it: an explicit
/// profile name makes a static selector, otherwise the choice is
/// interactive.
pub fn selector_from(profile: Option<String>) -> (r: ProfileSelector)
    ensures
        match profile {
            Some(name) => r matches ProfileSelector::Static(s) && s.profile_name@ == name@,
            None => r matches ProfileSelector::Skim(_),
        },
{
    match profile {
        Some(name) => ProfileSelector::Static(StaticProfileSelector { profile_name: name }),
        None => ProfileSelector::Skim(SkimProfileSelector),
    }
}

} // verus!
