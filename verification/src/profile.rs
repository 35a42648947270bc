//! Access profiles and the name-keyed store that holds them. A profile is
//! constructed once by an external loader and read-only thereafter; the
//! store's invariant is that profile names are unique, so a lookup by exact
//! name has at most one answer.

use vstd::prelude::*;

verus! {

/// A named bundle of identity and role parameters.
#[derive(Debug, Clone)]
pub struct Profile {
    pub name: String,
    pub source_profile_name: Option<String>,
    pub region_name: Option<String>,
    pub role_arn: Option<String>,
    pub role_session_name: Option<String>,
    pub external_id: Option<String>,
    pub duration_seconds: Option<u32>,
    pub scope_down_policy: Option<String>,
    pub mfa_serial: Option<String>,
}

/// The characters of each present value, for stating contracts about
/// optional string fields.
pub open spec fn opt_chars(o: Option<String>) -> Option<Seq<char>> {
    match o {
        Some(s) => Some(s@),
        None => None,
    }
}

/// The same, for a borrowed optional string.
pub open spec fn opt_str_chars(o: Option<&str>) -> Option<Seq<char>> {
    match o {
        Some(s) => Some(s@),
        None => None,
    }
}

/// Borrows the string inside an optional value.
pub fn maybe_str_ref(x: Option<&String>) -> (r: Option<&str>)
    ensures
        match x {
            Some(s) => r matches Some(t) && t@ == s@,
            None => r is None,
        },
{
    match x {
        Some(s) => Some(s.as_str()),
        None => None,
    }
}

impl Profile {
    /// Whether this profile can be role-assumed at all.
    pub fn has_role_arn(&self) -> (r: bool)
        ensures
            r == (self.role_arn is Some),
    {
        self.role_arn.is_some()
    }

    pub fn name(&self) -> (r: &str)
        ensures
            r@ == self.name@,
    {
        self.name.as_str()
    }

    pub fn source_profile_name(&self) -> (r: Option<&str>)
        ensures
            opt_str_chars(r) == opt_chars(self.source_profile_name),
    {
        maybe_str_ref(self.source_profile_name.as_ref())
    }

    pub fn region_name(&self) -> (r: Option<&str>)
        ensures
            opt_str_chars(r) == opt_chars(self.region_name),
    {
        maybe_str_ref(self.region_name.as_ref())
    }

    pub fn role_arn(&self) -> (r: Option<&str>)
        ensures
            opt_str_chars(r) == opt_chars(self.role_arn),
    {
        maybe_str_ref(self.role_arn.as_ref())
    }

    pub fn role_session_name(&self) -> (r: Option<&str>)
        ensures
            opt_str_chars(r) == opt_chars(self.role_session_name),
    {
        maybe_str_ref(self.role_session_name.as_ref())
    }

    pub fn external_id(&self) -> (r: Option<&str>)
        ensures
            opt_str_chars(r) == opt_chars(self.external_id),
    {
        maybe_str_ref(self.external_id.as_ref())
    }

    pub fn duration_seconds(&self) -> (r: Option<u32>)
        ensures
            r == self.duration_seconds,
    {
        self.duration_seconds
    }

    pub fn scope_down_policy(&self) -> (r: Option<&str>)
        ensures
            opt_str_chars(r) == opt_chars(self.scope_down_policy),
    {
        maybe_str_ref(self.scope_down_policy.as_ref())
    }

    pub fn mfa_serial(&self) -> (r: Option<&str>)
        ensures
            opt_str_chars(r) == opt_chars(self.mfa_serial),
    {
        maybe_str_ref(self.mfa_serial.as_ref())
    }
}

/// The first profile in `s` whose name reads `name`, if any.
pub open spec fn find_profile(s: Seq<Profile>, name: Seq<char>) -> Option<Profile>
    decreases s.len(),
{
    if s.len() == 0 {
        None
    } else if s[0].name@ == name {
        Some(s[0])
    } else {
        find_profile(s.drop_first(), name)
    }
}

/// When nothing before position `i` matches, the search outcome is decided
/// by the remainder.
proof fn lemma_find_profile_skip(s: Seq<Profile>, name: Seq<char>, i: int)
    requires
        0 <= i <= s.len(),
        forall|j: int| 0 <= j < i ==> (#[trigger] s[j]).name@ != name,
    ensures
        find_profile(s, name) == find_profile(s.subrange(i, s.len() as int), name),
    decreases i,
{
    if i > 0 {
        assert(s[0].name@ != name);
        let t = s.drop_first();
        lemma_find_profile_skip(t, name, i - 1);
        assert(t.subrange(i - 1, t.len() as int) =~= s.subrange(i, s.len() as int));
    } else {
        assert(s.subrange(0, s.len() as int) =~= s);
    }
}

/// A found profile bears the requested name.
pub proof fn lemma_find_profile_name(s: Seq<Profile>, name: Seq<char>)
    ensures
        find_profile(s, name) matches Some(p) ==> p.name@ == name,
    decreases s.len(),
{
    if s.len() > 0 && s[0].name@ != name {
        lemma_find_profile_name(s.drop_first(), name);
    }
}

/// A name-unique, order-irrelevant collection of profiles.
#[derive(Debug, Clone)]
pub struct ProfileSet {
    pub profiles: Vec<Profile>,
}

impl ProfileSet {
    /// The store's invariant: no two profiles share a name.
    pub open spec fn wf(&self) -> bool {
        forall|i: int, j: int|
            0 <= i < j < self.profiles@.len() ==> (#[trigger] self.profiles@[i]).name@ != (
            #[trigger] self.profiles@[j]).name@
    }

    /// Builds a store from loaded profiles; refuses a duplicate name.
    pub fn from_profiles(profiles: Vec<Profile>) -> (r: Option<ProfileSet>)
        ensures
            match r {
                Some(ps) => ps.profiles@ == profiles@ && ps.wf(),
                None => !(forall|i: int, j: int|
                    0 <= i < j < profiles@.len() ==> (#[trigger] profiles@[i]).name@ != (
                    #[trigger] profiles@[j]).name@),
            },
    {
        let n = profiles.len();
        let mut i: usize = 0;
        while i < n
            invariant
                n == profiles@.len(),
                i <= n,
                forall|a: int, b: int|
                    0 <= a < b < profiles@.len() && a < i ==> (#[trigger] profiles@[a]).name@ != (
                    #[trigger] profiles@[b]).name@,
            decreases n - i,
        {
            let mut j: usize = i + 1;
            while j < n
                invariant
                    n == profiles@.len(),
                    i < j <= n,
                    forall|b: int|
                        i < b < j ==> (#[trigger] profiles@[b]).name@ != profiles@[i as int].name@,
                decreases n - j,
            {
                if crate::text::str_eq_str(profiles[i].name.as_str(), profiles[j].name.as_str()) {
                    return None;
                }
                j = j + 1;
            }
            i = i + 1;
        }
        Some(ProfileSet { profiles })
    }

    /// Looks a profile up by exact name. Absence is a normal outcome.
    pub fn get_profile(&self, profile_name: &str) -> (r: Option<&Profile>)
        ensures
            match r {
                Some(p) => find_profile(self.profiles@, profile_name@) == Some(*p),
                None => find_profile(self.profiles@, profile_name@) is None,
            },
    {
        let n = self.profiles.len();
        let mut i: usize = 0;
        while i < n
            invariant
                n == self.profiles@.len(),
                i <= n,
                forall|j: int|
                    0 <= j < i ==> (#[trigger] self.profiles@[j]).name@ != profile_name@,
            decreases n - i,
        {
            if crate::text::str_eq_str(self.profiles[i].name.as_str(), profile_name) {
                proof {
                    lemma_find_profile_skip(self.profiles@, profile_name@, i as int);
                    let rest = self.profiles@.subrange(i as int, n as int);
                    assert(rest[0] == self.profiles@[i as int]);
                }
                return Some(&self.profiles[i]);
            }
            i = i + 1;
        }
        proof {
            lemma_find_profile_skip(self.profiles@, profile_name@, n as int);
            assert(self.profiles@.subrange(n as int, n as int) =~= Seq::<Profile>::empty());
        }
        None
    }

    /// Every profile name, in store order.
    pub fn names(&self) -> (r: Vec<String>)
        ensures
            r@.len() == self.profiles@.len(),
            forall|i: int|
                0 <= i < r@.len() ==> (#[trigger] r@[i])@ == self.profiles@[i].name@,
    {
        let n = self.profiles.len();
        let mut r: Vec<String> = Vec::new();
        let mut i: usize = 0;
        while i < n
            invariant
                n == self.profiles@.len(),
                i <= n,
                r@.len() == i,
                forall|j: int|
                    0 <= j < i ==> (#[trigger] r@[j])@ == self.profiles@[j].name@,
            decreases n - i,
        {
            r.push(self.profiles[i].name.clone());
            i = i + 1;
        }
        r
    }

    /// All profiles, in store order.
    pub fn profiles(&self) -> (r: &Vec<Profile>)
        ensures
            r == &self.profiles,
    {
        &self.profiles
    }
}

} // verus!
