use vstd::prelude::*;

verus! {

// ---------------------------------------------------------------------------
// GitLab data model.
//
// Plain records for what the issue tracker exchanges with this crate. The
// HTTP client that fills and sends them lives outside the library; the rules
// applied to them are verified here.
// ---------------------------------------------------------------------------

/// An issue as the tracker returns it.
#[derive(Debug, Clone)]
pub struct Issue {
    pub id: u64,
    pub iid: u64,
    pub title: String,
    pub description: String,
    pub web_url: String,
    pub labels: Vec<String>,
    pub assignee_ids: Vec<u64>,
}

/// The tracker's answer to a file upload.
#[derive(Debug, Clone)]
pub struct UploadResponse {
    pub url: String,
    pub markdown: String,
}

/// A project member returned by the member search.
#[derive(Debug, Clone)]
pub struct User {
    pub id: u64,
    pub username: String,
    pub name: String,
    pub state: String,
    pub access_level: u16,
}

impl User {
    /// A field-for-field copy whose equality to the original is known to the
    /// verifier, unlike the derived `clone`.
    pub fn duplicate(&self) -> (r: User)
        ensures
            r == *self,
    {
        User {
            id: self.id,
            username: self.username.clone(),
            name: self.name.clone(),
            state: self.state.clone(),
            access_level: self.access_level,
        }
    }

    /// How the member list renders a user: `name, (username)`.
    pub fn label(&self) -> (r: String)
        ensures
            r@ == self.name@ + ", ("@ + self.username@ + ")"@,
    {
        let mut r = self.name.clone();
        r.append(", (");
        r.append(self.username.as_str());
        r.append(")");
        r
    }
}

/// Members kept by the search: active, with developer access (level 30) or
/// higher.
pub open spec fn is_active_developer(u: User) -> bool {
    u.state@ == "active"@ && u.access_level >= 30
}

/// Keeps the members the search should offer, in the order they came.
pub fn filter_project_members(members: Vec<User>) -> (r: Vec<User>)
    ensures
        r@ == members@.filter(|u: User| is_active_developer(u)),
{
    let mut r: Vec<User> = Vec::new();
    let mut i: usize = 0;
    proof {
        reveal(Seq::filter);
        assert(members@.subrange(0, 0).filter(|u: User| is_active_developer(u))
            =~= Seq::<User>::empty());
    }
    while i < members.len()
        invariant
            0 <= i <= members@.len(),
            r@ == members@.subrange(0, i as int).filter(|u: User| is_active_developer(u)),
        decreases members@.len() - i,
    {
        let keep = crate::text::str_eq(members[i].state.as_str(), "active")
            && members[i].access_level >= 30;
        proof {
            let prefix = members@.subrange(0, i as int);
            let next = members@.subrange(0, i + 1);
            assert(next.drop_last() =~= prefix);
            assert(next.last() == members@[i as int]);
            reveal(Seq::filter);
            assert(keep == is_active_developer(members@[i as int]));
            assert(next.filter(|u: User| is_active_developer(u)) == if is_active_developer(
                next.last(),
            ) {
                prefix.filter(|u: User| is_active_developer(u)).push(next.last())
            } else {
                prefix.filter(|u: User| is_active_developer(u))
            });
        }
        if keep {
            r.push(members[i].duplicate());
        }
        i = i + 1;
    }
    proof {
        assert(members@.subrange(0, members@.len() as int) =~= members@);
    }
    r
}

} // verus!
