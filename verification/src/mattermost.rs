use vstd::prelude::*;

use vstd::string::StringExecFns;

verus! {

// ---------------------------------------------------------------------------
// Mattermost data model and the conversation built from a thread.
//
// Threads come in as an association list from post id to post plus a
// display order; the conversation a thread yields — which posts count,
// under which display name, in which order — is computed and verified
// here. Fetching posts and users is the HTTP client's business outside the
// library.
// ---------------------------------------------------------------------------

/// One post of a thread.
#[derive(Debug, Clone)]
pub struct Post {
    pub user_id: String,
    pub channel_id: String,
    pub message: String,
    /// Creation time in milliseconds since the epoch.
    pub create_at: i64,
    pub file_ids: Option<Vec<String>>,
}

/// A thread: its posts keyed by post id, and the order they are shown in.
#[derive(Debug)]
pub struct Thread {
    pub posts: Vec<(String, Post)>,
    pub order: Vec<String>,
}

/// A user as the server describes one.
#[derive(Debug, Clone)]
pub struct User {
    pub username: String,
    pub first_name: Option<String>,
    pub last_name: Option<String>,
}

/// One conversation entry: who said what, when.
#[derive(Debug, Clone)]
pub struct Conversation {
    pub username: String,
    /// Creation time of the underlying post, milliseconds since the epoch.
    pub timestamp_millis: i64,
    pub message: String,
    pub file_ids: Option<Vec<String>>,
}

// ---------------------------------------------------------------------------
// Association lookups.
// ---------------------------------------------------------------------------

/// The first post stored under `id`.
pub open spec fn assoc_post(posts: Seq<(String, Post)>, id: Seq<char>) -> Option<Post>
    decreases posts.len(),
{
    if posts.len() == 0 {
        None
    } else if posts[0].0@ == id {
        Some(posts[0].1)
    } else {
        assoc_post(posts.drop_first(), id)
    }
}

/// The first user stored under `id`.
pub open spec fn assoc_user(users: Seq<(String, User)>, id: Seq<char>) -> Option<User>
    decreases users.len(),
{
    if users.len() == 0 {
        None
    } else if users[0].0@ == id {
        Some(users[0].1)
    } else {
        assoc_user(users.drop_first(), id)
    }
}

proof fn lemma_assoc_post_skip(posts: Seq<(String, Post)>, id: Seq<char>, i: int)
    requires
        0 <= i <= posts.len(),
        forall|j: int| 0 <= j < i ==> posts[j].0@ != id,
    ensures
        assoc_post(posts, id) == assoc_post(posts.subrange(i, posts.len() as int), id),
    decreases i,
{
    if i > 0 {
        assert(posts.drop_first() =~= posts.subrange(1, posts.len() as int));
        lemma_assoc_post_skip(posts.drop_first(), id, i - 1);
        assert(posts.drop_first().subrange(i - 1, posts.drop_first().len() as int) =~= posts
            .subrange(i, posts.len() as int));
    } else {
        assert(posts.subrange(0, posts.len() as int) =~= posts);
    }
}

proof fn lemma_assoc_user_skip(users: Seq<(String, User)>, id: Seq<char>, i: int)
    requires
        0 <= i <= users.len(),
        forall|j: int| 0 <= j < i ==> users[j].0@ != id,
    ensures
        assoc_user(users, id) == assoc_user(users.subrange(i, users.len() as int), id),
    decreases i,
{
    if i > 0 {
        assert(users.drop_first() =~= users.subrange(1, users.len() as int));
        lemma_assoc_user_skip(users.drop_first(), id, i - 1);
        assert(users.drop_first().subrange(i - 1, users.drop_first().len() as int) =~= users
            .subrange(i, users.len() as int));
    } else {
        assert(users.subrange(0, users.len() as int) =~= users);
    }
}

impl Thread {
    /// Looks a post up by id.
    pub fn post(&self, post_id: &str) -> (r: Option<&Post>)
        ensures
            (match r {
                Some(p) => assoc_post(self.posts@, post_id@) == Some(*p),
                None => assoc_post(self.posts@, post_id@) is None,
            }),
    {
        let mut i: usize = 0;
        while i < self.posts.len()
            invariant
                0 <= i <= self.posts@.len(),
                forall|j: int| 0 <= j < i ==> self.posts@[j].0@ != post_id@,
            decreases self.posts@.len() - i,
        {
            if crate::text::str_eq(self.posts[i].0.as_str(), post_id) {
                proof {
                    lemma_assoc_post_skip(self.posts@, post_id@, i as int);
                    assert(self.posts@.subrange(i as int, self.posts@.len() as int)[0]
                        == self.posts@[i as int]);
                }
                return Some(&self.posts[i].1);
            }
            i = i + 1;
        }
        proof {
            lemma_assoc_post_skip(self.posts@, post_id@, self.posts@.len() as int);
        }
        None
    }
}

/// Looks a user up by id in a resolved user list.
pub fn user_for<'a>(users: &'a Vec<(String, User)>, user_id: &str) -> (r: Option<&'a User>)
    ensures
        (match r {
            Some(u) => assoc_user(users@, user_id@) == Some(*u),
            None => assoc_user(users@, user_id@) is None,
        }),
{
    let mut i: usize = 0;
    while i < users.len()
        invariant
            0 <= i <= users@.len(),
            forall|j: int| 0 <= j < i ==> users@[j].0@ != user_id@,
        decreases users@.len() - i,
    {
        if crate::text::str_eq(users[i].0.as_str(), user_id) {
            proof {
                lemma_assoc_user_skip(users@, user_id@, i as int);
                assert(users@.subrange(i as int, users@.len() as int)[0] == users@[i as int]);
            }
            return Some(&users[i].1);
        }
        i = i + 1;
    }
    proof {
        lemma_assoc_user_skip(users@, user_id@, users@.len() as int);
    }
    None
}

// ---------------------------------------------------------------------------
// Display names.
// ---------------------------------------------------------------------------

/// The name a post is shown under: both names when both are non-empty,
/// one given name alone when only one is given, the username otherwise.
pub open spec fn display_name_spec(u: User) -> Seq<char> {
    match (u.first_name, u.last_name) {
        (Some(f), Some(l)) => if f@.len() > 0 && l@.len() > 0 {
            f@ + " "@ + l@
        } else {
            u.username@
        },
        (Some(f), None) => f@,
        (None, Some(l)) => l@,
        (None, None) => u.username@,
    }
}

impl User {
    /// The name this user is shown under.
    pub fn display_name(&self) -> (r: String)
        ensures
            r@ == display_name_spec(*self),
    {
        match (&self.first_name, &self.last_name) {
            (Some(f), Some(l)) => {
                if !f.as_str().is_empty() && !l.as_str().is_empty() {
                    crate::text::concat3(f.as_str(), " ", l.as_str())
                } else {
                    self.username.clone()
                }
            },
            (Some(f), None) => f.clone(),
            (None, Some(l)) => l.clone(),
            (None, None) => self.username.clone(),
        }
    }
}

// ---------------------------------------------------------------------------
// The conversation a thread yields.
// ---------------------------------------------------------------------------

/// What one conversation entry must hold.
pub struct ConversationFacts {
    pub username: Seq<char>,
    pub timestamp_millis: i64,
    pub message: Seq<char>,
    pub file_ids: Option<Seq<Seq<char>>>,
}

/// The facts a conversation entry states.
pub open spec fn conversation_facts(c: Conversation) -> ConversationFacts {
    ConversationFacts {
        username: c.username@,
        timestamp_millis: c.timestamp_millis,
        message: c.message@,
        file_ids: match c.file_ids {
            Some(ids) => Some(ids@.map_values(|s: String| s@)),
            None => None,
        },
    }
}

/// The entry a post contributes, its author resolved through `users`.
pub open spec fn entry_for(p: Post, users: Seq<(String, User)>) -> ConversationFacts {
    ConversationFacts {
        username: match assoc_user(users, p.user_id@) {
            Some(u) => display_name_spec(u),
            None => p.user_id@,
        },
        timestamp_millis: p.create_at,
        message: p.message@,
        file_ids: match p.file_ids {
            Some(ids) => Some(ids@.map_values(|s: String| s@)),
            None => None,
        },
    }
}

/// The conversation the thread yields: walking the display order, every
/// post found under its id and created at or after the target's time
/// contributes one entry.
pub open spec fn conversation_expected(
    order: Seq<String>,
    posts: Seq<(String, Post)>,
    users: Seq<(String, User)>,
    target_ts: i64,
) -> Seq<ConversationFacts>
    decreases order.len(),
{
    if order.len() == 0 {
        Seq::empty()
    } else {
        let rest = conversation_expected(order.drop_first(), posts, users, target_ts);
        match assoc_post(posts, order[0]@) {
            Some(p) => if p.create_at >= target_ts {
                seq![entry_for(p, users)] + rest
            } else {
                rest
            },
            None => rest,
        }
    }
}

/// Builds the conversation of the thread around the target post. The
/// caller resolves the authors of the included posts into `users` first.
pub fn conversation_from_thread(
    thread: &Thread,
    target_post_id: &str,
    users: &Vec<(String, User)>,
) -> (r: Result<Vec<Conversation>, String>)
    ensures
        (match r {
            Ok(convs) => {
                &&& assoc_post(thread.posts@, target_post_id@) matches Some(t)
                    && convs@.map_values(|c: Conversation| conversation_facts(c))
                    == conversation_expected(thread.order@, thread.posts@, users@, t.create_at)
            },
            Err(e) => assoc_post(thread.posts@, target_post_id@) is None && e@
                == "Target post not found"@,
        }),
{
    let target_ts: i64 = match thread.post(target_post_id) {
        Some(t) => t.create_at,
        None => {
            return Err("Target post not found".to_owned());
        },
    };
    let mut convs: Vec<Conversation> = Vec::new();
    let mut k: usize = 0;
    proof {
        assert(thread.order@.subrange(0, thread.order@.len() as int) =~= thread.order@);
    }
    while k < thread.order.len()
        invariant
            0 <= k <= thread.order@.len(),
            convs@.map_values(|c: Conversation| conversation_facts(c)) + conversation_expected(
                thread.order@.subrange(k as int, thread.order@.len() as int),
                thread.posts@,
                users@,
                target_ts,
            ) == conversation_expected(thread.order@, thread.posts@, users@, target_ts),
        decreases thread.order@.len() - k,
    {
        let ghost rest = thread.order@.subrange(k as int, thread.order@.len() as int);
        proof {
            assert(rest.drop_first() =~= thread.order@.subrange(
                k + 1,
                thread.order@.len() as int,
            ));
            assert(rest[0] == thread.order@[k as int]);
        }
        let post_id: &String = &thread.order[k];
        match thread.post(post_id.as_str()) {
            Some(p) => {
                if p.create_at >= target_ts {
                    let username = match user_for(users, p.user_id.as_str()) {
                        Some(u) => u.display_name(),
                        None => p.user_id.clone(),
                    };
                    let file_ids: Option<Vec<String>> = match &p.file_ids {
                        Some(ids) => Some(crate::text::clone_strings(ids)),
                        None => None,
                    };
                    let message = p.message.clone();
                    let timestamp_millis = p.create_at;
                    let entry = Conversation { username, timestamp_millis, message, file_ids };
                    proof {
                        assert(conversation_facts(entry).file_ids == entry_for(*p, users@).file_ids);
                        assert(conversation_facts(entry) == entry_for(*p, users@));
                    }
                    let ghost prev = convs@;
                    convs.push(entry);
                    proof {
                        assert(convs@.map_values(|c: Conversation| conversation_facts(c))
                            =~= prev.map_values(|c: Conversation| conversation_facts(c)).push(
                            conversation_facts(entry),
                        ));
                    }
                }
            },
            None => {},
        }
        k = k + 1;
    }
    proof {
        assert(conversation_expected(
            thread.order@.subrange(
                thread.order@.len() as int,
                thread.order@.len() as int,
            ),
            thread.posts@,
            users@,
            target_ts,
        ) =~= Seq::<ConversationFacts>::empty());
    }
    Ok(convs)
}

// ---------------------------------------------------------------------------
// Permalinks.
// ---------------------------------------------------------------------------

/// What the permalink pattern `/([^/]+)/pl/([a-zA-Z0-9]+)` captures from a
/// link: the team name and the post id, when the link has that shape.
pub uninterp spec fn permalink_parts(permalink: Seq<char>) -> Option<(Seq<char>, Seq<char>)>;

/// Relies on `regex::Regex::captures` with the permalink pattern
/// `/([^/]+)/pl/([a-zA-Z0-9]+)`: the two captured groups, when it matches.
#[verifier::external_body]
fn capture_permalink(permalink: &str) -> (r: Option<(String, String)>)
    ensures
        (match r {
            Some(parts) => permalink_parts(permalink@) == Some((parts.0@, parts.1@)),
            None => permalink_parts(permalink@) is None,
        }),
{
    let re = match regex::Regex::new(r"/([^/]+)/pl/([a-zA-Z0-9]+)") {
        Ok(re) => re,
        Err(_) => return None,
    };
    match re.captures(permalink) {
        Some(caps) => match (caps.get(1), caps.get(2)) {
            (Some(team), Some(post)) => Some((team.as_str().to_string(), post.as_str().to_string())),
            _ => None,
        },
        None => None,
    }
}

/// Splits a permalink into team name and post id, or says that the link is
/// not one.
pub fn parse_permalink(permalink: &str) -> (r: Result<(String, String), String>)
    ensures
        (match r {
            Ok(parts) => permalink_parts(permalink@) == Some((parts.0@, parts.1@)),
            Err(e) => permalink_parts(permalink@) is None && e@
                == "Invalid Mattermost permalink format"@,
        }),
{
    match capture_permalink(permalink) {
        Some(parts) => Ok(parts),
        None => Err("Invalid Mattermost permalink format".to_owned()),
    }
}

} // verus!
