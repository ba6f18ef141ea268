//! The post catalog: an immutable ordered list of posts. A post's identity
//! is its position in the list (`post_id`), and submitted titles are
//! resolved against the catalog by exact match.

use vstd::prelude::*;

verus! {

/// One entry of the post catalog.
#[derive(Debug, Clone)]
pub struct Post {
    pub title: String,
    pub author: String,
    pub url: String,
}

/// The index of the first catalog entry whose title equals `title`,
/// or `None` when no entry matches.
pub open spec fn spec_resolve(posts: Seq<Post>, title: Seq<char>) -> Option<int>
    decreases posts.len(),
{
    if posts.len() == 0 {
        None
    } else if posts[0].title@ == title {
        Some(0)
    } else {
        match spec_resolve(posts.skip(1), title) {
            Some(i) => Some(i + 1),
            None => None,
        }
    }
}

proof fn lemma_spec_resolve_hit(posts: Seq<Post>, title: Seq<char>, i: int)
    requires
        0 <= i < posts.len(),
        posts[i].title@ == title,
        forall|j: int| 0 <= j < i ==> posts[j].title@ != title,
    ensures
        spec_resolve(posts, title) == Some(i),
    decreases i,
{
    if i == 0 {
    } else {
        assert(forall|j: int| 0 <= j < posts.len() - 1 ==> posts.skip(1)[j] == posts[j + 1]);
        lemma_spec_resolve_hit(posts.skip(1), title, i - 1);
    }
}

proof fn lemma_spec_resolve_miss(posts: Seq<Post>, title: Seq<char>)
    requires
        forall|j: int| 0 <= j < posts.len() ==> posts[j].title@ != title,
    ensures
        spec_resolve(posts, title) is None,
    decreases posts.len(),
{
    if posts.len() > 0 {
        assert(forall|j: int| 0 <= j < posts.len() - 1 ==> posts.skip(1)[j] == posts[j + 1]);
        lemma_spec_resolve_miss(posts.skip(1), title);
    }
}

/// Resolve a submitted title against the catalog: the first entry with an
/// exactly equal title wins; an unmatched title yields `None`.
pub fn resolve_title(posts: &Vec<Post>, title: &String) -> (r: Option<usize>)
    ensures
        match r {
            Some(i) => spec_resolve(posts@, title@) == Some(i as int),
            None => spec_resolve(posts@, title@) is None,
        },
        r matches Some(i) ==> i < posts.len() && posts@[i as int].title@ == title@
            && (forall|j: int| 0 <= j < i ==> posts@[j].title@ != title@),
        r is None ==> forall|j: int| 0 <= j < posts@.len() ==> posts@[j].title@ != title@,
{
    let mut i: usize = 0;
    while i < posts.len()
        invariant
            i <= posts.len(),
            forall|j: int| 0 <= j < i ==> posts@[j].title@ != title@,
        decreases posts.len() - i,
    {
        if posts[i].title == *title {
            proof {
                lemma_spec_resolve_hit(posts@, title@, i as int);
            }
            return Some(i);
        }
        i += 1;
    }
    proof {
        lemma_spec_resolve_miss(posts@, title@);
    }
    None
}

} // verus!
