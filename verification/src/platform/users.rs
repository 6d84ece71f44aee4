//! The users of the device.
use vstd::prelude::*;

use crate::numerals;
use crate::text;

verus! {

/// A user and the directories that belong to them.
#[derive(Debug, Clone)]
pub struct AndroidUser {
    pub user_id: u32,
    pub ce_path: String,
    pub de_path: String,
    pub media_path: String,
}

/// The names found in the directories that tell of users.
#[derive(Debug, Clone)]
pub struct UserListings {
    /// Files with one description per user.
    pub descriptions: Vec<String>,
    /// Directories with one entry per user.
    pub directories: Vec<Vec<String>>,
}

/// The user that an entry stands for.
pub open spec fn user_of(name: Seq<char>) -> Option<int> {
    numerals::read_unsigned(name, u32::MAX as int)
}

/// The user that a description file stands for.
pub open spec fn described_user(name: Seq<char>) -> Option<int> {
    if text::has_suffix(name, ".xml"@) {
        user_of(name.subrange(0, name.len() - 4))
    } else {
        None
    }
}

/// The user that a name stands for, as a description or as an entry.
pub open spec fn named_user(name: Seq<char>, description: bool) -> Option<int> {
    if description {
        described_user(name)
    } else {
        user_of(name)
    }
}

/// One of the first `n` names stands for the user.
pub open spec fn is_named(names: Seq<String>, description: bool, n: int, id: int) -> bool {
    exists|i: int| 0 <= i < n && named_user((#[trigger] names[i])@, description) == Some(id)
}

/// One of the first `n` directories has an entry for the user.
pub open spec fn is_entered(directories: Seq<Vec<String>>, n: int, id: int) -> bool {
    exists|d: int|
        0 <= d < n && is_named(
            (#[trigger] directories[d])@,
            false,
            directories[d]@.len() as int,
            id,
        )
}

impl UserListings {
    /// The listings tell of the user. The first user is always there.
    pub open spec fn tell_of(self, id: int) -> bool {
        id == 0 || is_named(self.descriptions@, true, self.descriptions@.len() as int, id)
            || is_entered(self.directories@, self.directories@.len() as int, id)
    }
}

/// The numbers rise.
pub open spec fn rising(ids: Seq<u32>) -> bool {
    forall|i: int, j: int| 0 <= i < j < ids.len() ==> (#[trigger] ids[i]) < (#[trigger] ids[j])
}

fn insert_rising(ids: &mut Vec<u32>, id: u32)
    requires
        rising(old(ids)@),
    ensures
        rising(final(ids)@),
        forall|x: u32| #[trigger] final(ids)@.contains(x) <==> old(ids)@.contains(x) || x == id,
{
    let mut at: usize = 0;
    while at < ids.len() && ids[at] < id
        invariant
            at <= ids.len(),
            forall|i: int| 0 <= i < at ==> (#[trigger] ids@[i]) < id,
        decreases ids.len() - at,
    {
        at = at + 1;
    }
    if at < ids.len() && ids[at] == id {
        assert(ids@[at as int] == id);
        return;
    }
    let ghost before = ids@;
    ids.insert(at, id);
    proof {
        let after = ids@;
        assert(after =~= before.insert(at as int, id));
        assert forall|i: int, j: int| 0 <= i < j < after.len() implies (#[trigger] after[i]) < (
        #[trigger] after[j]) by {
            let a = if i < at {
                i
            } else {
                i - 1
            };
            let b = if j < at {
                j
            } else {
                j - 1
            };
            if i == at {
                assert(before[at as int] <= before[b]);
            } else if j == at {
                assert(before[a] < id);
            } else {
                assert(before[a] < before[b]);
            }
        }
        assert forall|x: u32| after.contains(x) <==> before.contains(x) || x == id by {
            if before.contains(x) {
                let i = choose|i: int| 0 <= i < before.len() && before[i] == x;
                let k = if i < at {
                    i
                } else {
                    i + 1
                };
                assert(after[k] == x);
            }
            if x == id {
                assert(after[at as int] == x);
            }
            if after.contains(x) && x != id {
                let k = choose|k: int| 0 <= k < after.len() && after[k] == x;
                let i = if k < at {
                    k
                } else {
                    k - 1
                };
                assert(before[i] == x);
            }
        }
    }
}

fn parse_user(name: &str) -> (r: Option<u32>)
    ensures
        r is Some <==> user_of(name@) is Some,
        r is Some ==> r->0 == user_of(name@)->0,
{
    match numerals::parse_unsigned(name, 0xffff_ffff) {
        Some(n) => Some(n as u32),
        None => None,
    }
}

fn parse_description(name: &str) -> (r: Option<u32>)
    ensures
        r is Some <==> described_user(name@) is Some,
        r is Some ==> r->0 == described_user(name@)->0,
{
    proof {
        reveal_strlit(".xml");
    }
    if text::ends_with_text(name, ".xml") {
        let n: usize = name.unicode_len();
        parse_user(name.substring_char(0, n - 4))
    } else {
        None
    }
}

proof fn lemma_named_step(names: Seq<String>, description: bool, n: int, id: int)
    requires
        0 <= n < names.len(),
    ensures
        is_named(names, description, n + 1, id) <==> is_named(names, description, n, id)
            || named_user(names[n]@, description) == Some(id),
{
    if is_named(names, description, n + 1, id) {
        let i = choose|i: int|
            0 <= i < n + 1 && named_user((#[trigger] names[i])@, description) == Some(id);
        assert(i < n ==> is_named(names, description, n, id));
    }
    if is_named(names, description, n, id) {
        let i = choose|i: int|
            0 <= i < n && named_user((#[trigger] names[i])@, description) == Some(id);
        assert(named_user(names[i]@, description) == Some(id));
    }
}

proof fn lemma_entered_step(directories: Seq<Vec<String>>, n: int, id: int)
    requires
        0 <= n < directories.len(),
    ensures
        is_entered(directories, n + 1, id) <==> is_entered(directories, n, id) || is_named(
            directories[n]@,
            false,
            directories[n]@.len() as int,
            id,
        ),
{
    if is_entered(directories, n + 1, id) {
        let d = choose|d: int|
            0 <= d < n + 1 && is_named(
                (#[trigger] directories[d])@,
                false,
                directories[d]@.len() as int,
                id,
            );
        assert(d < n ==> is_entered(directories, n, id));
    }
    if is_entered(directories, n, id) {
        let d = choose|d: int|
            0 <= d < n && is_named(
                (#[trigger] directories[d])@,
                false,
                directories[d]@.len() as int,
                id,
            );
        assert(is_named(directories[d]@, false, directories[d]@.len() as int, id));
    }
}

fn add_users(ids: &mut Vec<u32>, names: &Vec<String>, description: bool)
    requires
        rising(old(ids)@),
    ensures
        rising(final(ids)@),
        forall|x: u32|
            #[trigger] final(ids)@.contains(x) <==> old(ids)@.contains(x) || is_named(
                names@,
                description,
                names@.len() as int,
                x as int,
            ),
{
    let ghost before = ids@;
    let mut i: usize = 0;
    while i < names.len()
        invariant
            i <= names.len(),
            rising(ids@),
            forall|x: u32|
                #[trigger] ids@.contains(x) <==> before.contains(x) || is_named(
                    names@,
                    description,
                    i as int,
                    x as int,
                ),
        decreases names.len() - i,
    {
        let parsed = if description {
            parse_description(names[i].as_str())
        } else {
            parse_user(names[i].as_str())
        };
        match parsed {
            Some(id) => {
                insert_rising(ids, id);
            },
            None => {},
        }
        proof {
            assert forall|x: u32| #[trigger] ids@.contains(x) <==> before.contains(x) || is_named(
                names@,
                description,
                i + 1,
                x as int,
            ) by {
                lemma_named_step(names@, description, i as int, x as int);
            }
        }
        i = i + 1;
    }
}

/// The users that the listings tell of, in rising order.
pub fn user_ids(listings: &UserListings) -> (r: Vec<u32>)
    ensures
        rising(r@),
        forall|x: u32| #[trigger] r@.contains(x) <==> listings.tell_of(x as int),
{
    let mut ids: Vec<u32> = Vec::new();
    ids.push(0);
    assert(forall|x: u32| #[trigger] ids@.contains(x) <==> x == 0) by {
        assert(ids@[0] == 0);
    }
    add_users(&mut ids, &listings.descriptions, true);
    let ghost described = ids@;
    let mut d: usize = 0;
    while d < listings.directories.len()
        invariant
            d <= listings.directories.len(),
            rising(ids@),
            forall|x: u32|
                #[trigger] ids@.contains(x) <==> described.contains(x) || is_entered(
                    listings.directories@,
                    d as int,
                    x as int,
                ),
        decreases listings.directories.len() - d,
    {
        add_users(&mut ids, &listings.directories[d], false);
        proof {
            assert forall|x: u32| #[trigger] ids@.contains(x) <==> described.contains(x) || is_entered(
                listings.directories@,
                d + 1,
                x as int,
            ) by {
                lemma_entered_step(listings.directories@, d as int, x as int);
            }
        }
        d = d + 1;
    }
    ids
}

/// The path that the system resolved, or the plain one where it could not.
pub open spec fn resolved_or(resolved: Option<String>, plain: Seq<char>) -> Seq<char> {
    match resolved {
        Some(p) => p@,
        None => plain,
    }
}

fn take_resolved(resolved: Option<String>, plain: String) -> (r: String)
    ensures
        r@ == resolved_or(resolved, plain@),
{
    match resolved {
        Some(p) => p,
        None => plain,
    }
}

impl AndroidUser {
    /// The directories of a user. `primary_exists` says whether the first user's
    /// usual directory is there; the other arguments are the paths as the system
    /// resolved them, where it could.
    pub fn describe(
        user_id: u32,
        primary_exists: bool,
        ce: Option<String>,
        de: Option<String>,
        media: Option<String>,
    ) -> (r: Self)
        ensures
            r.user_id == user_id,
            r.ce_path@ == if user_id == 0 {
                if primary_exists {
                    "/data/data"@
                } else {
                    "/data/user/0"@
                }
            } else {
                resolved_or(ce, "/data/user/"@ + numerals::decimal(user_id as nat))
            },
            r.de_path@ == resolved_or(de, "/data/user_de/"@ + numerals::decimal(user_id as nat)),
            r.media_path@ == resolved_or(media, "/data/media/"@ + numerals::decimal(user_id as nat)),
    {
        let ce_path = if user_id == 0 {
            if primary_exists {
                "/data/data".to_owned()
            } else {
                "/data/user/0".to_owned()
            }
        } else {
            take_resolved(ce, numerals::numbered("/data/user/", user_id as u64))
        };
        AndroidUser {
            user_id,
            ce_path,
            de_path: take_resolved(de, numerals::numbered("/data/user_de/", user_id as u64)),
            media_path: take_resolved(media, numerals::numbered("/data/media/", user_id as u64)),
        }
    }
}

/// The users are listed once each, in rising order: the first user always, and every
/// other exactly where a description is named by the number and `.xml`, or an entry of a
/// directory by the number alone.
pub proof fn law_users_are_those_listed(listings: &UserListings, r: Vec<u32>, id: u32)
    requires
        call_ensures(user_ids, (listings,), r),
    ensures
        forall|i: int, j: int| 0 <= i < j < r@.len() ==> #[trigger] r@[i] < #[trigger] r@[j],
        r@.contains(id) <==> {
            ||| id == 0
            ||| exists|i: int, front: Seq<char>|
                #![trigger listings.descriptions@[i], front + ".xml"@]
                0 <= i < listings.descriptions@.len() && listings.descriptions@[i]@ == front
                    + ".xml"@ && numerals::read_unsigned(front, u32::MAX as int) == Some(id as int)
            ||| exists|d: int, i: int|
                #![trigger listings.directories@[d]@[i]]
                0 <= d < listings.directories@.len() && 0 <= i < listings.directories@[d]@.len()
                    && numerals::read_unsigned(
                    listings.directories@[d]@[i]@,
                    u32::MAX as int,
                ) == Some(id as int)
        },
{
    reveal_strlit(".xml");
    let x = id as int;
    let names = listings.descriptions@;
    let dirs = listings.directories@;
    assert(r@.contains(id) <==> listings.tell_of(x));
    if is_named(names, true, names.len() as int, x) {
        let i = choose|i: int|
            0 <= i < names.len() && named_user((#[trigger] names[i])@, true) == Some(x);
        let name = names[i]@;
        let front = name.subrange(0, name.len() - 4);
        assert(name =~= front + ".xml"@);
        assert(names[i]@ == front + ".xml"@);
    }
    if is_entered(dirs, dirs.len() as int, x) {
        let d = choose|d: int|
            0 <= d < dirs.len() && is_named(
                (#[trigger] dirs[d])@,
                false,
                dirs[d]@.len() as int,
                x,
            );
        let i = choose|i: int|
            0 <= i < dirs[d]@.len() && named_user((#[trigger] dirs[d]@[i])@, false) == Some(x);
        assert(numerals::read_unsigned(dirs[d]@[i]@, u32::MAX as int) == Some(x));
    }
    if exists|i: int, front: Seq<char>|
        #![trigger names[i], front + ".xml"@]
        0 <= i < names.len() && names[i]@ == front + ".xml"@ && numerals::read_unsigned(
            front,
            u32::MAX as int,
        ) == Some(x) {
        let (i, front) = choose|i: int, front: Seq<char>|
            #![trigger names[i], front + ".xml"@]
            0 <= i < names.len() && names[i]@ == front + ".xml"@ && numerals::read_unsigned(
                front,
                u32::MAX as int,
            ) == Some(x);
        let name = names[i]@;
        assert(name.subrange(0, name.len() - 4) =~= front);
        assert(name.subrange(name.len() - 4, name.len() as int) =~= ".xml"@);
        assert(named_user(names[i]@, true) == Some(x));
    }
    if exists|d: int, i: int|
        #![trigger dirs[d]@[i]]
        0 <= d < dirs.len() && 0 <= i < dirs[d]@.len() && numerals::read_unsigned(
            dirs[d]@[i]@,
            u32::MAX as int,
        ) == Some(x) {
        let (d, i) = choose|d: int, i: int|
            #![trigger dirs[d]@[i]]
            0 <= d < dirs.len() && 0 <= i < dirs[d]@.len() && numerals::read_unsigned(
                dirs[d]@[i]@,
                u32::MAX as int,
            ) == Some(x);
        assert(named_user(dirs[d]@[i]@, false) == Some(x));
        assert(is_named(dirs[d]@, false, dirs[d]@.len() as int, x));
    }
}

/// The directories of a user are those that the system resolved, or else those named by
/// the user's number; the first user's data has a name of its own, where it is there.
pub proof fn law_user_directories_are_resolved(
    user_id: u32,
    primary: bool,
    ce: Option<String>,
    de: Option<String>,
    media: Option<String>,
    r: AndroidUser,
)
    requires
        call_ensures(AndroidUser::describe, (user_id, primary, ce, de, media), r),
    ensures
        r.user_id == user_id,
        user_id == 0 && primary ==> r.ce_path@ == "/data/data"@,
        user_id == 0 && !primary ==> r.ce_path@ == "/data/user/0"@,
        user_id != 0 && ce is Some ==> r.ce_path@ == ce->0@,
        user_id != 0 && ce is None ==> r.ce_path@ == "/data/user/"@ + numerals::decimal(
            user_id as nat,
        ),
        de is Some ==> r.de_path@ == de->0@,
        de is None ==> r.de_path@ == "/data/user_de/"@ + numerals::decimal(user_id as nat),
        media is Some ==> r.media_path@ == media->0@,
        media is None ==> r.media_path@ == "/data/media/"@ + numerals::decimal(user_id as nat),
{
}

} // verus!
