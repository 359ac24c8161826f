//! Paths: the directories the daemon uses, and the path operations it
//! leaves to `std::path`.
use vstd::prelude::*;
use crate::text::{starts_with, string_from_str, clone_string, join_text};

verus! {

/// The position of the last `/` of a path.
pub open spec fn last_slash_of(s: Seq<char>) -> Option<int>
    decreases s.len(),
{
    if s.len() == 0 {
        None
    } else if s.last() == '/' {
        Some(s.len() - 1)
    } else {
        last_slash_of(s.drop_last())
    }
}

/// The parent of a path read alike on every platform: a path `dir/name`
/// whose `name` is plain, non-empty and neither `.` nor `..`, whose `dir`
/// holds no `\\` or `:`, is non-empty, does not end with `/` or `.`, and
/// does not start with two separators, has the parent `dir`; a lone plain
/// name (other than `.` and `..`) has the empty parent.  Other paths give
/// `None` here.
pub open spec fn simple_parent(p: Seq<char>) -> Option<Seq<char>> {
    match last_slash_of(p) {
        Some(i) => {
            let dir = p.take(i);
            let name = p.skip(i + 1);
            if i > 0 && plain_name(name) && name.len() > 0 && name != "."@ && name != ".."@
                && !dir.contains('\\') && !dir.contains(':') && dir.last() != '/' && dir.last() != '.'
                && !starts_with_two_seps(p) {
                Some(dir)
            } else {
                None
            }
        },
        None => if plain_name(p) && p.len() > 0 && p != "."@ && p != ".."@ {
            Some(Seq::empty())
        } else {
            None
        },
    }
}

/// Calls `Path::parent` on `p`.  The documentation promises `None` for the
/// empty path, and that a parent is the path without its final component
/// (the empty path for a relative path of one component), so shorter and a
/// prefix of it.  Where the path is read alike on every platform
/// (`simple_parent`), the parent is stated; elsewhere which component is
/// final depends on the platform's separators, and is left unsaid.
#[verifier::external_body]
pub(crate) fn path_parent(p: &str) -> (r: Option<String>)
    ensures
        p@.len() == 0 ==> r is None,
        r matches Some(d) ==> d@.len() < p@.len() && starts_with(p@, d@),
        match simple_parent(p@) {
            Some(d) => r matches Some(x) && x@ == d,
            None => true,
        },
{
    std::path::Path::new(p).parent().map(|d| d.to_string_lossy().to_string())
}

/// A path separator on some platform: `/`, or `\\` on Windows.
pub open spec fn is_sep(c: char) -> bool {
    c == '/' || c == '\\'
}

/// A name with no separator and no `:`: on no platform does it hold a root,
/// a drive or another prefix, so it is one relative name.
pub open spec fn plain_name(n: Seq<char>) -> bool {
    !n.contains('/') && !n.contains('\\') && !n.contains(':')
}

/// A path that starts with two separators (a network share or a verbatim
/// path on Windows).
pub open spec fn starts_with_two_seps(d: Seq<char>) -> bool {
    d.len() >= 2 && is_sep(d[0]) && is_sep(d[1])
}

/// `name` appended to `dir`.  Every platform counts `/` as a separator and
/// Windows counts `\\` as one too; a separator is added only after a
/// directory that does not end with one.  So: the name alone after an empty
/// directory; directly after a final `/`; after a final `\\` directly
/// (Windows) or after a `/` (elsewhere); after any other final character,
/// after one separator, or directly where Windows reads the directory as a
/// bare drive (`C:`).
pub open spec fn joined(dir: Seq<char>, name: Seq<char>, r: Seq<char>) -> bool {
    if dir.len() == 0 {
        r == name
    } else if dir.last() == '/' {
        r == dir + name
    } else if dir.last() == '\\' {
        r == dir + name || r == dir + seq!['/'] + name
    } else {
        r == dir + seq!['/'] + name || r == dir + seq!['\\'] + name || r == dir + name
    }
}

/// A directory a chain of joins can start from: it does not start with two
/// separators (where Windows may rewrite a verbatim path or read a network
/// share), and it is not a lone `\\` (which a join elsewhere turns into `\\/`).
pub open spec fn join_base(d: Seq<char>) -> bool {
    !starts_with_two_seps(d) && d != seq!['\\']
}

/// Calls `Path::join` on a directory and a name.  The documentation says
/// that joining a relative path extends the directory with it (adding the
/// platform's separator where the directory does not end with one), and
/// that only an absolute or prefixed path replaces it; so a plain name is
/// appended to a directory that does not start with two separators (where
/// Windows may rewrite a verbatim path).  Which separator is added, and
/// whether a final `\\` is one, depends on the platform; what other joins
/// give is left unsaid.
#[verifier::external_body]
pub(crate) fn path_join(dir: &str, name: &str) -> (r: String)
    ensures
        plain_name(name@) && !starts_with_two_seps(dir@) ==> joined(dir@, name@, r@),
{
    std::path::Path::new(dir).join(name).to_string_lossy().to_string()
}

/// A join of a plain, non-empty name onto a base gives a base again.
pub proof fn lemma_joined_start(dir: Seq<char>, name: Seq<char>, r: Seq<char>)
    requires
        joined(dir, name, r),
        plain_name(name),
        name.len() > 0,
        join_base(dir),
    ensures
        join_base(r),
        r.len() >= name.len(),
{
    assert(!is_sep(name[0])) by {
        if name[0] == '/' {
            assert(name.contains('/'));
        }
        if name[0] == '\\' {
            assert(name.contains('\\'));
        }
    }
    if dir.len() >= 2 {
        assert(r[0] == dir[0] && r[1] == dir[1]);
    } else if dir.len() == 1 {
        assert(r[0] == dir[0]);
        if is_sep(dir[0]) {
            assert(dir =~= seq![dir[0]]);
            assert(dir[0] == '/');
            assert(r[1] == name[0]);
        }
    } else {
        assert(r == name);
    }
    assert(r != seq!['\\']) by {
        if r.len() == 1 {
            assert(dir.len() == 0);
            assert(r[0] == name[0]);
        }
    }
}

/// The home directory from the environment: `USERPROFILE`, else
/// `HOMEDRIVE` followed by `HOMEPATH` when both are set.
pub fn user_home_dir(userprofile: Option<String>, homedrive: Option<String>, homepath: Option<String>) -> (r: Option<String>)
    ensures
        match userprofile {
            Some(p) => (r matches Some(h) && h@ == p@),
            None => match (homedrive, homepath) {
                (Some(d), Some(p)) => (r matches Some(h) && h@ == d@ + p@),
                _ => r is None,
            },
        },
{
    match userprofile {
        Some(p) => Some(p),
        None => match (homedrive, homepath) {
            (Some(d), Some(p)) => Some(join_text(d.as_str(), p.as_str())),
            _ => None,
        },
    }
}

/// The VEIL root under a home directory: `ProjectOpen/VEIL`, for a home a
/// chain of joins can start from (the separators are the platform's).
pub open spec fn veil_root_spec(home: Seq<char>, r: Seq<char>) -> bool {
    join_base(home) ==> exists|project: Seq<char>|
        #[trigger] joined(home, "ProjectOpen"@, project) && joined(project, "VEIL"@, r)
}

/// The VEIL root under a home directory: `ProjectOpen/VEIL`.
pub fn veil_root_dir(home: &str) -> (r: String)
    ensures
        veil_root_spec(home@, r@),
{
    let project = path_join(home, "ProjectOpen");
    proof {
        reveal_strlit("ProjectOpen");
        reveal_strlit("VEIL");
        lemma_plain_literal("ProjectOpen"@);
        lemma_plain_literal("VEIL"@);
        if join_base(home@) {
            lemma_joined_start(home@, "ProjectOpen"@, project@);
        }
    }
    path_join(project.as_str(), "VEIL")
}

/// A text with no `/`, `\\` or `:` is a plain name.
pub proof fn lemma_plain_literal(n: Seq<char>)
    requires
        forall|i: int| 0 <= i < n.len() ==> n[i] != '/' && n[i] != '\\' && n[i] != ':',
    ensures
        plain_name(n),
{
}

} // verus!
