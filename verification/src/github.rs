//! GitHub lookups: reading a user name or a user/repository pair out of
//! whatever form the user typed.

use vstd::prelude::*;

use crate::strutil::{dec_spec, lemma_split_nonempty, push_decimal, split_char, split_spec, starts_with};

verus! {

/// Whether `s` starts with `p`.
pub open spec fn has_prefix(s: Seq<char>, p: Seq<char>) -> bool {
    s.len() >= p.len() && s.take(p.len() as int) == p
}

/// How many trailing slashes `s` carries.
pub open spec fn slash_suffix_len(s: Seq<char>) -> int
    decreases s.len(),
{
    if s.len() > 0 && s.last() == '/' {
        1 + slash_suffix_len(s.drop_last())
    } else {
        0
    }
}

proof fn lemma_slash_suffix_at(s: Seq<char>, k: int)
    requires
        0 <= k <= s.len(),
        forall|j: int| s.len() - k <= j < s.len() ==> s[j] == '/',
        k < s.len() ==> s[s.len() - k - 1] != '/',
    ensures
        slash_suffix_len(s) == k,
    decreases s.len(),
{
    if k > 0 {
        assert(s.last() == '/');
        assert forall|j: int| s.len() - 1 - (k - 1) <= j < s.len() - 1 implies s.drop_last()[j]
            == '/' by {
            assert(s[j] == '/');
        }
        lemma_slash_suffix_at(s.drop_last(), k - 1);
    }
}

/// The user-or-repository path inside the typed input: any GitHub URL
/// prefix dropped, trailing slashes dropped.
pub open spec fn github_path(s: Seq<char>) -> Seq<char> {
    let bare = if has_prefix(s, "https://github.com/"@) {
        s.skip("https://github.com/"@.len() as int)
    } else if has_prefix(s, "http://github.com/"@) {
        s.skip("http://github.com/"@.len() as int)
    } else if has_prefix(s, "github.com/"@) {
        s.skip("github.com/"@.len() as int)
    } else {
        s
    };
    bare.take(bare.len() - slash_suffix_len(bare))
}

/// What the typed input names: the first path piece as the user, and the
/// second as the repository where the path has exactly two pieces.
pub open spec fn parse_github_spec(s: Seq<char>) -> (Seq<char>, Option<Seq<char>>) {
    let parts = split_spec(github_path(s), '/');
    if parts.len() == 2 {
        (parts[0], Option::Some(parts[1]))
    } else {
        (parts[0], Option::None)
    }
}

/// Reads a GitHub user, or user and repository, out of a name, a
/// `user/repo` pair or a full URL.
pub fn parse_github_input(input: &str) -> (r: (String, Option<String>))
    ensures
        r.0@ == parse_github_spec(input@).0,
        match r.1 {
            Some(repo) => parse_github_spec(input@).1 matches Some(p) && p == repo@,
            None => parse_github_spec(input@).1 is None,
        },
{
    proof {
        reveal_strlit("https://github.com/");
        reveal_strlit("http://github.com/");
        reveal_strlit("github.com/");
    }
    let len = input.unicode_len();
    let bare: &str = if starts_with(input, "https://github.com/") {
        let p: &str = "https://github.com/";
        input.substring_char(p.unicode_len(), len)
    } else if starts_with(input, "http://github.com/") {
        let p: &str = "http://github.com/";
        input.substring_char(p.unicode_len(), len)
    } else if starts_with(input, "github.com/") {
        let p: &str = "github.com/";
        input.substring_char(p.unicode_len(), len)
    } else {
        input
    };
    let blen = bare.unicode_len();
    let mut end: usize = blen;
    while end > 0 && bare.get_char(end - 1) == '/'
        invariant
            blen == bare@.len(),
            end <= blen,
            forall|j: int| end <= j < blen ==> bare@[j] == '/',
        decreases end,
    {
        end -= 1;
    }
    let path = bare.substring_char(0, end);
    proof {
        lemma_slash_suffix_at(bare@, blen - end);
        assert(path@ =~= github_path(input@));
        lemma_split_nonempty(path@, '/');
    }
    let parts = split_char(path, '/');
    if parts.len() == 2 {
        (parts[0].clone(), Some(parts[1].clone()))
    } else {
        (parts[0].clone(), None)
    }
}

/// A GitHub account, as the API reports it.
#[derive(Debug, Clone)]
pub struct GitHubUser {
    pub login: String,
    pub name: Option<String>,
    pub bio: Option<String>,
    pub company: Option<String>,
    pub location: Option<String>,
    pub email: Option<String>,
    pub blog: Option<String>,
    pub public_repos: u32,
    pub public_gists: u32,
    pub followers: u32,
    pub following: u32,
    pub created_at: String,
    pub avatar_url: String,
}

/// A repository's license, as the API reports it.
#[derive(Debug, Clone)]
pub struct GitHubLicense {
    pub name: String,
    pub spdx_id: Option<String>,
}

/// A repository, as the API reports it.
#[derive(Debug, Clone)]
pub struct GitHubRepo {
    pub name: String,
    pub full_name: String,
    pub description: Option<String>,
    pub language: Option<String>,
    pub stargazers_count: u32,
    pub forks_count: u32,
    pub watchers_count: u32,
    pub size: u32,
    pub created_at: String,
    pub updated_at: String,
    pub clone_url: String,
    pub html_url: String,
    pub is_private: bool,
    pub fork: bool,
    pub archived: bool,
    pub disabled: bool,
    pub license: Option<GitHubLicense>,
    pub topics: Vec<String>,
    pub default_branch: String,
    pub open_issues_count: u32,
}

/// The entries from `i` on, joined by the separator.
pub open spec fn join_from(items: Seq<Seq<char>>, sep: Seq<char>, i: int) -> Seq<char>
    decreases items.len() - i,
{
    if i < 0 || i >= items.len() {
        Seq::<char>::empty()
    } else if i == items.len() - 1 {
        items[i]
    } else {
        items[i] + sep + join_from(items, sep, i + 1)
    }
}

/// Appends the entries from `i` on, joined by the separator.
fn push_joined(out: &mut String, items: &Vec<String>, sep: &str, i: usize)
    requires
        i <= items@.len(),
    ensures
        final(out)@ == old(out)@ + join_from(
            items@.map_values(|s: String| s@),
            sep@,
            i as int,
        ),
    decreases items@.len() - i,
{
    let ghost views = items@.map_values(|s: String| s@);
    if i == items.len() {
        proof {
            crate::strutil::lemma_cat_empty(old(out)@);
        }
        return ;
    }
    let ghost base = out@;
    out.append(items[i].as_str());
    proof {
        assert(views[i as int] == items@[i as int]@);
    }
    if i + 1 == items.len() {
        return ;
    }
    out.append(sep);
    push_joined(out, items, sep, i + 1);
    proof {
        crate::strutil::lemma_cat3(base, views[i as int], sep@, join_from(views, sep@, i + 1));
    }
}

/// The statistics line a user response opens with.
pub open spec fn user_stats(u: GitHubUser) -> Seq<char> {
    "**Username:** "@ + u.login@ + "\n**Public Repos:** "@ + dec_spec(u.public_repos as int)
        + "\n**Followers:** "@ + dec_spec(u.followers as int) + " | **Following:** "@ + dec_spec(
        u.following as int,
    ) + "\n**Public Gists:** "@ + dec_spec(u.public_gists as int)
}

/// One optional labeled line, written as `\n**Label:** value`.
pub open spec fn opt_line(label: Seq<char>, v: Option<String>) -> Seq<char> {
    match v {
        Option::Some(s) => label + s@,
        Option::None => Seq::<char>::empty(),
    }
}

/// The website line, present where the account names a non-empty one.
pub open spec fn blog_line(u: GitHubUser) -> Seq<char> {
    match u.blog {
        Option::Some(s) => if s@.len() > 0 {
            "\n**Website:** "@ + s@
        } else {
            Seq::<char>::empty()
        },
        Option::None => Seq::<char>::empty(),
    }
}

/// The joined line, present where the account's date is well-formed.
pub open spec fn joined_line(u: GitHubUser) -> Seq<char> {
    if crate::dates::is_rfc3339(u.created_at@) {
        "\n**Joined:** "@ + crate::dates::month_day_year_spec(u.created_at@)
    } else {
        Seq::<char>::empty()
    }
}

/// The whole user response body.
pub open spec fn user_info_spec(u: GitHubUser) -> Seq<char> {
    (match u.name {
        Option::Some(n) => "**Name:** "@ + n@ + "\n"@,
        Option::None => Seq::<char>::empty(),
    }) + user_stats(u) + opt_line("\n**Bio:** "@, u.bio) + opt_line("\n**Company:** "@, u.company)
        + opt_line("\n**Location:** "@, u.location) + blog_line(u) + joined_line(u)
        + "\n**Profile:** https://github.com/"@ + u.login@
}

/// Lays a user's account out as its response title, body and avatar link.
#[verifier::rlimit(100)]
pub fn format_user_info(user: &GitHubUser) -> (r: (String, String, String))
    ensures
        r.0@ == "GitHub User: "@ + user.login@,
        r.1@ == user_info_spec(*user),
        r.2@ == user.avatar_url@,
{
    let mut description = String::new();
    match &user.name {
        Some(n) => {
            description.append("**Name:** ");
            description.append(n.as_str());
            description.append("\n");
            proof {
                crate::strutil::lemma_cat3(Seq::<char>::empty(), "**Name:** "@, n@, "\n"@);
                crate::strutil::lemma_cat_empty("**Name:** "@ + n@ + "\n"@);
            }
        },
        None => {},
    }
    proof {
        crate::strutil::lemma_cat_empty(description@);
    }
    let ghost g0 = description@;
    description.append("**Username:** ");
    description.append(user.login.as_str());
    description.append("\n**Public Repos:** ");
    push_decimal(&mut description, user.public_repos as u64);
    description.append("\n**Followers:** ");
    push_decimal(&mut description, user.followers as u64);
    description.append(" | **Following:** ");
    push_decimal(&mut description, user.following as u64);
    description.append("\n**Public Gists:** ");
    push_decimal(&mut description, user.public_gists as u64);
    proof {
        assert(description@ =~= g0 + user_stats(*user));
    }
    let ghost g1 = description@;
    match &user.bio {
        Some(s) => {
            description.append("\n**Bio:** ");
            description.append(s.as_str());
            proof {
                crate::strutil::lemma_cat2(g1, "\n**Bio:** "@, s@);
            }
        },
        None => {
            proof {
                crate::strutil::lemma_cat_empty(g1);
            }
        },
    }
    proof {
        assert(description@ == g1 + opt_line("\n**Bio:** "@, user.bio));
    }
    let ghost g2 = description@;
    match &user.company {
        Some(s) => {
            description.append("\n**Company:** ");
            description.append(s.as_str());
            proof {
                crate::strutil::lemma_cat2(g2, "\n**Company:** "@, s@);
            }
        },
        None => {
            proof {
                crate::strutil::lemma_cat_empty(g2);
            }
        },
    }
    proof {
        assert(description@ == g2 + opt_line("\n**Company:** "@, user.company));
    }
    let ghost g3 = description@;
    match &user.location {
        Some(s) => {
            description.append("\n**Location:** ");
            description.append(s.as_str());
            proof {
                crate::strutil::lemma_cat2(g3, "\n**Location:** "@, s@);
            }
        },
        None => {
            proof {
                crate::strutil::lemma_cat_empty(g3);
            }
        },
    }
    proof {
        assert(description@ == g3 + opt_line("\n**Location:** "@, user.location));
    }
    let ghost g4 = description@;
    match &user.blog {
        Some(s) => {
            if s.as_str().unicode_len() > 0 {
                description.append("\n**Website:** ");
                description.append(s.as_str());
                proof {
                    crate::strutil::lemma_cat2(g4, "\n**Website:** "@, s@);
                }
            } else {
                proof {
                    crate::strutil::lemma_cat_empty(g4);
                }
            }
        },
        None => {
            proof {
                crate::strutil::lemma_cat_empty(g4);
            }
        },
    }
    proof {
        assert(description@ == g4 + blog_line(*user));
    }
    let ghost g5 = description@;
    match crate::dates::format_month_day_year(user.created_at.as_str()) {
        Some(d) => {
            description.append("\n**Joined:** ");
            description.append(d.as_str());
            proof {
                crate::strutil::lemma_cat2(
                    g5,
                    "\n**Joined:** "@,
                    crate::dates::month_day_year_spec(user.created_at@),
                );
            }
        },
        None => {
            proof {
                crate::strutil::lemma_cat_empty(g5);
            }
        },
    }
    proof {
        assert(description@ == g5 + joined_line(*user));
    }
    let ghost g6 = description@;
    description.append("\n**Profile:** https://github.com/");
    description.append(user.login.as_str());
    proof {
        crate::strutil::lemma_cat2(g6, "\n**Profile:** https://github.com/"@, user.login@);
        assert(description@ =~= user_info_spec(*user));
    }
    let mut title = ("GitHub User: ").to_owned();
    title.append(user.login.as_str());
    (title, description, user.avatar_url.clone())
}

/// The statistics line a repository response opens with.
pub open spec fn repo_stats(username: Seq<char>, r: GitHubRepo) -> Seq<char> {
    "**Owner:** "@ + username + "\n**Stars:** "@ + dec_spec(r.stargazers_count as int)
        + " | **Forks:** "@ + dec_spec(r.forks_count as int) + " | **Watchers:** "@ + dec_spec(
        r.watchers_count as int,
    ) + "\n**Open Issues:** "@ + dec_spec(r.open_issues_count as int) + "\n**Size:** "@ + dec_spec(
        r.size as int,
    ) + " KB"@
}

/// The status labels a repository carries, in order.
pub open spec fn status_flags(r: GitHubRepo) -> Seq<Seq<char>> {
    (if r.is_private {
        seq!["Private"@]
    } else {
        Seq::<Seq<char>>::empty()
    }) + (if r.fork {
        seq!["Fork"@]
    } else {
        Seq::<Seq<char>>::empty()
    }) + (if r.archived {
        seq!["Archived"@]
    } else {
        Seq::<Seq<char>>::empty()
    }) + (if r.disabled {
        seq!["Disabled"@]
    } else {
        Seq::<Seq<char>>::empty()
    })
}

/// The topics line, present where the repository has topics.
pub open spec fn topics_line(r: GitHubRepo) -> Seq<char> {
    if r.topics@.len() > 0 {
        "\n**Topics:** "@ + join_from(r.topics@.map_values(|s: String| s@), ", "@, 0)
    } else {
        Seq::<char>::empty()
    }
}

/// The status line, present where any status label applies.
pub open spec fn status_line(r: GitHubRepo) -> Seq<char> {
    if status_flags(r).len() > 0 {
        "\n**Status:** "@ + join_from(status_flags(r), " | "@, 0)
    } else {
        Seq::<char>::empty()
    }
}

/// A dated line, present where the timestamp is well-formed.
pub open spec fn dated_line(label: Seq<char>, ts: Seq<char>) -> Seq<char> {
    if crate::dates::is_rfc3339(ts) {
        label + crate::dates::month_day_year_spec(ts)
    } else {
        Seq::<char>::empty()
    }
}

/// The whole repository response body.
pub open spec fn repo_info_spec(username: Seq<char>, r: GitHubRepo) -> Seq<char> {
    (match r.description {
        Option::Some(d) => "**Description:** "@ + d@ + "\n\n"@,
        Option::None => Seq::<char>::empty(),
    }) + repo_stats(username, r) + opt_line("\n**Language:** "@, r.language) + (match r.license {
        Option::Some(l) => "\n**License:** "@ + l.name@,
        Option::None => Seq::<char>::empty(),
    }) + "\n**Default Branch:** "@ + r.default_branch@ + topics_line(r) + status_line(r)
        + dated_line("\n**Created:** "@, r.created_at@) + dated_line(
        "\n**Last Updated:** "@,
        r.updated_at@,
    ) + "\n**Repository:** "@ + r.html_url@
}

/// Lays a repository out as its response title and body.
#[verifier::rlimit(100)]
pub fn format_repository_info(username: &str, repo: &GitHubRepo) -> (r: (String, String))
    ensures
        r.0@ == "Repository: "@ + repo.full_name@,
        r.1@ == repo_info_spec(username@, *repo),
{
    let mut description = String::new();
    match &repo.description {
        Some(d) => {
            description.append("**Description:** ");
            description.append(d.as_str());
            description.append("\n\n");
            proof {
                crate::strutil::lemma_cat3(Seq::<char>::empty(), "**Description:** "@, d@, "\n\n"@);
            }
        },
        None => {},
    }
    proof {
        crate::strutil::lemma_cat_empty(description@);
    }
    let ghost g0 = description@;
    description.append("**Owner:** ");
    description.append(username);
    description.append("\n**Stars:** ");
    push_decimal(&mut description, repo.stargazers_count as u64);
    description.append(" | **Forks:** ");
    push_decimal(&mut description, repo.forks_count as u64);
    description.append(" | **Watchers:** ");
    push_decimal(&mut description, repo.watchers_count as u64);
    description.append("\n**Open Issues:** ");
    push_decimal(&mut description, repo.open_issues_count as u64);
    description.append("\n**Size:** ");
    push_decimal(&mut description, repo.size as u64);
    description.append(" KB");
    proof {
        assert(description@ =~= g0 + repo_stats(username@, *repo));
    }
    let ghost g1 = description@;
    match &repo.language {
        Some(s) => {
            description.append("\n**Language:** ");
            description.append(s.as_str());
            proof {
                crate::strutil::lemma_cat2(g1, "\n**Language:** "@, s@);
            }
        },
        None => {
            proof {
                crate::strutil::lemma_cat_empty(g1);
            }
        },
    }
    proof {
        assert(description@ == g1 + opt_line("\n**Language:** "@, repo.language));
    }
    let ghost g2 = description@;
    match &repo.license {
        Some(l) => {
            description.append("\n**License:** ");
            description.append(l.name.as_str());
            proof {
                crate::strutil::lemma_cat2(g2, "\n**License:** "@, l.name@);
            }
        },
        None => {
            proof {
                crate::strutil::lemma_cat_empty(g2);
            }
        },
    }
    let ghost g3 = description@;
    description.append("\n**Default Branch:** ");
    description.append(repo.default_branch.as_str());
    proof {
        crate::strutil::lemma_cat2(g3, "\n**Default Branch:** "@, repo.default_branch@);
    }
    let ghost g4 = description@;
    if repo.topics.len() > 0 {
        description.append("\n**Topics:** ");
        push_joined(&mut description, &repo.topics, ", ", 0);
        proof {
            crate::strutil::lemma_cat2(
                g4,
                "\n**Topics:** "@,
                join_from(repo.topics@.map_values(|s: String| s@), ", "@, 0),
            );
        }
    } else {
        proof {
            crate::strutil::lemma_cat_empty(g4);
        }
    }
    proof {
        assert(description@ == g4 + topics_line(*repo));
    }
    let ghost g5 = description@;
    let mut flags: Vec<String> = Vec::new();
    if repo.is_private {
        flags.push(("Private").to_owned());
    }
    if repo.fork {
        flags.push(("Fork").to_owned());
    }
    if repo.archived {
        flags.push(("Archived").to_owned());
    }
    if repo.disabled {
        flags.push(("Disabled").to_owned());
    }
    proof {
        assert(flags@.map_values(|s: String| s@) =~= status_flags(*repo));
    }
    if flags.len() > 0 {
        description.append("\n**Status:** ");
        push_joined(&mut description, &flags, " | ", 0);
        proof {
            crate::strutil::lemma_cat2(
                g5,
                "\n**Status:** "@,
                join_from(status_flags(*repo), " | "@, 0),
            );
        }
    } else {
        proof {
            crate::strutil::lemma_cat_empty(g5);
        }
    }
    proof {
        assert(description@ == g5 + status_line(*repo));
    }
    let ghost g6 = description@;
    match crate::dates::format_month_day_year(repo.created_at.as_str()) {
        Some(d) => {
            description.append("\n**Created:** ");
            description.append(d.as_str());
            proof {
                crate::strutil::lemma_cat2(
                    g6,
                    "\n**Created:** "@,
                    crate::dates::month_day_year_spec(repo.created_at@),
                );
            }
        },
        None => {
            proof {
                crate::strutil::lemma_cat_empty(g6);
            }
        },
    }
    proof {
        assert(description@ == g6 + dated_line("\n**Created:** "@, repo.created_at@));
    }
    let ghost g7 = description@;
    match crate::dates::format_month_day_year(repo.updated_at.as_str()) {
        Some(d) => {
            description.append("\n**Last Updated:** ");
            description.append(d.as_str());
            proof {
                crate::strutil::lemma_cat2(
                    g7,
                    "\n**Last Updated:** "@,
                    crate::dates::month_day_year_spec(repo.updated_at@),
                );
            }
        },
        None => {
            proof {
                crate::strutil::lemma_cat_empty(g7);
            }
        },
    }
    proof {
        assert(description@ == g7 + dated_line("\n**Last Updated:** "@, repo.updated_at@));
    }
    let ghost g8 = description@;
    description.append("\n**Repository:** ");
    description.append(repo.html_url.as_str());
    proof {
        crate::strutil::lemma_cat2(g8, "\n**Repository:** "@, repo.html_url@);
        assert(description@ =~= repo_info_spec(username@, *repo));
    }
    let mut title = ("Repository: ").to_owned();
    title.append(repo.full_name.as_str());
    (title, description)
}

} // verus!
