//! Repository-subtree download policy: repo-slug parsing, tree filtering,
//! local path mapping, parameter validation, and the per-file download
//! decisions that keep the returned manifest truthful.

use vstd::prelude::*;
use crate::text::{
    append_chars, append_str, chars_to_string, contains, contains_chars, decimal, ends_with,
    ends_with_chars, lemma_trim_len, lowercase_chars, match_at, owned, trim_start_char_from,
    trim_start_char, unicode_lower, u64_decimal, eq_chars, eq_str, trim_char, trim_char_range,
    contains_str, trim_chars, trim_end_char, trim_end_char_to, sub_string, starts_with,
    starts_with_str, str_chars, sub_vec, trim, trim_range, string_views, lemma_trim_char_ends,
    lemma_trim_idempotent,
};

verus! {

// ---------------------------------------------------------------------------
// Splitting
// ---------------------------------------------------------------------------

/// The non-empty pieces of `s` between occurrences of `c`
/// (`str::split(c).filter(|p| !p.is_empty())`).
pub open spec fn pieces(s: Seq<char>, c: char) -> Seq<Seq<char>>
    decreases s.len(),
{
    if s.len() == 0 {
        Seq::empty()
    } else {
        let init = pieces(s.drop_last(), c);
        let x = s.last();
        if x == c {
            init
        } else if s.len() > 1 && s[s.len() - 2] != c {
            init.update(init.len() - 1, init.last().push(x))
        } else {
            init.push(seq![x])
        }
    }
}

proof fn lemma_pieces_nonempty_last(s: Seq<char>, c: char)
    requires
        s.len() > 0,
        s.last() != c,
    ensures
        pieces(s, c).len() > 0,
    decreases s.len(),
{
    if s.len() > 1 && s[s.len() - 2] != c {
        lemma_pieces_nonempty_last(s.drop_last(), c);
    }
}

/// The views of a vector of character vectors.
pub open spec fn views(v: Seq<Vec<char>>) -> Seq<Seq<char>> {
    v.map_values(|x: Vec<char>| x@)
}

/// The non-empty pieces of `s` between occurrences of `c`.
pub fn split_nonempty(s: &[char], c: char) -> (r: Vec<Vec<char>>)
    ensures
        views(r@) == pieces(s@, c),
{
    let mut done: Vec<Vec<char>> = Vec::new();
    let mut cur: Vec<char> = Vec::new();
    let mut i: usize = 0;
    while i < s.len()
        invariant
            i <= s@.len(),
            cur@.len() > 0 <==> (i > 0 && s@[i - 1] != c),
            cur@.len() == 0 ==> views(done@) == pieces(s@.take(i as int), c),
            cur@.len() > 0 ==> views(done@).push(cur@) == pieces(s@.take(i as int), c),
        decreases s.len() - i,
    {
        let x = s[i];
        let ghost prev = s@.take(i as int);
        let ghost next = s@.take(i + 1);
        assert(next.drop_last() =~= prev);
        assert(next.last() == x);
        if i > 0 {
            assert(next[next.len() - 2] == s@[i - 1]);
        }
        if x == c {
            if cur.len() > 0 {
                let piece = cur;
                let ghost old_dv = views(done@);
                done.push(piece);
                assert(views(done@) =~= old_dv.push(piece@));
                cur = Vec::new();
            }
        } else {
            if cur.len() > 0 {
                proof {
                    lemma_pieces_nonempty_last(prev, c);
                }
                cur.push(x);
                assert(views(done@).push(cur@) =~= pieces(next, c));
            } else {
                cur.push(x);
                assert(cur@ =~= seq![x]);
                assert(views(done@).push(cur@) =~= pieces(next, c));
            }
        }
        i = i + 1;
    }
    assert(s@.take(s@.len() as int) =~= s@);
    if cur.len() > 0 {
        let ghost old_dv = views(done@);
        let ghost cv = cur@;
        done.push(cur);
        assert(views(done@) =~= old_dv.push(cv));
    }
    done
}

/// `s` with every trailing occurrence of `p` removed (`str::trim_end_matches` with a string).
pub open spec fn trim_end_pat(s: Seq<char>, p: Seq<char>) -> Seq<char>
    decreases s.len(),
{
    if p.len() > 0 && ends_with(s, p) {
        trim_end_pat(s.subrange(0, s.len() - p.len()), p)
    } else {
        s
    }
}

/// `str::trim_end_matches` with a string pattern.
pub fn trim_end_pat_chars(s: &[char], p: &[char]) -> (r: Vec<char>)
    ensures
        r@ == trim_end_pat(s@, p@),
{
    let mut hi = s.len();
    if p.len() == 0 {
        return sub_vec(s, 0, hi);
    }
    assert(s@.subrange(0, hi as int) =~= s@);
    loop
        invariant
            hi <= s@.len(),
            p@.len() > 0,
            trim_end_pat(s@, p@) == trim_end_pat(s@.subrange(0, hi as int), p@),
        decreases hi,
    {
        let ghost cur = s@.subrange(0, hi as int);
        if hi >= p.len() && match_at(s, hi - p.len(), p) {
            assert(cur.subrange(hi - p@.len(), hi as int) =~= s@.subrange(
                hi - p@.len(),
                hi as int,
            ));
            assert(cur.subrange(0, hi - p@.len()) =~= s@.subrange(0, hi - p@.len()));
            hi = hi - p.len();
        } else {
            proof {
                if ends_with(cur, p@) {
                    assert(cur.subrange(hi - p@.len(), hi as int) =~= s@.subrange(
                        hi - p@.len(),
                        hi as int,
                    ));
                }
            }
            return sub_vec(s, 0, hi);
        }
    }
}


// ---------------------------------------------------------------------------
// Repository slugs
// ---------------------------------------------------------------------------

/// Repo identity parsed from the agent-supplied `repo` field.
#[derive(Debug, Clone, PartialEq, Eq)]
pub struct RepoSlug {
    pub owner: String,
    pub name: String,
}

/// The rest of `s` after the first GitHub host prefix it starts with, if any.
pub open spec fn after_github_prefix(s: Seq<char>) -> Option<Seq<char>> {
    if starts_with(s, "https://github.com/"@) {
        Some(s.subrange("https://github.com/"@.len() as int, s.len() as int))
    } else if starts_with(s, "http://github.com/"@) {
        Some(s.subrange("http://github.com/"@.len() as int, s.len() as int))
    } else if starts_with(s, "https://www.github.com/"@) {
        Some(s.subrange("https://www.github.com/"@.len() as int, s.len() as int))
    } else if starts_with(s, "github.com/"@) {
        Some(s.subrange("github.com/"@.len() as int, s.len() as int))
    } else {
        None
    }
}

/// What [`parse_repo_slug`] answers for `input`: `Ok((owner, name))` or the error text.
///
/// Accepted shapes: `owner/name`, `https://github.com/owner/name(.git)`, the same with a
/// path suffix (dropped), and `git@github.com:owner/name(.git)`. URLs of other hosts are
/// refused.
pub open spec fn repo_slug_spec(input: Seq<char>) -> Result<(Seq<char>, Seq<char>), Seq<char>>
    decreases input.len(),
{
    let t = trim(input);
    if t.len() == 0 {
        Err("`repo` must be `owner/name` or a github.com URL"@)
    } else if starts_with(t, "git@github.com:"@) {
        proof {
            lemma_trim_len(input);
            reveal_strlit("git@github.com:");
        }
        repo_slug_spec(t.subrange("git@github.com:"@.len() as int, t.len() as int))
    } else {
        let path = match after_github_prefix(t) {
            Some(rest) => rest,
            None => t,
        };
        if after_github_prefix(t) is None && (starts_with(t, "http://"@) || starts_with(
            t,
            "https://"@,
        )) {
            Err("`"@ + input + "` is not a github.com URL — this tool only mirrors GitHub repos"@)
        } else {
            let segs = pieces(path, '/');
            if segs.len() < 2 {
                Err("Could not parse `"@ + input
                    + "` as a repo — expected `owner/name` or a github.com URL"@)
            } else {
                let owner = segs[0];
                let name = trim_end_pat(segs[1], ".git"@);
                if owner.len() == 0 || name.len() == 0 {
                    Err("Empty owner or name parsed from `"@ + input + "`"@)
                } else {
                    Ok((owner, name))
                }
            }
        }
    }
}

fn message_around(before: &str, input: &[char], after: &str) -> (r: String)
    ensures
        r@ == before@ + input@ + after@,
{
    let mut v: Vec<char> = Vec::new();
    append_str(&mut v, before);
    append_chars(&mut v, input);
    append_str(&mut v, after);
    chars_to_string(v.as_slice())
}

/// Parse a repository reference into owner and name.
///
/// Accepts `owner/name`, `https://github.com/owner/name`, `https://github.com/owner/name.git`,
/// `https://github.com/owner/name/tree/branch/path/...` (the suffix is dropped), and
/// `git@github.com:owner/name.git`.
pub fn parse_repo_slug(input: &str) -> (r: Result<RepoSlug, String>)
    ensures
        match r {
            Ok(slug) => repo_slug_spec(input@) == Ok::<(Seq<char>, Seq<char>), Seq<char>>(
                (slug.owner@, slug.name@),
            ),
            Err(e) => repo_slug_spec(input@) == Err::<(Seq<char>, Seq<char>), Seq<char>>(e@),
        },
{
    let v = str_chars(input);
    parse_repo_slug_chars(v.as_slice())
}

fn parse_repo_slug_chars(input: &[char]) -> (r: Result<RepoSlug, String>)
    ensures
        match r {
            Ok(slug) => repo_slug_spec(input@) == Ok::<(Seq<char>, Seq<char>), Seq<char>>(
                (slug.owner@, slug.name@),
            ),
            Err(e) => repo_slug_spec(input@) == Err::<(Seq<char>, Seq<char>), Seq<char>>(e@),
        },
    decreases input@.len(),
{
    let (a, b) = trim_range(input, 0, input.len());
    assert(input@.subrange(0, input@.len() as int) =~= input@);
    let t = sub_vec(input, a, b);
    if t.len() == 0 {
        return Err(owned("`repo` must be `owner/name` or a github.com URL"));
    }
    let ssh = str_chars("git@github.com:");
    if match_at(t.as_slice(), 0, ssh.as_slice()) {
        proof {
            lemma_trim_len(input@);
            reveal_strlit("git@github.com:");
        }
        let rest = sub_vec(t.as_slice(), ssh.len(), t.len());
        return parse_repo_slug_chars(rest.as_slice());
    }
    let p0 = str_chars("https://github.com/");
    let p1 = str_chars("http://github.com/");
    let p2 = str_chars("https://www.github.com/");
    let p3 = str_chars("github.com/");
    let (path, matched) = if match_at(t.as_slice(), 0, p0.as_slice()) {
        (sub_vec(t.as_slice(), p0.len(), t.len()), true)
    } else if match_at(t.as_slice(), 0, p1.as_slice()) {
        (sub_vec(t.as_slice(), p1.len(), t.len()), true)
    } else if match_at(t.as_slice(), 0, p2.as_slice()) {
        (sub_vec(t.as_slice(), p2.len(), t.len()), true)
    } else if match_at(t.as_slice(), 0, p3.as_slice()) {
        (sub_vec(t.as_slice(), p3.len(), t.len()), true)
    } else {
        (t.clone(), false)
    };
    assert(matched == after_github_prefix(t@) is Some);
    if !matched && (starts_with_str(t.as_slice(), "http://") || starts_with_str(
        t.as_slice(),
        "https://",
    )) {
        return Err(
            message_around(
                "`",
                input,
                "` is not a github.com URL — this tool only mirrors GitHub repos",
            ),
        );
    }
    let segs = split_nonempty(path.as_slice(), '/');
    if segs.len() < 2 {
        return Err(
            message_around(
                "Could not parse `",
                input,
                "` as a repo — expected `owner/name` or a github.com URL",
            ),
        );
    }
    let owner = segs[0].clone();
    let git = str_chars(".git");
    let name = trim_end_pat_chars(segs[1].as_slice(), git.as_slice());
    assert(views(segs@)[0] == segs@[0]@);
    assert(views(segs@)[1] == segs@[1]@);
    if owner.len() == 0 || name.len() == 0 {
        return Err(message_around("Empty owner or name parsed from `", input, "`"));
    }
    Ok(RepoSlug { owner: chars_to_string(owner.as_slice()), name: chars_to_string(name.as_slice()) })
}


// ---------------------------------------------------------------------------
// Tree filtering
// ---------------------------------------------------------------------------

/// Hard ceiling on a single file (10 MiB). Larger blobs are skipped with a reason.
pub const MAX_PER_FILE_BYTES: u64 = 10485760;

/// A single entry from the GitHub Trees API response (`tree[*]`).
#[derive(Debug, Clone)]
pub struct TreeEntry {
    pub path: String,
    /// The entry's `type` (`blob`, `tree`, ...).
    pub kind: String,
    pub size: Option<u64>,
}

/// A file left out of the download, with the reason.
#[derive(Debug, PartialEq, Eq)]
pub struct SkippedFile {
    pub repo_path: String,
    pub reason: String,
}

/// A file written to the workspace.
#[derive(Debug, PartialEq, Eq)]
pub struct WrittenFile {
    pub repo_path: String,
    pub local_path: String,
    pub bytes: u64,
}

/// A file whose download or write failed.
#[derive(Debug, PartialEq, Eq)]
pub struct FileError {
    pub repo_path: String,
    pub error: String,
}

/// A copy of `e` (equal as a value).
pub fn clone_entry(e: &TreeEntry) -> (r: TreeEntry)
    ensures
        r == *e,
{
    TreeEntry { path: e.path.clone(), kind: e.kind.clone(), size: e.size }
}

/// The first non-empty exclude token that occurs in `path`, in list order.
pub open spec fn first_exclude(path: Seq<char>, exclude: Seq<Seq<char>>) -> Option<Seq<char>>
    decreases exclude.len(),
{
    if exclude.len() == 0 {
        None
    } else if exclude[0].len() > 0 && contains(path, exclude[0]) {
        Some(exclude[0])
    } else {
        first_exclude(path, exclude.drop_first())
    }
}

/// The suffix `.ext` that extension `e` asks for, lowercased.
pub open spec fn ext_suffix(e: Seq<char>) -> Seq<char> {
    "."@ + unicode_lower(trim_start_char(e, '.'))
}

/// Whether the lowercased `path` ends with one of the requested extensions.
pub open spec fn extension_ok(path: Seq<char>, extensions: Seq<Seq<char>>) -> bool {
    exists|i: int|
        0 <= i < extensions.len() && #[trigger] ends_with(
            unicode_lower(path),
            ext_suffix(extensions[i]),
        )
}

/// `sub` (already trimmed of `/`) followed by `/`, or empty when `sub` is empty.
pub open spec fn subpath_prefix(sub: Seq<char>) -> Seq<char> {
    if sub.len() == 0 {
        Seq::empty()
    } else {
        sub + "/"@
    }
}

/// Whether `path` lies inside the subtree `sub` (or is exactly `sub`).
pub open spec fn inside_subpath(path: Seq<char>, sub: Seq<char>) -> bool {
    sub.len() == 0 || starts_with(path, subpath_prefix(sub)) || path == sub
}

/// Reason text for a blob over the per-file cap.
pub open spec fn oversize_reason(sz: u64) -> Seq<char> {
    "blob is "@ + decimal(sz as nat) + " bytes (per-file cap "@ + decimal(
        MAX_PER_FILE_BYTES as nat,
    ) + " bytes)"@
}

/// The fate of one tree entry: `None` when it is not a candidate at all (not a blob, or
/// outside the subtree), `Some(None)` when kept, `Some(Some(reason))` when skipped.
pub open spec fn entry_fate(
    e: TreeEntry,
    sub: Seq<char>,
    extensions: Seq<Seq<char>>,
    exclude: Seq<Seq<char>>,
) -> Option<Option<Seq<char>>> {
    let path = e.path@;
    if e.kind@ != "blob"@ {
        None
    } else if !inside_subpath(path, sub) {
        None
    } else if first_exclude(path, exclude) is Some {
        Some(
            Some(
                "matched `exclude` token `"@ + first_exclude(path, exclude).unwrap() + "`"@,
            ),
        )
    } else if extensions.len() > 0 && !extension_ok(path, extensions) {
        Some(Some("did not match `extensions` filter"@))
    } else if e.size is Some && e.size.unwrap() > MAX_PER_FILE_BYTES {
        Some(Some(oversize_reason(e.size.unwrap())))
    } else {
        Some(None)
    }
}

/// Kept entries and `(path, reason)` skips for `entries`, in input order.
pub open spec fn filter_spec(
    entries: Seq<TreeEntry>,
    sub: Seq<char>,
    extensions: Seq<Seq<char>>,
    exclude: Seq<Seq<char>>,
) -> (Seq<TreeEntry>, Seq<(Seq<char>, Seq<char>)>)
    decreases entries.len(),
{
    if entries.len() == 0 {
        (Seq::empty(), Seq::empty())
    } else {
        let prev = filter_spec(entries.drop_last(), sub, extensions, exclude);
        let e = entries.last();
        match entry_fate(e, sub, extensions, exclude) {
            None => prev,
            Some(None) => (prev.0.push(e), prev.1),
            Some(Some(reason)) => (prev.0, prev.1.push((e.path@, reason))),
        }
    }
}

/// The `(repo_path, reason)` views of skipped files.
pub open spec fn skipped_views(v: Seq<SkippedFile>) -> Seq<(Seq<char>, Seq<char>)> {
    v.map_values(|x: SkippedFile| (x.repo_path@, x.reason@))
}

fn first_exclude_exec(path: &[char], exclude: &[String]) -> (r: Option<Vec<char>>)
    ensures
        match r {
            Some(n) => first_exclude(path@, string_views(exclude@)) == Some(n@),
            None => first_exclude(path@, string_views(exclude@)) is None,
        },
{
    let mut i: usize = 0;
    assert(string_views(exclude@).skip(0) =~= string_views(exclude@));
    while i < exclude.len()
        invariant
            i <= exclude@.len(),
            first_exclude(path@, string_views(exclude@)) == first_exclude(
                path@,
                string_views(exclude@).skip(i as int),
            ),
        decreases exclude.len() - i,
    {
        let n = str_chars(exclude[i].as_str());
        let ghost rest = string_views(exclude@).skip(i as int);
        assert(rest[0] == n@);
        assert(rest.drop_first() =~= string_views(exclude@).skip(i + 1));
        if n.len() > 0 && contains_chars(path, n.as_slice()) {
            return Some(n);
        }
        i = i + 1;
    }
    assert(string_views(exclude@).skip(i as int).len() == 0);
    None
}

fn extension_ok_exec(lower_path: &[char], extensions: &[String]) -> (r: bool)
    ensures
        r == exists|i: int|
            0 <= i < extensions@.len() && #[trigger] ends_with(
                lower_path@,
                ext_suffix(string_views(extensions@)[i]),
            ),
{
    let mut i: usize = 0;
    while i < extensions.len()
        invariant
            i <= extensions@.len(),
            forall|j: int|
                0 <= j < i ==> !#[trigger] ends_with(
                    lower_path@,
                    ext_suffix(string_views(extensions@)[j]),
                ),
        decreases extensions.len() - i,
    {
        let e = str_chars(extensions[i].as_str());
        let a = trim_start_char_from(e.as_slice(), 0, e.len(), '.');
        let b = e.len();
        let mut suffix: Vec<char> = Vec::new();
        suffix.push('.');
        let lowered = lowercase_chars(sub_vec(e.as_slice(), a, b).as_slice());
        append_chars(&mut suffix, lowered.as_slice());
        proof {
            reveal_strlit(".");
            assert(e@.subrange(0, e@.len() as int) =~= e@);
        }
        assert(e@.subrange(a as int, b as int) == trim_start_char(e@, '.'));
        assert(suffix@ =~= ext_suffix(string_views(extensions@)[i as int]));
        if ends_with_chars(lower_path, suffix.as_slice()) {
            return true;
        }
        i = i + 1;
    }
    false
}


fn oversize_reason_exec(sz: u64) -> (r: String)
    ensures
        r@ == oversize_reason(sz),
{
    let mut v: Vec<char> = Vec::new();
    append_str(&mut v, "blob is ");
    append_chars(&mut v, u64_decimal(sz).as_slice());
    append_str(&mut v, " bytes (per-file cap ");
    append_chars(&mut v, u64_decimal(MAX_PER_FILE_BYTES).as_slice());
    append_str(&mut v, " bytes)");
    chars_to_string(v.as_slice())
}

fn inside_subpath_exec(path: &[char], sub: &[char]) -> (r: bool)
    ensures
        r == inside_subpath(path@, sub@),
{
    if sub.len() == 0 {
        return true;
    }
    let mut prefix: Vec<char> = sub_vec(sub, 0, sub.len());
    append_str(&mut prefix, "/");
    assert(sub@.subrange(0, sub@.len() as int) =~= sub@);
    match_at(path, 0, prefix.as_slice()) || eq_chars(path, sub)
}

fn entry_fate_exec(
    e: &TreeEntry,
    sub: &[char],
    extensions: &[String],
    exclude: &[String],
) -> (r: Option<Option<String>>)
    ensures
        match entry_fate(*e, sub@, string_views(extensions@), string_views(exclude@)) {
            None => r is None,
            Some(None) => r == Some(None::<String>),
            Some(Some(reason)) => r is Some && r.unwrap() is Some && r.unwrap().unwrap()@
                == reason,
        },
{
    let path = str_chars(e.path.as_str());
    let kind = str_chars(e.kind.as_str());
    if !eq_str(kind.as_slice(), "blob") {
        return None;
    }
    if !inside_subpath_exec(path.as_slice(), sub) {
        return None;
    }
    match first_exclude_exec(path.as_slice(), exclude) {
        Some(needle) => {
            let mut v: Vec<char> = Vec::new();
            append_str(&mut v, "matched `exclude` token `");
            append_chars(&mut v, needle.as_slice());
            append_str(&mut v, "`");
            return Some(Some(chars_to_string(v.as_slice())));
        },
        None => {},
    }
    if extensions.len() > 0 {
        let lower = lowercase_chars(path.as_slice());
        if !extension_ok_exec(lower.as_slice(), extensions) {
            return Some(Some(owned("did not match `extensions` filter")));
        }
    }
    match e.size {
        Some(sz) => {
            if sz > MAX_PER_FILE_BYTES {
                return Some(Some(oversize_reason_exec(sz)));
            }
        },
        None => {},
    }
    Some(None)
}

/// Filter the recursive tree down to the blobs the user asked for, applying the `path`,
/// `extensions`, and `exclude` filters. Returns the surviving entries plus a skip record
/// (path and reason) for each candidate dropped by a filter, both in tree order.
pub fn filter_tree_entries(
    entries: &[TreeEntry],
    subpath: &str,
    extensions: &[String],
    exclude: &[String],
) -> (r: (Vec<TreeEntry>, Vec<SkippedFile>))
    ensures
        ({
            let spec = filter_spec(
                entries@,
                trim_char(subpath@, '/'),
                string_views(extensions@),
                string_views(exclude@),
            );
            r.0@ == spec.0 && skipped_views(r.1@) == spec.1
        }),
{
    let sv = str_chars(subpath);
    let (a, b) = trim_char_range(sv.as_slice(), 0, sv.len(), '/');
    assert(sv@.subrange(0, sv@.len() as int) =~= sv@);
    let sub = sub_vec(sv.as_slice(), a, b);
    let ghost ext_v = string_views(extensions@);
    let ghost exc_v = string_views(exclude@);
    let mut kept: Vec<TreeEntry> = Vec::new();
    let mut skipped: Vec<SkippedFile> = Vec::new();
    let mut i: usize = 0;
    while i < entries.len()
        invariant
            i <= entries@.len(),
            sub@ == trim_char(subpath@, '/'),
            ext_v == string_views(extensions@),
            exc_v == string_views(exclude@),
            kept@ == filter_spec(entries@.take(i as int), sub@, ext_v, exc_v).0,
            skipped_views(skipped@) == filter_spec(entries@.take(i as int), sub@, ext_v, exc_v).1,
        decreases entries.len() - i,
    {
        let e = &entries[i];
        assert(entries@.take(i + 1).drop_last() =~= entries@.take(i as int));
        assert(entries@.take(i + 1).last() == *e);
        match entry_fate_exec(e, sub.as_slice(), extensions, exclude) {
            None => {},
            Some(None) => {
                kept.push(clone_entry(e));
            },
            Some(Some(reason)) => {
                let ghost old_sk = skipped@;
                skipped.push(SkippedFile { repo_path: e.path.clone(), reason });
                assert(skipped_views(skipped@) =~= skipped_views(old_sk).push(
                    (e.path@, skipped@.last().reason@),
                ));
            },
        }
        i = i + 1;
    }
    assert(entries@.take(entries@.len() as int) =~= entries@);
    (kept, skipped)
}

/// A tree entry the filters look at: a blob inside the requested subtree.
pub open spec fn in_scope(e: TreeEntry, sub: Seq<char>) -> bool {
    e.kind@ == "blob"@ && inside_subpath(e.path@, sub)
}

/// The filters keep the entry.
pub open spec fn fate_keeps(e: TreeEntry, sub: Seq<char>, extensions: Seq<Seq<char>>, exclude: Seq<Seq<char>>) -> bool {
    entry_fate(e, sub, extensions, exclude) == Some(None::<Seq<char>>)
}

/// The filters skip the entry with a reason.
pub open spec fn fate_skips(e: TreeEntry, sub: Seq<char>, extensions: Seq<Seq<char>>, exclude: Seq<Seq<char>>) -> bool {
    entry_fate(e, sub, extensions, exclude) matches Some(Some(_))
}

/// No exclude token was found, so no non-empty token occurs in the path.
proof fn lemma_first_exclude_none(path: Seq<char>, exclude: Seq<Seq<char>>)
    requires
        first_exclude(path, exclude) is None,
    ensures
        forall|j: int| 0 <= j < exclude.len() && exclude[j].len() > 0 ==> !contains(path, #[trigger] exclude[j]),
    decreases exclude.len(),
{
    if exclude.len() > 0 {
        lemma_first_exclude_none(path, exclude.drop_first());
        assert forall|j: int| 0 <= j < exclude.len() && exclude[j].len() > 0 implies !contains(
            path,
            #[trigger] exclude[j],
        ) by {
            if j > 0 {
                assert(exclude[j] == exclude.drop_first()[j - 1]);
            }
        }
    }
}

/// What the tree filter does with the entries: the kept ones are exactly the in-scope
/// entries the filters keep, and the skip records are exactly the in-scope entries the
/// filters drop, both in tree order; so every in-scope entry is either kept or skipped and
/// nothing out of scope appears. A kept entry is a blob of the subtree within the per-file
/// cap whose path holds none of the non-empty exclude tokens.
pub proof fn law_tree_filter(
    entries: Seq<TreeEntry>,
    sub: Seq<char>,
    extensions: Seq<Seq<char>>,
    exclude: Seq<Seq<char>>,
)
    ensures
        filter_spec(entries, sub, extensions, exclude).0 == entries.filter(
            |e: TreeEntry| fate_keeps(e, sub, extensions, exclude),
        ),
        filter_spec(entries, sub, extensions, exclude).1.map_values(
            |s: (Seq<char>, Seq<char>)| s.0,
        ) == entries.filter(|e: TreeEntry| fate_skips(e, sub, extensions, exclude)).map_values(
            |e: TreeEntry| e.path@,
        ),
        filter_spec(entries, sub, extensions, exclude).0.len() + filter_spec(
            entries,
            sub,
            extensions,
            exclude,
        ).1.len() == entries.filter(|e: TreeEntry| in_scope(e, sub)).len(),
        forall|k: int|
            0 <= k < filter_spec(entries, sub, extensions, exclude).0.len() ==> {
                let e = #[trigger] filter_spec(entries, sub, extensions, exclude).0[k];
                &&& in_scope(e, sub)
                &&& (e.size matches Some(sz) ==> sz <= MAX_PER_FILE_BYTES)
                &&& forall|j: int|
                    0 <= j < exclude.len() && exclude[j].len() > 0 ==> !contains(
                        e.path@,
                        #[trigger] exclude[j],
                    )
            },
    decreases entries.len(),
{
    reveal(Seq::filter);
    let keep = |e: TreeEntry| fate_keeps(e, sub, extensions, exclude);
    let skip = |e: TreeEntry| fate_skips(e, sub, extensions, exclude);
    let scope = |e: TreeEntry| in_scope(e, sub);
    let path_of = |s: (Seq<char>, Seq<char>)| s.0;
    let entry_path = |e: TreeEntry| e.path@;
    if entries.len() > 0 {
        let init = entries.drop_last();
        law_tree_filter(init, sub, extensions, exclude);
        let prev = filter_spec(init, sub, extensions, exclude);
        let e = entries.last();
        assert(entries.filter(keep) == if keep(e) {
            init.filter(keep).push(e)
        } else {
            init.filter(keep)
        });
        assert(entries.filter(skip) == if skip(e) {
            init.filter(skip).push(e)
        } else {
            init.filter(skip)
        });
        assert(entries.filter(scope) == if scope(e) {
            init.filter(scope).push(e)
        } else {
            init.filter(scope)
        });
        let cur = filter_spec(entries, sub, extensions, exclude);
        match entry_fate(e, sub, extensions, exclude) {
            None => {
                assert(!scope(e));
            },
            Some(None) => {
                assert(scope(e));
                assert(first_exclude(e.path@, exclude) is None);
                lemma_first_exclude_none(e.path@, exclude);
                assert forall|k: int| 0 <= k < cur.0.len() implies {
                    let x = #[trigger] cur.0[k];
                    &&& in_scope(x, sub)
                    &&& (x.size matches Some(sz) ==> sz <= MAX_PER_FILE_BYTES)
                    &&& forall|j: int|
                        0 <= j < exclude.len() && exclude[j].len() > 0 ==> !contains(
                            x.path@,
                            #[trigger] exclude[j],
                        )
                } by {
                    if k < prev.0.len() {
                        assert(cur.0[k] == prev.0[k]);
                    }
                }
            },
            Some(Some(reason)) => {
                assert(scope(e));
                assert(cur.1.map_values(path_of) =~= prev.1.map_values(path_of).push(e.path@));
                assert(init.filter(skip).push(e).map_values(entry_path) =~= init.filter(
                    skip,
                ).map_values(entry_path).push(e.path@));
            },
        }
    }
}

// ---------------------------------------------------------------------------
// Local paths
// ---------------------------------------------------------------------------

/// The last of `segs` that is not `.`, if any.
pub open spec fn last_real_segment(segs: Seq<Seq<char>>) -> Option<Seq<char>>
    decreases segs.len(),
{
    if segs.len() == 0 {
        None
    } else if segs.last() == "."@ {
        last_real_segment(segs.drop_last())
    } else {
        Some(segs.last())
    }
}

/// `Path::file_name` on Unix: the path's components are its non-empty `/`-separated
/// pieces, `.` pieces skipped; the file name is the last of them unless that is `..`, and
/// there is none when no component is left (an empty path, `/`, `.`).
pub open spec fn path_file_name(p: Seq<char>) -> Option<Seq<char>> {
    match last_real_segment(pieces(p, '/')) {
        Some(f) => if f == ".."@ {
            None
        } else {
            Some(f)
        },
        None => None,
    }
}

/// Every piece is non-empty and free of the separator.
proof fn lemma_pieces_plain(s: Seq<char>, c: char)
    ensures
        forall|k: int|
            0 <= k < pieces(s, c).len() ==> (#[trigger] pieces(s, c)[k]).len() > 0 && !pieces(
                s,
                c,
            )[k].contains(c),
    decreases s.len(),
{
    if s.len() > 0 {
        let init = pieces(s.drop_last(), c);
        lemma_pieces_plain(s.drop_last(), c);
        let x = s.last();
        if x == c {
        } else if s.len() > 1 && s[s.len() - 2] != c {
            lemma_pieces_nonempty_last(s.drop_last(), c);
            let l = init.last();
            assert(!l.contains(c));
            assert(!l.push(x).contains(c)) by {
                if l.push(x).contains(c) {
                    let j = choose|j: int| 0 <= j < l.push(x).len() && l.push(x)[j] == c;
                    if j < l.len() {
                        assert(l[j] == c);
                    }
                }
            }
            assert forall|k: int| 0 <= k < pieces(s, c).len() implies (#[trigger] pieces(s, c)[k]).len()
                > 0 && !pieces(s, c)[k].contains(c) by {
                if k < init.len() - 1 {
                    assert(pieces(s, c)[k] == init[k]);
                }
            }
        } else {
            assert(!seq![x].contains(c)) by {
                if seq![x].contains(c) {
                    let j = choose|j: int| 0 <= j < seq![x].len() && seq![x][j] == c;
                }
            }
            assert forall|k: int| 0 <= k < pieces(s, c).len() implies (#[trigger] pieces(s, c)[k]).len()
                > 0 && !pieces(s, c)[k].contains(c) by {
                if k < init.len() {
                    assert(pieces(s, c)[k] == init[k]);
                }
            }
        }
    }
}

/// The last real segment is one of the segments.
proof fn lemma_last_real_segment_in(segs: Seq<Seq<char>>)
    ensures
        last_real_segment(segs) matches Some(f) ==> segs.contains(f),
    decreases segs.len(),
{
    if segs.len() > 0 {
        if segs.last() == "."@ {
            lemma_last_real_segment_in(segs.drop_last());
            match last_real_segment(segs.drop_last()) {
                Some(f) => {
                    let j = choose|j: int| 0 <= j < segs.drop_last().len() && segs.drop_last()[j] == f;
                    assert(segs[j] == f);
                },
                None => {},
            }
        } else {
            assert(segs[segs.len() - 1] == segs.last());
        }
    }
}

/// A file name is never empty and holds no `/`.
pub proof fn lemma_file_name_plain(p: Seq<char>)
    ensures
        path_file_name(p) matches Some(f) ==> f.len() > 0 && !f.contains('/'),
{
    lemma_pieces_plain(p, '/');
    lemma_last_real_segment_in(pieces(p, '/'));
    match path_file_name(p) {
        Some(f) => {
            let j = choose|j: int| 0 <= j < pieces(p, '/').len() && pieces(p, '/')[j] == f;
            assert(pieces(p, '/')[j].len() > 0);
        },
        None => {},
    }
}

/// A non-empty text without `/` neither starts nor ends with one.
proof fn lemma_plain_ends(f: Seq<char>)
    requires
        f.len() > 0,
        !f.contains('/'),
    ensures
        f[0] != '/',
        f.last() != '/',
{
    assert(f[0] != '/');
    assert(f[f.len() - 1] != '/');
}

/// Trimming a string pattern off the end leaves a prefix.
proof fn lemma_trim_end_pat_prefix(s: Seq<char>, p: Seq<char>)
    ensures
        trim_end_pat(s, p).len() <= s.len(),
        trim_end_pat(s, p) == s.subrange(0, trim_end_pat(s, p).len() as int),
    decreases s.len(),
{
    if p.len() > 0 && ends_with(s, p) {
        let s2 = s.subrange(0, s.len() - p.len());
        lemma_trim_end_pat_prefix(s2, p);
        assert(s2.subrange(0, trim_end_pat(s, p).len() as int) =~= s.subrange(
            0,
            trim_end_pat(s, p).len() as int,
        ));
    } else {
        assert(s.subrange(0, s.len() as int) =~= s);
    }
}

/// A parsed repository name is never empty and holds no `/`.
pub proof fn lemma_repo_name_plain(input: Seq<char>)
    ensures
        repo_slug_spec(input) matches Ok((o, n)) ==> n.len() > 0 && !n.contains('/'),
    decreases input.len(),
{
    let t = trim(input);
    if t.len() == 0 {
    } else if starts_with(t, "git@github.com:"@) {
        lemma_trim_len(input);
        reveal_strlit("git@github.com:");
        lemma_repo_name_plain(t.subrange("git@github.com:"@.len() as int, t.len() as int));
    } else {
        let path = match after_github_prefix(t) {
            Some(rest) => rest,
            None => t,
        };
        let segs = pieces(path, '/');
        if segs.len() >= 2 {
            lemma_pieces_plain(path, '/');
            let seg = segs[1];
            let name = trim_end_pat(seg, ".git"@);
            lemma_trim_end_pat_prefix(seg, ".git"@);
            assert(!name.contains('/')) by {
                if name.contains('/') {
                    let j = choose|j: int| 0 <= j < name.len() && name[j] == '/';
                    assert(seg[j] == '/');
                }
            }
        }
    }
}

/// Calls `Path::file_name` on the path made of `p` (a Unix path); its result, as the
/// standard library documents it, is [`path_file_name`].
#[verifier::external_body]
pub(crate) fn file_name_chars(p: &[char]) -> (r: Option<Vec<char>>)
    ensures
        match r {
            Some(f) => path_file_name(p@) == Some(f@),
            None => path_file_name(p@) is None,
        },
{
    let s: String = p.iter().collect();
    std::path::Path::new(&s).file_name().map(|f| f.to_string_lossy().chars().collect())
}

/// `base` joined with `rel` as `PathBuf::join` does on Unix: an absolute `rel` replaces
/// `base`; otherwise a `/` separator is added unless `base` is empty or already ends in one.
pub open spec fn path_join(base: Seq<char>, rel: Seq<char>) -> Seq<char> {
    if rel.len() > 0 && rel[0] == '/' {
        rel
    } else if base.len() == 0 || base.last() == '/' {
        base + rel
    } else {
        base + "/"@ + rel
    }
}

/// Workspace-relative part of `entry` below the (already `/`-trimmed) subtree `sub`.
pub open spec fn local_rel(entry: Seq<char>, sub: Seq<char>) -> Seq<char> {
    if sub.len() == 0 {
        entry
    } else if entry == sub {
        match path_file_name(entry) {
            Some(f) => f,
            None => entry,
        }
    } else if starts_with(entry, sub + "/"@) {
        entry.subrange((sub.len() + 1) as int, entry.len() as int)
    } else {
        entry
    }
}

/// The output path for a tree entry: `dest` (trimmed of `/`) joined with the entry path
/// relative to the requested subtree.
pub open spec fn local_path_spec(entry: Seq<char>, subpath: Seq<char>, dest: Seq<char>) -> Seq<
    char,
> {
    path_join(trim_char(dest, '/'), local_rel(entry, trim_char(subpath, '/')))
}

fn path_join_exec(base: &[char], rel: &[char]) -> (r: Vec<char>)
    ensures
        r@ == path_join(base@, rel@),
{
    proof {
        reveal_strlit("/");
    }
    if rel.len() > 0 && rel[0] == '/' {
        sub_vec(rel, 0, rel.len())
    } else {
        let mut v = sub_vec(base, 0, base.len());
        if !(base.len() == 0 || base[base.len() - 1] == '/') {
            v.push('/');
        }
        append_chars(&mut v, rel);
        proof {
            assert(base@.subrange(0, base@.len() as int) =~= base@);
            assert(rel@.subrange(0, rel@.len() as int) =~= rel@);
        }
        assert(v@ =~= path_join(base@, rel@));
        v
    }
}

/// Compute the workspace-relative output path for a tree entry, given the requested
/// `subpath` (which is stripped) and the `dest` directory.
pub fn local_path_for(entry_path: &str, subpath: &str, dest: &str) -> (r: String)
    ensures
        r@ == local_path_spec(entry_path@, subpath@, dest@),
{
    let entry = str_chars(entry_path);
    let sv = str_chars(subpath);
    let (a, b) = trim_char_range(sv.as_slice(), 0, sv.len(), '/');
    assert(sv@.subrange(0, sv@.len() as int) =~= sv@);
    let sub = sub_vec(sv.as_slice(), a, b);
    let rel: Vec<char> = if sub.len() == 0 {
        entry.clone()
    } else if eq_chars(entry.as_slice(), sub.as_slice()) {
        match file_name_chars(entry.as_slice()) {
            Some(f) => f,
            None => entry.clone(),
        }
    } else {
        let mut prefix = sub.clone();
        prefix.push('/');
        proof {
            reveal_strlit("/");
        }
        assert(prefix@ =~= sub@ + "/"@);
        if match_at(entry.as_slice(), 0, prefix.as_slice()) {
            sub_vec(entry.as_slice(), prefix.len(), entry.len())
        } else {
            entry.clone()
        }
    };
    let dv = str_chars(dest);
    let (c, d) = trim_char_range(dv.as_slice(), 0, dv.len(), '/');
    assert(dv@.subrange(0, dv@.len() as int) =~= dv@);
    let dtrim = sub_vec(dv.as_slice(), c, d);
    let joined = path_join_exec(dtrim.as_slice(), rel.as_slice());
    chars_to_string(joined.as_slice())
}

// ---------------------------------------------------------------------------
// Error hints and token resolution
// ---------------------------------------------------------------------------

/// Hint appended to a tree-fetch 404 without credentials.
pub open spec fn hint_404() -> Seq<char> {
    "\n\n\
     Hint: GitHub often returns **404** for **private** repos when no valid token is sent, \
     and sometimes for a wrong `branch` / typo in `owner/name`. For public repos, verify the \
     slug and branch. To authenticate, pass `token` in this call or set **`GITHUB_TOKEN`** \
     (or `GH_TOKEN`) in the process environment (e.g. daemon `~/.armaraos/.env`) — the tool does \
     not read `.env` from the workspace or `memory` automatically."@
}

/// Hint appended to a tree-fetch 401 without credentials.
pub open spec fn hint_401() -> Seq<char> {
    "\n\n\
     Hint: **`token` in the tool call must be a real GitHub PAT** or be omitted. Empty strings \
     are invalid. The chat LLM provider key is **not** a GitHub token. Check `GITHUB_TOKEN` / `GH_TOKEN` \
     in the daemon environment if you expect automatic auth."@
}

/// Hint appended to a tree-fetch 403 / rate-limit error without credentials.
pub open spec fn hint_403() -> Seq<char> {
    "\n\n\
     Hint: Unauthenticated GitHub API quota is low (~60 req/h). Set **`GITHUB_TOKEN`** or pass \
     `token` to raise limits."@
}

/// The tree-fetch error text shown to the agent: unchanged when credentials were sent,
/// otherwise followed by the hint that matches its status.
pub open spec fn enriched_error(err: Seq<char>, had_auth: bool) -> Seq<char> {
    if had_auth {
        err
    } else if contains(err, " 404 "@) {
        err + hint_404()
    } else if contains(err, " 401 "@) || contains(err, "Bad credentials"@) {
        err + hint_401()
    } else if contains(err, " 403 "@) || contains(err, "rate limit"@) {
        err + hint_403()
    } else {
        err
    }
}

/// Add an actionable hint to a tree-fetch error when no credentials were sent.
pub fn enrich_tree_fetch_error(err: String, had_auth: bool) -> (r: String)
    ensures
        r@ == enriched_error(err@, had_auth),
{
    if had_auth {
        return err;
    }
    let ev = str_chars(err.as_str());
    let mut out = ev.clone();
    if contains_str(ev.as_slice(), " 404 ") {
        append_str(
            &mut out,
            "\n\n\
             Hint: GitHub often returns **404** for **private** repos when no valid token is sent, \
             and sometimes for a wrong `branch` / typo in `owner/name`. For public repos, verify the \
             slug and branch. To authenticate, pass `token` in this call or set **`GITHUB_TOKEN`** \
             (or `GH_TOKEN`) in the process environment (e.g. daemon `~/.armaraos/.env`) — the tool does \
             not read `.env` from the workspace or `memory` automatically.",
        );
        return chars_to_string(out.as_slice());
    }
    if contains_str(ev.as_slice(), " 401 ") || contains_str(ev.as_slice(), "Bad credentials") {
        append_str(
            &mut out,
            "\n\n\
             Hint: **`token` in the tool call must be a real GitHub PAT** or be omitted. Empty strings \
             are invalid. The chat LLM provider key is **not** a GitHub token. Check `GITHUB_TOKEN` / `GH_TOKEN` \
             in the daemon environment if you expect automatic auth.",
        );
        return chars_to_string(out.as_slice());
    }
    if contains_str(ev.as_slice(), " 403 ") || contains_str(ev.as_slice(), "rate limit") {
        append_str(
            &mut out,
            "\n\n\
             Hint: Unauthenticated GitHub API quota is low (~60 req/h). Set **`GITHUB_TOKEN`** or pass \
             `token` to raise limits.",
        );
        return chars_to_string(out.as_slice());
    }
    err
}

/// Which credential [`resolve_github_token_with_env`] picked, and from where.
pub open spec fn token_choice(
    explicit: Option<Seq<char>>,
    github_token_env: Option<Seq<char>>,
    gh_token_env: Option<Seq<char>>,
) -> (Option<Seq<char>>, Seq<char>) {
    if explicit is Some && trim(explicit.unwrap()).len() > 0 {
        (Some(trim(explicit.unwrap())), "tool_parameter"@)
    } else if github_token_env is Some && trim(github_token_env.unwrap()).len() > 0 {
        (Some(trim(github_token_env.unwrap())), "env:GITHUB_TOKEN"@)
    } else if gh_token_env is Some && trim(gh_token_env.unwrap()).len() > 0 {
        (Some(trim(gh_token_env.unwrap())), "env:GH_TOKEN"@)
    } else {
        (None, "none"@)
    }
}

/// The view of an optional string.
pub open spec fn opt_view(o: Option<String>) -> Option<Seq<char>> {
    match o {
        Some(s) => Some(s@),
        None => None,
    }
}

fn trimmed_nonempty(o: &Option<String>) -> (r: Option<String>)
    ensures
        match r {
            Some(t) => o is Some && trim(o.unwrap()@).len() > 0 && t@ == trim(o.unwrap()@),
            None => o is None || trim(o.unwrap()@).len() == 0,
        },
{
    match o {
        Some(s) => {
            let v = str_chars(s.as_str());
            let t = trim_chars(v.as_slice());
            if t.len() > 0 {
                Some(chars_to_string(t.as_slice()))
            } else {
                None
            }
        },
        None => None,
    }
}

/// Resolve a GitHub PAT: an explicit `token` in the tool call wins, then the value of
/// `GITHUB_TOKEN`, then `GH_TOKEN` (both as read from the process environment by the
/// caller). Values are trimmed; empty or whitespace-only values are ignored. The second
/// component says where the token came from.
pub fn resolve_github_token_with_env(
    explicit: Option<String>,
    github_token_env: Option<String>,
    gh_token_env: Option<String>,
) -> (r: (Option<String>, &'static str))
    ensures
        opt_view(r.0) == token_choice(
            opt_view(explicit),
            opt_view(github_token_env),
            opt_view(gh_token_env),
        ).0,
        r.1@ == token_choice(opt_view(explicit), opt_view(github_token_env), opt_view(gh_token_env)).1,
{
    if let Some(t) = trimmed_nonempty(&explicit) {
        return (Some(t), "tool_parameter");
    }
    if let Some(t) = trimmed_nonempty(&github_token_env) {
        return (Some(t), "env:GITHUB_TOKEN");
    }
    if let Some(t) = trimmed_nonempty(&gh_token_env) {
        return (Some(t), "env:GH_TOKEN");
    }
    (None, "none")
}

// ---------------------------------------------------------------------------
// Tool parameters
// ---------------------------------------------------------------------------

/// Default soft ceiling on total payload bytes (50 MiB).
pub const DEFAULT_MAX_TOTAL_BYTES: u64 = 52428800;
/// Hard ceiling that `max_total_bytes` is clamped to (200 MiB).
pub const MAX_TOTAL_BYTES_HARD: u64 = 209715200;
/// Default soft ceiling on file count.
pub const DEFAULT_MAX_FILES: usize = 500;
/// Hard ceiling that `max_files` is clamped to.
pub const MAX_FILES_HARD: usize = 5000;

/// The fields of the tool's JSON input, as plain values. Each `Option` is `None` when
/// the field is absent or not of the expected JSON type; list fields hold `Some(s)` for
/// each string element and `None` for any other element.
#[derive(Debug, Clone)]
pub struct DownloadInput {
    pub repo: Option<String>,
    pub path: Option<String>,
    pub dest: Option<String>,
    /// Whether the `branch` key is present at all (any JSON type).
    pub branch_present: bool,
    pub branch: Option<String>,
    pub token: Option<String>,
    pub extensions: Option<Vec<Option<String>>>,
    pub exclude: Option<Vec<Option<String>>>,
    pub max_files: Option<u64>,
    pub max_total_bytes: Option<u64>,
    pub api_base: Option<String>,
    pub raw_base: Option<String>,
}

/// Inputs accepted by the download tool, validated once.
#[derive(Debug)]
pub struct DownloadParams {
    pub repo: RepoSlug,
    pub branch: String,
    pub branch_explicit: bool,
    pub path: String,
    pub dest: String,
    pub token: Option<String>,
    pub extensions: Vec<String>,
    pub exclude: Vec<String>,
    pub max_files: usize,
    pub max_total_bytes: u64,
    pub api_base: String,
    pub raw_base: String,
}

/// The string elements of an optional JSON array, in order (`filter_map(as_str)`).
pub open spec fn string_elements(a: Option<Vec<Option<String>>>) -> Seq<Seq<char>> {
    match a {
        Some(v) => string_elements_of(v@),
        None => Seq::empty(),
    }
}

/// The string elements of a JSON array, in order.
pub open spec fn string_elements_of(v: Seq<Option<String>>) -> Seq<Seq<char>>
    decreases v.len(),
{
    if v.len() == 0 {
        Seq::empty()
    } else {
        let init = string_elements_of(v.drop_last());
        match v.last() {
            Some(s) => init.push(s@),
            None => init,
        }
    }
}

fn string_elements_exec(a: &Option<Vec<Option<String>>>) -> (r: Vec<String>)
    ensures
        string_views(r@) == string_elements(*a),
{
    let mut out: Vec<String> = Vec::new();
    match a {
        Some(v) => {
            let mut i: usize = 0;
            while i < v.len()
                invariant
                    i <= v@.len(),
                    string_views(out@) == string_elements_of(v@.take(i as int)),
                decreases v.len() - i,
            {
                assert(v@.take(i + 1).drop_last() =~= v@.take(i as int));
                let ghost old_out = out@;
                match &v[i] {
                    Some(s) => {
                        out.push(s.clone());
                        assert(string_views(out@) =~= string_views(old_out).push(s@));
                    },
                    None => {},
                }
                i = i + 1;
            }
            assert(v@.take(v@.len() as int) =~= v@);
        },
        None => {},
    }
    out
}

/// The destination directory when the input gives none: the last component of `path`
/// when `path` is non-empty, else the repository name.
pub open spec fn default_dest(path: Seq<char>, repo_name: Seq<char>) -> Seq<char> {
    if path.len() == 0 {
        repo_name
    } else {
        match path_file_name(path) {
            Some(f) => f,
            None => repo_name,
        }
    }
}

/// `max_files` after clamping (default when absent).
pub open spec fn clamp_max_files(n: Option<u64>) -> usize {
    match n {
        Some(k) => if (k as usize) > MAX_FILES_HARD {
            MAX_FILES_HARD
        } else {
            k as usize
        },
        None => DEFAULT_MAX_FILES,
    }
}

/// `max_total_bytes` after clamping (default when absent).
pub open spec fn clamp_max_total(n: Option<u64>) -> u64 {
    match n {
        Some(k) => if k > MAX_TOTAL_BYTES_HARD {
            MAX_TOTAL_BYTES_HARD
        } else {
            k
        },
        None => DEFAULT_MAX_TOTAL_BYTES,
    }
}

/// An optional base URL without trailing `/`, or the default.
pub open spec fn base_url(o: Option<String>, default: Seq<char>) -> Seq<char> {
    match o {
        Some(s) => trim_end_char(s@, '/'),
        None => default,
    }
}

fn trimmed_slashes(s: &String) -> (r: Vec<char>)
    ensures
        r@ == trim_char(s@, '/'),
{
    let v = str_chars(s.as_str());
    let (a, b) = trim_char_range(v.as_slice(), 0, v.len(), '/');
    assert(v@.subrange(0, v@.len() as int) =~= v@);
    sub_vec(v.as_slice(), a, b)
}

fn base_url_exec(o: &Option<String>, default: &str) -> (r: String)
    ensures
        r@ == base_url(*o, default@),
{
    match o {
        Some(s) => {
            let v = str_chars(s.as_str());
            let b = trim_end_char_to(v.as_slice(), 0, v.len(), '/');
            assert(v@.subrange(0, v@.len() as int) =~= v@);
            sub_string(v.as_slice(), 0, b)
        },
        None => owned(default),
    }
}

/// What parsing guarantees of the parameters: caps within their hard ceilings, a token that
/// is non-empty and already trimmed, and a non-empty destination with no `/` at either end.
pub open spec fn params_clean(p: DownloadParams) -> bool {
    &&& p.max_files <= MAX_FILES_HARD
    &&& p.max_total_bytes <= MAX_TOTAL_BYTES_HARD
    &&& (p.token matches Some(t) ==> t@.len() > 0 && trim(t@) == t@)
    &&& p.dest@.len() > 0
    &&& p.dest@[0] != '/'
    &&& p.dest@.last() != '/'
}

/// Parse and validate the tool input.
///
/// Fails when `repo` is missing or not a repository reference. Otherwise: `path` and
/// `dest` lose surrounding `/`; an empty or absent `dest` defaults to the last component
/// of `path` (or the repository name when `path` is empty); `branch` defaults to `main`
/// and counts as explicit whenever the key is present; a blank `token` means no token;
/// `max_files` and `max_total_bytes` are clamped to their hard ceilings; base URLs lose
/// trailing `/` and default to the public GitHub hosts.
pub fn parse_params(input: &DownloadInput) -> (r: Result<DownloadParams, String>)
    ensures
        r matches Ok(p) ==> params_clean(p),
        input.repo is None ==> r is Err && r->Err_0@
            == "Missing `repo` (e.g. `owner/name` or `https://github.com/owner/name`)"@,
        input.repo is Some ==> match repo_slug_spec(input.repo.unwrap()@) {
            Err(m) => r is Err && r->Err_0@ == m,
            Ok((owner, name)) => r is Ok && {
                let p = r->Ok_0;
                let path = match input.path {
                    Some(s) => trim_char(s@, '/'),
                    None => Seq::empty(),
                };
                &&& p.repo.owner@ == owner
                &&& p.repo.name@ == name
                &&& p.path@ == path
                &&& p.dest@ == (if input.dest is Some && trim_char(input.dest.unwrap()@, '/').len()
                    > 0 {
                    trim_char(input.dest.unwrap()@, '/')
                } else {
                    default_dest(path, name)
                })
                &&& p.branch_explicit == input.branch_present
                &&& p.branch@ == (match input.branch {
                    Some(b) => b@,
                    None => "main"@,
                })
                &&& opt_view(p.token) == (if input.token is Some && trim(input.token.unwrap()@).len()
                    > 0 {
                    Some(trim(input.token.unwrap()@))
                } else {
                    None
                })
                &&& string_views(p.extensions@) == string_elements(input.extensions)
                &&& string_views(p.exclude@) == string_elements(input.exclude)
                &&& p.max_files == clamp_max_files(input.max_files)
                &&& p.max_total_bytes == clamp_max_total(input.max_total_bytes)
                &&& p.api_base@ == base_url(input.api_base, "https://api.github.com"@)
                &&& p.raw_base@ == base_url(input.raw_base, "https://raw.githubusercontent.com"@)
            },
        },
{
    let repo_str = match &input.repo {
        Some(s) => s,
        None => {
            return Err(
                owned("Missing `repo` (e.g. `owner/name` or `https://github.com/owner/name`)"),
            );
        },
    };
    let repo = match parse_repo_slug(repo_str.as_str()) {
        Ok(r) => r,
        Err(e) => {
            return Err(e);
        },
    };
    let path: Vec<char> = match &input.path {
        Some(s) => trimmed_slashes(s),
        None => Vec::new(),
    };
    let dest_given: Option<Vec<char>> = match &input.dest {
        Some(s) => {
            let t = trimmed_slashes(s);
            if t.len() > 0 {
                Some(t)
            } else {
                None
            }
        },
        None => None,
    };
    let dest: Vec<char> = match dest_given {
        Some(t) => t,
        None => {
            if path.len() == 0 {
                str_chars(repo.name.as_str())
            } else {
                match file_name_chars(path.as_slice()) {
                    Some(f) => f,
                    None => str_chars(repo.name.as_str()),
                }
            }
        },
    };
    let branch = match &input.branch {
        Some(b) => b.clone(),
        None => owned("main"),
    };
    let token = trimmed_nonempty(&input.token);
    let extensions = string_elements_exec(&input.extensions);
    let exclude = string_elements_exec(&input.exclude);
    let max_files = match input.max_files {
        Some(n) => {
            let m = n as usize;
            if m > MAX_FILES_HARD {
                MAX_FILES_HARD
            } else {
                m
            }
        },
        None => DEFAULT_MAX_FILES,
    };
    let max_total_bytes = match input.max_total_bytes {
        Some(n) => if n > MAX_TOTAL_BYTES_HARD {
            MAX_TOTAL_BYTES_HARD
        } else {
            n
        },
        None => DEFAULT_MAX_TOTAL_BYTES,
    };
    let api_base = base_url_exec(&input.api_base, "https://api.github.com");
    let raw_base = base_url_exec(&input.raw_base, "https://raw.githubusercontent.com");
    proof {
        lemma_repo_name_plain(repo_str@);
        lemma_file_name_plain(path@);
        if input.dest is Some {
            lemma_trim_char_ends(input.dest.unwrap()@, '/');
        }
        if input.token is Some {
            lemma_trim_idempotent(input.token.unwrap()@);
        }
        if dest@.len() > 0 && !dest@.contains('/') {
            lemma_plain_ends(dest@);
        }
    }
    Ok(
        DownloadParams {
            repo,
            branch,
            branch_explicit: input.branch_present,
            path: chars_to_string(path.as_slice()),
            dest: chars_to_string(dest.as_slice()),
            token,
            extensions,
            exclude,
            max_files,
            max_total_bytes,
            api_base,
            raw_base,
        },
    )
}

// ---------------------------------------------------------------------------
// Download bookkeeping
// ---------------------------------------------------------------------------

/// Manifest returned to the agent: what was written, skipped (with reasons), and failed.
#[derive(Debug, PartialEq, Eq)]
pub struct DownloadManifest {
    pub ok: bool,
    /// How auth was provided: `none`, `tool_parameter`, `env:GITHUB_TOKEN`, or `env:GH_TOKEN`.
    pub token_source: String,
    pub repo: String,
    pub branch: String,
    pub path: String,
    pub dest: String,
    pub files_written: Vec<WrittenFile>,
    pub total_bytes: u64,
    pub skipped: Vec<SkippedFile>,
    pub errors: Vec<FileError>,
}

/// The token source a manifest reports when none was recorded.
pub fn default_token_source_none() -> (r: String)
    ensures
        r@ == "none"@,
{
    owned("none")
}

/// Sum of the byte counts of written files.
pub open spec fn written_total(w: Seq<WrittenFile>) -> int
    decreases w.len(),
{
    if w.len() == 0 {
        0
    } else {
        written_total(w.drop_last()) + w.last().bytes
    }
}

/// Whether the tree fetch should be retried on `master` after `err`: only when the agent
/// did not pin a branch and the error is a 404.
pub open spec fn retry_on_master(err: Seq<char>, branch_explicit: bool) -> bool {
    !branch_explicit && contains(err, " 404 "@)
}

/// A tree fetch that failed with a 404 is retried on `master` exactly when the agent did not
/// pin a branch; a pinned branch is never retried, and no other error is.
pub proof fn law_master_retry_only_for_unpinned_404(err: Seq<char>)
    ensures
        retry_on_master(err, false) <==> contains(err, " 404 "@),
        !retry_on_master(err, true),
{
}

/// Whether the tree fetch should be retried on `master` after `err`.
pub fn should_retry_on_master(err: &str, branch_explicit: bool) -> (r: bool)
    ensures
        r == retry_on_master(err@, branch_explicit),
        !branch_explicit ==> (r <==> contains(err@, " 404 "@)),
        branch_explicit ==> !r,
{
    if branch_explicit {
        return false;
    }
    let ev = str_chars(err);
    contains_str(ev.as_slice(), " 404 ")
}

/// The branch that blobs are fetched from: `master` when the tree came back empty and the
/// agent did not pin a branch, else the requested branch.
pub fn effective_branch(tree_is_empty: bool, branch_explicit: bool, branch: &str) -> (r: String)
    ensures
        r@ == (if tree_is_empty && !branch_explicit {
            "master"@
        } else {
            branch@
        }),
{
    if tree_is_empty && !branch_explicit {
        owned("master")
    } else {
        owned(branch)
    }
}

/// Reason text for entries beyond the file-count cap.
pub open spec fn max_files_reason(max_files: usize) -> Seq<char> {
    "max_files cap ("@ + decimal(max_files as nat) + ") reached"@
}

/// Keep the first `max_files` entries; every entry beyond the cap is recorded in
/// `skipped` (in order) with the cap as reason.
pub fn cap_file_count(kept: Vec<TreeEntry>, skipped: &mut Vec<SkippedFile>, max_files: usize) -> (r:
    Vec<TreeEntry>)
    ensures
        kept@.len() <= max_files ==> r@ == kept@ && final(skipped)@ == old(skipped)@,
        kept@.len() > max_files ==> {
            &&& r@ == kept@.take(max_files as int)
            &&& final(skipped)@.len() == old(skipped)@.len() + kept@.len() - max_files
            &&& final(skipped)@.take(old(skipped)@.len() as int) == old(skipped)@
            &&& forall|k: int|
                0 <= k < kept@.len() - max_files ==> {
                    &&& (#[trigger] final(skipped)@[old(skipped)@.len() + k]).repo_path@
                        == kept@[max_files + k].path@
                    &&& final(skipped)@[old(skipped)@.len() + k].reason@ == max_files_reason(
                        max_files,
                    )
                }
        },
{
    if kept.len() <= max_files {
        return kept;
    }
    let mut out: Vec<TreeEntry> = Vec::new();
    let mut i: usize = 0;
    let ghost start = skipped@;
    while i < kept.len()
        invariant
            i <= kept@.len(),
            kept@.len() > max_files,
            i <= max_files ==> out@ == kept@.take(i as int) && skipped@ == start,
            i > max_files ==> {
                &&& out@ == kept@.take(max_files as int)
                &&& skipped@.len() == start.len() + i - max_files
                &&& skipped@.take(start.len() as int) == start
                &&& forall|k: int|
                    0 <= k < i - max_files ==> {
                        &&& (#[trigger] skipped@[start.len() + k]).repo_path@ == kept@[max_files
                            + k].path@
                        &&& skipped@[start.len() + k].reason@ == max_files_reason(max_files)
                    }
            },
        decreases kept.len() - i,
    {
        if i < max_files {
            out.push(clone_entry(&kept[i]));
            assert(out@ =~= kept@.take(i + 1));
        } else {
            let mut reason: Vec<char> = Vec::new();
            append_str(&mut reason, "max_files cap (");
            append_chars(&mut reason, u64_decimal(max_files as u64).as_slice());
            append_str(&mut reason, ") reached");
            let ghost before = skipped@;
            skipped.push(
                SkippedFile { repo_path: kept[i].path.clone(), reason: chars_to_string(reason.as_slice()) },
            );
            assert(skipped@.take(start.len() as int) =~= before.take(start.len() as int));
        }
        i = i + 1;
    }
    out
}

/// The entries a download works through: the filter's kept entries, cut to the first
/// `max_files`.
pub open spec fn download_queue(kept: Seq<TreeEntry>, max_files: usize) -> Seq<TreeEntry> {
    if kept.len() <= max_files {
        kept
    } else {
        kept.take(max_files as int)
    }
}

/// Per-download bookkeeping. It holds the entries to download and hands them out one at a
/// time, in order; a file is recorded as written only for the entry last handed out, at most
/// once. It never lets the running total exceed `max_total_bytes`, and `total_bytes` always
/// equals the sum of the written files' sizes.
pub struct DownloadLedger {
    pub max_total_bytes: u64,
    pub total_bytes: u64,
    pub written: Vec<WrittenFile>,
    pub skipped: Vec<SkippedFile>,
    pub errors: Vec<FileError>,
    /// The entries to download, in order.
    pub queue: Vec<TreeEntry>,
    /// How many entries of the queue have been handed out.
    pub cursor: usize,
    /// The entry last handed out has been recorded as written.
    pub current_written: bool,
}

/// Every written file is an entry of `queue[..cursor]`, and there are at most as many written
/// files as entries handed out (one fewer while the last one is not yet written).
pub open spec fn written_from_queue(
    written: Seq<WrittenFile>,
    queue: Seq<TreeEntry>,
    cursor: int,
    current_written: bool,
) -> bool {
    &&& cursor <= queue.len()
    &&& written.len() + (if cursor > 0 && !current_written {
        1int
    } else {
        0int
    }) <= cursor
    &&& forall|i: int|
        0 <= i < written.len() ==> path_among((#[trigger] written[i]).repo_path@, queue, cursor)
}

/// `p` is the path of one of the first `n` entries.
pub open spec fn path_among(p: Seq<char>, entries: Seq<TreeEntry>, n: int) -> bool {
    exists|k: int| #![trigger entries[k]] 0 <= k < n && k < entries.len() && entries[k].path@ == p
}

impl DownloadLedger {
    /// The ledger's invariant.
    pub open spec fn wf(&self) -> bool {
        &&& self.total_bytes as int == written_total(self.written@)
        &&& self.total_bytes <= self.max_total_bytes
        &&& forall|i: int|
            0 <= i < self.written@.len() ==> (#[trigger] self.written@[i]).bytes
                <= MAX_PER_FILE_BYTES
        &&& written_from_queue(self.written@, self.queue@, self.cursor as int, self.current_written)
    }

    /// A fresh ledger over `queue`, with the given total-bytes cap, carrying the filter's skip
    /// records.
    pub fn new(max_total_bytes: u64, skipped: Vec<SkippedFile>, queue: Vec<TreeEntry>) -> (r: Self)
        ensures
            r.wf(),
            r.max_total_bytes == max_total_bytes,
            r.total_bytes == 0,
            r.written@.len() == 0,
            r.skipped@ == skipped@,
            r.errors@.len() == 0,
            r.queue@ == queue@,
            r.cursor == 0,
            !r.current_written,
    {
        DownloadLedger {
            max_total_bytes,
            total_bytes: 0,
            written: Vec::new(),
            skipped,
            errors: Vec::new(),
            queue,
            cursor: 0,
            current_written: false,
        }
    }

    /// Hands out the next entry to download, in queue order; `None` once all were handed out.
    pub fn next_entry(&mut self) -> (r: Option<TreeEntry>)
        requires
            old(self).wf(),
        ensures
            final(self).wf(),
            old(self).cursor < old(self).queue@.len() ==> r == Some(old(self).queue@[old(self).cursor as int])
                && final(self).cursor == old(self).cursor + 1 && !final(self).current_written,
            old(self).cursor >= old(self).queue@.len() ==> r is None && final(self).cursor
                == old(self).cursor && final(self).current_written == old(self).current_written,
            final(self).queue@ == old(self).queue@,
            final(self).written@ == old(self).written@,
            final(self).skipped@ == old(self).skipped@,
            final(self).errors@ == old(self).errors@,
            final(self).total_bytes == old(self).total_bytes,
            final(self).max_total_bytes == old(self).max_total_bytes,
    {
        if self.cursor < self.queue.len() {
            let e = clone_entry(&self.queue[self.cursor]);
            self.cursor = self.cursor + 1;
            self.current_written = false;
            proof {
                let w = self.written@;
                assert forall|i: int| 0 <= i < w.len() implies path_among(
                    (#[trigger] w[i]).repo_path@,
                    self.queue@,
                    self.cursor as int,
                ) by {
                    assert(path_among(w[i].repo_path@, old(self).queue@, old(self).cursor as int));
                    let k = choose|k: int|
                        #![trigger old(self).queue@[k]]
                        0 <= k < old(self).cursor && k < old(self).queue@.len()
                            && old(self).queue@[k].path@ == w[i].repo_path@;
                    assert(self.queue@[k].path@ == w[i].repo_path@);
                }
            }
            Some(e)
        } else {
            None
        }
    }

    /// Before fetching `repo_path`: when the cap is already reached, record the skip and
    /// answer `false`; otherwise answer `true` and change nothing.
    pub fn admit_before_fetch(&mut self, repo_path: &str) -> (r: bool)
        requires
            old(self).wf(),
        ensures
            final(self).wf(),
            r == (old(self).total_bytes < old(self).max_total_bytes),
            final(self).total_bytes == old(self).total_bytes,
            final(self).max_total_bytes == old(self).max_total_bytes,
            final(self).queue@ == old(self).queue@,
            final(self).cursor == old(self).cursor,
            final(self).current_written == old(self).current_written,
            final(self).written@ == old(self).written@,
            final(self).errors@ == old(self).errors@,
            r ==> final(self).skipped@ == old(self).skipped@,
            !r ==> final(self).skipped@.len() == old(self).skipped@.len() + 1
                && final(self).skipped@.drop_last() == old(self).skipped@
                && final(self).skipped@.last().repo_path@ == repo_path@
                && final(self).skipped@.last().reason@ == "max_total_bytes cap ("@ + decimal(
                old(self).max_total_bytes as nat,
            ) + " bytes) reached before this file"@,
    {
        if self.total_bytes >= self.max_total_bytes {
            let mut reason: Vec<char> = Vec::new();
            append_str(&mut reason, "max_total_bytes cap (");
            append_chars(&mut reason, u64_decimal(self.max_total_bytes).as_slice());
            append_str(&mut reason, " bytes) reached before this file");
            self.skipped.push(
                SkippedFile { repo_path: owned(repo_path), reason: chars_to_string(reason.as_slice()) },
            );
            false
        } else {
            true
        }
    }

    /// After fetching `len` bytes of `repo_path`: skip (with the reason recorded) when the
    /// body is over the per-file cap or would push the total over `max_total_bytes`;
    /// otherwise answer `true` and change nothing.
    pub fn admit_after_fetch(&mut self, repo_path: &str, len: u64) -> (r: bool)
        requires
            old(self).wf(),
        ensures
            final(self).wf(),
            r == (len <= MAX_PER_FILE_BYTES && old(self).total_bytes + len
                <= old(self).max_total_bytes),
            final(self).total_bytes == old(self).total_bytes,
            final(self).max_total_bytes == old(self).max_total_bytes,
            final(self).queue@ == old(self).queue@,
            final(self).cursor == old(self).cursor,
            final(self).current_written == old(self).current_written,
            final(self).written@ == old(self).written@,
            final(self).errors@ == old(self).errors@,
            r ==> final(self).skipped@ == old(self).skipped@,
            !r ==> final(self).skipped@.len() == old(self).skipped@.len() + 1
                && final(self).skipped@.drop_last() == old(self).skipped@
                && final(self).skipped@.last().repo_path@ == repo_path@
                && final(self).skipped@.last().reason@ == (if len > MAX_PER_FILE_BYTES {
                "blob body is "@ + decimal(len as nat) + " bytes (per-file cap "@ + decimal(
                    MAX_PER_FILE_BYTES as nat,
                ) + " bytes)"@
            } else {
                "would exceed max_total_bytes cap ("@ + decimal(old(self).max_total_bytes as nat)
                    + " bytes)"@
            }),
    {
        if len > MAX_PER_FILE_BYTES {
            let mut reason: Vec<char> = Vec::new();
            append_str(&mut reason, "blob body is ");
            append_chars(&mut reason, u64_decimal(len).as_slice());
            append_str(&mut reason, " bytes (per-file cap ");
            append_chars(&mut reason, u64_decimal(MAX_PER_FILE_BYTES).as_slice());
            append_str(&mut reason, " bytes)");
            self.skipped.push(
                SkippedFile { repo_path: owned(repo_path), reason: chars_to_string(reason.as_slice()) },
            );
            return false;
        }
        if len > self.max_total_bytes - self.total_bytes {
            let mut reason: Vec<char> = Vec::new();
            append_str(&mut reason, "would exceed max_total_bytes cap (");
            append_chars(&mut reason, u64_decimal(self.max_total_bytes).as_slice());
            append_str(&mut reason, " bytes)");
            self.skipped.push(
                SkippedFile { repo_path: owned(repo_path), reason: chars_to_string(reason.as_slice()) },
            );
            return false;
        }
        true
    }

    /// Record a file that failed to download or write.
    pub fn record_error(&mut self, repo_path: &str, error: String)
        requires
            old(self).wf(),
        ensures
            final(self).wf(),
            final(self).total_bytes == old(self).total_bytes,
            final(self).max_total_bytes == old(self).max_total_bytes,
            final(self).queue@ == old(self).queue@,
            final(self).cursor == old(self).cursor,
            final(self).current_written == old(self).current_written,
            final(self).written@ == old(self).written@,
            final(self).skipped@ == old(self).skipped@,
            final(self).errors@.len() == old(self).errors@.len() + 1,
            final(self).errors@.drop_last() == old(self).errors@,
            final(self).errors@.last().repo_path@ == repo_path@,
            final(self).errors@.last().error@ == error@,
    {
        self.errors.push(FileError { repo_path: owned(repo_path), error });
    }

    /// Record the entry last handed out as written to `local_path` with `len` bytes, after
    /// [`DownloadLedger::admit_after_fetch`] accepted it.
    pub fn record_written(&mut self, local_path: String, len: u64)
        requires
            old(self).wf(),
            old(self).cursor > 0,
            !old(self).current_written,
            len <= MAX_PER_FILE_BYTES,
            old(self).total_bytes + len <= old(self).max_total_bytes,
        ensures
            final(self).wf(),
            final(self).total_bytes == old(self).total_bytes + len,
            final(self).max_total_bytes == old(self).max_total_bytes,
            final(self).skipped@ == old(self).skipped@,
            final(self).errors@ == old(self).errors@,
            final(self).queue@ == old(self).queue@,
            final(self).cursor == old(self).cursor,
            final(self).current_written,
            final(self).written@.len() == old(self).written@.len() + 1,
            final(self).written@.drop_last() == old(self).written@,
            final(self).written@.last().repo_path@ == old(self).queue@[old(self).cursor - 1].path@,
            final(self).written@.last().local_path@ == local_path@,
            final(self).written@.last().bytes == len,
    {
        let ghost old_w = self.written@;
        let repo_path = self.queue[self.cursor - 1].path.clone();
        self.total_bytes = self.total_bytes + len;
        self.written.push(WrittenFile { repo_path, local_path, bytes: len });
        self.current_written = true;
        assert(self.written@.drop_last() =~= old_w);
        proof {
            let w = self.written@;
            let c = self.cursor as int;
            assert forall|i: int| 0 <= i < w.len() implies path_among(
                (#[trigger] w[i]).repo_path@,
                self.queue@,
                c,
            ) by {
                if i < old_w.len() {
                    assert(w[i] == old_w[i]);
                } else {
                    assert(self.queue@[c - 1].path@ == w[i].repo_path@);
                }
            }
        }
    }

    /// Record that GitHub reported the recursive tree as truncated.
    pub fn note_truncated(&mut self)
        requires
            old(self).wf(),
        ensures
            final(self).wf(),
            final(self).total_bytes == old(self).total_bytes,
            final(self).max_total_bytes == old(self).max_total_bytes,
            final(self).queue@ == old(self).queue@,
            final(self).cursor == old(self).cursor,
            final(self).current_written == old(self).current_written,
            final(self).written@ == old(self).written@,
            final(self).errors@ == old(self).errors@,
            final(self).skipped@.len() == old(self).skipped@.len() + 1,
            final(self).skipped@.drop_last() == old(self).skipped@,
            final(self).skipped@.last().repo_path@ == "<github-tree-truncated>"@,
    {
        self.skipped.push(
            SkippedFile {
                repo_path: owned("<github-tree-truncated>"),
                reason: owned(
                    "GitHub reported the recursive tree was truncated; some files in deep paths \
                     may be missing from this manifest. Re-run with a narrower `path` to ensure \
                     full coverage.",
                ),
            },
        );
    }

    /// The manifest for this download. It is `ok` exactly when no file failed.
    pub fn finish(
        self,
        token_source: &str,
        repo: &RepoSlug,
        branch: String,
        path: String,
        dest: String,
    ) -> (m: DownloadManifest)
        requires
            self.wf(),
        ensures
            m.ok == (self.errors@.len() == 0),
            m.token_source@ == token_source@,
            m.repo@ == repo.owner@ + "/"@ + repo.name@,
            m.branch@ == branch@,
            m.path@ == path@,
            m.dest@ == dest@,
            m.files_written@ == self.written@,
            m.total_bytes == self.total_bytes,
            m.total_bytes as int == written_total(m.files_written@),
            m.total_bytes <= self.max_total_bytes,
            m.skipped@ == self.skipped@,
            m.errors@ == self.errors@,
            m.files_written@.len() <= self.queue@.len(),
            written_among(m.files_written@, self.queue@),
    {
        let mut r: Vec<char> = str_chars(repo.owner.as_str());
        append_str(&mut r, "/");
        append_str(&mut r, repo.name.as_str());
        let ok = self.errors.len() == 0;
        proof {
            let w = self.written@;
            let q = self.queue@;
            assert forall|i: int| 0 <= i < w.len() implies path_among(
                (#[trigger] w[i]).repo_path@,
                q,
                q.len() as int,
            ) by {
                assert(path_among(w[i].repo_path@, q, self.cursor as int));
                let k = choose|k: int| #![trigger q[k]] 0 <= k < self.cursor && k < q.len() && q[k].path@ == w[i].repo_path@;
                assert(q[k].path@ == w[i].repo_path@);
            }
        }
        DownloadManifest {
            ok,
            token_source: owned(token_source),
            repo: chars_to_string(r.as_slice()),
            branch,
            path,
            dest,
            files_written: self.written,
            total_bytes: self.total_bytes,
            skipped: self.skipped,
            errors: self.errors,
        }
    }
}

/// The ledger for a fetched tree: the filter's kept entries, cut to `max_files`, make the
/// queue; its skip records are the filter's, then the entries cut by the cap.
pub fn plan_download(entries: &[TreeEntry], params: &DownloadParams) -> (r: DownloadLedger)
    ensures
        r.wf(),
        r.queue@ == download_queue(
            filter_spec(
                entries@,
                trim_char(params.path@, '/'),
                string_views(params.extensions@),
                string_views(params.exclude@),
            ).0,
            params.max_files,
        ),
        r.queue@.len() <= params.max_files,
        r.max_total_bytes == params.max_total_bytes,
        r.total_bytes == 0,
        r.written@.len() == 0,
        r.errors@.len() == 0,
        r.cursor == 0,
{
    let (kept, mut skipped) = filter_tree_entries(
        entries,
        params.path.as_str(),
        params.extensions.as_slice(),
        params.exclude.as_slice(),
    );
    let queue = cap_file_count(kept, &mut skipped, params.max_files);
    DownloadLedger::new(params.max_total_bytes, skipped, queue)
}

/// Each written file is one of `entries`, by repository path.
pub open spec fn written_among(written: Seq<WrittenFile>, entries: Seq<TreeEntry>) -> bool {
    forall|i: int|
        0 <= i < written.len() ==> path_among((#[trigger] written[i]).repo_path@, entries, entries.len() as int)
}

/// A download writes only entries the tree filter kept, and at most `max_files` of them: every
/// file a ledger planned by [`plan_download`] records as written is an entry of its queue,
/// which is a prefix of the filter's kept entries no longer than `max_files`.
pub proof fn law_download_writes_kept_entries(
    entries: Seq<TreeEntry>,
    sub: Seq<char>,
    extensions: Seq<Seq<char>>,
    exclude: Seq<Seq<char>>,
    max_files: usize,
    written: Seq<WrittenFile>,
    cursor: int,
    current_written: bool,
)
    requires
        written_from_queue(
            written,
            download_queue(filter_spec(entries, sub, extensions, exclude).0, max_files),
            cursor,
            current_written,
        ),
    ensures
        written.len() <= max_files,
        written_among(written, filter_spec(entries, sub, extensions, exclude).0),
{
    lemma_written_among_prefix(
        written,
        filter_spec(entries, sub, extensions, exclude).0,
        max_files,
        cursor,
        current_written,
    );
}

proof fn lemma_written_among_prefix(
    written: Seq<WrittenFile>,
    kept: Seq<TreeEntry>,
    max_files: usize,
    cursor: int,
    current_written: bool,
)
    requires
        written_from_queue(written, download_queue(kept, max_files), cursor, current_written),
    ensures
        written.len() <= max_files,
        written_among(written, kept),
{
    assert forall|i: int| 0 <= i < written.len() implies path_among(
        (#[trigger] written[i]).repo_path@,
        kept,
        kept.len() as int,
    ) by {
        let q = download_queue(kept, max_files);
        assert(path_among(written[i].repo_path@, q, cursor));
        let k = choose|k: int| #![trigger q[k]] 0 <= k < cursor && k < q.len() && q[k].path@ == written[i].repo_path@;
        assert(q[k] == kept[k]);
        assert(kept[k].path@ == written[i].repo_path@);
    }
}

// ---------------------------------------------------------------------------
// Requests
// ---------------------------------------------------------------------------

/// The recursive tree endpoint of a branch.
pub fn tree_url(api_base: &str, owner: &str, name: &str, branch: &str) -> (r: String)
    ensures
        r@ == api_base@ + "/repos/"@ + owner@ + "/"@ + name@ + "/git/trees/"@ + branch@ + "?recursive=1"@,
{
    let mut v = str_chars(api_base);
    append_str(&mut v, "/repos/");
    append_str(&mut v, owner);
    append_str(&mut v, "/");
    append_str(&mut v, name);
    append_str(&mut v, "/git/trees/");
    append_str(&mut v, branch);
    append_str(&mut v, "?recursive=1");
    chars_to_string(v.as_slice())
}

/// The raw-content address of one file of a branch.
pub fn blob_url(raw_base: &str, owner: &str, name: &str, branch: &str, path: &str) -> (r: String)
    ensures
        r@ == raw_base@ + "/"@ + owner@ + "/"@ + name@ + "/"@ + branch@ + "/"@ + path@,
{
    let mut v = str_chars(raw_base);
    append_str(&mut v, "/");
    append_str(&mut v, owner);
    append_str(&mut v, "/");
    append_str(&mut v, name);
    append_str(&mut v, "/");
    append_str(&mut v, branch);
    append_str(&mut v, "/");
    append_str(&mut v, path);
    chars_to_string(v.as_slice())
}

/// Most bytes of a failed tree response's body quoted in the error.
pub const TREE_ERROR_BODY_BYTES: usize = 400;

/// The failure of a tree request answered with a non-success status: the status, the address
/// and the start of the body (at most [`TREE_ERROR_BODY_BYTES`] bytes, cut between
/// characters).
pub fn tree_status_error(status: &str, url: &str, body: &str) -> (r: String)
    ensures
        exists|k: int|
            0 <= k <= body@.len() && r@ == "GitHub API returned "@ + status@ + " for "@ + url@ + ": "@
                + body@.take(k) && vstd::utf8::encode_utf8(#[trigger] body@.take(k)).len() <= TREE_ERROR_BODY_BYTES
                && (k == body@.len() || vstd::utf8::encode_utf8(body@.take(k + 1)).len() > TREE_ERROR_BODY_BYTES),
{
    let cut = crate::document_format::utf8_prefix_within(body, TREE_ERROR_BODY_BYTES);
    let mut v = str_chars("GitHub API returned ");
    append_str(&mut v, status);
    append_str(&mut v, " for ");
    append_str(&mut v, url);
    append_str(&mut v, ": ");
    append_str(&mut v, cut.as_str());
    chars_to_string(v.as_slice())
}

/// The failure of a file request answered with a non-success status.
pub fn blob_status_error(status: &str, url: &str) -> (r: String)
    ensures
        r@ == "Raw GET "@ + status@ + " for "@ + url@,
{
    let mut v = str_chars("Raw GET ");
    append_str(&mut v, status);
    append_str(&mut v, " for ");
    append_str(&mut v, url);
    chars_to_string(v.as_slice())
}

} // verus!
