//! What the volume-management tool reports, and how the library reads it.
//!
//! The tool runs outside the library. Each run ends in a [`ToolOutcome`];
//! the functions here turn its text into paths or into a [`HierarchyError`].

use vstd::prelude::*;

verus! {

/// How one run of the volume-management tool ended.
#[derive(Debug, Clone, PartialEq, Eq)]
pub enum ToolOutcome {
    /// Exit status zero; holds what the tool printed on stdout.
    Succeeded(String),
    /// Non-zero exit status; holds what the tool printed on stderr.
    Failed(String),
    /// The tool could not be launched; holds the reason.
    Unavailable(String),
}

/// The ways discovery and replication fail. Each holds the diagnostic text.
#[derive(Debug, Clone, PartialEq, Eq)]
pub enum HierarchyError {
    /// `show` refused the path: it is missing or not a subvolume.
    NotASubvolume(String),
    /// The tool could not be launched.
    ExternalToolUnavailable(String),
    /// The listing query failed.
    ChildListingFailed(String),
    /// A directory node could not be made, for a reason other than
    /// already being there.
    DirectoryCreationFailed(String),
    /// `create` failed for a subvolume.
    SubvolumeCreationFailed(String),
    /// The destination did not resolve after it was found or created.
    ReplicationVerificationFailed(String),
}

impl HierarchyError {
    /// The diagnostic text the error carries.
    pub fn diagnostic(&self) -> (r: &String)
        ensures
            r@ == self.diagnostic_spec(),
    {
        match self {
            HierarchyError::NotASubvolume(s) => s,
            HierarchyError::ExternalToolUnavailable(s) => s,
            HierarchyError::ChildListingFailed(s) => s,
            HierarchyError::DirectoryCreationFailed(s) => s,
            HierarchyError::SubvolumeCreationFailed(s) => s,
            HierarchyError::ReplicationVerificationFailed(s) => s,
        }
    }

    /// The diagnostic text, as a sequence of characters.
    pub open spec fn diagnostic_spec(&self) -> Seq<char> {
        match self {
            HierarchyError::NotASubvolume(s) => s@,
            HierarchyError::ExternalToolUnavailable(s) => s@,
            HierarchyError::ChildListingFailed(s) => s@,
            HierarchyError::DirectoryCreationFailed(s) => s@,
            HierarchyError::SubvolumeCreationFailed(s) => s@,
            HierarchyError::ReplicationVerificationFailed(s) => s@,
        }
    }
}

/// `l` without one trailing carriage return.
pub open spec fn strip_cr(l: Seq<char>) -> Seq<char> {
    if l.len() > 0 && l.last() == '\r' {
        l.drop_last()
    } else {
        l
    }
}

/// The lines of `s` from position `i` on, the current line having started
/// at `start`. A line ends at `\n` (and then loses one `\r` before it); a
/// last line without `\n` is kept only when it is not empty.
pub open spec fn lines_from(s: Seq<char>, start: int, i: int) -> Seq<Seq<char>>
    decreases s.len() - i,
{
    if i >= s.len() {
        if start < s.len() {
            seq![s.subrange(start, s.len() as int)]
        } else {
            seq![]
        }
    } else if s[i] == '\n' {
        seq![strip_cr(s.subrange(start, i))] + lines_from(s, i + 1, i + 1)
    } else {
        lines_from(s, start, i + 1)
    }
}

/// The lines of the text `s`.
pub open spec fn text_lines(s: Seq<char>) -> Seq<Seq<char>> {
    lines_from(s, 0, 0)
}

/// The whitespace that separates tokens: Unicode's White_Space property.
pub open spec fn is_space(c: char) -> bool {
    ||| ('\u{9}' <= c && c <= '\u{d}')
    ||| c == ' '
    ||| c == '\u{85}'
    ||| c == '\u{a0}'
    ||| c == '\u{1680}'
    ||| ('\u{2000}' <= c && c <= '\u{200a}')
    ||| c == '\u{2028}'
    ||| c == '\u{2029}'
    ||| c == '\u{202f}'
    ||| c == '\u{205f}'
    ||| c == '\u{3000}'
}

fn space(c: char) -> (b: bool)
    ensures
        b == is_space(c),
{
    ('\u{9}' <= c && c <= '\u{d}') || c == ' ' || c == '\u{85}' || c == '\u{a0}' || c
        == '\u{1680}' || ('\u{2000}' <= c && c <= '\u{200a}') || c == '\u{2028}' || c
        == '\u{2029}' || c == '\u{202f}' || c == '\u{205f}' || c == '\u{3000}'
}

/// The end of `l[..e]` once trailing whitespace is dropped.
pub open spec fn trimmed_end(l: Seq<char>, e: int) -> int
    decreases e,
{
    if e > 0 && is_space(l[e - 1]) {
        trimmed_end(l, e - 1)
    } else {
        e
    }
}

/// Where the token that ends at `e` starts.
pub open spec fn token_start(l: Seq<char>, e: int) -> int
    decreases e,
{
    if e > 0 && !is_space(l[e - 1]) {
        token_start(l, e - 1)
    } else {
        e
    }
}

/// The last whitespace-separated token of `l` (empty when it has none).
pub open spec fn last_token(l: Seq<char>) -> Seq<char> {
    let e = trimmed_end(l, l.len() as int);
    l.subrange(token_start(l, e), e)
}

/// The subvolume path on a listing line: its last token with a leading
/// separator, or nothing on a blank line.
pub open spec fn listed_paths(lines: Seq<Seq<char>>) -> Seq<Seq<char>>
    decreases lines.len(),
{
    if lines.len() == 0 {
        seq![]
    } else {
        let prev = listed_paths(lines.drop_last());
        let t = last_token(lines.last());
        if t.len() == 0 {
            prev
        } else {
            prev.push(seq!['/'] + t)
        }
    }
}

/// The absolute paths a successful listing names: one per line after the
/// two header lines.
pub open spec fn listing_paths(out: Seq<char>) -> Seq<Seq<char>> {
    let lines = text_lines(out);
    if lines.len() <= 2 {
        seq![]
    } else {
        listed_paths(lines.subrange(2, lines.len() as int))
    }
}

/// The absolute path a successful `show` names: its first line, with a
/// leading separator added where it has none. `None` when it printed nothing.
pub open spec fn shown_path(out: Seq<char>) -> Option<Seq<char>> {
    let lines = text_lines(out);
    if lines.len() == 0 {
        None
    } else if lines[0].len() > 0 && lines[0][0] == '/' {
        Some(lines[0])
    } else {
        Some(seq!['/'] + lines[0])
    }
}

/// The views of a vector of strings.
pub open spec fn views(v: Seq<String>) -> Seq<Seq<char>> {
    v.map_values(|x: String| x@)
}

/// The lines of `s`.
pub fn split_lines(s: &str) -> (r: Vec<String>)
    ensures
        views(r@) == text_lines(s@),
{
    let n = s.unicode_len();
    let mut r: Vec<String> = Vec::new();
    let mut start: usize = 0;
    let mut i: usize = 0;
    while i < n
        invariant
            n == s@.len(),
            start <= i <= n,
            views(r@) + lines_from(s@, start as int, i as int) == text_lines(s@),
        decreases n - i,
    {
        if s.get_char(i) == '\n' {
            let mut e = i;
            if e > start && s.get_char(e - 1) == '\r' {
                e = e - 1;
            }
            let line = String::from_str(s.substring_char(start, e));
            proof {
                assert(line@ == strip_cr(s@.subrange(start as int, i as int)));
                assert(views(r@.push(line)) == views(r@).push(line@));
                assert(views(r@).push(line@) + lines_from(s@, i + 1, i + 1) == views(r@) + (
                seq![line@] + lines_from(s@, i + 1, i + 1)));
            }
            r.push(line);
            start = i + 1;
        }
        i = i + 1;
    }
    if start < n {
        let line = String::from_str(s.substring_char(start, n));
        proof {
            assert(views(r@.push(line)) == views(r@) + seq![line@]);
        }
        r.push(line);
    } else {
        assert(views(r@) + seq![] == views(r@));
    }
    r
}

/// The last whitespace-separated token of `l`.
fn last_token_of(l: &str) -> (t: String)
    ensures
        t@ == last_token(l@),
{
    let n = l.unicode_len();
    let mut e = n;
    while e > 0 && space(l.get_char(e - 1))
        invariant
            n == l@.len(),
            e <= n,
            trimmed_end(l@, n as int) == trimmed_end(l@, e as int),
        decreases e,
    {
        e = e - 1;
    }
    let mut b = e;
    while b > 0 && !space(l.get_char(b - 1))
        invariant
            e <= n,
            n == l@.len(),
            b <= e,
            token_start(l@, e as int) == token_start(l@, b as int),
        decreases b,
    {
        b = b - 1;
    }
    String::from_str(l.substring_char(b, e))
}

/// The subvolume path that `show` printed, as in [`shown_path`].
pub fn parse_shown_path(out: &str) -> (r: Option<String>)
    ensures
        r is Some <==> shown_path(out@) is Some,
        r is Some ==> r->0@ == shown_path(out@)->0,
{
    let lines = split_lines(out);
    if lines.len() == 0 {
        return None;
    }
    proof {
        assert(lines@[0]@ == text_lines(out@)[0]);
    }
    let first = &lines[0];
    let n = first.as_str().unicode_len();
    if n > 0 && first.as_str().get_char(0) == '/' {
        Some(first.clone())
    } else {
        let mut p = String::from_str("/");
        proof { reveal_strlit("/"); }
        p.append(first.as_str());
        assert(p@ == seq!['/'] + first@);
        Some(p)
    }
}

/// The absolute paths that a listing printed, as in [`listing_paths`].
pub fn parse_listing(out: &str) -> (r: Vec<String>)
    ensures
        views(r@) == listing_paths(out@),
{
    let lines = split_lines(out);
    let mut r: Vec<String> = Vec::new();
    if lines.len() <= 2 {
        assert(views(r@) =~= seq![]);
        return r;
    }
    let ghost all = views(lines@);
    let mut i: usize = 2;
    while i < lines.len()
        invariant
            2 <= i <= lines.len(),
            all == views(lines@),
            all == text_lines(out@),
            views(r@) == listed_paths(all.subrange(2, i as int)),
        decreases lines.len() - i,
    {
        let t = last_token_of(lines[i].as_str());
        proof {
            assert(all.subrange(2, i + 1).drop_last() =~= all.subrange(2, i as int));
            assert(all.subrange(2, i + 1).last() == lines@[i as int]@);
        }
        if t.as_str().unicode_len() > 0 {
            let mut p = String::from_str("/");
            proof { reveal_strlit("/"); }
            p.append(t.as_str());
            assert(p@ == seq!['/'] + t@);
            proof {
                assert(views(r@.push(p)) =~= views(r@).push(p@));
            }
            r.push(p);
        }
        i = i + 1;
    }
    assert(all.subrange(2, i as int) == all.subrange(2, all.len() as int));
    r
}

/// The resolved absolute path from a run of `show`.
pub fn show_result(out: &ToolOutcome) -> (r: Result<String, HierarchyError>)
    ensures
        match out {
            ToolOutcome::Succeeded(s) => match shown_path(s@) {
                Some(p) => r is Ok && r->Ok_0@ == p,
                None => r is Err && r->Err_0 == HierarchyError::NotASubvolume(*s),
            },
            ToolOutcome::Failed(e) => r is Err && r->Err_0 == HierarchyError::NotASubvolume(*e),
            ToolOutcome::Unavailable(e) => r is Err && r->Err_0
                == HierarchyError::ExternalToolUnavailable(*e),
        },
{
    match out {
        ToolOutcome::Succeeded(s) => match parse_shown_path(s.as_str()) {
            Some(p) => Ok(p),
            None => Err(HierarchyError::NotASubvolume(s.clone())),
        },
        ToolOutcome::Failed(e) => Err(HierarchyError::NotASubvolume(e.clone())),
        ToolOutcome::Unavailable(e) => Err(HierarchyError::ExternalToolUnavailable(e.clone())),
    }
}

/// The absolute paths of the children from a run of the listing query.
pub fn listing_result(out: &ToolOutcome) -> (r: Result<Vec<String>, HierarchyError>)
    ensures
        match out {
            ToolOutcome::Succeeded(s) => r is Ok && views(r->Ok_0@) == listing_paths(s@),
            ToolOutcome::Failed(e) => r is Err && r->Err_0
                == HierarchyError::ChildListingFailed(*e),
            ToolOutcome::Unavailable(e) => r is Err && r->Err_0
                == HierarchyError::ExternalToolUnavailable(*e),
        },
{
    match out {
        ToolOutcome::Succeeded(s) => Ok(parse_listing(s.as_str())),
        ToolOutcome::Failed(e) => Err(HierarchyError::ChildListingFailed(e.clone())),
        ToolOutcome::Unavailable(e) => Err(HierarchyError::ExternalToolUnavailable(e.clone())),
    }
}

} // verus!
