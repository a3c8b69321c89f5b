use vstd::prelude::*;

use crate::ident::{uuid_text, RepoId};

verus! {

/// Start of the run of non-separator characters that ends at `end`.
pub open spec fn seg_begin(p: Seq<char>, end: int) -> int
    decreases end,
{
    if end > 0 && p[end - 1] != '/' {
        seg_begin(p, end - 1)
    } else {
        end
    }
}

/// The final component of the path `p[0..end]`, as a filesystem path is read:
/// separators repeat freely, `.` components are skipped, and a path that ends
/// in `..`, or holds only separators and `.`, has none.
pub open spec fn file_name_upto(p: Seq<char>, end: int) -> Option<Seq<char>>
    decreases end,
{
    if end <= 0 {
        None
    } else if p[end - 1] == '/' {
        file_name_upto(p, end - 1)
    } else {
        let s = seg_begin(p, end);
        if end - s == 1 && p[end - 1] == '.' {
            file_name_upto(p, end - 1)
        } else if end - s == 2 && p[end - 1] == '.' && p[end - 2] == '.' {
            None
        } else {
            Some(p.subrange(s, end))
        }
    }
}

/// The final component of a path.
pub open spec fn file_name_of(p: Seq<char>) -> Option<Seq<char>> {
    file_name_upto(p, p.len() as int)
}

/// The name a record gets from its path: the path's final component, or the
/// text of its identifier where the path has none.
pub open spec fn derived_name(path: Seq<char>, id: RepoId) -> Seq<char> {
    match file_name_of(path) {
        Some(n) => n,
        None => uuid_text(id.value),
    }
}

pub open spec fn text_opt(o: Option<String>) -> Option<Seq<char>> {
    match o {
        Some(s) => Some(s@),
        None => None,
    }
}

pub proof fn lemma_seg_begin_bounds(p: Seq<char>, end: int)
    requires
        end >= 0,
    ensures
        0 <= seg_begin(p, end) <= end,
    decreases end,
{
    if end > 0 && p[end - 1] != '/' {
        lemma_seg_begin_bounds(p, end - 1);
    }
}

/// A final component, where there is one, is not empty.
pub proof fn lemma_file_name_nonempty(p: Seq<char>, end: int)
    requires
        0 <= end <= p.len(),
    ensures
        file_name_upto(p, end) matches Some(n) ==> n.len() > 0,
    decreases end,
{
    if end > 0 {
        if p[end - 1] == '/' {
            lemma_file_name_nonempty(p, end - 1);
        } else {
            lemma_seg_begin_bounds(p, end - 1);
            lemma_file_name_nonempty(p, end - 1);
        }
    }
}

/// The final component of `path`, if it has one.
pub fn file_name(path: &str) -> (r: Option<String>)
    ensures
        text_opt(r) == file_name_of(path@),
{
    let n = path.unicode_len();
    let mut end: usize = n;
    loop
        invariant
            end <= n,
            n == path@.len(),
            file_name_upto(path@, end as int) == file_name_of(path@),
        decreases end,
    {
        if end == 0 {
            return None;
        }
        let c = path.get_char(end - 1);
        if c == '/' {
            end = end - 1;
        } else {
            let mut start: usize = end - 1;
            while start > 0 && path.get_char(start - 1) != '/'
                invariant
                    start < end <= n,
                    n == path@.len(),
                    path@[end - 1] != '/',
                    seg_begin(path@, end as int) == seg_begin(path@, start as int + 1),
                    path@[start as int] != '/',
                decreases start,
            {
                start = start - 1;
            }
            assert(seg_begin(path@, start as int) == start);
            assert(seg_begin(path@, start as int + 1) == seg_begin(path@, start as int));
            if end - start == 1 && c == '.' {
                end = end - 1;
            } else if end - start == 2 && c == '.' && path.get_char(end - 2) == '.' {
                return None;
            } else {
                let seg = path.substring_char(start, end);
                return Some(seg.to_owned());
            }
        }
    }
}

/// The name derived from `path` for a record with identifier `id`.
pub fn derive_name(path: &str, id: RepoId) -> (r: String)
    ensures
        r@ == derived_name(path@, id),
        r@.len() > 0,
{
    proof {
        lemma_file_name_nonempty(path@, path@.len() as int);
    }
    match file_name(path) {
        Some(n) => n,
        None => id.to_text(),
    }
}

} // verus!
