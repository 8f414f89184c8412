//! Path parsing for the host-side operations: the file name of a path, its
//! extension, and its parent directory, all stated over the path's
//! characters with '/' as the separator.

use vstd::prelude::*;
use vstd::string::*;

verus! {

/// The index just after the last '/' of the path: where its file name
/// starts, or 0 when the path has no separator.
pub open spec fn file_name_start(p: Seq<char>) -> int
    decreases p.len(),
{
    if p.len() == 0 {
        0
    } else if p[p.len() - 1] == '/' {
        p.len() as int
    } else {
        file_name_start(p.drop_last())
    }
}

/// The index of the last '.' of the name, or -1 when it has none.
pub open spec fn last_dot(s: Seq<char>) -> int
    decreases s.len(),
{
    if s.len() == 0 {
        -1
    } else if s[s.len() - 1] == '.' {
        s.len() - 1
    } else {
        last_dot(s.drop_last())
    }
}

/// The file name of the path: everything after its last '/'.
pub open spec fn file_name(p: Seq<char>) -> Seq<char> {
    p.subrange(file_name_start(p), p.len() as int)
}

/// The extension of the path: the part of its file name after the last
/// '.'. A name without a '.', and a hidden-file name whose only '.' leads
/// it, have none.
pub open spec fn spec_extension(p: Seq<char>) -> Option<Seq<char>> {
    let name = file_name(p);
    let d = last_dot(name);
    if d <= 0 {
        Option::None
    } else {
        Option::Some(name.subrange(d + 1, name.len() as int))
    }
}

/// The directory part of the path: everything before its last '/', the
/// root itself for an entry directly under it, nothing when the path has
/// no separator.
pub open spec fn spec_parent(p: Seq<char>) -> Option<Seq<char>> {
    let fs = file_name_start(p);
    if fs == 0 {
        Option::None
    } else if fs == 1 {
        Option::Some(p.subrange(0, 1))
    } else {
        Option::Some(p.subrange(0, fs - 1))
    }
}

/// The character view of an optional owned name.
pub open spec fn opt_name_view(r: Option<String>) -> Option<Seq<char>> {
    match r {
        Option::Some(s) => Option::Some(s@),
        Option::None => Option::None,
    }
}

/// Where the file name of the path begins.
fn name_start_index(path: &str) -> (r: usize)
    ensures
        r as int == file_name_start(path@),
        r <= path@.len(),
{
    let n = path.unicode_len();
    let mut i: usize = 0;
    let mut start: usize = 0;
    proof {
        assert(path@.take(0) =~= Seq::<char>::empty());
    }
    while i < n
        invariant
            0 <= i <= n,
            n as int == path@.len(),
            start <= i,
            start as int == file_name_start(path@.take(i as int)),
        decreases n - i,
    {
        let c = path.get_char(i);
        proof {
            assert(path@.take(i + 1).drop_last() =~= path@.take(i as int));
            assert(path@.take(i + 1)[i as int] == path@[i as int]);
        }
        if c == '/' {
            start = i + 1;
        }
        i = i + 1;
    }
    proof {
        assert(path@.take(n as int) =~= path@);
    }
    start
}

/// The extension of the path, as `spec_extension` states it.
pub fn extension_of(path: &str) -> (r: Option<String>)
    ensures
        opt_name_view(r) == spec_extension(path@),
{
    let n = path.unicode_len();
    let start = name_start_index(path);
    let ghost name = file_name(path@);
    proof {
        assert(name =~= path@.subrange(start as int, n as int));
        assert(name.take(0) =~= Seq::<char>::empty());
    }
    let mut j: usize = start;
    let mut dot: usize = 0;
    let mut has_dot: bool = false;
    while j < n
        invariant
            start <= j <= n,
            n as int == path@.len(),
            name == path@.subrange(start as int, n as int),
            has_dot ==> start <= dot < j,
            if has_dot {
                last_dot(name.take(j - start)) == dot - start
            } else {
                last_dot(name.take(j - start)) == -1
            },
        decreases n - j,
    {
        let c = path.get_char(j);
        proof {
            assert(name.take(j - start + 1).drop_last() =~= name.take(j - start));
            assert(name.take(j - start + 1)[j - start] == path@[j as int]);
        }
        if c == '.' {
            dot = j;
            has_dot = true;
        }
        j = j + 1;
    }
    proof {
        assert(name.take(n - start) =~= name);
    }
    if has_dot && dot > start {
        let ext = path.substring_char(dot + 1, n);
        proof {
            let d = last_dot(name);
            assert(name.subrange(d + 1, name.len() as int) =~= path@.subrange(
                dot + 1,
                n as int,
            ));
        }
        Some(ext.to_owned())
    } else {
        None
    }
}

/// The parent directory of the path, as `spec_parent` states it.
pub fn parent_dir(path: &str) -> (r: Option<String>)
    ensures
        opt_name_view(r) == spec_parent(path@),
{
    let start = name_start_index(path);
    if start == 0 {
        None
    } else if start == 1 {
        Some(path.substring_char(0, 1).to_owned())
    } else {
        Some(path.substring_char(0, start - 1).to_owned())
    }
}

} // verus!
