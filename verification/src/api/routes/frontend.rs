use vstd::prelude::*;

use crate::text::{chars_of, has_prefix, starts_with, string_from_range};

verus! {

/// The last component of a path as `Path::file_name` finds it: components
/// are split at `/`, empty and `.` components skipped, and a final `..`
/// names no file.
pub open spec fn file_name_of(path: Seq<char>) -> Option<Seq<char>>
    decreases path.len(),
{
    if path.len() == 0 {
        None
    } else {
        let cut = last_slash(path);
        let segment = match cut {
            Some(k) => path.subrange(k + 1, path.len() as int),
            None => path,
        };
        if segment.len() == 0 || segment == seq!['.'] {
            match cut {
                Some(k) => if 0 <= k < path.len() {
                    file_name_of(path.subrange(0, k))
                } else {
                    None
                },
                None => None,
            }
        } else if segment == seq!['.', '.'] {
            None
        } else {
            Some(segment)
        }
    }
}

/// The index of the last `/` of a text.
pub open spec fn last_slash(s: Seq<char>) -> Option<int>
    decreases s.len(),
{
    if s.len() == 0 {
        None
    } else if s.last() == '/' {
        Some(s.len() - 1)
    } else {
        last_slash(s.drop_last())
    }
}

/// A file name has an extension (`Path::extension`): it has a `.` with
/// something before the last one.
pub open spec fn name_has_extension(name: Seq<char>) -> bool {
    exists|i: int| 0 < i < name.len() && name[i] == '.'
}

/// A path has an extension.
pub open spec fn has_extension(path: Seq<char>) -> bool {
    match file_name_of(path) {
        Some(name) => name_has_extension(name),
        None => false,
    }
}

proof fn lemma_last_slash(s: Seq<char>)
    ensures
        last_slash(s) matches Some(k) ==> 0 <= k < s.len() && s[k] == '/' && forall|j: int|
            k < j < s.len() ==> s[j] != '/',
        last_slash(s) is None ==> forall|j: int| 0 <= j < s.len() ==> s[j] != '/',
    decreases s.len(),
{
    if s.len() > 0 && s.last() != '/' {
        lemma_last_slash(s.drop_last());
        assert forall|j: int| 0 <= j < s.len() - 1 implies s[j] == s.drop_last()[j] by {}
    }
}

fn find_last_slash(v: &Vec<char>, end: usize) -> (r: Option<usize>)
    requires
        end <= v.len(),
    ensures
        match r {
            Some(k) => last_slash(v@.subrange(0, end as int)) == Some(k as int) && k < end,
            None => last_slash(v@.subrange(0, end as int)) is None,
        },
{
    let mut i: usize = end;
    while i > 0
        invariant
            i <= end <= v.len(),
            last_slash(v@.subrange(0, end as int)) == last_slash(v@.subrange(0, i as int)),
        decreases i,
    {
        assert(v@.subrange(0, i as int).drop_last() =~= v@.subrange(0, i - 1));
        if v[i - 1] == '/' {
            return Some(i - 1);
        }
        i -= 1;
    }
    None
}

/// The last component of a path, as `file_name_of` states.
pub fn file_name(path: &str) -> (r: Option<String>)
    ensures
        match r {
            Some(n) => file_name_of(path@) == Some(n@),
            None => file_name_of(path@) is None,
        },
{
    let v = chars_of(path);
    let mut end: usize = v.len();
    assert(v@.subrange(0, end as int) =~= path@);
    loop
        invariant
            end <= v.len(),
            v@ == path@,
            file_name_of(path@) == file_name_of(v@.subrange(0, end as int)),
        decreases end,
    {
        let ghost p = v@.subrange(0, end as int);
        if end == 0 {
            return None;
        }
        let cut = find_last_slash(&v, end);
        let start = match cut {
            Some(k) => k + 1,
            None => 0,
        };
        proof {
            lemma_last_slash(p);
        }
        let ghost segment = p.subrange(start as int, p.len() as int);
        assert(segment =~= v@.subrange(start as int, end as int));
        let len = end - start;
        if len == 0 || (len == 1 && v[start] == '.') {
            proof {
                if len == 1 {
                    assert(segment =~= seq!['.']);
                }
            }
            match cut {
                Some(k) => {
                    assert(p.subrange(0, k as int) =~= v@.subrange(0, k as int));
                    end = k;
                },
                None => {
                    return None;
                },
            }
        } else {
            proof {
                if len == 1 {
                    assert(segment != seq!['.']) by {
                        assert(segment[0] != '.');
                    }
                }
                if len != 2 {
                    assert(segment != seq!['.', '.']);
                }
            }
            if len == 2 && v[start] == '.' && v[start + 1] == '.' {
                assert(segment =~= seq!['.', '.']);
                return None;
            }
            if len == 2 {
                assert(segment != seq!['.', '.']) by {
                    if segment == seq!['.', '.'] {
                        assert(segment[0] == '.' && segment[1] == '.');
                    }
                }
            }
            let name = string_from_range(&v, start, end);
            return Some(name);
        }
    }
}

/// Whether a path has an extension, as `has_extension` states.
pub fn path_has_extension(path: &str) -> (b: bool)
    ensures
        b == has_extension(path@),
{
    match file_name(path) {
        None => false,
        Some(name) => {
            let v = chars_of(name.as_str());
            let mut j: usize = 1;
            while j < v.len()
                invariant
                    1 <= j,
                    v@ == name@,
                    file_name_of(path@) == Some(name@),
                    forall|m: int| 0 < m < j && m < v@.len() ==> v@[m] != '.',
                decreases v.len() - j,
            {
                if v[j] == '.' {
                    assert(name@[j as int] == '.');
                    return true;
                }
                j += 1;
            }
            false
        },
    }
}

/// Whether a request path belongs to the single-page frontend: not an API,
/// health, static, docs or OpenAPI path, and without a file extension.
pub open spec fn frontend_route(path: Seq<char>) -> bool {
    !(has_prefix(path, "agent"@) || has_prefix(path, "health"@) || has_prefix(path, "static"@)
        || has_prefix(path, "docs"@) || has_prefix(path, "redoc"@) || has_prefix(path, "openapi"@)
        || has_extension(path))
}

/// Whether a request path belongs to the single-page frontend, as
/// `frontend_route` states.
pub fn is_frontend_route(path: &str) -> (b: bool)
    ensures
        b == frontend_route(path@),
{
    !(starts_with(path, "agent") || starts_with(path, "health") || starts_with(path, "static")
        || starts_with(path, "docs") || starts_with(path, "redoc") || starts_with(path, "openapi")
        || path_has_extension(path))
}

} // verus!
