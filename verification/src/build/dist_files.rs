//! The files of the output directory that later build steps read back:
//! stylesheets and scripts, by their path relative to `dist/`.

use vstd::prelude::*;
use crate::html::attrs_view;
use crate::text::{owned, push_char, split_char, split_on, str_eq, strs_view};

verus! {

/// Text files of `dist/`, each by its path relative to `dist/` (components
/// separated by `/`, without `.` or `..`) and its content.
pub struct DistFiles {
    pub files: Vec<(String, String)>,
}

/// The paths and contents of the files.
pub open spec fn files_view(f: DistFiles) -> Seq<(Seq<char>, Seq<char>)> {
    attrs_view(f.files@)
}

/// The content of the first file at `path`.
pub open spec fn file_content(files: Seq<(Seq<char>, Seq<char>)>, path: Seq<char>) -> Option<Seq<char>>
    decreases files.len(),
{
    if files.len() == 0 {
        None
    } else if files[0].0 == path {
        Some(files[0].1)
    } else {
        file_content(files.skip(1), path)
    }
}

/// The content of the file at `path`, when there is one.
pub fn read_file(files: &DistFiles, path: &str) -> (r: Option<String>)
    ensures
        crate::text::opt_view(r) == file_content(files_view(*files), path@),
{
    let ghost fv = files_view(*files);
    let mut i: usize = 0;
    assert(fv.skip(0) =~= fv);
    while i < files.files.len()
        invariant
            i <= files.files@.len(),
            fv == files_view(*files),
            fv.len() == files.files@.len(),
            file_content(fv.skip(i as int), path@) == file_content(fv, path@),
        decreases files.files@.len() - i,
    {
        assert(fv.skip(i as int)[0] == fv[i as int]);
        assert(fv.skip(i as int).skip(1) =~= fv.skip(i + 1));
        if str_eq(files.files[i].0.as_str(), path) {
            return Some(files.files[i].1.clone());
        }
        i = i + 1;
    }
    assert(fv.skip(i as int).len() == 0);
    None
}

/// The components of a path with empty and `.` components dropped and
/// each `..` removing the component before it; `None` when a `..` has
/// nothing left to remove.
pub open spec fn norm_parts(parts: Seq<Seq<char>>) -> Option<Seq<Seq<char>>>
    decreases parts.len(),
{
    if parts.len() == 0 {
        Some(seq![])
    } else {
        match norm_parts(parts.drop_last()) {
            None => None,
            Some(acc) => {
                let p = parts.last();
                if p.len() == 0 || p == seq!['.'] {
                    Some(acc)
                } else if p == seq!['.', '.'] {
                    if acc.len() == 0 {
                        None
                    } else {
                        Some(acc.drop_last())
                    }
                } else {
                    Some(acc.push(p))
                }
            },
        }
    }
}

/// Path components joined with `/`.
pub open spec fn join_parts(parts: Seq<Seq<char>>) -> Seq<char>
    decreases parts.len(),
{
    if parts.len() == 0 {
        seq![]
    } else if parts.len() == 1 {
        parts[0]
    } else {
        join_parts(parts.drop_last()) + seq!['/'] + parts.last()
    }
}

/// A relative path in normal form (see `norm_parts`); `None` when it
/// leaves the directory it is relative to.
pub open spec fn normalized(path: Seq<char>) -> Option<Seq<char>> {
    match norm_parts(split_on(path, '/')) {
        Some(p) => Some(join_parts(p)),
        None => None,
    }
}

/// The directory of a relative path: its components but the last.
pub open spec fn dir_of(path: Seq<char>) -> Seq<char> {
    join_parts(split_on(path, '/').drop_last())
}

/// Path components joined with `/`.
pub fn join_with_slash(parts: &[String]) -> (r: String)
    ensures
        r@ == join_parts(strs_view(parts@)),
{
    let mut r = String::new();
    let mut i: usize = 0;
    while i < parts.len()
        invariant
            i <= parts@.len(),
            r@ == join_parts(strs_view(parts@.subrange(0, i as int))),
        decreases parts@.len() - i,
    {
        let ghost prev = strs_view(parts@.subrange(0, i as int));
        assert(strs_view(parts@.subrange(0, i + 1)).drop_last() =~= prev);
        if i > 0 {
            push_char(&mut r, '/');
        }
        r.append(parts[i].as_str());
        i = i + 1;
        assert(strs_view(parts@.subrange(0, i as int)).last() == parts@[i - 1]@);
    }
    assert(parts@.subrange(0, parts@.len() as int) =~= parts@);
    r
}

/// A relative path in normal form; `None` when it leaves the directory it
/// is relative to.
pub fn normalize_path(path: &str) -> (r: Option<String>)
    ensures
        crate::text::opt_view(r) == normalized(path@),
{
    let pieces = split_char(path, '/');
    let ghost pv = strs_view(pieces@);
    let mut acc: Vec<String> = Vec::new();
    let mut i: usize = 0;
    assert(pv.subrange(0, 0) =~= Seq::<Seq<char>>::empty());
    while i < pieces.len()
        invariant
            i <= pieces@.len(),
            pv == strs_view(pieces@),
            pv == split_on(path@, '/'),
            norm_parts(pv.subrange(0, i as int)) == Some(strs_view(acc@)),
        decreases pieces@.len() - i,
    {
        assert(pv.subrange(0, i + 1).drop_last() =~= pv.subrange(0, i as int));
        assert(pv.subrange(0, i + 1).last() == pieces@[i as int]@);
        let p = pieces[i].as_str();
        let ghost before = strs_view(acc@);
        proof {
            reveal_strlit(".");
            reveal_strlit("..");
            assert("."@ =~= seq!['.']);
            assert(".."@ =~= seq!['.', '.']);
        }
        let ghost step = norm_parts(pv.subrange(0, i + 1));
        assert(step == match norm_parts(pv.subrange(0, i as int)) {
            None => None,
            Some(a) => {
                let q = pv.subrange(0, i + 1).last();
                if q.len() == 0 || q == seq!['.'] {
                    Some(a)
                } else if q == seq!['.', '.'] {
                    if a.len() == 0 {
                        None
                    } else {
                        Some(a.drop_last())
                    }
                } else {
                    Some(a.push(q))
                }
            },
        });
        if p.is_empty() || str_eq(p, ".") {
        } else if str_eq(p, "..") {
            if acc.len() == 0 {
                assert(norm_parts(pv.subrange(0, i + 1)) is None);
                assert(norm_parts(pv) is None) by {
                    lemma_norm_none_stays(pv, i as int + 1);
                }
                return None;
            }
            acc.pop();
            assert(strs_view(acc@) =~= before.drop_last());
        } else {
            acc.push(owned(p));
            assert(strs_view(acc@) =~= before.push(p@));
        }
        i = i + 1;
    }
    assert(pv.subrange(0, pieces@.len() as int) =~= pv);
    Some(join_with_slash(acc.as_slice()))
}

/// Once a prefix leaves the directory, so does the whole path.
proof fn lemma_norm_none_stays(parts: Seq<Seq<char>>, k: int)
    requires
        0 <= k <= parts.len(),
        norm_parts(parts.subrange(0, k)) is None,
    ensures
        norm_parts(parts) is None,
    decreases parts.len() - k,
{
    if k == parts.len() {
        assert(parts.subrange(0, k) =~= parts);
    } else {
        assert(parts.subrange(0, k + 1).drop_last() =~= parts.subrange(0, k));
        lemma_norm_none_stays(parts, k + 1);
    }
}

/// The directory of a relative path.
pub fn dir_of_path(path: &str) -> (r: String)
    ensures
        r@ == dir_of(path@),
{
    let mut pieces = split_char(path, '/');
    proof {
        crate::text::lemma_split_nonempty(path@, '/');
    }
    let ghost pv = strs_view(pieces@);
    pieces.pop();
    assert(strs_view(pieces@) =~= pv.drop_last());
    join_with_slash(pieces.as_slice())
}

} // verus!
