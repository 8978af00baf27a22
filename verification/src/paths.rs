use vstd::prelude::*;

use crate::template::to_char_vec;

verus! {

/// The file-name part of a path: what follows the last `/` separator, or
/// the whole path when it has none; empty when the path ends in `/`.
pub open spec fn file_name_of(p: Seq<char>) -> Seq<char>
    decreases p.len(),
{
    if p.len() == 0 {
        Seq::empty()
    } else if p[p.len() - 1] == '/' {
        Seq::empty()
    } else {
        file_name_of(p.drop_last()).push(p[p.len() - 1])
    }
}

/// The path names a file with the `rs` extension: its file name ends in
/// `.rs` with at least one character of stem before the dot.
pub open spec fn has_rs_extension(p: Seq<char>) -> bool {
    let name = file_name_of(p);
    &&& name.len() >= 4
    &&& name[name.len() - 3] == '.'
    &&& name[name.len() - 2] == 'r'
    &&& name[name.len() - 1] == 's'
}

/// The file name is a suffix of the path, contains no separator, and is
/// maximal: what precedes it, if anything, is a separator.
proof fn lemma_file_name_suffix(p: Seq<char>)
    ensures
        file_name_of(p).len() <= p.len(),
        file_name_of(p) == p.skip(p.len() - file_name_of(p).len()),
        forall|j: int| p.len() - file_name_of(p).len() <= j < p.len() ==> p[j] != '/',
        file_name_of(p).len() < p.len() ==> p[p.len() - file_name_of(p).len() - 1] == '/',
    decreases p.len(),
{
    if p.len() == 0 {
        assert(p.skip(0) =~= Seq::<char>::empty());
    } else if p[p.len() - 1] == '/' {
        assert(p.skip(p.len() as int) =~= Seq::<char>::empty());
    } else {
        let q = p.drop_last();
        lemma_file_name_suffix(q);
        let name = file_name_of(p);
        let s = p.len() - name.len();
        assert(name == file_name_of(q).push(p[p.len() - 1]));
        assert(q.skip(s) == file_name_of(q));
        assert(p.skip(s) =~= q.skip(s).push(p[p.len() - 1]));
        assert forall|j: int| s <= j < p.len() implies p[j] != '/' by {
            if j < p.len() - 1 {
                assert(q[j] == p[j]);
                assert(q[j] != '/');
            }
        }
    }
}

/// Whether `path` names a Rust source file: a regular file whose name has
/// the `rs` extension.  Whether the path refers to a regular file is a fact
/// of the file system, so the caller supplies it.
pub fn is_rust_code(path: &str, is_file: bool) -> (r: bool)
    ensures
        r == (is_file && has_rs_extension(path@)),
{
    proof {
        lemma_file_name_suffix(path@);
    }
    if !is_file {
        return false;
    }
    let p = to_char_vec(path);
    let n = p.len();
    if n < 4 {
        return false;
    }
    let r = p[n - 3] == '.' && p[n - 2] == 'r' && p[n - 1] == 's' && p[n - 4] != '/';
    proof {
        let t = path@;
        let name = file_name_of(t);
        let s = t.len() - name.len();
        if r {
            if name.len() < 4 {
                assert(name.len() < t.len());
                assert(t[t.len() - name.len() - 1] == '/');
                assert(false);
            }
            assert(name[name.len() - 3] == t[t.len() - 3]);
            assert(name[name.len() - 2] == t[t.len() - 2]);
            assert(name[name.len() - 1] == t[t.len() - 1]);
        } else if has_rs_extension(t) {
            assert(name[name.len() - 3] == t[t.len() - 3]);
            assert(name[name.len() - 2] == t[t.len() - 2]);
            assert(name[name.len() - 1] == t[t.len() - 1]);
            assert(t[t.len() - 4] != '/');
            assert(false);
        }
    }
    r
}

} // verus!
