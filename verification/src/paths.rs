//! Mapping an input file to its mirrored output path.
//!
//! Paths are modelled as plain `/`-separated character strings: the view
//! of the path string the directory walk hands over. The mapper mirrors
//! the input file's position under the input root into the output root
//! and swaps the extension for the target format token.

use vstd::prelude::*;

use crate::text::{chars_of, string_of};

verus! {

/// `p` is a prefix of `s`.
pub open spec fn starts_with(s: Seq<char>, p: Seq<char>) -> bool {
    p.len() <= s.len() && s.take(p.len() as int) == p
}

/// `file` lies strictly below the directory `root`: it extends `root`
/// at a separator and names at least one character beyond it.
pub open spec fn is_under(file: Seq<char>, root: Seq<char>) -> bool {
    &&& root.len() > 0
    &&& starts_with(file, root)
    &&& if root.last() == '/' {
        file.len() > root.len()
    } else {
        file.len() > root.len() + 1 && file[root.len() as int] == '/'
    }
}

/// The path of `file` relative to `root`.
pub open spec fn rel_path(file: Seq<char>, root: Seq<char>) -> Seq<char>
    recommends
        is_under(file, root),
{
    if root.last() == '/' {
        file.skip(root.len() as int)
    } else {
        file.skip(root.len() as int + 1)
    }
}

/// `dir` and `rel` joined with a single separator.
pub open spec fn join_path(dir: Seq<char>, rel: Seq<char>) -> Seq<char> {
    if dir.len() == 0 {
        rel
    } else if dir.last() == '/' {
        dir + rel
    } else {
        dir + seq!['/'] + rel
    }
}

/// The position of the last occurrence of `c` in `s`, or `-1` if there
/// is none.
pub open spec fn last_index_of(s: Seq<char>, c: char) -> int
    decreases s.len(),
{
    if s.len() == 0 {
        -1
    } else if s.last() == c {
        s.len() - 1
    } else {
        last_index_of(s.drop_last(), c)
    }
}

/// The file name of `p` has an extension: a dot that stands after the
/// last separator and not as the name's first character.
pub open spec fn has_extension(p: Seq<char>) -> bool {
    last_index_of(p, '.') > last_index_of(p, '/') + 1
}

/// The extension of `p`'s file name, without its dot, or `None`.
pub open spec fn extension_of(p: Seq<char>) -> Option<Seq<char>> {
    if has_extension(p) {
        Some(p.skip(last_index_of(p, '.') + 1))
    } else {
        None
    }
}

/// `p` with its extension replaced by `ext`: everything after the last
/// dot of the file name is swapped for `ext`, and a name without an
/// extension gains `.ext`.
pub open spec fn replace_extension(p: Seq<char>, ext: Seq<char>) -> Seq<char> {
    if has_extension(p) {
        p.take(last_index_of(p, '.') + 1) + ext
    } else {
        p + seq!['.'] + ext
    }
}

/// Where the output of converting `file` belongs: the output root, the
/// input file's path relative to the input root, and the target format
/// token as the new extension.
pub open spec fn mapped_output_path(
    file: Seq<char>,
    input_root: Seq<char>,
    output_root: Seq<char>,
    fmt: Seq<char>,
) -> Seq<char> {
    replace_extension(join_path(output_root, rel_path(file, input_root)), fmt)
}

/// Whether `p` is a prefix of `v`.
fn starts_with_exec(v: &Vec<char>, p: &Vec<char>) -> (b: bool)
    ensures
        b == starts_with(v@, p@),
{
    if p.len() > v.len() {
        assert(!starts_with(v@, p@));
        return false;
    }
    let mut k: usize = 0;
    while k < p.len()
        invariant
            k <= p.len() <= v.len(),
            forall|j: int| 0 <= j < k ==> v@[j] == p@[j],
        decreases p.len() - k,
    {
        if v[k] != p[k] {
            assert(v@.take(p@.len() as int)[k as int] != p@[k as int]);
            return false;
        }
        k = k + 1;
    }
    proof {
        assert(v@.take(p@.len() as int) =~= p@);
    }
    true
}

/// Whether the path `file` lies strictly below the directory `root`,
/// in the string model of `is_under`.
pub fn is_under_path(file: &str, root: &str) -> (b: bool)
    ensures
        b == is_under(file@, root@),
{
    let f = chars_of(file);
    let r = chars_of(root);
    if r.len() == 0 {
        return false;
    }
    if !starts_with_exec(&f, &r) {
        return false;
    }
    if r[r.len() - 1] == '/' {
        f.len() > r.len()
    } else {
        f.len() > r.len() && f.len() - r.len() > 1 && f[r.len()] == '/'
    }
}

/// The position of the last occurrence of `c` in `v`, if any.
pub(crate) fn last_index_exec(v: &Vec<char>, c: char) -> (r: Option<usize>)
    ensures
        match r {
            Some(i) => i < v@.len() && last_index_of(v@, c) == i as int,
            None => last_index_of(v@, c) == -1,
        },
{
    let mut k: usize = v.len();
    proof {
        assert(v@.take(v@.len() as int) =~= v@);
    }
    while k > 0
        invariant
            k <= v.len(),
            last_index_of(v@, c) == last_index_of(v@.take(k as int), c),
        decreases k,
    {
        proof {
            assert(v@.take(k as int).last() == v@[k - 1]);
            assert(v@.take(k as int).drop_last() =~= v@.take(k - 1));
        }
        if v[k - 1] == c {
            return Some(k - 1);
        }
        k = k - 1;
    }
    None
}

/// Appends `src[from .. to]` to `dst`.
pub(crate) fn extend_from(dst: &mut Vec<char>, src: &Vec<char>, from: usize, to: usize)
    requires
        from <= to <= src@.len(),
    ensures
        final(dst)@ == old(dst)@ + src@.subrange(from as int, to as int),
{
    let mut k: usize = from;
    while k < to
        invariant
            from <= k <= to <= src@.len(),
            dst@ == old(dst)@ + src@.subrange(from as int, k as int),
        decreases to - k,
    {
        dst.push(src[k]);
        proof {
            assert(old(dst)@ + src@.subrange(from as int, k as int).push(src@[k as int]) =~= old(
                dst,
            )@ + src@.subrange(from as int, k + 1));
        }
        k = k + 1;
    }
}

/// Computes the output path for one input file: the file's position
/// relative to the batch input root is mirrored under the output root,
/// and the extension is replaced by the target format token. The caller
/// guarantees that the file lies below the input root; the directory
/// walk that discovers batch files yields only such paths.
pub fn get_output_path(input_file: &str, input_dir: &str, output_dir: &str, format: &str) -> (r:
    String)
    requires
        is_under(input_file@, input_dir@),
    ensures
        r@ == mapped_output_path(input_file@, input_dir@, output_dir@, format@),
{
    let f = chars_of(input_file);
    let root = chars_of(input_dir);
    let out = chars_of(output_dir);
    let ext = chars_of(format);

    let flen = f.len();
    proof {
        assert(root@.last() == root@[root@.len() - 1]);
        assert(f@.len() > root@.len());
    }
    // The joined path: output root, separator, relative path.
    let skip_len: usize = if root[root.len() - 1] == '/' {
        root.len()
    } else {
        root.len() + 1
    };
    let mut joined: Vec<char> = Vec::new();
    extend_from(&mut joined, &out, 0, out.len());
    if out.len() > 0 && out[out.len() - 1] != '/' {
        joined.push('/');
    }
    extend_from(&mut joined, &f, skip_len, flen);
    proof {
        assert(out@.subrange(0, out@.len() as int) =~= out@);
        assert(f@.subrange(skip_len as int, f@.len() as int) =~= rel_path(f@, root@));
        if out@.len() > 0 && out@.last() != '/' {
            assert(out@.push('/') =~= out@ + seq!['/']);
            assert((out@ + seq!['/']) + rel_path(f@, root@) =~= out@ + seq!['/'] + rel_path(
                f@,
                root@,
            ));
        }
        assert(joined@ =~= join_path(out@, rel_path(f@, root@)));
    }

    // The extension swap on the joined path.
    let dot = last_index_exec(&joined, '.');
    let slash = last_index_exec(&joined, '/');
    let (with_ext, d): (bool, usize) = match (dot, slash) {
        (Some(di), Some(sl)) => (di > sl && di - sl > 1, di),
        (Some(di), None) => (di > 0, di),
        (None, _) => (false, 0),
    };
    assert(with_ext == has_extension(joined@));
    assert(with_ext ==> d < joined@.len());
    let mut result: Vec<char> = Vec::new();
    if with_ext {
        let jlen = joined.len();
        assert(d < jlen);
        extend_from(&mut result, &joined, 0, d + 1);
        extend_from(&mut result, &ext, 0, ext.len());
        proof {
            assert(joined@.subrange(0, d + 1) =~= joined@.take(last_index_of(joined@, '.') + 1));
            assert(ext@.subrange(0, ext@.len() as int) =~= ext@);
        }
    } else {
        extend_from(&mut result, &joined, 0, joined.len());
        result.push('.');
        extend_from(&mut result, &ext, 0, ext.len());
        proof {
            assert(joined@.subrange(0, joined@.len() as int) =~= joined@);
            assert(ext@.subrange(0, ext@.len() as int) =~= ext@);
            assert((joined@.push('.')) + ext@ =~= joined@ + seq!['.'] + ext@);
        }
    }
    proof {
        assert(result@ =~= mapped_output_path(f@, root@, out@, ext@));
    }
    string_of(&result)
}

} // verus!
