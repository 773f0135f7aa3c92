//! Paths in POSIX form, as sequences of characters: what is absolute, how a
//! relative path is joined to a directory, and which directory holds a file.

use vstd::prelude::*;

verus! {

/// A path is absolute where it starts at the root.
pub open spec fn is_absolute(path: Seq<char>) -> bool {
    path.len() > 0 && path[0] == '/'
}

/// `rel` seen from `dir`: an absolute `rel` stands for itself, any other is
/// appended to `dir`, after a separator where `dir` does not end in one.
pub open spec fn join(dir: Seq<char>, rel: Seq<char>) -> Seq<char> {
    if is_absolute(rel) {
        rel
    } else if dir.len() == 0 || dir.last() == '/' {
        dir + rel
    } else {
        dir.push('/') + rel
    }
}

/// `path` without the separators at its end.
pub open spec fn strip_separators(path: Seq<char>) -> Seq<char>
    decreases path.len(),
{
    if path.len() > 0 && path.last() == '/' {
        strip_separators(path.drop_last())
    } else {
        path
    }
}

/// `path` up to its last separator, that separator left out; empty where
/// `path` holds none.
pub open spec fn before_last_separator(path: Seq<char>) -> Seq<char>
    decreases path.len(),
{
    if path.len() == 0 {
        path
    } else if path.last() == '/' {
        path.drop_last()
    } else {
        before_last_separator(path.drop_last())
    }
}

/// The directory that holds `path`: the root for the root itself and for the
/// empty path, the empty path for a single relative name, and otherwise
/// `path` without its last name and the separators before it, or the root
/// where nothing else is left.
pub open spec fn parent_dir(path: Seq<char>) -> Seq<char> {
    let named = strip_separators(path);
    if named.len() == 0 {
        seq!['/']
    } else if !named.contains('/') {
        Seq::empty()
    } else {
        let dir = strip_separators(before_last_separator(named));
        if dir.len() == 0 {
            seq!['/']
        } else {
            dir
        }
    }
}

/// `path` with a leading `~` replaced by the home directory, where one is known.
pub open spec fn expand_home(path: Seq<char>, home: Option<Seq<char>>) -> Seq<char> {
    if path.len() > 0 && path[0] == '~' && home is Some {
        home->0 + path.drop_first()
    } else {
        path
    }
}

/// Where a key file lies: its path with the home directory filled in, seen
/// from the directory of the configuration file unless it is absolute.
pub open spec fn resolve(key_file: Seq<char>, config_dir: Seq<char>, home: Option<Seq<char>>) -> Seq<
    char,
> {
    join(config_dir, expand_home(key_file, home))
}

/// A key file whose path is relative lies under the directory of the
/// configuration file, whatever the home directory is.
pub proof fn lemma_relative_path_lies_beside_config(
    key_file: Seq<char>,
    config_dir: Seq<char>,
    home: Option<Seq<char>>,
)
    requires
        key_file.len() > 0,
        key_file[0] != '/',
        key_file[0] != '~',
        config_dir.len() > 0,
        config_dir.last() != '/',
    ensures
        resolve(key_file, config_dir, home) == config_dir.push('/') + key_file,
{
}

/// A key file whose path starts with `~` lies under the home directory,
/// wherever the configuration file is.
pub proof fn lemma_home_path_ignores_config(
    key_file: Seq<char>,
    config_dir: Seq<char>,
    home: Seq<char>,
)
    requires
        key_file.len() > 0,
        key_file[0] == '~',
        is_absolute(home),
    ensures
        resolve(key_file, config_dir, Some(home)) == home + key_file.drop_first(),
{
    assert((home + key_file.drop_first())[0] == home[0]);
}

/// The view of an optional string.
pub open spec fn opt_view(s: Option<&str>) -> Option<Seq<char>> {
    match s {
        Some(t) => Some(t@),
        None => None,
    }
}

/// Appends `v[from..to]` to `out`.
pub fn extend_range(out: &mut Vec<char>, v: &Vec<char>, from: usize, to: usize)
    requires
        from <= to <= v@.len(),
    ensures
        final(out)@ == old(out)@ + v@.subrange(from as int, to as int),
{
    let mut i: usize = from;
    while i < to
        invariant
            from <= i <= to <= v@.len(),
            out@ == old(out)@ + v@.subrange(from as int, i as int),
        decreases to - i,
    {
        out.push(v[i]);
        proof {
            assert(out@ =~= old(out)@ + v@.subrange(from as int, i + 1));
        }
        i += 1;
    }
    proof {
        assert(old(out)@ + v@.subrange(from as int, from as int) =~= old(out)@);
    }
}

/// The length of `v` without the separators at its end.
fn stripped_len(v: &Vec<char>, len: usize) -> (n: usize)
    requires
        len <= v@.len(),
    ensures
        n <= len,
        v@.subrange(0, n as int) == strip_separators(v@.subrange(0, len as int)),
{
    let mut n: usize = len;
    while n > 0 && v[n - 1] == '/'
        invariant
            n <= len <= v@.len(),
            strip_separators(v@.subrange(0, n as int)) == strip_separators(
                v@.subrange(0, len as int),
            ),
        decreases n,
    {
        proof {
            assert(v@.subrange(0, n as int).drop_last() =~= v@.subrange(0, n - 1));
        }
        n -= 1;
    }
    n
}

/// The directory that holds `path`.
pub fn parent_dir_chars(path: &Vec<char>) -> (dir: Vec<char>)
    ensures
        dir@ == parent_dir(path@),
{
    proof {
        assert(path@.subrange(0, path@.len() as int) =~= path@);
    }
    let named = stripped_len(path, path.len());
    let mut dir: Vec<char> = Vec::new();
    if named == 0 {
        dir.push('/');
        return dir;
    }
    let mut cut: usize = named;
    let mut found = false;
    while cut > 0 && !found
        invariant
            cut <= named <= path@.len(),
            !found ==> before_last_separator(path@.subrange(0, cut as int))
                == before_last_separator(path@.subrange(0, named as int)),
            !found ==> forall|i: int| cut <= i < named ==> path@[i] != '/',
            found ==> path@.subrange(0, cut as int) == before_last_separator(
                path@.subrange(0, named as int),
            ) && cut < named && path@[cut as int] == '/',
        decreases cut,
    {
        proof {
            assert(path@.subrange(0, cut as int).drop_last() =~= path@.subrange(0, cut - 1));
        }
        if path[cut - 1] == '/' {
            found = true;
        }
        cut -= 1;
    }
    if !found {
        return dir;
    }
    proof {
        assert(path@.subrange(0, named as int)[cut as int] == '/');
    }
    let kept = stripped_len(path, cut);
    if kept == 0 {
        dir.push('/');
        return dir;
    }
    extend_range(&mut dir, path, 0, kept);
    dir
}

/// The place of a key file, from the characters of its path as written.
pub fn resolve_chars(key_file: &Vec<char>, config_dir: &Vec<char>, home: &Option<Vec<char>>) -> (out:
    Vec<char>)
    ensures
        out@ == resolve(
            key_file@,
            config_dir@,
            match home {
                Some(h) => Some(h@),
                None => None,
            },
        ),
{
    let mut expanded: Vec<char> = Vec::new();
    let mut tilde = false;
    if key_file.len() > 0 && key_file[0] == '~' {
        if let Some(h) = home {
            extend_range(&mut expanded, h, 0, h.len());
            extend_range(&mut expanded, key_file, 1, key_file.len());
            tilde = true;
            proof {
                assert(h@.subrange(0, h@.len() as int) =~= h@);
                assert(key_file@.subrange(1, key_file@.len() as int) =~= key_file@.drop_first());
                assert(expanded@ =~= h@ + key_file@.drop_first());
            }
        }
    }
    if !tilde {
        extend_range(&mut expanded, key_file, 0, key_file.len());
        proof {
            assert(expanded@ =~= key_file@);
        }
    }
    if expanded.len() > 0 && expanded[0] == '/' {
        return expanded;
    }
    let mut out: Vec<char> = Vec::new();
    extend_range(&mut out, config_dir, 0, config_dir.len());
    proof {
        assert(out@ =~= config_dir@);
    }
    if config_dir.len() > 0 && config_dir[config_dir.len() - 1] != '/' {
        out.push('/');
    }
    extend_range(&mut out, &expanded, 0, expanded.len());
    proof {
        assert(expanded@.subrange(0, expanded@.len() as int) =~= expanded@);
    }
    out
}

/// `rel` seen from `dir`.
pub fn join_chars(dir: &Vec<char>, rel: &Vec<char>) -> (out: Vec<char>)
    ensures
        out@ == join(dir@, rel@),
{
    let none: Option<Vec<char>> = None;
    resolve_chars(rel, dir, &none)
}

} // verus!
