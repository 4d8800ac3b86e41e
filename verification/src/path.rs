//! Paths: the name of a file and the directory that it lies in.

use vstd::prelude::*;

use crate::text::{joined, occurs_in};

verus! {

/// Names that lead to a directory in the same way everywhere: none of them is
/// empty or holds what a platform may separate names with, and only a relative
/// path may begin with the name of the same directory.
pub open spec fn directory_names(absolute: bool, names: Seq<Seq<char>>) -> bool {
    forall|i: int|
        0 <= i < names.len() ==> {
            &&& (#[trigger] names[i]).len() > 0
            &&& forall|k: int|
                0 <= k < names[i].len() ==> (#[trigger] names[i][k]) != '/' && names[i][k] != '\\'
                    && names[i][k] != ':'
            &&& names[i] == "."@ ==> i == 0 && !absolute
        }
}

/// Names that lead to a file in the same way everywhere, or to nothing: the last
/// one is that of a file.
pub open spec fn ordinary_names(absolute: bool, names: Seq<Seq<char>>) -> bool {
    &&& directory_names(absolute, names)
    &&& names.len() > 0 ==> names.last() != "."@ && names.last() != ".."@
}

/// The path that leads through these names, from the root if it is absolute.
pub open spec fn written_path(absolute: bool, names: Seq<Seq<char>>) -> Seq<char> {
    if absolute {
        "/"@ + joined(names, "/"@)
    } else {
        joined(names, "/"@)
    }
}

/// A path that is split in the same way everywhere: it holds nothing that only
/// some platforms separate names with, and does not begin with two slashes.
pub open spec fn read_alike(path: Seq<char>) -> bool {
    &&& forall|i: int| 0 <= i < path.len() ==> (#[trigger] path[i]) != '\\' && path[i] != ':'
    &&& !(path.len() > 1 && path[0] == '/' && path[1] == '/')
}

/// The path without what leads nowhere at its end: slashes, and full stops that
/// stand alone behind a slash.
pub open spec fn trimmed(path: Seq<char>) -> Seq<char>
    decreases path.len(),
{
    if path.len() > 0 && path.last() == '/' {
        trimmed(path.drop_last())
    } else if path.len() > 1 && path.last() == '.' && path[path.len() - 2] == '/' {
        trimmed(path.drop_last())
    } else {
        path
    }
}

/// What stands behind the last slash, or all if there is no slash.
pub open spec fn last_piece(path: Seq<char>) -> Seq<char>
    decreases path.len(),
{
    if path.len() == 0 || path.last() == '/' {
        Seq::empty()
    } else {
        last_piece(path.drop_last()).push(path.last())
    }
}

/// The last name that a path leads through; empty for the root and the empty path.
pub open spec fn last_name(path: Seq<char>) -> Seq<char> {
    last_piece(trimmed(path))
}

/// What stands before the last name that a path leads through.
pub open spec fn before_last_name(path: Seq<char>) -> Seq<char> {
    trimmed(path).take(trimmed(path).len() - last_name(path).len())
}

/// The last name that a path leads through is that of a file.
pub open spec fn names_a_file(path: Seq<char>) -> bool {
    last_name(path).len() > 0 && last_name(path) != "."@ && last_name(path) != ".."@
}

/// `dir` is the directory that the last name of `path` lies in. It begins at the
/// root if the path does, and may have what leads nowhere at its end.
pub open spec fn lies_in(path: Seq<char>, dir: Seq<char>) -> bool {
    &&& dir.is_prefix_of(path)
    &&& trimmed(dir) == trimmed(before_last_name(path))
    &&& path.len() > 0 && path[0] == '/' ==> dir.len() > 0
}

/// Calls `std::path::Path::file_name`, and `to_str` on the name, which a path that is UTF-8
/// always gives. Of a path that is split in the same way everywhere, the last name
/// that it leads through is claimed if it is that of a file, and none if it is
/// not. Of any other path a name is claimed to be a component: it stands in the
/// path, is not empty and holds no slash. How the platform splits such a path is
/// not claimed.
#[verifier::external_body]
pub(crate) fn path_file_name(path: &str) -> (name: Option<Option<String>>)
    ensures
        read_alike(path@) ==> if names_a_file(path@) {
            name matches Some(Some(name)) && name@ == last_name(path@)
        } else {
            name is None
        },
        name != Some(None::<String>),
        name matches Some(Some(name)) ==> {
            &&& name@.len() > 0
            &&& !name@.contains('/')
            &&& occurs_in(name@, path@)
        },
{
    match std::path::Path::new(path).file_name() {
        Some(name) => match name.to_str() {
            Some(name) => Some(Some(name.to_owned())),
            None => Some(None),
        },
        None => None,
    }
}

/// Calls `std::path::Path::parent`. Of a path that is split in the same way everywhere, the
/// directory is claimed that its last name lies in; the root and the empty path
/// have no parent. Whether the directory has what leads nowhere at its end is
/// claimed only of a path through ordinary names: there it is the path through all but the last of them.
/// Of any other path a parent is claimed to be what the path begins with; how
/// far it reaches depends on the platform, and is not claimed.
#[verifier::external_body]
pub(crate) fn path_parent(path: &str) -> (dir: Option<String>)
    ensures
        read_alike(path@) ==> if last_name(path@).len() > 0 {
            dir matches Some(dir) && lies_in(path@, dir@)
        } else {
            dir is None
        },
        forall|absolute: bool, names: Seq<Seq<char>>|
            ordinary_names(absolute, names) && names.len() > 0 && path@
                == #[trigger] written_path(absolute, names) ==> (dir matches Some(dir) && dir@
                == written_path(absolute, names.drop_last())),
        dir matches Some(dir) ==> dir@.is_prefix_of(path@),
{
    match std::path::Path::new(path).parent() {
        Some(dir) => Some(dir.to_string_lossy().into_owned()),
        None => None,
    }
}

/// Behind a slash, or at the beginning, a name without slashes is the last piece.
pub(crate) proof fn lemma_last_piece(front: Seq<char>, name: Seq<char>)
    requires
        front.len() > 0 ==> front.last() == '/',
        !name.contains('/'),
    ensures
        last_piece(front + name) == name,
    decreases name.len(),
{
    let path = front + name;
    if name.len() == 0 {
        assert(path =~= front);
    } else {
        let shorter = name.drop_last();
        assert(name.contains(name.last()));
        assert forall|c: char| shorter.contains(c) implies name.contains(c) by {
            let i = choose|i: int| 0 <= i < shorter.len() && shorter[i] == c;
            assert(name[i] == c);
        }
        lemma_last_piece(front, shorter);
        assert(path.drop_last() =~= front + shorter);
        assert(last_piece(path) =~= name);
    }
}

/// The names of a directory are written with nothing that only some platforms
/// separate names with, and begin with the first of them.
proof fn lemma_joined_names(absolute: bool, names: Seq<Seq<char>>)
    requires
        directory_names(absolute, names),
        names.len() > 0,
    ensures
        joined(names, "/"@).len() > 0,
        joined(names, "/"@)[0] == names[0][0],
        forall|i: int|
            0 <= i < joined(names, "/"@).len() ==> (#[trigger] joined(names, "/"@)[i]) != '\\'
                && joined(names, "/"@)[i] != ':',
    decreases names.len(),
{
    reveal_strlit("/");
    assert(names[0].len() > 0);
    if names.len() > 1 {
        let fewer = names.drop_last();
        assert forall|i: int| 0 <= i < fewer.len() implies #[trigger] fewer[i] == names[i] by {}
        lemma_joined_names(absolute, fewer);
        assert(names.last() == names[names.len() - 1]);
        let whole = joined(names, "/"@);
        let front = joined(fewer, "/"@);
        assert forall|i: int| 0 <= i < whole.len() implies (#[trigger] whole[i]) != '\\' && whole[i]
            != ':' by {
            if i < front.len() {
                assert(whole[i] == front[i]);
            } else if i > front.len() {
                assert(whole[i] == names[names.len() - 1][i - front.len() - 1]);
            }
        }
    }
}

/// A path through names ends in the last of them, and is split in the same way everywhere.
pub proof fn lemma_written_path(absolute: bool, names: Seq<Seq<char>>)
    requires
        directory_names(absolute, names),
    ensures
        read_alike(written_path(absolute, names)),
        names.len() > 0 ==> last_name(written_path(absolute, names)) == names.last(),
        names.len() == 0 ==> last_name(written_path(absolute, names)).len() == 0,
{
    let path = written_path(absolute, names);
    reveal_strlit("/");
    if names.len() == 0 {
        reveal_with_fuel(trimmed, 2);
        assert(trimmed(path) =~= Seq::<char>::empty());
    } else {
        lemma_joined_names(absolute, names);
        let name = names.last();
        assert(name == names[names.len() - 1]);
        assert(names[0][0] != '/');
        let rest = joined(names, "/"@);
        assert forall|i: int| 0 <= i < path.len() implies (#[trigger] path[i]) != '\\' && path[i]
            != ':' by {
            if absolute && i > 0 {
                assert(path[i] == rest[i - 1]);
            }
        }
        if absolute {
            assert(path[1] == rest[0]);
        }
        let front = path.take(path.len() - name.len());
        if names.len() > 1 {
            let start = joined(names.drop_last(), "/"@);
            assert(rest =~= start + "/"@ + name);
        }
        assert(path =~= front + name);
        assert(front.len() > 0 ==> front.last() == '/');
        assert(!name.contains('/'));
        reveal_strlit(".");
        assert(path.last() == name.last() && name.contains(name.last()));
        if path.len() > 1 && path.last() == '.' && path[path.len() - 2] == '/' {
            if name.len() > 1 {
                assert(path[path.len() - 2] == name[name.len() - 2]);
                assert(name.contains(name[name.len() - 2]));
            }
            assert(name =~= "."@);
        }
        assert(trimmed(path) == path);
        lemma_last_piece(front, name);
    }
}

} // verus!
