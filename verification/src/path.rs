//! The extension of the file that a path names.
//!
//! A path is read as a sequence of components that separators set apart; the
//! separator is `/`, whatever the platform. Separators that end a path, and
//! components that are a single `.`, name nothing: the file name is the last
//! component besides them.

use crate::text::char_count_fits;
use vstd::prelude::*;
use vstd::std_specs::iter::IteratorSpec;

verus! {

/// The character that sets the components of a path apart.
pub const SEPARATOR: char = '/';

/// Where the last component of `path` starts: behind its last separator, or
/// at its start if it holds none. A path that ends with a separator has an
/// empty last component.
pub open spec fn component_start(path: Seq<char>) -> nat
    decreases path.len(),
{
    if path.len() == 0 {
        0
    } else if path.last() == SEPARATOR {
        path.len()
    } else {
        component_start(path.drop_last())
    }
}

/// Whether `path` ends with what names nothing: with a separator, or with a
/// component that is a single `.`.
pub open spec fn ends_unnamed(path: Seq<char>) -> bool {
    path.len() > 0 && (path.last() == SEPARATOR || (path.last() == '.' && (path.len() == 1
        || path[path.len() - 2] == SEPARATOR)))
}

/// Where the file name of `path` ends: at the end of `path` without the
/// separators and the `.` components that end it.
pub open spec fn name_end(path: Seq<char>) -> nat
    decreases path.len(),
{
    if ends_unnamed(path) {
        name_end(path.drop_last())
    } else {
        path.len()
    }
}

/// Where the file name of `path` starts.
pub open spec fn name_start(path: Seq<char>) -> nat {
    component_start(path.take(name_end(path) as int))
}

/// The file name of `path`: its last component that is neither empty nor `.`.
/// It is empty where the path has no such component.
pub open spec fn file_name(path: Seq<char>) -> Seq<char> {
    path.subrange(name_start(path) as int, name_end(path) as int)
}

/// The index of the last `.` in `name`, or -1 if it holds none.
pub open spec fn last_dot(name: Seq<char>) -> int
    decreases name.len(),
{
    if name.len() == 0 {
        -1
    } else if name.last() == '.' {
        name.len() - 1
    } else {
        last_dot(name.drop_last())
    }
}

/// The extension of the file that `path` names: what follows the last `.` of
/// the file name. There is none where the file name holds no `.`, where its
/// only `.` is its first character, and where it is `..`.
pub open spec fn extension_of(path: Seq<char>) -> Option<Seq<char>> {
    let name = file_name(path);
    let dot = last_dot(name);
    if dot <= 0 || name =~= seq!['.', '.'] {
        None
    } else {
        Some(name.skip(dot + 1))
    }
}

/// The extension of the file that `pathname` names, if it has one.
pub fn extension(pathname: &str) -> (found: Option<&str>)
    ensures
        found matches Some(ext) ==> extension_of(pathname@) == Some(ext@),
        found is None ==> extension_of(pathname@) is None,
{
    char_count_fits(pathname);
    let ghost path = pathname@;
    // The component that is being read, and the last `.` in it.
    let mut start: usize = 0;
    let mut dot: Option<usize> = None;
    // The file name of what has been read, and the last `.` in it.
    let mut name_from: usize = 0;
    let mut name_to: usize = 0;
    let mut name_dot: Option<usize> = None;
    let mut index: usize = 0;
    for c in chars: pathname.chars()
        invariant
            chars.seq() == path,
            path.len() <= usize::MAX,
            index == chars.index(),
            start == component_start(path.take(index as int)),
            start <= index,
            dot matches Some(d) ==> start <= d < index && last_dot(
                path.subrange(start as int, index as int),
            ) == d - start,
            dot is None ==> last_dot(path.subrange(start as int, index as int)) == -1,
            name_to == name_end(path.take(index as int)),
            name_from == name_start(path.take(index as int)),
            name_from <= name_to <= index,
            name_dot matches Some(d) ==> name_from <= d < name_to && last_dot(
                path.subrange(name_from as int, name_to as int),
            ) == d - name_from,
            name_dot is None ==> last_dot(path.subrange(name_from as int, name_to as int)) == -1,
    {
        let ghost read = path.take(index as int);
        let ghost next = path.take(index + 1);
        proof {
            assert(next.drop_last() =~= read);
            assert(next.last() == c);
            assert(path.subrange(start as int, index + 1).drop_last() =~= path.subrange(
                start as int,
                index as int,
            ));
            lemma_component(read);
        }
        if c == SEPARATOR {
            proof {
                assert(next.take(name_to as int) =~= read.take(name_to as int));
                assert(path.subrange(index + 1, index + 1) =~= Seq::<char>::empty());
            }
            start = index + 1;
            dot = None;
        } else {
            let alone = c == '.' && start == index;
            if c == '.' {
                dot = Some(index);
            }
            if alone {
                proof {
                    assert(next.take(name_to as int) =~= read.take(name_to as int));
                }
            } else {
                proof {
                    assert(next.take(index + 1) =~= next);
                }
                name_from = start;
                name_to = index + 1;
                name_dot = dot;
            }
        }
        index = index + 1;
    }
    proof {
        assert(path.take(index as int) =~= path);
    }
    match name_dot {
        None => None,
        Some(d) => {
            if d == name_from {
                // The only `.` of the name is its first character.
                None
            } else if name_to - name_from == 2 && pathname.get_char(name_from) == '.' {
                // The name is `..`.
                proof {
                    let name = file_name(path);
                    reveal_with_fuel(last_dot, 3);
                    assert(name[0] == '.' && name[1] == '.');
                    assert(name =~= seq!['.', '.']);
                }
                None
            } else {
                proof {
                    let name = file_name(path);
                    assert(name =~= seq!['.', '.'] ==> name[0] == '.');
                    assert(name.skip(d - name_from + 1) =~= path.subrange(
                        d + 1,
                        name_to as int,
                    ));
                }
                Some(pathname.substring_char(d + 1, name_to))
            }
        },
    }
}

/// Characters without a separator, put behind a path, lengthen its last
/// component.
proof fn lemma_component_start_append(path: Seq<char>, more: Seq<char>)
    requires
        forall|i: int| 0 <= i < more.len() ==> more[i] != SEPARATOR,
    ensures
        component_start(path + more) == component_start(path),
    decreases more.len(),
{
    if more.len() == 0 {
        assert(path + more =~= path);
    } else {
        assert((path + more).drop_last() =~= path + more.drop_last());
        lemma_component_start_append(path, more.drop_last());
    }
}

/// Characters other than `.`, put behind a name, leave its last `.` where it
/// is.
proof fn lemma_last_dot_append(name: Seq<char>, more: Seq<char>)
    requires
        forall|i: int| 0 <= i < more.len() ==> more[i] != '.',
    ensures
        last_dot(name + more) == last_dot(name),
    decreases more.len(),
{
    if more.len() == 0 {
        assert(name + more =~= name);
    } else {
        assert((name + more).drop_last() =~= name + more.drop_last());
        lemma_last_dot_append(name, more.drop_last());
    }
}

/// The file `stem.ext` has the extension `ext`, in whatever directory it lies:
/// for a stem that is not empty and an extension that is neither empty nor
/// holds a `.`, neither of them with a separator.
pub proof fn extension_of_named_file(dir: Seq<char>, stem: Seq<char>, ext: Seq<char>)
    requires
        dir.len() == 0 || dir.last() == SEPARATOR,
        stem.len() > 0,
        forall|i: int| 0 <= i < stem.len() ==> stem[i] != SEPARATOR,
        ext.len() > 0,
        forall|i: int| 0 <= i < ext.len() ==> ext[i] != '.' && ext[i] != SEPARATOR,
    ensures
        file_name(dir + stem + seq!['.'] + ext) == stem + seq!['.'] + ext,
        extension_of(dir + stem + seq!['.'] + ext) == Some(ext),
{
    let name = stem + seq!['.'] + ext;
    let path = dir + stem + seq!['.'] + ext;
    assert(path =~= dir + name);
    // The path ends with its file name,
    assert(path.last() == ext.last());
    assert(name_end(path) == path.len());
    assert(path.take(path.len() as int) =~= path);
    // which starts behind the directory,
    assert(component_start(dir) == dir.len());
    lemma_component_start_append(dir, name);
    assert(file_name(path) =~= name);
    // and whose last `.` is the one behind the stem.
    assert(last_dot(stem + seq!['.']) == stem.len());
    lemma_last_dot_append(stem + seq!['.'], ext);
    assert(last_dot(name) == stem.len());
    assert(name.skip(stem.len() as int + 1) =~= ext);
}

/// Separators that end a path do not change the file that it names.
pub proof fn trailing_separator_is_ignored(path: Seq<char>)
    ensures
        file_name(path.push(SEPARATOR)) == file_name(path),
        extension_of(path.push(SEPARATOR)) == extension_of(path),
{
    let longer = path.push(SEPARATOR);
    let end = name_end(path) as int;
    file_name_is_last_component(path);
    assert(longer.drop_last() =~= path);
    assert(name_end(longer) == end);
    assert(longer.take(end) =~= path.take(end));
    assert(file_name(longer) =~= file_name(path));
}

/// The last component of a path starts within the path, behind a separator
/// or at the start of the path, and holds no separator.
proof fn lemma_component(path: Seq<char>)
    ensures
        component_start(path) <= path.len(),
        component_start(path) == 0 || path[component_start(path) - 1] == SEPARATOR,
        forall|i: int| component_start(path) <= i < path.len() ==> path[i] != SEPARATOR,
    decreases path.len(),
{
    if path.len() > 0 {
        let shorter = path.drop_last();
        lemma_component(shorter);
        assert forall|i: int| component_start(path) <= i < path.len() implies path[i]
            != SEPARATOR by {
            if i < shorter.len() {
                assert(shorter[i] == path[i]);
            }
        }
    }
}

/// The file name of a path ends where the path last names something.
proof fn lemma_name_end(path: Seq<char>)
    ensures
        name_end(path) <= path.len(),
        !ends_unnamed(path.take(name_end(path) as int)),
        forall|i: int| name_end(path) < i <= path.len() ==> ends_unnamed(path.take(i)),
    decreases path.len(),
{
    if ends_unnamed(path) {
        let shorter = path.drop_last();
        lemma_name_end(shorter);
        assert(shorter.take(name_end(path) as int) =~= path.take(name_end(path) as int));
        assert forall|i: int| name_end(path) < i <= path.len() implies ends_unnamed(
            path.take(i),
        ) by {
            if i < path.len() {
                assert(shorter.take(i) =~= path.take(i));
            } else {
                assert(path.take(i) =~= path);
            }
        }
    } else {
        assert(path.take(path.len() as int) =~= path);
    }
}

/// The file name of a path is a whole component of it, other than `.`, and
/// the last one that is so: it holds no separator, it is set apart by
/// separators or by the ends of the path, and all that the path holds behind
/// it are separators and components that are a single `.`.
pub proof fn file_name_is_last_component(path: Seq<char>)
    ensures
        name_start(path) <= name_end(path) <= path.len(),
        forall|i: int| name_start(path) <= i < name_end(path) ==> path[i] != SEPARATOR,
        name_start(path) == 0 || path[name_start(path) - 1] == SEPARATOR,
        name_end(path) == path.len() || name_end(path) == 0 || path[name_end(path) as int]
            == SEPARATOR,
        file_name(path) != seq!['.'],
        forall|i: int| name_end(path) < i <= path.len() ==> ends_unnamed(path.take(i)),
{
    let to = name_end(path) as int;
    let named = path.take(to);
    let from = component_start(named) as int;
    lemma_name_end(path);
    lemma_component(named);
    assert forall|i: int| from <= i < to implies path[i] != SEPARATOR by {
        assert(named[i] == path[i]);
    }
    if from > 0 {
        assert(named[from - 1] == path[from - 1]);
    }
    if 0 < to < path.len() {
        assert(ends_unnamed(path.take(to + 1)));
    }
    if file_name(path) == seq!['.'] {
        assert(file_name(path).len() == 1);
        assert(file_name(path)[0] == path[from]);
    }
}

} // verus!
