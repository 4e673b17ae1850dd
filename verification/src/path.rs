//! Paths as text.
//!
//! The pipeline never asks the filesystem what a path means. It only builds
//! paths from parts and takes file names apart, by the rules of this module.
//! A path is a string; `/` separates its parts, and in a path taken from the
//! host `\` counts as a separator as well.

use crate::target::Target;
use crate::text::{chain, text_of, to_chars};
use vstd::prelude::*;

verus! {

/// Whether `c` separates the parts of a path.
pub open spec fn is_separator(c: char) -> bool {
    c == '/' || c == '\\'
}

/// `name` inside the directory `base`: the two are put together with one `/`
/// between them, unless `base` is empty or ends with a separator already.
pub open spec fn join_spec(base: Seq<char>, name: Seq<char>) -> Seq<char> {
    if base.len() == 0 || is_separator(base.last()) {
        base + name
    } else {
        base + seq!['/'] + name
    }
}

/// Where the last part of `path` begins: behind its last separator, or at 0
/// if it has none.
pub open spec fn file_name_start(path: Seq<char>) -> int
    decreases path.len(),
{
    if path.len() == 0 {
        0
    } else if is_separator(path.last()) {
        path.len() as int
    } else {
        file_name_start(path.drop_last())
    }
}

/// The last part of `path`: what follows its last separator, or all of it if
/// it has none. Empty where the path is empty or ends with a separator.
pub open spec fn file_name_spec(path: Seq<char>) -> Seq<char> {
    path.skip(file_name_start(path))
}

/// The index of the last `.` in `name`, or -1 if it has none.
pub open spec fn last_dot(name: Seq<char>) -> int
    decreases name.len(),
{
    if name.len() == 0 {
        -1
    } else if name.last() == '.' {
        name.len() - 1
    } else {
        last_dot(name.drop_last())
    }
}

/// The extension of a file name: what follows its last `.`, if that `.` is
/// not the name's first character.
pub open spec fn extension_spec(name: Seq<char>) -> Option<Seq<char>> {
    if last_dot(name) > 0 {
        Some(name.skip(last_dot(name) + 1))
    } else {
        None
    }
}

/// A file name without its extension and the `.` before it.
pub open spec fn stem_spec(name: Seq<char>) -> Seq<char> {
    if last_dot(name) > 0 {
        name.take(last_dot(name))
    } else {
        name
    }
}

/// The name of the file that holds the debug information split off from the
/// library called `name`: the same name with the extension `dwarf`.
pub open spec fn debug_file_name_spec(name: Seq<char>) -> Seq<char> {
    stem_spec(name) + ".dwarf"@
}

/// Whether a file of this name is a shared library: whether its extension is
/// `so`.
pub open spec fn is_shared_library_spec(name: Seq<char>) -> bool {
    extension_spec(name) == Some("so"@)
}

/// `s` with every `\` replaced by `/`.
pub open spec fn unix_separators_spec(s: Seq<char>) -> Seq<char> {
    Seq::new(
        s.len(),
        |i: int|
            if s[i] == '\\' {
                '/'
            } else {
                s[i]
            },
    )
}

/// The path of a library inside the package: `lib/<abi>/<file name>`, with
/// `/` between the parts whatever the host uses.
pub open spec fn archive_path_spec(target: Target, file_name: Seq<char>) -> Seq<char> {
    unix_separators_spec(join_spec(join_spec("lib"@, target.abi()), file_name))
}

/// `file_name_start` looks only at the end of the path: trailing characters
/// that are no separators do not move it.
proof fn lemma_file_name_start_prefix(path: Seq<char>, i: int)
    requires
        0 <= i <= path.len(),
        forall|j: int| i <= j < path.len() ==> !is_separator(path[j]),
    ensures
        file_name_start(path) == file_name_start(path.take(i)),
    decreases path.len() - i,
{
    if i == path.len() {
        assert(path.take(i) =~= path);
    } else {
        lemma_file_name_start_prefix(path.drop_last(), i);
        assert(path.drop_last().take(i) =~= path.take(i));
    }
}

proof fn lemma_last_dot_prefix(name: Seq<char>, i: int)
    requires
        0 <= i <= name.len(),
        forall|j: int| i <= j < name.len() ==> name[j] != '.',
    ensures
        last_dot(name) == last_dot(name.take(i)),
    decreases name.len() - i,
{
    if i == name.len() {
        assert(name.take(i) =~= name);
    } else {
        lemma_last_dot_prefix(name.drop_last(), i);
        assert(name.drop_last().take(i) =~= name.take(i));
    }
}

/// The last `.` of a name lies inside the name, and no `.` follows it.
pub proof fn lemma_last_dot_is_last(name: Seq<char>)
    ensures
        -1 <= last_dot(name) < name.len(),
        last_dot(name) >= 0 ==> name[last_dot(name)] == '.',
        forall|j: int| last_dot(name) < j < name.len() ==> name[j] != '.',
    decreases name.len(),
{
    if name.len() > 0 && name.last() != '.' {
        let front = name.drop_last();
        lemma_last_dot_is_last(front);
        assert forall|j: int| last_dot(name) < j < name.len() implies name[j] != '.' by {
            if j < front.len() {
                assert(front[j] != '.');
            }
        }
    }
}

/// The file name of a path is the longest end of the path that holds no
/// separator.
pub proof fn lemma_file_name_is_last_part(path: Seq<char>)
    ensures
        0 <= file_name_start(path) <= path.len(),
        forall|j: int| 0 <= j < file_name_spec(path).len() ==> !is_separator(
            #[trigger] file_name_spec(path)[j],
        ),
        file_name_start(path) > 0 ==> is_separator(path[file_name_start(path) - 1]),
        path.take(file_name_start(path)) + file_name_spec(path) == path,
    decreases path.len(),
{
    if path.len() > 0 && !is_separator(path.last()) {
        let front = path.drop_last();
        lemma_file_name_is_last_part(front);
        assert forall|j: int| 0 <= j < file_name_spec(path).len() implies !is_separator(
            #[trigger] file_name_spec(path)[j],
        ) by {
            if j < file_name_spec(front).len() {
                assert(file_name_spec(path)[j] == file_name_spec(front)[j]);
            }
        }
    }
    assert(path.take(file_name_start(path)) + file_name_spec(path) =~= path);
}

/// No `\` is left where every `\` has been replaced.
pub proof fn lemma_unix_separators_has_no_backslash(s: Seq<char>)
    ensures
        forall|i: int|
            0 <= i < unix_separators_spec(s).len() ==> unix_separators_spec(s)[i] != '\\',
{
}

/// The path of a library inside the package holds no `\`: its parts are
/// separated by `/` alone.
pub proof fn lemma_archive_path_has_no_backslash(target: Target, file_name: Seq<char>)
    ensures
        forall|i: int|
            0 <= i < archive_path_spec(target, file_name).len() ==> archive_path_spec(
                target,
                file_name,
            )[i] != '\\',
{
}

/// The path of a library inside the package is `lib/<abi>/<file name>`
/// whichever separator the host puts between the three parts. The file name
/// is one that [`file_name_spec`] gives: it holds no separator.
pub proof fn lemma_archive_path_ignores_host_separator(
    target: Target,
    file_name: Seq<char>,
    host_separator: char,
)
    requires
        is_separator(host_separator),
        forall|i: int| 0 <= i < file_name.len() ==> !is_separator(file_name[i]),
    ensures
        unix_separators_spec(
            "lib"@ + seq![host_separator] + target.abi() + seq![host_separator] + file_name,
        ) == archive_path_spec(target, file_name),
        archive_path_spec(target, file_name) == "lib/"@ + target.abi() + seq!['/'] + file_name,
{
    reveal_strlit("lib");
    reveal_strlit("lib/");
    reveal_strlit("armeabi-v7a");
    reveal_strlit("arm64-v8a");
    reveal_strlit("x86");
    reveal_strlit("x86_64");
    let abi = target.abi();
    let dir = join_spec("lib"@, abi);
    assert(dir =~= "lib"@ + seq!['/'] + abi);
    assert(!is_separator(dir.last()));
    let unix = "lib/"@ + abi + seq!['/'] + file_name;
    assert(join_spec(dir, file_name) =~= unix);
    assert(unix_separators_spec(unix) =~= unix);
    assert(unix_separators_spec(
        "lib"@ + seq![host_separator] + abi + seq![host_separator] + file_name,
    ) =~= unix);
}

/// `name` inside the directory `base`.
pub fn join(base: &str, name: &str) -> (path: String)
    ensures
        path@ == join_spec(base@, name@),
{
    let n = base.unicode_len();
    if n == 0 {
        chain(base, name)
    } else {
        let last = base.get_char(n - 1);
        if last == '/' || last == '\\' {
            chain(base, name)
        } else {
            let mut path = String::from_str(base);
            path.push('/');
            path.append(name);
            path
        }
    }
}

/// The last part of `path`: what follows its last separator.
pub fn file_name(path: &str) -> (name: String)
    ensures
        name@ == file_name_spec(path@),
{
    let chars = to_chars(path);
    let mut i: usize = chars.len();
    while i > 0 && !(chars[i - 1] == '/' || chars[i - 1] == '\\')
        invariant
            i <= chars.len(),
            forall|j: int| i <= j < chars.len() ==> !is_separator(chars@[j]),
        decreases i,
    {
        i = i - 1;
    }
    proof {
        lemma_file_name_start_prefix(chars@, i as int);
        if i > 0 {
            assert(chars@.take(i as int).last() == chars@[i - 1]);
        }
        assert(file_name_start(chars@.take(i as int)) == i);
    }
    text_of(&chars, i, chars.len())
}

/// The index of the last `.` in `chars`, if it has one.
fn find_last_dot(chars: &Vec<char>) -> (dot: Option<usize>)
    ensures
        match dot {
            Some(d) => d == last_dot(chars@) && d < chars.len(),
            None => last_dot(chars@) == -1,
        },
{
    let mut i: usize = chars.len();
    while i > 0 && chars[i - 1] != '.'
        invariant
            i <= chars.len(),
            forall|j: int| i <= j < chars.len() ==> chars@[j] != '.',
        decreases i,
    {
        i = i - 1;
    }
    proof {
        lemma_last_dot_prefix(chars@, i as int);
        if i > 0 {
            assert(chars@.take(i as int).last() == chars@[i - 1]);
        }
    }
    if i > 0 {
        Some(i - 1)
    } else {
        None
    }
}

/// The name of the file that holds the debug information split off from the
/// library called `name`.
pub fn debug_file_name(name: &str) -> (debug_name: String)
    ensures
        debug_name@ == debug_file_name_spec(name@),
{
    let chars = to_chars(name);
    let stem_len = match find_last_dot(&chars) {
        Some(d) => if d > 0 {
            d
        } else {
            chars.len()
        },
        None => chars.len(),
    };
    let mut debug_name = text_of(&chars, 0, stem_len);
    assert(chars@.subrange(0, chars.len() as int) =~= chars@);
    debug_name.append(".dwarf");
    debug_name
}

/// Whether a file of this name is a shared library.
pub fn is_shared_library(name: &str) -> (b: bool)
    ensures
        b == is_shared_library_spec(name@),
{
    let chars = to_chars(name);
    proof {
        reveal_strlit("so");
    }
    match find_last_dot(&chars) {
        Some(d) => {
            if d > 0 {
                let b = chars.len() - d == 3 && chars[d + 1] == 's' && chars[d + 2] == 'o';
                proof {
                    let ext = chars@.skip(d as int + 1);
                    if b {
                        assert(ext =~= "so"@);
                    } else if ext.len() == 2 {
                        assert(ext[0] == chars@[d as int + 1]);
                        assert(ext[1] == chars@[d as int + 2]);
                        assert("so"@[0] == 's' && "so"@[1] == 'o');
                    }
                }
                b
            } else {
                false
            }
        },
        None => false,
    }
}

/// `s` with every `\` replaced by `/`.
pub fn unix_separators(s: &str) -> (r: String)
    ensures
        r@ == unix_separators_spec(s@),
{
    let mut r = String::new();
    for c in it: s.chars()
        invariant
            it.seq() == s@,
            r@ == unix_separators_spec(s@.take(it.index() as int)),
    {
        proof {
            let k = it.index() as int;
            assert(unix_separators_spec(s@.take(k + 1)) =~= unix_separators_spec(
                s@.take(k),
            ).push(
                if s@[k] == '\\' {
                    '/'
                } else {
                    s@[k]
                },
            ));
        }
        if c == '\\' {
            r.push('/');
        } else {
            r.push(c);
        }
    }
    assert(s@.take(s@.len() as int) =~= s@);
    r
}

/// The path of a library inside the package.
pub fn archive_path(target: Target, file_name: &str) -> (path: String)
    ensures
        path@ == archive_path_spec(target, file_name@),
{
    let dir = join("lib", target.android_abi());
    let path = join(dir.as_str(), file_name);
    unix_separators(path.as_str())
}

} // verus!
