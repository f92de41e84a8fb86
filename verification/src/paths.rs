use vstd::prelude::*;

verus! {

/// Whether `part` stands somewhere in `whole`, character for character.
pub open spec fn occurs_in(part: Seq<char>, whole: Seq<char>) -> bool {
    exists|i: int| 0 <= i && i + part.len() <= whole.len() && #[trigger] whole.subrange(i, i + part.len()) == part
}

/// The part of `s` after its last `c`; all of `s` where no `c` stands in it.
pub open spec fn after_last(s: Seq<char>, c: char) -> Seq<char>
    decreases s.len(),
{
    if s.len() == 0 {
        s
    } else if s.last() == c {
        Seq::empty()
    } else {
        after_last(s.drop_last(), c).push(s.last())
    }
}

/// The part of `s` before its last `c`; nothing where no `c` stands in it.
pub open spec fn before_last(s: Seq<char>, c: char) -> Seq<char>
    decreases s.len(),
{
    if s.len() == 0 {
        s
    } else if s.last() == c {
        s.drop_last()
    } else {
        before_last(s.drop_last(), c)
    }
}

/// The text after the last `/` of a path: its final component where the
/// path is plain.
pub open spec fn file_tail(path: Seq<char>) -> Seq<char> {
    after_last(path, '/')
}

/// A file name that every platform reads alike: not empty, free of the
/// separators `/` and `\` and of the drive mark `:`, and neither `.` nor `..`.
pub open spec fn plain_name(n: Seq<char>) -> bool {
    &&& n.len() > 0
    &&& !n.contains('/')
    &&& !n.contains('\\')
    &&& !n.contains(':')
    &&& n != "."@
    &&& n != ".."@
}

/// A path whose final component every platform finds after its last `/`:
/// it holds no `\`, does not begin with `//` (which Windows reads as the
/// prefix of a network share), and ends in a plain file name.
pub open spec fn plain_path(path: Seq<char>) -> bool {
    &&& !path.contains('\\')
    &&& !(path.len() >= 2 && path[0] == '/' && path[1] == '/')
    &&& plain_name(file_tail(path))
}

/// Whether file name `n` has an extension: a `.` that is not its first character.
pub open spec fn has_extension(n: Seq<char>) -> bool {
    n.len() > 1 && n.drop_first().contains('.')
}

/// The stem of file name `n`: what stands before its last `.`, or all of it
/// where it has no extension.
pub open spec fn stem_of(n: Seq<char>) -> Seq<char> {
    if has_extension(n) {
        before_last(n, '.')
    } else {
        n
    }
}

/// The extension of file name `n`: what stands after its last `.`, where it
/// has one.
pub open spec fn extension_of(n: Seq<char>) -> Option<Seq<char>> {
    if has_extension(n) {
        Some(after_last(n, '.'))
    } else {
        None
    }
}

/// `std::path::Path::file_name` of `path`, as text. It is the path's final
/// component, a piece of the path itself; for a plain path (see
/// `plain_path`) it is what follows the last `/`. On other paths, which
/// piece it is depends on the platform's path syntax, and that is left unsaid.
#[verifier::external_body]
pub(crate) fn path_file_name(path: &str) -> (r: Option<String>)
    ensures
        r matches Some(n) ==> occurs_in(n@, path@),
        plain_path(path@) ==> match r {
            Some(n) => n@ == file_tail(path@),
            None => false,
        },
{
    match std::path::Path::new(path).file_name() {
        Some(name) => name.to_str().map(String::from),
        None => None,
    }
}

/// `std::path::Path::file_stem` of `path`, as text: the file name without
/// its extension, a piece of the path itself. For a plain path it is the
/// stem of what follows the last `/`, as std documents it (see `stem_of`).
/// On other paths, which piece it is depends on the platform's path syntax,
/// and that is left unsaid.
#[verifier::external_body]
pub(crate) fn path_file_stem(path: &str) -> (r: Option<String>)
    ensures
        r matches Some(n) ==> occurs_in(n@, path@),
        plain_path(path@) ==> match r {
            Some(n) => n@ == stem_of(file_tail(path@)),
            None => false,
        },
{
    match std::path::Path::new(path).file_stem() {
        Some(stem) => stem.to_str().map(String::from),
        None => None,
    }
}

/// `std::path::Path::extension` of `path`, as text: the part of the file
/// name after its last dot, so it holds no dot and stands in the path behind
/// one; a path without a dot has none. For a plain path it is the extension
/// of what follows the last `/`, as std documents it (see `extension_of`).
/// On other paths, which piece it is depends on the platform's path syntax,
/// and that is left unsaid.
#[verifier::external_body]
pub(crate) fn path_extension(path: &str) -> (r: Option<String>)
    ensures
        r matches Some(n) ==> occurs_in("."@ + n@, path@) && !n@.contains('.'),
        !path@.contains('.') ==> r is None,
        plain_path(path@) ==> match extension_of(file_tail(path@)) {
            Some(x) => r matches Some(n) && n@ == x,
            None => r is None,
        },
{
    match std::path::Path::new(path).extension() {
        Some(ext) => ext.to_str().map(String::from),
        None => None,
    }
}

/// Whether `sep` is what a join may put between two paths: nothing, or one
/// of the separators `/` and `\`.
pub open spec fn join_separator(sep: Seq<char>) -> bool {
    sep.len() == 0 || sep == seq!['/'] || sep == seq!['\\']
}

/// Whether `path` is `base` extended with `part`, with a separator or none
/// between them.
pub open spec fn extends_with(path: Seq<char>, base: Seq<char>, part: Seq<char>) -> bool {
    exists|sep: Seq<char>| join_separator(sep) && path == base + sep + part
}

/// Whether `base` is a path that a join only extends: it holds no `?`, so no
/// Windows verbatim prefix, and does not end in the `:` of a bare drive.
pub open spec fn extendable(base: Seq<char>) -> bool {
    !base.contains('?') && (base.len() == 0 || base.last() != ':')
}

/// `std::path::Path::join` of `part` onto `base`, as text. Where `part` is a
/// plain file name and `base` is extendable, std documents the join as
/// extending `base` with `part`, a separator between them where one is
/// needed: `/` on Unix, `\` on Windows. Which platform it is, and so which
/// separator, is left unsaid, and so is the join of other paths.
#[verifier::external_body]
pub(crate) fn path_join(base: &str, part: &str) -> (r: String)
    ensures
        plain_name(part@) && extendable(base@) ==> extends_with(r@, base@, part@),
{
    std::path::Path::new(base).join(part).to_string_lossy().to_string()
}

/// The text of `name`, or the empty text when there is none.
pub fn or_empty(name: Option<String>) -> (r: String)
    ensures
        name matches Some(n) ==> r == n,
        name is None ==> r@ == Seq::<char>::empty(),
{
    match name {
        Some(n) => n,
        None => String::new(),
    }
}

} // verus!
