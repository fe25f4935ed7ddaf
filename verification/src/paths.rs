//! File paths, written with `/` between their parts.

use vstd::prelude::*;

use crate::text;

verus! {

broadcast use vstd::string::group_string_axioms;

/// `child` under `base`; `child` itself where it is absolute.
pub open spec fn joined(base: Seq<char>, child: Seq<char>) -> Seq<char> {
    if child.len() > 0 && child.first() == '/' {
        child
    } else if base.len() == 0 || base.last() == '/' {
        base + child
    } else {
        base.push('/') + child
    }
}

/// A path without the slashes, and the parts that are a single dot, at its end.
pub open spec fn without_trailing(path: Seq<char>) -> Seq<char>
    decreases path.len(),
{
    if path.len() > 0 && path.last() == '/' {
        without_trailing(path.drop_last())
    } else if path.len() > 1 && path.last() == '.' && path[path.len() - 2] == '/' {
        without_trailing(path.drop_last())
    } else {
        path
    }
}

/// The last part of a path, where it names something.
pub open spec fn file_name(path: Seq<char>) -> Option<Seq<char>> {
    let last = text::split(without_trailing(path), '/').last();
    if last == Seq::<char>::empty() || last == seq!['.'] || last == seq!['.', '.'] {
        None
    } else {
        Some(last)
    }
}

/// What follows the last dot of a path's file name. A dot that the name begins with does not count
/// if it is the only one.
pub open spec fn extension(path: Seq<char>) -> Option<Seq<char>> {
    match file_name(path) {
        Some(name) => {
            let pieces = text::split(name, '.');
            if pieces.len() == 1 || (pieces.len() == 2 && pieces[0].len() == 0) {
                None
            } else {
                Some(pieces.last())
            }
        },
        None => None,
    }
}

/// `child` under `base`; `child` itself where it is absolute.
pub fn join_path(base: &str, child: &str) -> (path: String)
    ensures
        path@ == joined(base@, child@),
{
    let b = text::to_chars(base);
    let c = text::to_chars(child);
    if c.len() > 0 && c[0] == '/' {
        return child.to_owned();
    }
    let mut path = base.to_owned();
    if b.len() > 0 && b[b.len() - 1] != '/' {
        path.push('/');
    }
    path.append(child);
    path
}

/// The last part of a path, where it names something.
pub fn file_name_of(path: &str) -> (name: Option<String>)
    ensures
        text::opt_view(name) == file_name(path@),
{
    let chars = text::to_chars(path);
    let mut end: usize = chars.len();
    assert(chars@.take(end as int) =~= chars@);
    while end > 0 && (chars[end - 1] == '/' || (end > 1 && chars[end - 1] == '.' && chars[end - 2]
        == '/'))
        invariant
            end <= chars@.len(),
            without_trailing(chars@.take(end as int)) == without_trailing(path@),
        decreases end,
    {
        assert(chars@.take(end as int).drop_last() =~= chars@.take(end - 1));
        end = end - 1;
    }
    assert(chars@.take(end as int) == without_trailing(path@));
    let kept = text::to_text(&chars, 0, end);
    assert(kept@ =~= chars@.take(end as int));
    let mut pieces = text::split_text(kept.as_str(), '/');
    proof {
        text::lemma_split_has_a_piece(kept@, '/');
    }
    let ghost all = text::views(pieces@);
    match pieces.pop() {
        Some(last) => {
            assert(last@ == all.last());
            proof {
                reveal_strlit("");
                reveal_strlit(".");
                reveal_strlit("..");
            }
            assert(""@ =~= Seq::<char>::empty());
            assert("."@ =~= seq!['.']);
            assert(".."@ =~= seq!['.', '.']);
            if last.as_str().eq("") || last.as_str().eq(".") || last.as_str().eq("..") {
                None
            } else {
                Some(last)
            }
        },
        None => None,
    }
}

/// What follows the last dot of a path's file name. A dot that the name begins with does not count
/// if it is the only one.
pub fn extension_of(path: &str) -> (found: Option<String>)
    ensures
        text::opt_view(found) == extension(path@),
{
    match file_name_of(path) {
        Some(name) => {
            let mut pieces = text::split_text(name.as_str(), '.');
            let ghost all = text::views(pieces@);
            proof {
                text::lemma_split_has_a_piece(name@, '.');
            }
            assert(all[0] == pieces@[0]@);
            if pieces.len() == 1 || (pieces.len() == 2 && pieces[0].as_str().is_empty()) {
                None
            } else {
                let last = pieces.pop();
                assert(text::opt_view(last) == Some(all.last()));
                last
            }
        },
        None => None,
    }
}

/// A path under another one is the two with one slash between them, which is not written twice. An
/// absolute path is under none.
pub proof fn law_paths_are_joined_by_a_slash(base: Seq<char>, child: Seq<char>)
    ensures
        joined(base, seq!['/'] + child) == seq!['/'] + child,
        child.len() == 0 || child[0] != '/' ==> {
            &&& joined(Seq::<char>::empty(), child) == child
            &&& joined(base + seq!['/'], child) == base + seq!['/'] + child
            &&& base.len() > 0 && base[base.len() - 1] != '/' ==> joined(base, child) == base
                + seq!['/'] + child
        },
{
    assert((seq!['/'] + child).first() == '/');
    assert((base + seq!['/']).last() == '/');
    assert(Seq::<char>::empty() + child =~= child);
    assert(base.push('/') + child =~= base + seq!['/'] + child);
}

/// A name in a directory, or alone, is the file name; slashes and single dots behind it do not count.
/// Two dots, or nothing, are no file name.
pub proof fn law_the_last_part_is_the_file_name(dir: Seq<char>, name: Seq<char>)
    requires
        !name.contains('/'),
    ensures
        ({
            let found = if name == Seq::<char>::empty() || name == seq!['.'] || name
                == seq!['.', '.'] {
                None
            } else {
                Some(name)
            };
            &&& file_name(name) == found
            &&& name != Seq::<char>::empty() && name != seq!['.'] ==> file_name(
                dir + seq!['/'] + name,
            ) == found
            &&& file_name(dir + seq!['/']) == file_name(dir)
            &&& file_name(dir + seq!['/', '.']) == file_name(dir)
        }),
{
    lemma_slashes_do_not_count(dir);
    let whole = dir + seq!['/'] + name;
    if name.len() == 0 {
        assert(name =~= Seq::<char>::empty());
        text::lemma_split_of_free(name, '/');
    } else {
        let n = name.len() as int;
        assert(name.contains(name[n - 1]));
        assert(n > 1 ==> name.contains(name[n - 2]));
        assert(without_trailing(name) == name);
        text::lemma_split_of_free(name, '/');
        if name != seq!['.'] {
            let m = whole.len() as int;
            assert(whole[m - 1] == name[n - 1]);
            if n == 1 && name[0] == '.' {
                assert(name =~= seq!['.']);
            }
            assert(n > 1 ==> whole[m - 2] == name[n - 2]);
            assert(without_trailing(whole) == whole);
            assert(whole =~= dir.push('/') + name);
            text::lemma_split_of_appended(dir, '/', name);
        }
    }
}

proof fn lemma_slashes_do_not_count(dir: Seq<char>)
    ensures
        without_trailing(dir + seq!['/']) == without_trailing(dir),
        without_trailing(dir + seq!['/', '.']) == without_trailing(dir),
{
    let slashed = dir + seq!['/'];
    let dotted = dir + seq!['/', '.'];
    assert(slashed.drop_last() =~= dir);
    assert(slashed.last() == '/');
    assert(dotted.last() == '.' && dotted[dotted.len() - 2] == '/');
    assert(dotted.drop_last() =~= slashed);
}

/// The extension is all that follows the last dot of the file name, where something stands before
/// that dot. A name without a dot, or with one at its start only, has none, and neither has a path
/// without a file name.
pub proof fn law_the_extension_follows_the_last_dot(
    path: Seq<char>,
    stem: Seq<char>,
    ext: Seq<char>,
)
    requires
        !ext.contains('.'),
    ensures
        file_name(path) is None ==> extension(path) is None,
        file_name(path) == Some(ext) ==> extension(path) is None,
        file_name(path) == Some(seq!['.'] + ext) ==> extension(path) is None,
        stem.len() > 0 && file_name(path) == Some(stem + seq!['.'] + ext) ==> extension(path)
            == Some(ext),
{
    text::lemma_split_of_free(ext, '.');
    let empty = Seq::<char>::empty();
    text::lemma_split_of_appended(empty, '.', ext);
    assert(empty.push('.') + ext =~= seq!['.'] + ext);
    assert(text::split(empty, '.').len() == 1);
    text::lemma_split_of_appended(stem, '.', ext);
    assert(stem.push('.') + ext =~= stem + seq!['.'] + ext);
    text::lemma_split_has_a_piece(stem, '.');
    text::lemma_join_of_split(stem, '.');
    let pieces = text::split(stem, '.');
    if pieces.len() == 1 {
        assert(pieces[0] == stem);
    }
    assert(pieces.push(ext).last() == ext);
}

} // verus!
