//! Paths as texts, with `/` between their parts.

use crate::text::{characters, plus, same_text, text_of};
use vstd::prelude::*;
use vstd::string::*;

verus! {

/// A path behind a directory. One that starts at the root is taken as it is,
/// and no second separator is put behind one.
pub open spec fn joined_path(dir: Seq<char>, path: Seq<char>) -> Seq<char> {
    if path.len() > 0 && path[0] == '/' {
        path
    } else if dir.len() == 0 || dir.last() == '/' {
        dir + path
    } else {
        dir + "/"@ + path
    }
}

/// Put a path behind a directory.
pub fn join_path(dir: &str, path: &str) -> (r: String)
    ensures
        r@ == joined_path(dir@, path@),
{
    if path.unicode_len() > 0 && path.get_char(0) == '/' {
        return path.to_string();
    }
    let n = dir.unicode_len();
    if n == 0 || dir.get_char(n - 1) == '/' {
        plus(dir.to_string(), path)
    } else {
        plus(plus(dir.to_string(), "/"), path)
    }
}

/// What stands behind the last such character; the whole, where there is none.
pub open spec fn behind_last(s: Seq<char>, c: char) -> Seq<char>
    decreases s.len(),
{
    if s.len() == 0 || s.last() == c {
        Seq::empty()
    } else {
        behind_last(s.drop_last(), c).push(s.last())
    }
}

/// The last part of a path.
pub open spec fn file_name(path: Seq<char>) -> Seq<char> {
    behind_last(path, '/')
}

/// The extension of a file name: what stands behind its last dot, unless that
/// is its first character. The name of the directory above has none.
pub open spec fn extension(name: Seq<char>) -> Option<Seq<char>> {
    let e = behind_last(name, '.');
    if e.len() + 1 < name.len() && name != ".."@ {
        Some(e)
    } else {
        None
    }
}

proof fn lemma_behind_last(s: Seq<char>, c: char, i: int)
    requires
        0 <= i <= s.len(),
        i > 0 ==> s[i - 1] == c,
        forall|j: int| i <= j < s.len() ==> (#[trigger] s[j]) != c,
    ensures
        behind_last(s, c) == s.subrange(i, s.len() as int),
    decreases s.len(),
{
    if i < s.len() {
        assert(s.last() != c);
        lemma_behind_last(s.drop_last(), c, i);
        assert(s.drop_last().subrange(i, s.len() - 1).push(s.last()) =~= s.subrange(
            i,
            s.len() as int,
        ));
    } else {
        assert(s.subrange(i, s.len() as int) =~= Seq::empty());
    }
}

fn last_part(s: &str, c: char) -> (r: String)
    ensures
        r@ == behind_last(s@, c),
{
    let chars = characters(s);
    let mut i: usize = chars.len();
    while i > 0 && chars[i - 1] != c
        invariant
            i <= chars@.len(),
            chars@ == s@,
            forall|j: int| i <= j < s@.len() ==> (#[trigger] s@[j]) != c,
        decreases i,
    {
        i -= 1;
    }
    proof {
        lemma_behind_last(s@, c, i as int);
    }
    text_of(&chars, i, chars.len())
}

/// The last part of a path.
pub fn file_name_of(path: &str) -> (r: String)
    ensures
        r@ == file_name(path@),
{
    last_part(path, '/')
}

/// The extension of a file name.
pub fn extension_of(name: &str) -> (r: Option<String>)
    ensures
        match r {
            Some(e) => extension(name@) == Some(e@),
            None => extension(name@) is None,
        },
{
    let e = last_part(name, '.');
    let n = name.unicode_len();
    let k = e.as_str().unicode_len();
    if k < n && n - k > 1 && !same_text(name, "..") {
        Some(e)
    } else {
        None
    }
}

/// A path without what does not belong to its last part: separators behind it,
/// and parts behind it that stand for the same place.
pub open spec fn bare_path(path: Seq<char>) -> Seq<char>
    decreases path.len(),
{
    if path.len() > 0 && path.last() == '/' {
        bare_path(path.drop_last())
    } else if path.len() > 1 && path.last() == '.' && path[path.len() - 2] == '/' {
        bare_path(path.drop_last())
    } else {
        path
    }
}

/// Whether a last part is the name of a file, and not of a place by its relation
/// to another.
pub open spec fn names_a_file(name: Seq<char>) -> bool {
    name.len() > 0 && name != "."@ && name != ".."@
}

/// A path with another extension in place of that of its last part, if it has
/// one. A path whose last part names no file stays as it is.
pub open spec fn with_extension(path: Seq<char>, new: Seq<char>) -> Seq<char> {
    let bare = bare_path(path);
    let name = file_name(bare);
    if !names_a_file(name) {
        path
    } else {
        let stem = match extension(name) {
            Some(old) => bare.take(bare.len() - old.len() - 1),
            None => bare,
        };
        if new.len() == 0 {
            stem
        } else {
            stem + "."@ + new
        }
    }
}

proof fn lemma_behind_last_len(s: Seq<char>, c: char)
    ensures
        behind_last(s, c).len() <= s.len(),
    decreases s.len(),
{
    if s.len() > 0 && s.last() != c {
        lemma_behind_last_len(s.drop_last(), c);
    }
}

/// Give the last part of a path another extension.
pub fn replace_extension(path: &str, new: &str) -> (r: String)
    ensures
        r@ == with_extension(path@, new@),
{
    let chars = characters(path);
    let mut end: usize = chars.len();
    assert(path@.take(end as int) =~= path@);
    while end > 0 && (chars[end - 1] == '/' || (end > 1 && chars[end - 1] == '.' && chars[end - 2]
        == '/'))
        invariant
            end <= chars@.len(),
            chars@ == path@,
            bare_path(path@) == bare_path(path@.take(end as int)),
        decreases end,
    {
        let ghost t = path@.take(end as int);
        assert(t.last() == chars@[end - 1]);
        assert(end > 1 ==> t[t.len() - 2] == chars@[end - 2]);
        assert(t.drop_last() =~= path@.take(end - 1));
        end -= 1;
    }
    let ghost bare = path@.take(end as int);
    assert(end > 0 ==> bare.last() == chars@[end - 1]);
    assert(end > 1 ==> bare[bare.len() - 2] == chars@[end - 2]);
    assert(bare_path(path@) == bare);
    assert(bare =~= path@.subrange(0, end as int));
    let text = text_of(&chars, 0, end);
    let name = file_name_of(text.as_str());
    if name.as_str().unicode_len() == 0 || same_text(name.as_str(), ".") || same_text(
        name.as_str(),
        "..",
    ) {
        return path.to_string();
    }
    let stem = match extension_of(name.as_str()) {
        Some(old) => {
            proof {
                lemma_behind_last_len(bare, '/');
            }
            let n = old.as_str().unicode_len();
            assert(bare.take(bare.len() - n - 1) =~= path@.subrange(0, end - n - 1));
            text_of(&chars, 0, end - n - 1)
        },
        None => text,
    };
    if new.unicode_len() == 0 {
        stem
    } else {
        plus(plus(stem, "."), new)
    }
}

/// Whether a text has no such character.
pub open spec fn lacks(s: Seq<char>, c: char) -> bool {
    forall|i: int| 0 <= i < s.len() ==> (#[trigger] s[i]) != c
}

/// A path that starts at the root is taken as it is; any other stands behind the
/// directory, with one separator between the two.
pub proof fn law_joining_paths(dir: Seq<char>, path: Seq<char>)
    ensures
        joined_path(dir, seq!['/'] + path) == seq!['/'] + path,
        path.len() == 0 || path[0] != '/' ==> {
            &&& joined_path(Seq::empty(), path) == path
            &&& joined_path(dir.push('/'), path) == dir.push('/') + path
            &&& dir.len() > 0 && dir[dir.len() - 1] != '/' ==> joined_path(dir, path) == dir.push(
                '/',
            ) + path
        },
{
    reveal_strlit("/");
    assert("/"@.len() == 1);
    assert(dir + "/"@ =~= dir.push('/'));
    assert(Seq::<char>::empty() + path =~= path);
}

/// The last part of a path is what stands behind its last separator, and the
/// whole path where it has none.
pub proof fn law_file_names(dir: Seq<char>, name: Seq<char>)
    requires
        lacks(name, '/'),
    ensures
        file_name(dir.push('/') + name) == name,
        file_name(name) == name,
{
    let whole = dir.push('/') + name;
    let i = dir.len() as int + 1;
    assert forall|j: int| i <= j < whole.len() implies (#[trigger] whole[j]) != '/' by {
        assert(whole[j] == name[j - i]);
    }
    lemma_behind_last(whole, '/', i);
    assert(whole.subrange(i, whole.len() as int) =~= name);
    lemma_behind_last(name, '/', 0);
    assert(name.subrange(0, name.len() as int) =~= name);
}

/// The extension of a name is what stands behind its last dot. A name without a
/// dot, or with none but the one that it starts with, has none.
pub proof fn law_extensions(stem: Seq<char>, new: Seq<char>)
    requires
        lacks(new, '.'),
    ensures
        stem.len() > 0 && (new.len() > 0 || stem != seq!['.']) ==> extension(stem.push('.') + new)
            == Some(new),
        extension(new) is None,
        extension(seq!['.'] + new) is None,
{
    let whole = stem.push('.') + new;
    let i = stem.len() as int + 1;
    assert forall|j: int| i <= j < whole.len() implies (#[trigger] whole[j]) != '.' by {
        assert(whole[j] == new[j - i]);
    }
    lemma_behind_last(whole, '.', i);
    assert(whole.subrange(i, whole.len() as int) =~= new);
    lemma_behind_last(new, '.', 0);
    assert(new.subrange(0, new.len() as int) =~= new);
    let hidden = seq!['.'] + new;
    assert forall|j: int| 1 <= j < hidden.len() implies (#[trigger] hidden[j]) != '.' by {
        assert(hidden[j] == new[j - 1]);
    }
    lemma_behind_last(hidden, '.', 1);
    assert(hidden.subrange(1, hidden.len() as int) =~= new);
    reveal_strlit("..");
    assert(".."@ =~= seq!['.', '.']);
    if stem.len() > 0 && whole == ".."@ {
        assert(stem.len() + 1 + new.len() == 2);
        assert(stem =~= seq!['.']) by {
            assert(whole[0] == '.');
            assert(stem[0] == whole[0]);
        }
    }
}

/// A path gets another extension in place of the one that it has, behind the
/// same directory and the same stem.
pub proof fn law_extensions_are_replaced(
    dir: Seq<char>,
    stem: Seq<char>,
    before: Seq<char>,
    new: Seq<char>,
)
    requires
        lacks(stem, '/'),
        stem.len() > 0,
        lacks(before, '/'),
        lacks(before, '.'),
        before.len() > 0,
        new.len() > 0,
    ensures
        with_extension(dir.push('/') + (stem.push('.') + before), new) == dir.push('/') + (stem.push(
            '.',
        ) + new),
        with_extension(stem.push('.') + before, new) == stem.push('.') + new,
{
    let name = stem.push('.') + before;
    let path = dir.push('/') + name;
    let n = before.len() as int;
    assert forall|i: int| 0 <= i < name.len() implies (#[trigger] name[i]) != '/' by {
        if i < stem.len() {
            assert(name[i] == stem[i]);
        } else if i > stem.len() {
            assert(name[i] == before[i - stem.len() - 1]);
        }
    }
    law_file_names(dir, name);
    law_extensions(stem, before);
    assert(path.last() == before[n - 1]);
    assert(name.last() == before[n - 1]);
    assert(bare_path(path) == path);
    assert(bare_path(name) == name);
    reveal_strlit(".");
    reveal_strlit("..");
    assert("."@.len() == 1 && ".."@.len() == 2);
    assert(name.len() >= 3 || name[name.len() - 1] == before[n - 1]);
    assert(name != ".."@) by {
        assert(".."@[1] == '.');
        if name.len() == 2 {
            assert(name[1] == before[n - 1]);
        }
    }
    assert(name != "."@);
    assert(path.take(path.len() - n - 1) + "."@ + new =~= dir.push('/') + (stem.push('.') + new));
    assert(name.take(name.len() - n - 1) + "."@ + new =~= stem.push('.') + new);
}

/// Separators behind a path do not count, nor do single dots behind them; the
/// rest of the path does.
pub proof fn law_what_stands_behind_a_path(path: Seq<char>)
    ensures
        bare_path(path.push('/')) == bare_path(path),
        bare_path(path.push('/').push('.')) == bare_path(path),
        path.len() == 0 ==> bare_path(path) == path,
        path.len() > 0 && path[path.len() - 1] != '/' && path[path.len() - 1] != '.' ==> bare_path(
            path,
        ) == path,
        path.len() == 1 && path[0] == '.' ==> bare_path(path) == path,
        path.len() > 1 && path[path.len() - 1] == '.' && path[path.len() - 2] != '/' ==> bare_path(
            path,
        ) == path,
{
    let slash = path.push('/');
    let dot = slash.push('.');
    assert(slash.drop_last() =~= path);
    assert(dot.drop_last() =~= slash);
    assert(dot[dot.len() - 2] == '/');
}

/// A path that names no file keeps its name: nothing, or what stands for a place
/// by its relation to another.
pub proof fn law_places_have_no_extension(path: Seq<char>, new: Seq<char>)
    ensures
        file_name(bare_path(path)).len() == 0 ==> with_extension(path, new) == path,
        file_name(bare_path(path)) == seq!['.'] ==> with_extension(path, new) == path,
        file_name(bare_path(path)) == seq!['.', '.'] ==> with_extension(path, new) == path,
{
    reveal_strlit(".");
    reveal_strlit("..");
    assert("."@ =~= seq!['.']);
    assert(".."@ =~= seq!['.', '.']);
}

/// A path whose last part has no extension gets one, and one that has is left
/// without where the new one is empty.
pub proof fn law_extensions_come_and_go(
    dir: Seq<char>,
    stem: Seq<char>,
    before: Seq<char>,
    new: Seq<char>,
)
    requires
        lacks(stem, '/'),
        lacks(stem, '.'),
        stem.len() > 0,
        lacks(before, '/'),
        lacks(before, '.'),
        before.len() > 0,
        new.len() > 0,
    ensures
        with_extension(dir.push('/') + stem, new) == dir.push('/') + (stem.push('.') + new),
        with_extension(dir.push('/') + (stem.push('.') + before), Seq::empty()) == dir.push('/')
            + stem,
{
    let plain = dir.push('/') + stem;
    law_file_names(dir, stem);
    law_extensions(stem, stem);
    assert(plain.last() == stem[stem.len() - 1]);
    assert(bare_path(plain) == plain);
    reveal_strlit(".");
    reveal_strlit("..");
    assert("."@[0] == '.' && ".."@[0] == '.');
    assert(stem != "."@ && stem != ".."@) by {
        assert(stem[0] != '.');
    }
    assert(plain + "."@ + new =~= dir.push('/') + (stem.push('.') + new));
    let name = stem.push('.') + before;
    let path = dir.push('/') + name;
    let n = before.len() as int;
    assert forall|i: int| 0 <= i < name.len() implies (#[trigger] name[i]) != '/' by {
        if i < stem.len() {
            assert(name[i] == stem[i]);
        } else if i > stem.len() {
            assert(name[i] == before[i - stem.len() - 1]);
        }
    }
    law_file_names(dir, name);
    law_extensions(stem, before);
    assert(path.last() == before[n - 1]);
    assert(bare_path(path) == path);
    assert(name[0] == stem[0]);
    assert(name != "."@ && name != ".."@);
    assert(path.take(path.len() - n - 1) =~= plain);
}

} // verus!
