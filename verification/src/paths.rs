//! Paths of files, as texts with `/` between their parts.

use vstd::prelude::*;

use crate::text;

verus! {

/// The path of `name` seen from `base`: `name` itself, where it starts at the root; else
/// `name` behind `base`, with one `/` between them.
pub open spec fn path_join(base: Seq<char>, name: Seq<char>) -> Seq<char> {
    if name.len() > 0 && name[0] == '/' {
        name
    } else if base.len() == 0 || base.last() == '/' {
        base + name
    } else {
        base + "/"@ + name
    }
}

/// The path of `name` seen from `base`.
pub fn join(base: &str, name: &str) -> (r: String)
    ensures
        r@ == path_join(base@, name@),
{
    let b = text::to_chars(base);
    let n = text::to_chars(name);
    if n.len() > 0 && n[0] == '/' {
        text::copy(name)
    } else if b.len() == 0 || b[b.len() - 1] == '/' {
        text::cat2(base, name)
    } else {
        text::cat3(base, "/", name)
    }
}

/// The file of the record `id` in a directory.
pub open spec fn json_file(dir: Seq<char>, id: Seq<char>) -> Seq<char> {
    path_join(dir, id + ".json"@)
}

/// The file of the record `id` in a directory.
pub fn json_path(dir: &str, id: &str) -> (r: String)
    ensures
        r@ == json_file(dir@, id@),
{
    join(dir, text::cat2(id, ".json").as_str())
}

/// A name that does not start at the root is put behind the directory, with one slash between
/// them; one that does stands for itself. The file of a record is named after it.
pub proof fn law_names_are_put_behind_the_directory(
    dir: Seq<char>,
    name: Seq<char>,
)
    requires
        name.len() > 0,
        name[0] != '/',
    ensures
        path_join(dir + "/"@, name) == dir + "/"@ + name,
        dir.len() > 0 && dir.last() != '/' ==> path_join(dir, name) == dir + "/"@ + name,
        path_join(Seq::empty(), name) == name,
        path_join(dir, "/"@ + name) == "/"@ + name,
        dir.len() > 0 && dir.last() != '/' ==> json_file(dir, name) == dir + "/"@ + name + ".json"@,
{
    reveal_strlit("/");
    reveal_strlit(".json");
    assert((dir + "/"@).last() == '/');
    assert(("/"@ + name)[0] == '/');
    assert((name + ".json"@)[0] == name[0]);
    assert(Seq::<char>::empty() + name =~= name);
    assert(dir + "/"@ + (name + ".json"@) =~= dir + "/"@ + name + ".json"@);
}

} // verus!
