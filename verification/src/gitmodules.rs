//! The names of the submodules that a `.gitmodules` file declares.
//!
//! The file is a configuration file. Each of its entries has a name of the
//! form `submodule.<name>.<key>`, and every `<name>` that occurs there names
//! a submodule. A name may hold dots itself, a key may not, so the name ends
//! at the last dot of the entry.

use vstd::prelude::*;
use vstd::string::{StrSliceExecFns, StringExecFns};

verus! {

/// What the name of every entry on a submodule begins with.
pub open spec fn section_mark() -> Seq<char> {
    seq!['s', 'u', 'b', 'm', 'o', 'd', 'u', 'l', 'e', '.']
}

/// The place of the last dot in `text`, or -1 where it has none.
pub open spec fn last_dot(text: Seq<char>) -> int
    decreases text.len(),
{
    if text.len() == 0 {
        -1
    } else if text.last() == '.' {
        text.len() - 1
    } else {
        last_dot(text.drop_last())
    }
}

/// The submodule that an entry with this name is about: what stands between
/// the mark and the last dot, if the name begins with the mark and something
/// stands there.
pub open spec fn section_of(entry: Seq<char>) -> Option<Seq<char>> {
    let mark = section_mark().len() as int;
    if entry.len() >= mark && entry.take(mark) == section_mark() && last_dot(entry.skip(mark)) > 0 {
        Some(entry.skip(mark).take(last_dot(entry.skip(mark))))
    } else {
        None
    }
}

/// The submodules that the entries with these names are about, each once,
/// in the order in which they first occur.
pub open spec fn sections(entries: Seq<Seq<char>>) -> Seq<Seq<char>>
    decreases entries.len(),
{
    if entries.len() == 0 {
        Seq::empty()
    } else {
        let front = sections(entries.drop_last());
        match section_of(entries.last()) {
            Some(name) => if front.contains(name) {
                front
            } else {
                front.push(name)
            },
            None => front,
        }
    }
}

/// The text of each string of a list.
pub open spec fn texts(list: Vec<String>) -> Seq<Seq<char>> {
    Seq::new(list@.len(), |i: int| list@[i]@)
}

/// The last dot is where a dot stands that no dot follows.
pub proof fn lemma_last_dot_at(text: Seq<char>, at: int)
    requires
        0 <= at < text.len(),
        text[at] == '.',
        forall|k: int| at < k < text.len() ==> text[k] != '.',
    ensures
        last_dot(text) == at,
    decreases text.len(),
{
    if at < text.len() - 1 {
        lemma_last_dot_at(text.drop_last(), at);
    }
}

/// A text without a dot has no last dot.
pub proof fn lemma_no_dot(text: Seq<char>)
    requires
        forall|k: int| 0 <= k < text.len() ==> text[k] != '.',
    ensures
        last_dot(text) == -1,
    decreases text.len(),
{
    if text.len() > 0 {
        lemma_no_dot(text.drop_last());
    }
}

/// The submodule that an entry with this name is about, if it is about one.
pub fn section_name(entry: &str) -> (r: Option<String>)
    ensures
        match r {
            Some(name) => section_of(entry@) == Some(name@),
            None => section_of(entry@) is None,
        },
{
    proof {
        reveal_strlit("submodule.");
        assert("submodule."@ =~= section_mark());
    }
    let len = entry.unicode_len();
    if len < 10 {
        return None;
    }
    let head = String::from_str(entry.substring_char(0, 10));
    let mark = String::from_str("submodule.");
    assert(entry@.take(10) =~= entry@.subrange(0, 10));
    if head != mark {
        return None;
    }
    let rest = entry.substring_char(10, len);
    assert(rest@ =~= entry@.skip(10));
    let mut i: usize = len - 10;
    while i > 0
        invariant
            i <= rest@.len(),
            entry@.len() >= 10,
            entry@.take(10) == section_mark(),
            rest@ == entry@.skip(10),
            forall|k: int| i <= k < rest@.len() ==> rest@[k] != '.',
        decreases i,
    {
        if rest.get_char(i - 1) == '.' {
            proof {
                lemma_last_dot_at(rest@, i - 1);
            }
            if i == 1 {
                return None;
            }
            let name = String::from_str(rest.substring_char(0, i - 1));
            assert(name@ =~= rest@.take(i - 1));
            return Some(name);
        }
        i -= 1;
    }
    proof {
        lemma_no_dot(rest@);
    }
    None
}

/// Whether the list holds a string with this text.
fn holds(list: &Vec<String>, name: &String) -> (r: bool)
    ensures
        r == texts(*list).contains(name@),
{
    let mut i: usize = 0;
    while i < list.len()
        invariant
            i <= list.len(),
            forall|k: int| 0 <= k < i ==> #[trigger] texts(*list)[k] != name@,
        decreases list.len() - i,
    {
        if list[i] == *name {
            assert(texts(*list)[i as int] == name@);
            return true;
        }
        i += 1;
    }
    false
}

/// The submodules that the entries with these names are about, each once,
/// in the order in which they first occur.
pub fn section_names(entries: &Vec<String>) -> (r: Vec<String>)
    ensures
        texts(r) == sections(texts(*entries)),
{
    let mut names: Vec<String> = Vec::new();
    let mut i: usize = 0;
    assert(texts(*entries).take(0) =~= Seq::empty());
    assert(texts(names) =~= Seq::empty());
    while i < entries.len()
        invariant
            i <= entries.len(),
            texts(names) == sections(texts(*entries).take(i as int)),
        decreases entries.len() - i,
    {
        proof {
            let upto = texts(*entries).take(i as int + 1);
            assert(upto.drop_last() =~= texts(*entries).take(i as int));
            assert(upto.last() == entries@[i as int]@);
        }
        let ghost before = texts(names);
        match section_name(entries[i].as_str()) {
            Some(name) => {
                if !holds(&names, &name) {
                    names.push(name);
                    assert(texts(names) =~= before.push(name@));
                }
            },
            None => {},
        }
        i += 1;
    }
    assert(texts(*entries).take(i as int) =~= texts(*entries));
    names
}

} // verus!
