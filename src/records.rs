//! The stored form of a pin: one line per directory, the directory and the
//! toolchain name separated by a tab.
use vstd::prelude::*;
use vstd::string::*;
use crate::text::joined;

verus! {

/// The line that stores a pin of `dir` to `name`.
pub open spec fn record_of(dir: Seq<char>, name: Seq<char>) -> Seq<char> {
    dir + seq!['\t'] + name
}

/// `i` is the position of the first tab in `s`.
pub open spec fn first_tab(s: Seq<char>, i: int) -> bool {
    0 <= i < s.len() && s[i] == '\t' && forall|j: int| 0 <= j < i ==> s[j] != '\t'
}

/// The line that stores a pin of `dir` to `name`.
pub fn override_record(dir: &str, name: &str) -> (r: String)
    ensures
        r@ == record_of(dir@, name@),
{
    let a = joined(dir, "\t");
    proof { reveal_strlit("\t"); }
    assert(a@ =~= dir@ + seq!['\t']);
    joined(a.as_str(), name)
}

/// Reads a stored line: the directory before the first tab and the name after it;
/// `None` when the line holds no tab.
pub fn parse_override_record(line: &str) -> (r: Option<(String, String)>)
    ensures
        match r {
            Some((d, n)) => exists|i: int| first_tab(line@, i) && d@ == line@.take(i) && n@ == line@.skip(i + 1),
            None => forall|j: int| 0 <= j < line@.len() ==> line@[j] != '\t',
        },
{
    let n = line.unicode_len();
    let mut i: usize = 0;
    while i < n
        invariant
            n == line@.len(),
            i <= n,
            forall|j: int| 0 <= j < i ==> line@[j] != '\t',
        decreases n - i,
    {
        if line.get_char(i) == '\t' {
            let d = line.substring_char(0, i);
            let rest = line.substring_char(i + 1, n);
            assert(first_tab(line@, i as int));
            assert(d@ =~= line@.take(i as int));
            assert(rest@ =~= line@.skip(i + 1));
            return Some((String::from_str(d), String::from_str(rest)));
        }
        i = i + 1;
    }
    None
}

/// Reading back a stored pin gives the directory and name it was made from,
/// for a directory without a tab.
pub proof fn lemma_record_round_trip(dir: Seq<char>, name: Seq<char>)
    requires
        forall|j: int| 0 <= j < dir.len() ==> dir[j] != '\t',
    ensures
        first_tab(record_of(dir, name), dir.len() as int),
        record_of(dir, name).take(dir.len() as int) == dir,
        record_of(dir, name).skip(dir.len() as int + 1) == name,
        forall|i: int| #[trigger] first_tab(record_of(dir, name), i) ==> i == dir.len(),
{
    let r = record_of(dir, name);
    assert(r.take(dir.len() as int) =~= dir);
    assert(r.skip(dir.len() as int + 1) =~= name);
    assert forall|i: int| #[trigger] first_tab(r, i) implies i == dir.len() by {
        if i < dir.len() {
            assert(r[i] == dir[i]);
        } else if i > dir.len() {
            assert(r[dir.len() as int] == '\t');
        }
    }
}

} // verus!
