//! Entries of the global zone's configuration file.
use vstd::prelude::*;
use crate::key::views;
use crate::text::{contains_char, lines, lines_spec, split_char, split_spec, starts_with_char};

verus! {

/// A line that holds an entry: not empty, not a comment, not indented, and
/// with exactly one `=`.
pub open spec fn is_entry_line(line: Seq<char>) -> bool {
    &&& line.len() > 0
    &&& line[0] != '#'
    &&& line[0] != ' '
    &&& split_spec(line, '=').len() == 2
}

/// The entries of `ls`, in order, as (name, value) pairs.
pub open spec fn entries_of(ls: Seq<Seq<char>>) -> Seq<(Seq<char>, Seq<char>)>
    decreases ls.len(),
{
    if ls.len() == 0 {
        Seq::empty()
    } else {
        let prev = entries_of(ls.drop_last());
        let line = ls.last();
        if is_entry_line(line) {
            prev.push((split_spec(line, '=')[0], split_spec(line, '=')[1]))
        } else {
            prev
        }
    }
}

pub open spec fn pair_views(v: Seq<(String, String)>) -> Seq<(Seq<char>, Seq<char>)> {
    v.map_values(|p: (String, String)| (p.0@, p.1@))
}

proof fn lemma_split_one_piece_without_sep(s: Seq<char>, sep: char)
    ensures
        !s.contains(sep) ==> split_spec(s, sep).len() == 1,
    decreases s.len(),
{
    if s.len() > 0 {
        lemma_split_one_piece_without_sep(s.drop_last(), sep);
        if !s.contains(sep) {
            assert(!s.drop_last().contains(sep)) by {
                if s.drop_last().contains(sep) {
                    let k = choose|k: int| 0 <= k < s.drop_last().len() && s.drop_last()[k] == sep;
                    assert(s[k] == sep);
                }
            }
            assert(s[s.len() - 1] != sep);
        }
    }
}

/// The (name, value) entries of the configuration file `contents`.
pub fn parse_gz_config(contents: &str) -> (r: Vec<(String, String)>)
    ensures
        pair_views(r@) == entries_of(lines_spec(contents@)),
{
    let ls = lines(contents);
    let ghost l = views(ls@);
    let mut entries: Vec<(String, String)> = Vec::new();
    let mut i: usize = 0;
    while i < ls.len()
        invariant
            l == views(ls@),
            l == lines_spec(contents@),
            i <= ls@.len(),
            pair_views(entries@) == entries_of(l.subrange(0, i as int)),
        decreases ls@.len() - i,
    {
        let line = ls[i].as_str();
        proof {
            assert(l.subrange(0, i + 1).drop_last() =~= l.subrange(0, i as int));
            assert(l.subrange(0, i + 1).last() == line@);
            lemma_split_one_piece_without_sep(line@, '=');
        }
        let skip = line.unicode_len() == 0 || starts_with_char(line, '#') || starts_with_char(
            line,
            ' ',
        ) || !contains_char(line, '=');
        if !skip {
            let v = split_char(line, '=');
            if v.len() == 2 {
                let pair = (v[0].clone(), v[1].clone());
                proof {
                    assert(pair_views(entries@.push(pair)) =~= pair_views(entries@).push(
                        (pair.0@, pair.1@),
                    ));
                }
                entries.push(pair);
            }
        }
        i = i + 1;
    }
    assert(l.subrange(0, ls@.len() as int) =~= l);
    entries
}

} // verus!
