//! The root password hash, from the lines of a shadow file.
use vstd::prelude::*;
use crate::key::views;
use crate::text::{lines, lines_spec, split_char, split_spec, str_eq};

verus! {

/// A shadow line that gives root's hash: at least two colon-separated
/// fields, the first of them `root`.
pub open spec fn is_root_line(line: Seq<char>) -> bool {
    split_spec(line, ':').len() >= 2 && split_spec(line, ':')[0] == "root"@
}

/// Line `i` of `l` is the first that gives root's hash.
pub open spec fn is_first_root_line(l: Seq<Seq<char>>, i: int) -> bool {
    &&& 0 <= i < l.len()
    &&& is_root_line(l[i])
    &&& forall|j: int| 0 <= j < i ==> !is_root_line(#[trigger] l[j])
}

/// The password hash of root in the shadow file `contents`: the second
/// field of the first line whose first field is `root`, or empty.
pub fn root_password_hash(contents: &str) -> (r: String)
    ensures
        (exists|i: int| is_first_root_line(lines_spec(contents@), i)) ==> exists|i: int|
            is_first_root_line(lines_spec(contents@), i) && r@ == split_spec(
                lines_spec(contents@)[i],
                ':',
            )[1],
        (forall|i: int|
            0 <= i < lines_spec(contents@).len() ==> !is_root_line(
                #[trigger] lines_spec(contents@)[i],
            )) ==> r@.len() == 0,
{
    let ls = lines(contents);
    let ghost l = views(ls@);
    let mut i: usize = 0;
    while i < ls.len()
        invariant
            l == views(ls@),
            l == lines_spec(contents@),
            i <= ls@.len(),
            forall|j: int| 0 <= j < i ==> !is_root_line(#[trigger] l[j]),
        decreases ls@.len() - i,
    {
        let v = split_char(ls[i].as_str(), ':');
        assert(views(v@) == split_spec(l[i as int], ':'));
        if v.len() >= 2 && str_eq(v[0].as_str(), "root") {
            assert(is_first_root_line(l, i as int));
            return v[1].clone();
        }
        i = i + 1;
    }
    proof {
        assert forall|i: int| !is_first_root_line(l, i) by {
            if 0 <= i < l.len() {
                assert(!is_root_line(l[i]));
            }
        }
    }
    String::new()
}

} // verus!
