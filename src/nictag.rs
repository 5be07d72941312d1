//! NIC tags, as `nictagadm list -p -d ,` prints them.
use vstd::prelude::*;
use crate::key::views;
use crate::text::{lines, lines_spec, split_char, split_spec};

verus! {

/// A NIC tag of the host.
#[derive(Debug)]
pub struct NicTag {
    pub name: String,
    pub mac_address: String,
    pub link: String,
    pub tag_type: String,
}

/// The fields of a tag: the first four comma-separated fields of its line.
pub open spec fn tag_fields(line: Seq<char>) -> Seq<Seq<char>> {
    split_spec(line, ',').take(4)
}

/// A line describes a tag when it has at least four fields.
pub open spec fn is_tag_line(line: Seq<char>) -> bool {
    split_spec(line, ',').len() >= 4
}

pub open spec fn tag_view(t: NicTag) -> Seq<Seq<char>> {
    seq![t.name@, t.mac_address@, t.link@, t.tag_type@]
}

/// The message of output that is not a list of tags.
pub open spec fn unexpected_output() -> Seq<char> {
    "nictagadm sent unexpected output"@
}

/// Reads the tags from the tool's output: one per line, with its name, MAC
/// address, link and type in that order. Output with a line of fewer than
/// four fields is refused.
pub fn parse_nictags(stdout: &str) -> (r: Result<Vec<NicTag>, String>)
    ensures
        match r {
            Ok(tags) => {
                &&& forall|i: int| 0 <= i < lines_spec(stdout@).len() ==> is_tag_line(
                    #[trigger] lines_spec(stdout@)[i],
                )
                &&& tags@.len() == lines_spec(stdout@).len()
                &&& forall|i: int|
                    0 <= i < tags@.len() ==> tag_view(#[trigger] tags@[i]) == tag_fields(
                        lines_spec(stdout@)[i],
                    )
            },
            Err(m) => {
                &&& m@ == unexpected_output()
                &&& exists|i: int|
                    0 <= i < lines_spec(stdout@).len() && !is_tag_line(
                        #[trigger] lines_spec(stdout@)[i],
                    )
            },
        },
{
    let ls = lines(stdout);
    let ghost l = views(ls@);
    let mut tags: Vec<NicTag> = Vec::new();
    let mut i: usize = 0;
    while i < ls.len()
        invariant
            l == views(ls@),
            l == lines_spec(stdout@),
            i <= ls@.len(),
            tags@.len() == i,
            forall|j: int| 0 <= j < i ==> is_tag_line(#[trigger] l[j]),
            forall|j: int| 0 <= j < i ==> tag_view(#[trigger] tags@[j]) == tag_fields(l[j]),
        decreases ls@.len() - i,
    {
        let v = split_char(ls[i].as_str(), ',');
        assert(views(v@) == split_spec(l[i as int], ','));
        if v.len() < 4 {
            proof {
                reveal_strlit("nictagadm sent unexpected output");
            }
            assert(!is_tag_line(l[i as int]));
            return Err(String::from_str("nictagadm sent unexpected output"));
        }
        let tag = NicTag {
            name: v[0].clone(),
            mac_address: v[1].clone(),
            link: v[2].clone(),
            tag_type: v[3].clone(),
        };
        proof {
            assert(tag_view(tag) =~= tag_fields(l[i as int]));
        }
        tags.push(tag);
        i = i + 1;
    }
    Ok(tags)
}

} // verus!
