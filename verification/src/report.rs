//! Human-readable summaries shown in the patcher's progress events.
use vstd::prelude::*;
use crate::text::{append_str, join, join_seq, owned};

verus! {

/// One line `- {item}` per item, joined by new lines; `-` for no items.
pub open spec fn bullet_list_seq(items: Seq<Seq<char>>) -> Seq<char> {
    if items.len() == 0 {
        "-"@
    } else {
        join_seq(Seq::new(items.len(), |i: int| "- "@ + items[i]), "\n"@)
    }
}

/// The bullet list of `items` (`- {item}` lines, or `-` when empty).
pub fn bullet_list(items: &Vec<String>) -> (r: String)
    ensures
        r@ == bullet_list_seq(items.deep_view()),
{
    if items.len() == 0 {
        return owned("-");
    }
    let ghost want = Seq::new(items.len() as nat, |i: int| "- "@ + items.deep_view()[i]);
    let mut lines: Vec<String> = Vec::new();
    let mut i: usize = 0;
    while i < items.len()
        invariant
            i <= items.len(),
            want.len() == items.len(),
            want == Seq::new(items.len() as nat, |i: int| "- "@ + items.deep_view()[i]),
            lines@.len() == i,
            lines.deep_view() == want.take(i as int),
        decreases items.len() - i,
    {
        let mut line = owned("- ");
        append_str(&mut line, items[i].as_str());
        let ghost before = lines@;
        let ghost lv = line@;
        assert(lv == want[i as int]);
        lines.push(line);
        proof {
            assert forall|j: int| 0 <= j < i + 1 implies lines.deep_view()[j] == want[j] by {
                assert(lines.deep_view()[j] == lines@[j]@);
                if j < i {
                    assert(lines@[j] == before[j]);
                    assert(before[j]@ == want.take(i as int)[j]);
                } else {
                    assert(lines@[j]@ == lv);
                }
            }
        }
        i += 1;
        assert(lines.deep_view() =~= want.take(i as int));
    }
    assert(want.take(i as int) =~= want);
    join(&lines, "\n")
}

/// The list of patch root ids shown to the user.
pub fn format_root_ids(root_ids: &Vec<String>) -> (r: String)
    ensures
        r@ == bullet_list_seq(root_ids.deep_view()),
{
    bullet_list(root_ids)
}

/// The list of paths shown to the user.
pub fn format_path_list(paths: &Vec<String>) -> (r: String)
    ensures
        r@ == bullet_list_seq(paths.deep_view()),
{
    bullet_list(paths)
}

} // verus!
