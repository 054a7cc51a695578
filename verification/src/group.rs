//! Grouping of free-text build output into warning and error blocks.
//!
//! The input is trimmed, an optional leading progress line (one that starts
//! with `Checking`) is skipped, and the remaining lines are split into blocks
//! at blank lines. A block whose first line starts with `warning:` becomes a
//! warning group, one whose first line starts with `error[` (an error with a
//! bracketed code) becomes an error group, and every other block — notably
//! bare `error:` trailer lines without a code — is dropped.
use vstd::prelude::*;

use crate::text::{
    blank, is_blank_str, line_seq, split_lines, starts_with, str_starts_with, trim_str, trimmed,
};

verus! {

/// A classified block of build output lines.
#[derive(Debug, PartialEq)]
pub enum Group<'a> {
    Warning(Vec<&'a str>),
    Error(Vec<&'a str>),
}

/// The mathematical value of a group: its classification and the lines it
/// holds, as sequences of characters.
pub enum GroupModel {
    Warning(Seq<Seq<char>>),
    Error(Seq<Seq<char>>),
}

impl<'a> View for Group<'a> {
    type V = GroupModel;

    open spec fn view(&self) -> GroupModel {
        match self {
            Group::Warning(v) => GroupModel::Warning(v@.map_values(|l: &str| l@)),
            Group::Error(v) => GroupModel::Error(v@.map_values(|l: &str| l@)),
        }
    }
}

impl GroupModel {
    /// The lines of the group, whatever its classification.
    pub open spec fn lines(self) -> Seq<Seq<char>> {
        match self {
            GroupModel::Warning(v) => v,
            GroupModel::Error(v) => v,
        }
    }
}

impl<'a> Group<'a> {
    /// The lines of the group, whatever its classification.
    pub fn inner(&self) -> (v: &Vec<&'a str>)
        ensures
            v@.map_values(|l: &str| l@) == self@.lines(),
    {
        match self {
            Group::Warning(v) => v,
            Group::Error(v) => v,
        }
    }
}

/// The blocks of a line sequence: maximal runs of lines separated by blank
/// lines. There is always at least one (possibly empty) open block.
pub open spec fn blocks_of(lines: Seq<Seq<char>>) -> Seq<Seq<Seq<char>>>
    decreases lines.len(),
{
    if lines.len() == 0 {
        seq![Seq::<Seq<char>>::empty()]
    } else {
        let prev = blocks_of(lines.drop_last());
        let l = lines.last();
        if blank(l) {
            prev.push(Seq::<Seq<char>>::empty())
        } else {
            prev.update(prev.len() - 1, prev.last().push(l))
        }
    }
}

/// How a block is classified: a warning group, an error group with a code,
/// or nothing at all.
pub open spec fn block_group(b: Seq<Seq<char>>) -> Option<GroupModel> {
    if b.len() > 0 && starts_with(b[0], "warning:"@) {
        Some(GroupModel::Warning(b))
    } else if b.len() > 0 && starts_with(b[0], "error["@) {
        Some(GroupModel::Error(b))
    } else {
        None
    }
}

/// The groups of a block sequence: each block classified, unclassifiable
/// blocks dropped, order kept.
pub open spec fn groups_of(blocks: Seq<Seq<Seq<char>>>) -> Seq<GroupModel>
    decreases blocks.len(),
{
    if blocks.len() == 0 {
        seq![]
    } else {
        let prev = groups_of(blocks.drop_last());
        match block_group(blocks.last()) {
            Some(g) => prev.push(g),
            None => prev,
        }
    }
}

/// The lines that grouping works on: the trimmed input's lines, without a
/// leading progress line when one is present.
pub open spec fn body_lines(lines: Seq<Seq<char>>) -> Seq<Seq<char>> {
    if lines.len() > 0 && starts_with(trimmed(lines[0]), "Checking"@) {
        lines.drop_first()
    } else {
        lines
    }
}

/// What `parse` returns, as a function of the input's characters.
pub open spec fn spec_parse(s: Seq<char>) -> Seq<GroupModel> {
    groups_of(blocks_of(body_lines(line_seq(trimmed(s)))))
}

/// Law: when the trimmed input opens with a progress line (one starting with
/// `Checking`), the parse is computed from the remaining lines alone — the
/// leading line is excluded from every produced group.
pub proof fn lemma_progress_line_excluded(s: Seq<char>)
    requires
        line_seq(trimmed(s)).len() > 0,
        starts_with(trimmed(line_seq(trimmed(s))[0]), "Checking"@),
    ensures
        spec_parse(s) == groups_of(blocks_of(line_seq(trimmed(s)).drop_first())),
{
}

proof fn lemma_blocks_of_nonempty(lines: Seq<Seq<char>>)
    ensures
        blocks_of(lines).len() >= 1,
    decreases lines.len(),
{
    if lines.len() > 0 {
        lemma_blocks_of_nonempty(lines.drop_last());
    }
}

proof fn lemma_block_lines_from_input(lines: Seq<Seq<char>>, bi: int, li: int)
    requires
        0 <= bi < blocks_of(lines).len(),
        0 <= li < blocks_of(lines)[bi].len(),
    ensures
        lines.contains(blocks_of(lines)[bi][li]),
    decreases lines.len(),
{
    if lines.len() > 0 {
        let prev = blocks_of(lines.drop_last());
        lemma_blocks_of_nonempty(lines.drop_last());
        let l = lines.last();
        let x = blocks_of(lines)[bi][li];
        if blank(l) {
            if bi < prev.len() {
                lemma_block_lines_from_input(lines.drop_last(), bi, li);
                let j = choose|j: int|
                    0 <= j < lines.drop_last().len() && lines.drop_last()[j] == x;
                assert(lines[j] == x);
            }
        } else {
            if bi < prev.len() - 1 {
                lemma_block_lines_from_input(lines.drop_last(), bi, li);
                let j = choose|j: int|
                    0 <= j < lines.drop_last().len() && lines.drop_last()[j] == x;
                assert(lines[j] == x);
            } else {
                if li < prev.last().len() {
                    lemma_block_lines_from_input(lines.drop_last(), bi, li);
                    let j = choose|j: int|
                        0 <= j < lines.drop_last().len() && lines.drop_last()[j] == x;
                    assert(lines[j] == x);
                } else {
                    assert(x == l);
                    assert(lines[lines.len() - 1] == x);
                }
            }
        }
    }
}

proof fn lemma_group_from_block(blocks: Seq<Seq<Seq<char>>>, gi: int)
    requires
        0 <= gi < groups_of(blocks).len(),
    ensures
        exists|bi: int|
            0 <= bi < blocks.len() && groups_of(blocks)[gi].lines() == #[trigger] blocks[bi],
    decreases blocks.len(),
{
    let prev = groups_of(blocks.drop_last());
    if gi < prev.len() {
        lemma_group_from_block(blocks.drop_last(), gi);
        let bi = choose|bi: int|
            0 <= bi < blocks.drop_last().len() && prev[gi].lines() == #[trigger] blocks.drop_last()[bi];
        assert(groups_of(blocks)[gi].lines() == blocks[bi]);
    } else {
        assert(groups_of(blocks)[gi].lines() == blocks[blocks.len() - 1]);
    }
}

/// Law: every line of every produced group is one of the lines grouping ran
/// on — with a leading progress line those are the remaining lines alone, so
/// the progress line stands in no group.
pub proof fn lemma_group_lines_come_from_body(s: Seq<char>, gi: int, li: int)
    requires
        0 <= gi < spec_parse(s).len(),
        0 <= li < spec_parse(s)[gi].lines().len(),
    ensures
        body_lines(line_seq(trimmed(s))).contains(spec_parse(s)[gi].lines()[li]),
{
    let body = body_lines(line_seq(trimmed(s)));
    lemma_group_from_block(blocks_of(body), gi);
    let bi = choose|bi: int|
        0 <= bi < blocks_of(body).len() && spec_parse(s)[gi].lines() == #[trigger] blocks_of(
            body,
        )[bi];
    lemma_block_lines_from_input(body, bi, li);
}

/// Law: a block that no marker classifies — a bare `error:` trailer among
/// them — contributes no group: removing it leaves the groups unchanged.
pub proof fn lemma_unmarked_block_dropped(blocks: Seq<Seq<Seq<char>>>, i: int)
    requires
        0 <= i < blocks.len(),
        block_group(blocks[i]) is None,
    ensures
        groups_of(blocks) == groups_of(blocks.remove(i)),
    decreases blocks.len(),
{
    if i == blocks.len() - 1 {
        assert(blocks.remove(i) =~= blocks.drop_last());
    } else {
        lemma_unmarked_block_dropped(blocks.drop_last(), i);
        assert(blocks.remove(i).drop_last() =~= blocks.drop_last().remove(i));
        assert(blocks.remove(i).last() == blocks.last());
    }
}

/// Law: the groups keep the blocks' own order — they are exactly the
/// classifiable blocks, classified, as a filter followed by a map.
pub proof fn lemma_groups_keep_block_order(blocks: Seq<Seq<Seq<char>>>)
    ensures
        groups_of(blocks) == blocks.filter(|b: Seq<Seq<char>>| block_group(b) is Some).map_values(
            |b: Seq<Seq<char>>| block_group(b)->Some_0,
        ),
    decreases blocks.len(),
{
    let pred = |b: Seq<Seq<char>>| block_group(b) is Some;
    let f = |b: Seq<Seq<char>>| block_group(b)->Some_0;
    reveal(Seq::filter);
    if blocks.len() == 0 {
        assert(blocks.filter(pred).map_values(f) =~= Seq::<GroupModel>::empty());
    } else {
        lemma_groups_keep_block_order(blocks.drop_last());
        let sub = blocks.drop_last().filter(pred);
        if pred(blocks.last()) {
            assert(blocks.filter(pred) == sub.push(blocks.last()));
            assert(sub.push(blocks.last()).map_values(f) =~= sub.map_values(f).push(
                f(blocks.last()),
            ));
        } else {
            assert(blocks.filter(pred) == sub);
        }
    }
}

/// Classifies one finished block, consuming its lines.
fn classify_block<'a>(b: Vec<&'a str>) -> (r: Option<Group<'a>>)
    ensures
        (match r {
            Some(g) => Some(g@),
            None => None,
        }) == block_group(b@.map_values(|l: &str| l@)),
{
    if b.len() > 0 {
        if str_starts_with(b[0], "warning:") {
            return Some(Group::Warning(b));
        }
        if str_starts_with(b[0], "error[") {
            return Some(Group::Error(b));
        }
    }
    None
}

/// Groups free-text build output into warning and error blocks, in the order
/// in which they stand in the input.
pub fn parse<'a>(input: &'a str) -> (r: Vec<Group<'a>>)
    ensures
        r@.map_values(|g: Group<'a>| g@) == spec_parse(input@),
{
    let t = trim_str(input);
    let lines = split_lines(t);
    let ghost lv = lines@.map_values(|l: &str| l@);
    let start: usize = if lines.len() > 0 && str_starts_with(trim_str(lines[0]), "Checking") {
        1
    } else {
        0
    };
    proof {
        if start == 1 {
            assert(lv.subrange(1, lv.len() as int) =~= body_lines(lv));
        } else {
            assert(lv.subrange(0, lv.len() as int) =~= body_lines(lv));
        }
    }
    let ghost body = body_lines(lv);
    let mut out: Vec<Group<'a>> = Vec::new();
    let mut cur: Vec<&'a str> = Vec::new();
    let ghost mut done: Seq<Seq<Seq<char>>> = Seq::empty();
    let mut i: usize = start;
    proof {
        assert(lv.subrange(start as int, start as int) =~= Seq::<Seq<char>>::empty());
        assert(cur@.map_values(|l: &str| l@) =~= Seq::<Seq<char>>::empty());
        assert(done.push(cur@.map_values(|l: &str| l@)) =~= blocks_of(
            lv.subrange(start as int, start as int),
        ));
        assert(out@.map_values(|g: Group<'a>| g@) =~= groups_of(done));
    }
    while i < lines.len()
        invariant
            start <= i <= lines.len(),
            lv == lines@.map_values(|l: &str| l@),
            body == body_lines(lv),
            lv.len() == lines@.len(),
            body == lv.subrange(start as int, lv.len() as int),
            done.push(cur@.map_values(|l: &str| l@)) == blocks_of(
                lv.subrange(start as int, i as int),
            ),
            out@.map_values(|g: Group<'a>| g@) == groups_of(done),
        decreases lines.len() - i,
    {
        let line = lines[i];
        let ghost pre = lv.subrange(start as int, i as int);
        let ghost post = lv.subrange(start as int, i + 1);
        proof {
            assert(post.drop_last() =~= pre);
            assert(post.last() == lv[i as int]);
            assert(lv[i as int] == line@);
        }
        if is_blank_str(line) {
            let finished = cur;
            cur = Vec::new();
            let ghost fv = finished@.map_values(|l: &str| l@);
            proof {
                assert(blocks_of(post) == blocks_of(pre).push(Seq::<Seq<char>>::empty()));
                assert(cur@.map_values(|l: &str| l@) =~= Seq::<Seq<char>>::empty());
                assert(done.push(fv).drop_last() =~= done);
                assert(done.push(fv).last() == fv);
            }
            match classify_block(finished) {
                Some(g) => {
                    proof {
                        assert(out@.push(g).map_values(|x: Group<'a>| x@) =~= out@.map_values(
                            |x: Group<'a>| x@,
                        ).push(g@));
                    }
                    out.push(g);
                },
                None => {},
            }
            proof {
                done = done.push(fv);
            }
        } else {
            let ghost cv = cur@.map_values(|l: &str| l@);
            cur.push(line);
            proof {
                let prev = blocks_of(pre);
                assert(prev == done.push(cv));
                assert(prev.last() == cv);
                assert(blocks_of(post) == prev.update(prev.len() - 1, prev.last().push(line@)));
                assert(cur@.map_values(|l: &str| l@) =~= cv.push(line@));
                assert(prev.update(prev.len() - 1, cv.push(line@)) =~= done.push(cv.push(line@)));
            }
        }
        i = i + 1;
    }
    proof {
        assert(lv.subrange(start as int, lv.len() as int) =~= body);
    }
    match classify_block(cur) {
        Some(g) => {
            proof {
                assert(out@.push(g).map_values(|x: Group<'a>| x@) =~= out@.map_values(
                    |x: Group<'a>| x@,
                ).push(g@));
                assert(blocks_of(body).drop_last() =~= done);
            }
            out.push(g);
        },
        None => {
            proof {
                assert(blocks_of(body).drop_last() =~= done);
            }
        },
    }
    out
}

} // verus!
