//! The candidates of a run, from the lines of a wordlist.

use vstd::prelude::*;
use vstd::string::*;

verus! {

/// The candidates among the lines of a wordlist: every line that is not
/// empty, as it stands and where it stands. Nothing is trimmed, and a line
/// that occurs twice is a candidate twice.
pub open spec fn candidates_of(lines: Seq<Seq<char>>) -> Seq<Seq<char>>
    decreases lines.len(),
{
    if lines.len() == 0 {
        Seq::<Seq<char>>::empty()
    } else {
        let before = candidates_of(lines.drop_last());
        if lines.last().len() > 0 {
            before.push(lines.last())
        } else {
            before
        }
    }
}

/// What `candidates_of` keeps: every candidate is a line that is not empty,
/// and a wordlist without empty lines is kept whole.
pub proof fn lemma_candidates_of(lines: Seq<Seq<char>>)
    ensures
        candidates_of(lines).len() <= lines.len(),
        forall|i: int|
            0 <= i < candidates_of(lines).len() ==> (#[trigger] candidates_of(lines)[i]).len() > 0
                && lines.contains(candidates_of(lines)[i]),
        (forall|i: int| 0 <= i < lines.len() ==> (#[trigger] lines[i]).len() > 0)
            ==> candidates_of(lines) == lines,
    decreases lines.len(),
{
    if lines.len() > 0 {
        let shorter = lines.drop_last();
        lemma_candidates_of(shorter);
        assert forall|i: int| 0 <= i < candidates_of(lines).len() implies lines.contains(
            #[trigger] candidates_of(lines)[i],
        ) by {
            if i < candidates_of(shorter).len() {
                let line = candidates_of(shorter)[i];
                assert(shorter.contains(line));
                let j = choose|j: int| 0 <= j < shorter.len() && shorter[j] == line;
                assert(lines[j] == line);
            } else {
                assert(lines[lines.len() - 1] == candidates_of(lines)[i]);
            }
        }
        if forall|i: int| 0 <= i < lines.len() ==> (#[trigger] lines[i]).len() > 0 {
            assert forall|i: int| 0 <= i < shorter.len() implies (#[trigger] shorter[i]).len()
                > 0 by {
                assert(lines[i].len() > 0);
            }
            assert(shorter.push(lines.last()) =~= lines);
        }
    }
}

/// Picks the candidates from the lines of a wordlist.
pub fn candidates(lines: &Vec<String>) -> (kept: Vec<String>)
    ensures
        kept.deep_view() == candidates_of(lines.deep_view()),
{
    let mut kept: Vec<String> = Vec::new();
    let mut i: usize = 0;
    while i < lines.len()
        invariant
            i <= lines.len(),
            kept.deep_view() == candidates_of(lines.deep_view().take(i as int)),
        decreases lines.len() - i,
    {
        assert(lines.deep_view().take(i + 1).drop_last() =~= lines.deep_view().take(i as int));
        if !lines[i].as_str().is_empty() {
            kept.push(lines[i].clone());
        }
        i += 1;
    }
    assert(lines.deep_view().take(i as int) =~= lines.deep_view());
    kept
}

} // verus!
