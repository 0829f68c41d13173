//! The date-to-id index built from a puzzle-id lookup response.

use vstd::prelude::*;
use crate::date::PuzzleDate;

verus! {

/// One result of a puzzle-id lookup: the edition's date and its puzzle id.
#[derive(Debug, Clone, Copy, PartialEq, Eq, Structural, Hash)]
pub struct PuzzleMetadata {
    pub print_date: PuzzleDate,
    pub puzzle_id: u32,
}

/// The map that inserting the results one after the other yields: each date
/// keyed to the id of its last result.
pub open spec fn id_map(s: Seq<PuzzleMetadata>) -> Map<PuzzleDate, u32>
    decreases s.len(),
{
    if s.len() == 0 {
        Map::empty()
    } else {
        id_map(s.drop_last()).insert(s.last().print_date, s.last().puzzle_id)
    }
}

/// No two results share a date.
pub open spec fn dates_distinct(s: Seq<PuzzleMetadata>) -> bool {
    forall|i: int, j: int|
        0 <= i < s.len() && 0 <= j < s.len() && i != j
            ==> #[trigger] s[i].print_date != #[trigger] s[j].print_date
}

proof fn lemma_id_map_absent(s: Seq<PuzzleMetadata>, k: PuzzleDate)
    requires
        forall|i: int| 0 <= i < s.len() ==> #[trigger] s[i].print_date != k,
    ensures
        !id_map(s).contains_key(k),
    decreases s.len(),
{
    if s.len() > 0 {
        lemma_id_map_absent(s.drop_last(), k);
        assert(s.last().print_date == s[s.len() - 1].print_date);
    }
}

proof fn lemma_id_map_update(s: Seq<PuzzleMetadata>, j: int, m: PuzzleMetadata)
    requires
        dates_distinct(s),
        0 <= j < s.len(),
        s[j].print_date == m.print_date,
    ensures
        id_map(s.update(j, m)) == id_map(s).insert(m.print_date, m.puzzle_id),
    decreases s.len(),
{
    let t = s.update(j, m);
    if j == s.len() - 1 {
        assert(t.drop_last() =~= s.drop_last());
        assert(id_map(t) =~= id_map(s).insert(m.print_date, m.puzzle_id));
    } else {
        let d = s.drop_last();
        assert(t.drop_last() =~= d.update(j, m));
        assert(dates_distinct(d)) by {
            assert forall|a: int, b: int|
                0 <= a < d.len() && 0 <= b < d.len() && a != b
                    implies #[trigger] d[a].print_date != #[trigger] d[b].print_date by {
                assert(d[a] == s[a] && d[b] == s[b]);
            }
        }
        lemma_id_map_update(d, j, m);
        assert(s.last().print_date != m.print_date) by {
            assert(s[s.len() - 1].print_date != s[j].print_date);
        }
        assert(t.last() == s.last());
        assert(id_map(t) =~= id_map(s).insert(m.print_date, m.puzzle_id));
    }
}

/// The index holds exactly the dates of the results; a date's id is that of
/// its last result; and where no two results share a date, there is one
/// entry per result, holding that result's id.
pub proof fn id_map_has_one_entry_per_result(s: Seq<PuzzleMetadata>)
    ensures
        forall|i: int| 0 <= i < s.len() ==> id_map(s).contains_key(#[trigger] s[i].print_date),
        forall|k: PuzzleDate| #[trigger] id_map(s).contains_key(k)
            ==> exists|i: int| 0 <= i < s.len() && s[i].print_date == k
                && s[i].puzzle_id == id_map(s)[k]
                && forall|l: int| i < l < s.len() ==> #[trigger] s[l].print_date != k,
        id_map(s).dom().finite(),
        dates_distinct(s) ==> id_map(s).dom().len() == s.len(),
        dates_distinct(s) ==> forall|i: int| 0 <= i < s.len()
            ==> id_map(s)[#[trigger] s[i].print_date] == s[i].puzzle_id,
    decreases s.len(),
{
    if s.len() > 0 {
        let d = s.drop_last();
        let n = s.len() - 1;
        id_map_has_one_entry_per_result(d);
        assert forall|i: int| 0 <= i < s.len() implies id_map(s).contains_key(#[trigger] s[i].print_date) by {
            if i < n {
                assert(d[i] == s[i]);
            }
        }
        assert forall|k: PuzzleDate| #[trigger] id_map(s).contains_key(k)
            implies exists|i: int| 0 <= i < s.len() && s[i].print_date == k
                && s[i].puzzle_id == id_map(s)[k]
                && forall|l: int| i < l < s.len() ==> #[trigger] s[l].print_date != k by {
            if k == s[n].print_date {
                assert(s[n].print_date == k && s[n].puzzle_id == id_map(s)[k]);
            } else {
                assert(id_map(d).contains_key(k));
                let i = choose|i: int| 0 <= i < d.len() && d[i].print_date == k
                    && d[i].puzzle_id == id_map(d)[k]
                    && forall|l: int| i < l < d.len() ==> #[trigger] d[l].print_date != k;
                assert(s[i] == d[i]);
                assert forall|l: int| i < l < s.len() implies #[trigger] s[l].print_date != k by {
                    if l < n {
                        assert(s[l] == d[l]);
                    }
                }
            }
        }
        if dates_distinct(s) {
            assert(dates_distinct(d)) by {
                assert forall|a: int, b: int|
                    0 <= a < d.len() && 0 <= b < d.len() && a != b
                        implies #[trigger] d[a].print_date != #[trigger] d[b].print_date by {
                    assert(d[a] == s[a] && d[b] == s[b]);
                }
            }
            assert forall|i: int| 0 <= i < d.len() implies #[trigger] d[i].print_date != s[n].print_date by {
                assert(d[i] == s[i]);
            }
            lemma_id_map_absent(d, s[n].print_date);
            assert forall|i: int| 0 <= i < s.len() implies id_map(s)[#[trigger] s[i].print_date] == s[i].puzzle_id by {
                if i < n {
                    assert(d[i] == s[i]);
                    assert(s[i].print_date != s[n].print_date);
                }
            }
        }
    }
}

/// The puzzle ids of a lookup response, keyed by their print dates.
pub struct PuzzleIds {
    entries: Vec<PuzzleMetadata>,
}

impl View for PuzzleIds {
    type V = Map<PuzzleDate, u32>;

    closed spec fn view(&self) -> Map<PuzzleDate, u32> {
        id_map(self.entries@)
    }
}

impl PuzzleIds {
    /// Each date is held once.
    pub closed spec fn wf(&self) -> bool {
        dates_distinct(self.entries@)
    }

    /// The index of a lookup response's results, a later result overriding an
    /// earlier one of the same date.
    pub fn from_results(results: &Vec<PuzzleMetadata>) -> (r: PuzzleIds)
        ensures
            r.wf(),
            r@ == id_map(results@),
    {
        let mut entries: Vec<PuzzleMetadata> = Vec::new();
        let mut i: usize = 0;
        while i < results.len()
            invariant
                i <= results.len(),
                dates_distinct(entries@),
                id_map(entries@) == id_map(results@.take(i as int)),
            decreases results.len() - i,
        {
            let m = results[i];
            let mut j: usize = 0;
            let mut found = false;
            while j < entries.len()
                invariant_except_break
                    !found,
                invariant
                    j <= entries.len(),
                    forall|l: int| 0 <= l < j ==> #[trigger] entries@[l].print_date != m.print_date,
                ensures
                    found ==> j < entries.len() && entries@[j as int].print_date == m.print_date,
                    !found ==> forall|l: int| 0 <= l < entries.len() ==> #[trigger] entries@[l].print_date != m.print_date,
                decreases entries.len() - j,
            {
                if entries[j].print_date == m.print_date {
                    found = true;
                    break;
                }
                j = j + 1;
            }
            assert(results@.take(i + 1).drop_last() =~= results@.take(i as int));
            assert(results@.take(i + 1).last() == m);
            if found {
                proof {
                    lemma_id_map_update(entries@, j as int, m);
                }
                let ghost before = entries@;
                entries.set(j, m);
                assert(dates_distinct(entries@)) by {
                    assert forall|a: int, b: int|
                        0 <= a < entries@.len() && 0 <= b < entries@.len() && a != b
                            implies #[trigger] entries@[a].print_date != #[trigger] entries@[b].print_date by {
                        assert(entries@[a].print_date == before[a].print_date);
                        assert(entries@[b].print_date == before[b].print_date);
                    }
                }
            } else {
                let ghost before = entries@;
                entries.push(m);
                assert(entries@.drop_last() =~= before);
                assert(dates_distinct(entries@)) by {
                    assert forall|a: int, b: int|
                        0 <= a < entries@.len() && 0 <= b < entries@.len() && a != b
                            implies #[trigger] entries@[a].print_date != #[trigger] entries@[b].print_date by {
                        if a < before.len() {
                            assert(entries@[a] == before[a]);
                        }
                        if b < before.len() {
                            assert(entries@[b] == before[b]);
                        }
                    }
                }
            }
            i = i + 1;
        }
        assert(results@.take(results.len() as int) =~= results@);
        PuzzleIds { entries }
    }

    /// The id of the puzzle of `date`, if the index holds that date.
    pub fn get(&self, date: &PuzzleDate) -> (r: Option<u32>)
        requires
            self.wf(),
        ensures
            r == (if self@.contains_key(*date) { Some(self@[*date]) } else { None }),
    {
        let mut j: usize = 0;
        while j < self.entries.len()
            invariant
                self.wf(),
                j <= self.entries.len(),
                forall|l: int| 0 <= l < j ==> #[trigger] self.entries@[l].print_date != *date,
            decreases self.entries.len() - j,
        {
            if self.entries[j].print_date == *date {
                proof {
                    id_map_has_one_entry_per_result(self.entries@);
                    assert(self.entries@[j as int].print_date == *date);
                }
                return Some(self.entries[j].puzzle_id);
            }
            j = j + 1;
        }
        proof {
            lemma_id_map_absent(self.entries@, *date);
        }
        None
    }

    /// The number of dates held.
    pub fn len(&self) -> (r: usize)
        requires
            self.wf(),
        ensures
            r == self@.len(),
    {
        proof {
            id_map_has_one_entry_per_result(self.entries@);
        }
        self.entries.len()
    }

    /// The entries, one per date held, in the order their dates first came.
    pub fn entries(&self) -> (r: &Vec<PuzzleMetadata>)
        requires
            self.wf(),
        ensures
            dates_distinct(r@),
            id_map(r@) == self@,
    {
        &self.entries
    }
}

} // verus!
