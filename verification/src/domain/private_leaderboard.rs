use super::solved_parts::SolvedParts;
use std::collections::HashMap;
use vstd::prelude::*;

verus! {

broadcast use vstd::std_specs::hash::group_hash_axioms;

/// One member of a private leaderboard.
#[derive(Debug, Clone, PartialEq, Eq)]
pub struct PrivateLeaderboardEntry {
    pub user: String,
    pub points: usize,
    /// What the member has solved of each of the 25 days, the first day
    /// first.
    pub stars: Vec<SolvedParts>,
}

/// A private leaderboard: its members, the one with the most points first.
#[derive(Debug, Clone, PartialEq, Eq)]
pub struct PrivateLeaderboard {
    pub entries: Vec<PrivateLeaderboardEntry>,
}

/// That a stage of a day is solved.
#[derive(Debug, Clone, Copy, PartialEq, Eq)]
pub struct StageResults {}

/// What the site reports of a member's day.
#[derive(Debug, Clone, Copy, PartialEq, Eq)]
pub struct DayResults {
    pub stage_one: Option<StageResults>,
    pub stage_two: Option<StageResults>,
}

/// What the site reports of a member.
pub struct MemberResults {
    /// The days of which anything is solved, by their number.
    pub completion_day_level: HashMap<usize, DayResults>,
    pub name: String,
    pub local_score: usize,
}

/// What the site reports of a private leaderboard.
pub struct PrivateLeaderboardResponse {
    pub members: Vec<MemberResults>,
}

/// `sorted` with `entry` put behind the last entry that has at least as
/// many points.
pub open spec fn inserted(sorted: Seq<PrivateLeaderboardEntry>, entry: PrivateLeaderboardEntry)
    -> Seq<PrivateLeaderboardEntry>
    decreases sorted.len(),
{
    if sorted.len() == 0 {
        seq![entry]
    } else if sorted.last().points >= entry.points {
        sorted.push(entry)
    } else {
        inserted(sorted.drop_last(), entry).push(sorted.last())
    }
}

/// `entries` in the order of their points, most first; entries with the
/// same points keep their order.
pub open spec fn ranked(entries: Seq<PrivateLeaderboardEntry>) -> Seq<PrivateLeaderboardEntry>
    decreases entries.len(),
{
    if entries.len() == 0 {
        Seq::empty()
    } else {
        inserted(ranked(entries.drop_last()), entries.last())
    }
}

/// No entry has more points than one before it.
pub open spec fn descending(entries: Seq<PrivateLeaderboardEntry>) -> bool {
    forall|i: int, j: int| 0 <= i < j < entries.len() ==> entries[i].points >= entries[j].points
}

/// Putting an entry in keeps the order of points and adds just that entry.
pub proof fn lemma_inserted(sorted: Seq<PrivateLeaderboardEntry>, entry: PrivateLeaderboardEntry)
    requires
        descending(sorted),
    ensures
        descending(inserted(sorted, entry)),
        inserted(sorted, entry).len() == sorted.len() + 1,
        inserted(sorted, entry).to_multiset() == sorted.to_multiset().insert(entry),
        forall|i: int|
            0 <= i < inserted(sorted, entry).len() ==> (#[trigger] inserted(sorted, entry)[i])
                == entry || sorted.contains(inserted(sorted, entry)[i]),
    decreases sorted.len(),
{
    broadcast use vstd::seq_lib::group_to_multiset_ensures;

    let result = inserted(sorted, entry);
    if sorted.len() == 0 {
        assert(result =~= Seq::<PrivateLeaderboardEntry>::empty().push(entry));
        assert(sorted =~= Seq::<PrivateLeaderboardEntry>::empty());
    } else if sorted.last().points >= entry.points {
        assert forall|i: int| 0 <= i < result.len() implies (#[trigger] result[i]) == entry
            || sorted.contains(result[i]) by {
            if i < sorted.len() {
                assert(sorted[i] == result[i]);
            }
        }
    } else {
        let shorter = sorted.drop_last();
        lemma_inserted(shorter, entry);
        let inner = inserted(shorter, entry);
        assert(sorted =~= shorter.push(sorted.last()));
        assert forall|i: int, j: int| 0 <= i < j < result.len() implies result[i].points
            >= result[j].points by {
            if j == result.len() - 1 {
                assert(result[i] == inner[i]);
                if inner[i] != entry {
                    assert(shorter.contains(inner[i]));
                    let k = choose|k: int| 0 <= k < shorter.len() && shorter[k] == inner[i];
                    assert(sorted[k] == inner[i]);
                }
            } else {
                assert(result[i] == inner[i] && result[j] == inner[j]);
            }
        }
        assert forall|i: int| 0 <= i < result.len() implies (#[trigger] result[i]) == entry
            || sorted.contains(result[i]) by {
            if i < inner.len() {
                assert(result[i] == inner[i]);
                if inner[i] != entry {
                    let k = choose|k: int| 0 <= k < shorter.len() && shorter[k] == inner[i];
                    assert(sorted[k] == inner[i]);
                }
            } else {
                assert(result[i] == sorted[sorted.len() - 1]);
            }
        }
        assert(result.to_multiset() =~= sorted.to_multiset().insert(entry));
    }
}

/// A ranking is in the order of points and holds just the entries given,
/// each as often as it was given.
pub proof fn lemma_ranked(entries: Seq<PrivateLeaderboardEntry>)
    ensures
        descending(ranked(entries)),
        ranked(entries).len() == entries.len(),
        ranked(entries).to_multiset() == entries.to_multiset(),
    decreases entries.len(),
{
    broadcast use vstd::seq_lib::group_to_multiset_ensures;

    if entries.len() == 0 {
        assert(entries =~= Seq::<PrivateLeaderboardEntry>::empty());
    } else {
        lemma_ranked(entries.drop_last());
        lemma_inserted(ranked(entries.drop_last()), entries.last());
        assert(entries =~= entries.drop_last().push(entries.last()));
    }
}

/// What is solved of a day with the given report.
pub open spec fn solved_in(day: DayResults) -> SolvedParts {
    match (day.stage_one, day.stage_two) {
        (Some(_), None) => SolvedParts::One,
        (Some(_), Some(_)) => SolvedParts::Both,
        _ => SolvedParts::Neither,
    }
}

/// What a member has solved of each of the 25 days. Reports of other days
/// are not looked at.
pub open spec fn stars_of(days: Map<usize, DayResults>) -> Seq<SolvedParts> {
    Seq::new(
        25,
        |i: int|
            if days.contains_key((i + 1) as usize) {
                solved_in(days[(i + 1) as usize])
            } else {
                SolvedParts::Neither
            },
    )
}

/// `entry` is the entry of the member that `member` reports.
pub open spec fn is_entry_of(entry: PrivateLeaderboardEntry, member: MemberResults) -> bool {
    &&& entry.user@ == member.name@
    &&& entry.points == member.local_score
    &&& entry.stars@ == stars_of(member.completion_day_level@)
}

impl PrivateLeaderboardEntry {
    pub fn from(value: &MemberResults) -> (entry: Self)
        ensures
            is_entry_of(entry, *value),
    {
        let mut stars: Vec<SolvedParts> = Vec::new();
        let mut day: usize = 1;
        while day <= 25
            invariant
                1 <= day <= 26,
                stars.len() == day - 1,
                forall|i: int| 0 <= i < stars.len() ==> stars[i] == stars_of(
                    value.completion_day_level@,
                )[i],
            decreases 26 - day,
        {
            let solved = match value.completion_day_level.get(&day) {
                Some(results) => match (&results.stage_one, &results.stage_two) {
                    (Some(_), None) => SolvedParts::One,
                    (Some(_), Some(_)) => SolvedParts::Both,
                    _ => SolvedParts::Neither,
                },
                None => SolvedParts::Neither,
            };
            stars.push(solved);
            day += 1;
        }
        assert(stars@ =~= stars_of(value.completion_day_level@));
        PrivateLeaderboardEntry { user: value.name.clone(), points: value.local_score, stars }
    }
}

impl PrivateLeaderboard {
    /// The leaderboard of `entries`, ranked.
    pub fn new(entries: Vec<PrivateLeaderboardEntry>) -> (board: Self)
        ensures
            board.entries@ == ranked(entries@),
    {
        let ghost given = entries@;
        let mut rest = entries;
        let mut sorted: Vec<PrivateLeaderboardEntry> = Vec::new();
        let ghost mut done: int = 0;
        assert(given.take(0) =~= Seq::<PrivateLeaderboardEntry>::empty());
        assert(given.skip(0) =~= given);
        while rest.len() > 0
            invariant
                0 <= done <= given.len(),
                rest@ == given.skip(done),
                sorted@ == ranked(given.take(done)),
            decreases rest.len(),
        {
            let entry = rest.remove(0);
            proof {
                let next = given.take(done + 1);
                assert(next.drop_last() =~= given.take(done));
                assert(next.last() == entry);
                assert(rest@ =~= given.skip(done + 1));
            }
            let mut at: usize = sorted.len();
            assert(sorted@.take(at as int) =~= sorted@);
            assert(sorted@.skip(at as int) =~= Seq::<PrivateLeaderboardEntry>::empty());
            assert(inserted(sorted@, entry) =~= inserted(sorted@.take(at as int), entry)
                + sorted@.skip(at as int));
            while at > 0 && sorted[at - 1].points < entry.points
                invariant
                    at <= sorted.len(),
                    inserted(sorted@, entry) == inserted(sorted@.take(at as int), entry)
                        + sorted@.skip(at as int),
                decreases at,
            {
                proof {
                    let front = sorted@.take(at as int);
                    assert(front.last() == sorted@[at - 1]);
                    assert(front.drop_last() =~= sorted@.take(at - 1));
                    assert(inserted(front, entry) == inserted(sorted@.take(at - 1), entry).push(
                        sorted@[at - 1],
                    ));
                    assert(inserted(sorted@.take(at - 1), entry).push(sorted@[at - 1])
                        + sorted@.skip(at as int) =~= inserted(sorted@.take(at - 1), entry)
                        + sorted@.skip(at - 1));
                }
                at -= 1;
            }
            proof {
                let front = sorted@.take(at as int);
                if at > 0 {
                    assert(front.last() == sorted@[at - 1]);
                    assert(inserted(front, entry) == front.push(entry));
                } else {
                    assert(inserted(front, entry) =~= seq![entry]);
                }
                assert(inserted(front, entry) + sorted@.skip(at as int) =~= sorted@.insert(
                    at as int,
                    entry,
                ));
            }
            sorted.insert(at, entry);
            proof {
                done = done + 1;
            }
        }
        assert(given.take(given.len() as int) =~= given);
        PrivateLeaderboard { entries: sorted }
    }

    /// The ranked leaderboard of the members that the site reports.
    pub fn from(value: PrivateLeaderboardResponse) -> (board: Self)
        ensures
            exists|entries: Seq<PrivateLeaderboardEntry>|
                {
                    &&& entries.len() == value.members.len()
                    &&& forall|i: int|
                        0 <= i < entries.len() ==> is_entry_of(
                            #[trigger] entries[i],
                            value.members[i],
                        )
                    &&& board.entries@ == ranked(entries)
                },
    {
        let mut entries: Vec<PrivateLeaderboardEntry> = Vec::new();
        let mut i: usize = 0;
        while i < value.members.len()
            invariant
                i <= value.members.len(),
                entries.len() == i,
                forall|k: int| 0 <= k < i ==> is_entry_of(#[trigger] entries[k], value.members[k]),
            decreases value.members.len() - i,
        {
            entries.push(PrivateLeaderboardEntry::from(&value.members[i]));
            i += 1;
        }
        let ghost made = entries@;
        Self::new(entries)
    }
}

} // verus!
