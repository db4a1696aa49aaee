//! A whole cleaning, followed from its first step to its count.
//!
//! A cleaning asks, step by step, for cache roots to be looked up and for
//! files and rows to be removed. What comes of each cuboid depends on what
//! its surroundings answer: whether its cache root is found, whether its
//! file can be removed, whether its row can. This module fixes those answers
//! and proves what the cleaning then counts.
use vstd::prelude::*;
use crate::db::absorbed;
use crate::db::directed;
use crate::db::models::Cuboid;
use crate::db::skipped;
use crate::db::CleanDemand;
use crate::db::CleanPhase;
use crate::db::CleanReply;
use crate::db::CleanView;

verus! {

/// What happens to one cuboid when a cleaning turns to it.
pub struct Removal {
    /// The path of its cache root, as a lookup finds it.
    pub root: Option<Seq<char>>,
    /// Whether its file can be removed.
    pub file: bool,
    /// Whether its row can be removed.
    pub row: bool,
}

/// The reply to a demand made for a cuboid with the fate `fate`.
pub open spec fn reply_to(demand: CleanDemand, fate: Removal) -> CleanReply {
    match demand {
        CleanDemand::LookupRoot(_) => CleanReply::Root(fate.root),
        CleanDemand::RemoveFile(_) => CleanReply::FileRemoved(fate.file),
        CleanDemand::RemoveEntry(_) => CleanReply::EntryRemoved(fate.row),
        CleanDemand::Finished(_) => CleanReply::Begin,
    }
}

/// The count that the cleaning `v` reports when it is stepped until it has
/// finished, every demand being answered as the fate of its cuboid says;
/// `None` if it has not finished within `steps` steps.
pub open spec fn clean_run(
    v: CleanView,
    roots: Map<i32, Seq<char>>,
    reply: CleanReply,
    fates: Seq<Removal>,
    steps: nat,
) -> Option<u32>
    decreases steps,
{
    if steps == 0 {
        None
    } else {
        let taken = absorbed(v, roots, reply);
        let next = directed(taken.0, taken.1);
        match next.1 {
            CleanDemand::Finished(count) => Some(count),
            demand => clean_run(
                next.0,
                taken.1,
                reply_to(demand, fates[next.0.next]),
                fates,
                (steps - 1) as nat,
            ),
        }
    }
}

/// Whether a cuboid is removed in full: its cache root is known or found,
/// and file and row can be removed.
pub open spec fn removed_in_full(c: Cuboid, roots: Map<i32, Seq<char>>, fate: Removal) -> bool {
    (roots.contains_key(c.cache_root) || fate.root is Some) && fate.file && fate.row
}

/// The cache roots known once a cuboid has been dealt with: a root that had
/// to be looked up and was found is known from then on.
pub open spec fn roots_after(c: Cuboid, roots: Map<i32, Seq<char>>, fate: Removal) -> Map<
    i32,
    Seq<char>,
> {
    if !roots.contains_key(c.cache_root) && fate.root is Some {
        roots.insert(c.cache_root, fate.root.unwrap())
    } else {
        roots
    }
}

/// How many of the cuboids from place `from` on are removed in full.
pub open spec fn removed_count(
    unwanted: Seq<Cuboid>,
    roots: Map<i32, Seq<char>>,
    fates: Seq<Removal>,
    from: int,
) -> int
    decreases unwanted.len() - from,
{
    if from < 0 || from >= unwanted.len() {
        0
    } else {
        (if removed_in_full(unwanted[from], roots, fates[from]) {
            1int
        } else {
            0int
        }) + removed_count(
            unwanted,
            roots_after(unwanted[from], roots, fates[from]),
            fates,
            from + 1,
        )
    }
}

/// No more cuboids are removed than there are.
pub proof fn lemma_removed_count_bound(
    unwanted: Seq<Cuboid>,
    roots: Map<i32, Seq<char>>,
    fates: Seq<Removal>,
    from: int,
)
    requires
        0 <= from <= unwanted.len(),
    ensures
        0 <= removed_count(unwanted, roots, fates, from) <= unwanted.len() - from,
    decreases unwanted.len() - from,
{
    if from < unwanted.len() {
        lemma_removed_count_bound(
            unwanted,
            roots_after(unwanted[from], roots, fates[from]),
            fates,
            from + 1,
        );
    }
}

/// A cleaning that is about to turn to a cuboid whose cache root it knows.
proof fn lemma_clean_known(
    v: CleanView,
    roots: Map<i32, Seq<char>>,
    reply: CleanReply,
    fates: Seq<Removal>,
    steps: nat,
)
    requires
        v.phase == CleanPhase::Idle,
        0 <= v.next < v.unwanted.len(),
        roots.contains_key(v.unwanted[v.next].cache_root),
        steps >= 3,
    ensures
        ({
            let c = v.unwanted[v.next];
            let full = removed_in_full(c, roots, fates[v.next]);
            let after = CleanView {
                removed: if full {
                    v.removed + 1
                } else {
                    v.removed
                },
                ..skipped(v)
            };
            ||| clean_run(v, roots, reply, fates, steps) == clean_run(
                after,
                roots,
                CleanReply::Begin,
                fates,
                (steps - 1) as nat,
            )
            ||| clean_run(v, roots, reply, fates, steps) == clean_run(
                after,
                roots,
                CleanReply::Begin,
                fates,
                (steps - 2) as nat,
            )
        }),
{
    let c = v.unwanted[v.next];
    let fate = fates[v.next];
    let waiting = CleanView { phase: CleanPhase::AwaitFile, ..v };
    assert(absorbed(v, roots, reply) == (v, roots));
    assert(directed(v, roots).0 == waiting);
    let first = reply_to(directed(v, roots).1, fate);
    assert(first == CleanReply::FileRemoved(fate.file));
    assert(clean_run(v, roots, reply, fates, steps) == clean_run(
        waiting,
        roots,
        first,
        fates,
        (steps - 1) as nat,
    ));
    if fate.file {
        let entry = CleanView { phase: CleanPhase::AwaitEntry, ..v };
        assert(absorbed(waiting, roots, first) == (entry, roots));
        assert(directed(entry, roots) == (entry, CleanDemand::RemoveEntry(c.id)));
        let second = CleanReply::EntryRemoved(fate.row);
        assert(clean_run(waiting, roots, first, fates, (steps - 1) as nat) == clean_run(
            entry,
            roots,
            second,
            fates,
            (steps - 2) as nat,
        ));
        let after = absorbed(entry, roots, second).0;
        assert(after.phase == CleanPhase::Idle);
        assert(absorbed(after, roots, CleanReply::Begin) == (after, roots));
        assert(clean_run(entry, roots, second, fates, (steps - 2) as nat) == clean_run(
            after,
            roots,
            CleanReply::Begin,
            fates,
            (steps - 2) as nat,
        ));
    } else {
        let after = skipped(v);
        assert(absorbed(waiting, roots, first) == (after, roots));
        assert(absorbed(after, roots, CleanReply::Begin) == (after, roots));
        assert(clean_run(waiting, roots, first, fates, (steps - 1) as nat) == clean_run(
            after,
            roots,
            CleanReply::Begin,
            fates,
            (steps - 1) as nat,
        ));
    }
}

/// A cleaning that is about to turn to any cuboid.
proof fn lemma_clean_one(
    v: CleanView,
    roots: Map<i32, Seq<char>>,
    reply: CleanReply,
    fates: Seq<Removal>,
    steps: nat,
)
    requires
        v.phase == CleanPhase::Idle,
        0 <= v.next < v.unwanted.len(),
        steps >= 4,
    ensures
        ({
            let c = v.unwanted[v.next];
            let full = removed_in_full(c, roots, fates[v.next]);
            let after = CleanView {
                removed: if full {
                    v.removed + 1
                } else {
                    v.removed
                },
                ..skipped(v)
            };
            ||| clean_run(v, roots, reply, fates, steps) == clean_run(
                after,
                roots_after(c, roots, fates[v.next]),
                CleanReply::Begin,
                fates,
                (steps - 1) as nat,
            )
            ||| clean_run(v, roots, reply, fates, steps) == clean_run(
                after,
                roots_after(c, roots, fates[v.next]),
                CleanReply::Begin,
                fates,
                (steps - 2) as nat,
            )
            ||| clean_run(v, roots, reply, fates, steps) == clean_run(
                after,
                roots_after(c, roots, fates[v.next]),
                CleanReply::Begin,
                fates,
                (steps - 3) as nat,
            )
        }),
{
    let c = v.unwanted[v.next];
    let fate = fates[v.next];
    if roots.contains_key(c.cache_root) {
        lemma_clean_known(v, roots, reply, fates, steps);
    } else {
        let waiting = CleanView { phase: CleanPhase::AwaitRoot, ..v };
        assert(absorbed(v, roots, reply) == (v, roots));
        assert(directed(v, roots) == (waiting, CleanDemand::LookupRoot(c.cache_root)));
        let first = CleanReply::Root(fate.root);
        assert(clean_run(v, roots, reply, fates, steps) == clean_run(
            waiting,
            roots,
            first,
            fates,
            (steps - 1) as nat,
        ));
        match fate.root {
            Some(path) => {
                let found = roots.insert(c.cache_root, path);
                assert(absorbed(waiting, roots, first) == (v, found));
                assert(absorbed(v, found, CleanReply::Begin) == (v, found));
                assert(clean_run(waiting, roots, first, fates, (steps - 1) as nat) == clean_run(
                    v,
                    found,
                    CleanReply::Begin,
                    fates,
                    (steps - 1) as nat,
                ));
                lemma_clean_known(v, found, CleanReply::Begin, fates, (steps - 1) as nat);
            },
            None => {
                let after = skipped(v);
                assert(absorbed(waiting, roots, first) == (after, roots));
                assert(absorbed(after, roots, CleanReply::Begin) == (after, roots));
                assert(clean_run(waiting, roots, first, fates, (steps - 1) as nat) == clean_run(
                    after,
                    roots,
                    CleanReply::Begin,
                    fates,
                    (steps - 1) as nat,
                ));
            },
        }
    }
}

/// A cleaning counts the cuboids that are removed in full: stepped until
/// it has finished, it reports what it had counted before plus the number
/// of the remaining cuboids whose cache root is known or found and whose
/// file and row are removed.
pub proof fn lemma_clean_counts(
    v: CleanView,
    roots: Map<i32, Seq<char>>,
    reply: CleanReply,
    fates: Seq<Removal>,
    steps: nat,
)
    requires
        v.phase == CleanPhase::Idle,
        0 <= v.removed <= v.next <= v.unwanted.len() <= u32::MAX,
        fates.len() == v.unwanted.len(),
        steps > 3 * (v.unwanted.len() - v.next),
    ensures
        clean_run(v, roots, reply, fates, steps) == Some(
            (v.removed + removed_count(v.unwanted, roots, fates, v.next)) as u32,
        ),
    decreases v.unwanted.len() - v.next,
{
    if v.next >= v.unwanted.len() {
        assert(absorbed(v, roots, reply) == (v, roots));
    } else {
        lemma_clean_one(v, roots, reply, fates, steps);
        let c = v.unwanted[v.next];
        let full = removed_in_full(c, roots, fates[v.next]);
        let after = CleanView {
            removed: if full {
                v.removed + 1
            } else {
                v.removed
            },
            ..skipped(v)
        };
        let known = roots_after(c, roots, fates[v.next]);
        lemma_clean_counts(after, known, CleanReply::Begin, fates, (steps - 1) as nat);
        lemma_clean_counts(after, known, CleanReply::Begin, fates, (steps - 2) as nat);
        lemma_clean_counts(after, known, CleanReply::Begin, fates, (steps - 3) as nat);
        lemma_removed_count_bound(v.unwanted, roots, fates, v.next);
    }
}

} // verus!
