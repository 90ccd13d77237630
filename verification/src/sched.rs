//! The scheduler's decisions: aggregating one team's per-exploit results,
//! deduplicating captured flags, planning when the dispatcher runs, and
//! the per-team state the dashboard shows.
//!
//! The concurrent fan-out itself (one unit of work per team, each running
//! that team's exploits in order) is the caller's; every result it
//! gathers comes back through these functions, so outcomes do not depend
//! on the order teams finish.

use vstd::prelude::*;

use crate::config::SubmitMode;
use crate::errors::AttackError;
use crate::text::bytes_eq;

verus! {

/// What one team's cycle produced: either every exploit failed, or the
/// union of the captured flags (possibly empty).
#[derive(Debug)]
pub enum TeamOutcome {
    /// Every exploit failed; the per-exploit errors, in order.
    Errored(Vec<AttackError>),
    /// At least one exploit ran (or none was configured); the captured
    /// flags, in exploit order.
    Captured(Vec<Vec<u8>>),
}

/// The flags of the successful results, in order.
pub open spec fn oks_flags(results: Seq<Result<Vec<Vec<u8>>, AttackError>>) -> Seq<Seq<u8>>
    decreases results.len(),
{
    if results.len() == 0 {
        Seq::empty()
    } else {
        oks_flags(results.drop_last()) + (match results.last() {
            Ok(v) => v.deep_view(),
            Err(_) => Seq::empty(),
        })
    }
}

/// The errors of the failed results, in order.
pub open spec fn errs_of(results: Seq<Result<Vec<Vec<u8>>, AttackError>>) -> Seq<AttackError>
    decreases results.len(),
{
    if results.len() == 0 {
        Seq::empty()
    } else {
        errs_of(results.drop_last()) + (match results.last() {
            Ok(_) => Seq::empty(),
            Err(e) => seq![e],
        })
    }
}

/// Every exploit failed.
pub open spec fn all_failed(results: Seq<Result<Vec<Vec<u8>>, AttackError>>) -> bool {
    forall|i: int| 0 <= i < results.len() ==> results[i] is Err
}

/// Aggregates one team's per-exploit results: the team's cycle is
/// "errored" only when every exploit failed (and there was at least
/// one); otherwise the captured flags are concatenated in exploit order,
/// and failures alongside successes are tolerated.
pub fn aggregate_team(results: Vec<Result<Vec<Vec<u8>>, AttackError>>) -> (r: TeamOutcome)
    ensures
        (results@.len() > 0 && all_failed(results@)) ==> (r matches TeamOutcome::Errored(es)
            && es@ == errs_of(results@)),
        !(results@.len() > 0 && all_failed(results@)) ==> (r matches TeamOutcome::Captured(fs)
            && fs.deep_view() == oks_flags(results@)),
{
    let ghost orig = results@;
    let total = results.len();
    let mut rest = results;
    let mut flags: Vec<Vec<u8>> = Vec::new();
    let mut errs: Vec<AttackError> = Vec::new();
    let mut any_ok = false;
    let mut k: usize = 0;
    proof {
        assert(rest@ =~= orig.skip(0));
        assert(orig.take(0) =~= Seq::<Result<Vec<Vec<u8>>, AttackError>>::empty());
    }
    while rest.len() > 0
        invariant
            orig.len() == total,
            k + rest@.len() == total,
            rest@ =~= orig.skip(k as int),
            flags.deep_view() =~= oks_flags(orig.take(k as int)),
            errs@ =~= errs_of(orig.take(k as int)),
            any_ok <==> exists|i: int| 0 <= i < k && orig[i] is Ok,
        decreases rest@.len(),
    {
        let ghost pre_flags = flags.deep_view();
        let ghost pre_errs = errs@;
        proof {
            assert(orig.take(k + 1).drop_last() =~= orig.take(k as int));
            assert(orig.take(k + 1).last() == orig[k as int]);
            assert(rest@[0] == orig[k as int]);
        }
        let r0 = rest.remove(0);
        match r0 {
            Ok(mut v) => {
                let ghost vdeep = v.deep_view();
                flags.append(&mut v);
                any_ok = true;
                proof {
                    assert(flags.deep_view() =~~= pre_flags + vdeep);
                    assert(errs@ =~= errs_of(orig.take(k + 1)));
                }
            },
            Err(e) => {
                errs.push(e);
                proof {
                    assert(errs@ =~= pre_errs + seq![orig[k as int]->Err_0]);
                    assert(flags.deep_view() =~= oks_flags(orig.take(k + 1)));
                }
            },
        }
        proof {
            assert(rest@ =~= orig.skip(k + 1));
        }
        k += 1;
    }
    proof {
        assert(orig.take(total as int) =~= orig);
    }
    if !any_ok && total > 0 {
        proof {
            assert(all_failed(orig));
        }
        TeamOutcome::Errored(errs)
    } else {
        proof {
            if any_ok {
                let i = choose|i: int| 0 <= i < k && orig[i] is Ok;
                assert(!(orig[i] is Err));
            }
        }
        TeamOutcome::Captured(flags)
    }
}

/// The distinct flags of `fs`, keeping the first occurrence of each and
/// its position.
pub open spec fn dedup_spec(fs: Seq<Seq<u8>>) -> Seq<Seq<u8>>
    decreases fs.len(),
{
    if fs.len() == 0 {
        Seq::empty()
    } else {
        let prev = dedup_spec(fs.drop_last());
        if fs.drop_last().contains(fs.last()) {
            prev
        } else {
            prev.push(fs.last())
        }
    }
}

/// Collapses duplicate captures: the distinct flags, in order of first
/// appearance.
pub fn dedup_flags(flags: Vec<Vec<u8>>) -> (r: Vec<Vec<u8>>)
    ensures
        r.deep_view() == dedup_spec(flags.deep_view()),
{
    let ghost fs = flags.deep_view();
    let mut r: Vec<Vec<u8>> = Vec::new();
    let mut i: usize = 0;
    proof {
        assert(fs.take(0) =~= Seq::<Seq<u8>>::empty());
        assert(r.deep_view() =~= dedup_spec(fs.take(0)));
    }
    while i < flags.len()
        invariant
            i <= fs.len(),
            fs == flags.deep_view(),
            fs.len() == flags@.len(),
            r.deep_view() =~= dedup_spec(fs.take(i as int)),
        decreases fs.len() - i,
    {
        let ghost pre = r.deep_view();
        proof {
            assert(fs.take(i + 1).drop_last() =~= fs.take(i as int));
            assert(fs.take(i + 1).last() == fs[i as int]);
            assert(fs[i as int] == flags@[i as int]@);
        }
        // Scan the already-processed prefix for the same flag.
        let mut seen = false;
        let mut j: usize = 0;
        while j < i
            invariant
                i < flags@.len(),
                fs == flags.deep_view(),
                fs.len() == flags@.len(),
                j <= i,
                seen <==> exists|l: int| 0 <= l < j && fs[l] == fs[i as int],
            decreases i - j,
        {
            proof {
                assert(fs[j as int] == flags@[j as int]@);
                assert(fs[i as int] == flags@[i as int]@);
            }
            if !seen && bytes_eq(flags[j].as_slice(), flags[i].as_slice()) {
                seen = true;
                proof {
                    assert(fs[j as int] == fs[i as int]);
                }
            }
            j += 1;
        }
        proof {
            if seen {
                let l = choose|l: int| 0 <= l < i && fs[l] == fs[i as int];
                assert(fs.take(i as int)[l] == fs[i as int]);
            } else {
                if fs.take(i as int).contains(fs[i as int]) {
                    let l = choose|l: int|
                        0 <= l < i && fs.take(i as int)[l] == fs[i as int];
                    assert(fs[l] == fs[i as int]);
                }
            }
        }
        if !seen {
            r.push(vstd::slice::slice_to_vec(flags[i].as_slice()));
            proof {
                assert(r.deep_view() =~~= pre.push(fs[i as int]));
            }
        }
        i += 1;
    }
    proof {
        assert(fs.take(fs.len() as int) =~= fs);
    }
    r
}

/// The distinct flags are exactly the captured flags: deduplication
/// loses none and invents none.
pub proof fn lemma_dedup_same_flags(fs: Seq<Seq<u8>>)
    ensures
        forall|f: Seq<u8>| #[trigger] dedup_spec(fs).contains(f) <==> fs.contains(f),
        forall|a: int, b: int|
            0 <= a < b < dedup_spec(fs).len() ==> dedup_spec(fs)[a] != dedup_spec(fs)[b],
    decreases fs.len(),
{
    if fs.len() > 0 {
        lemma_dedup_same_flags(fs.drop_last());
        let prev = dedup_spec(fs.drop_last());
        let f0 = fs.last();
        assert forall|f: Seq<u8>| #[trigger] dedup_spec(fs).contains(f) implies fs.contains(f) by {
            let i = choose|i: int| 0 <= i < dedup_spec(fs).len() && dedup_spec(fs)[i] == f;
            if i < prev.len() {
                assert(prev[i] == f);
                assert(prev.contains(f));
                let j = choose|j: int|
                    0 <= j < fs.drop_last().len() && fs.drop_last()[j] == f;
                assert(fs[j] == f);
            } else {
                assert(fs[fs.len() - 1] == f);
            }
        }
        assert forall|f: Seq<u8>| fs.contains(f) implies #[trigger] dedup_spec(fs).contains(f) by {
            let i = choose|i: int| 0 <= i < fs.len() && fs[i] == f;
            if i < fs.len() - 1 {
                assert(fs.drop_last()[i] == f);
                assert(fs.drop_last().contains(f));
                assert(prev.contains(f));
                let j = choose|j: int| 0 <= j < prev.len() && prev[j] == f;
                if fs.drop_last().contains(f0) {
                    assert(dedup_spec(fs)[j] == f);
                } else {
                    assert(dedup_spec(fs)[j] == f);
                }
            } else {
                if fs.drop_last().contains(f0) {
                    assert(prev.contains(f0));
                    let l = choose|l: int| 0 <= l < prev.len() && prev[l] == f0;
                    assert(dedup_spec(fs)[l] == f);
                } else {
                    assert(dedup_spec(fs)[prev.len() as int] == f);
                }
            }
        }
        if !fs.drop_last().contains(f0) {
            assert forall|a: int, b: int|
                0 <= a < b < dedup_spec(fs).len() implies dedup_spec(fs)[a] != dedup_spec(
                fs,
            )[b] by {
                if b == dedup_spec(fs).len() - 1 {
                    assert(dedup_spec(fs)[a] == prev[a]);
                    assert(prev.contains(prev[a]));
                    assert(fs.drop_last().contains(prev[a]));
                }
            }
        }
    }
}

/// The flags of all teams in one cycle, in team order.
pub open spec fn flatten_teams(tf: Seq<Seq<Seq<u8>>>) -> Seq<Seq<u8>>
    decreases tf.len(),
{
    if tf.len() == 0 {
        Seq::empty()
    } else {
        flatten_teams(tf.drop_last()) + tf.last()
    }
}

/// The non-empty team batches, in team order.
pub open spec fn grouped_spec(tf: Seq<Seq<Seq<u8>>>) -> Seq<Seq<Seq<u8>>>
    decreases tf.len(),
{
    if tf.len() == 0 {
        Seq::empty()
    } else {
        grouped_spec(tf.drop_last()) + (if tf.last().len() > 0 {
            seq![tf.last()]
        } else {
            Seq::empty()
        })
    }
}

/// The batches the dispatcher is invoked with, given the mode and each
/// team's captured flags, in team order:
/// - `Batch`: one batch of the whole cycle's flags, after all teams
///   finish (none when nothing was captured);
/// - `Grouped`: one batch per team with flags, as each team finishes;
/// - `Instant`: one batch per captured flag, as it is captured.  (The
///   mode submits every single flag on its own; it is not an alias for
///   `Grouped`.)
pub open spec fn plan_spec(mode: SubmitMode, tf: Seq<Seq<Seq<u8>>>) -> Seq<Seq<Seq<u8>>> {
    match mode {
        SubmitMode::Batch => if flatten_teams(tf).len() == 0 {
            Seq::empty()
        } else {
            seq![flatten_teams(tf)]
        },
        SubmitMode::Grouped => grouped_spec(tf),
        SubmitMode::Instant => flatten_teams(tf).map_values(|f: Seq<u8>| seq![f]),
    }
}

/// Copies a list of flags.
fn copy_flags(src: &Vec<Vec<u8>>) -> (r: Vec<Vec<u8>>)
    ensures
        r.deep_view() == src.deep_view(),
{
    let mut r: Vec<Vec<u8>> = Vec::new();
    let mut j: usize = 0;
    while j < src.len()
        invariant
            j <= src@.len(),
            r@.len() == j,
            src.deep_view().len() == src@.len(),
            r.deep_view() =~= src.deep_view().take(j as int),
        decreases src@.len() - j,
    {
        r.push(vstd::slice::slice_to_vec(src[j].as_slice()));
        proof {
            assert(src.deep_view()[j as int] == src@[j as int]@);
            assert(r.deep_view() =~~= src.deep_view().take(j + 1));
        }
        j += 1;
    }
    proof {
        assert(src.deep_view().take(src.deep_view().len() as int) =~= src.deep_view());
    }
    r
}

/// Plans the dispatcher invocations for one cycle.
pub fn plan_submissions(mode: SubmitMode, team_flags: &Vec<Vec<Vec<u8>>>) -> (r: Vec<Vec<Vec<u8>>>)
    ensures
        r.deep_view() == plan_spec(mode, team_flags.deep_view()),
{
    let ghost tf = team_flags.deep_view();
    proof {
        assert(forall|l: int|
            0 <= l < tf.len() ==> #[trigger] tf[l] == team_flags@[l].deep_view());
    }
    let mut r: Vec<Vec<Vec<u8>>> = Vec::new();
    match mode {
        SubmitMode::Batch => {
            let mut all: Vec<Vec<u8>> = Vec::new();
            let mut k: usize = 0;
            proof {
                assert(tf.take(0) =~= Seq::<Seq<Seq<u8>>>::empty());
                assert(all.deep_view() =~= flatten_teams(tf.take(0)));
            }
            while k < team_flags.len()
                invariant
                    tf == team_flags.deep_view(),
                    tf.len() == team_flags@.len(),
                    k <= tf.len(),
                    all.deep_view() =~= flatten_teams(tf.take(k as int)),
                decreases tf.len() - k,
            {
                let ghost pre = all.deep_view();
                proof {
                    assert(tf.take(k + 1).drop_last() =~= tf.take(k as int));
                    assert(tf.take(k + 1).last() == tf[k as int]);
                }
                let mut tv = copy_flags(&team_flags[k]);
                all.append(&mut tv);
                proof {
                    assert(all.deep_view() =~~= pre + tf[k as int]);
                }
                k += 1;
            }
            proof {
                assert(tf.take(tf.len() as int) =~= tf);
            }
            if all.len() > 0 {
                proof {
                    assert(all.deep_view().len() == all@.len());
                }
                let ghost alldeep = all.deep_view();
                r.push(all);
                proof {
                    assert(r.deep_view() =~~= seq![alldeep]);
                }
            } else {
                proof {
                    assert(flatten_teams(tf).len() == 0);
                    assert(r.deep_view() =~= plan_spec(mode, tf));
                }
            }
        },
        SubmitMode::Grouped => {
            let mut k: usize = 0;
            proof {
                assert(tf.take(0) =~= Seq::<Seq<Seq<u8>>>::empty());
                assert(r.deep_view() =~= grouped_spec(tf.take(0)));
            }
            while k < team_flags.len()
                invariant
                    tf == team_flags.deep_view(),
                    tf.len() == team_flags@.len(),
                    k <= tf.len(),
                    r.deep_view() =~= grouped_spec(tf.take(k as int)),
                decreases tf.len() - k,
            {
                let ghost pre = r.deep_view();
                proof {
                    assert(tf.take(k + 1).drop_last() =~= tf.take(k as int));
                    assert(tf.take(k + 1).last() == tf[k as int]);
                }
                if team_flags[k].len() > 0 {
                    let tv = copy_flags(&team_flags[k]);
                    r.push(tv);
                    proof {
                        assert(r.deep_view() =~~= pre.push(tf[k as int]));
                        assert(pre.push(tf[k as int]) =~= pre + seq![tf[k as int]]);
                    }
                } else {
                    proof {
                        assert(tf[k as int].len() == 0);
                        assert(grouped_spec(tf.take(k + 1)) =~= pre);
                    }
                }
                k += 1;
            }
            proof {
                assert(tf.take(tf.len() as int) =~= tf);
            }
        },
        SubmitMode::Instant => {
            let mut k: usize = 0;
            proof {
                assert(tf.take(0) =~= Seq::<Seq<Seq<u8>>>::empty());
                assert(r.deep_view() =~~= flatten_teams(tf.take(0)).map_values(
                    |f: Seq<u8>| seq![f],
                ));
            }
            while k < team_flags.len()
                invariant
                    tf == team_flags.deep_view(),
                    tf.len() == team_flags@.len(),
                    k <= tf.len(),
                    r.deep_view() =~= flatten_teams(tf.take(k as int)).map_values(
                        |f: Seq<u8>| seq![f],
                    ),
                decreases tf.len() - k,
            {
                let tv = &team_flags[k];
                let ghost tvdeep = tf[k as int];
                proof {
                    assert(tvdeep == team_flags@[k as int].deep_view());
                }
                let mut j: usize = 0;
                while j < tv.len()
                    invariant
                        tf == team_flags.deep_view(),
                        tf.len() == team_flags@.len(),
                        k < tf.len(),
                        tvdeep == tf[k as int],
                        tvdeep == team_flags@[k as int].deep_view(),
                        tv == &team_flags@[k as int],
                        j <= tvdeep.len(),
                        tvdeep.len() == tv@.len(),
                        r.deep_view() =~= (flatten_teams(tf.take(k as int)) + tvdeep.take(
                            j as int,
                        )).map_values(|f: Seq<u8>| seq![f]),
                    decreases tvdeep.len() - j,
                {
                    let ghost pre = r.deep_view();
                    let f = vstd::slice::slice_to_vec(tv[j].as_slice());
                    let ghost fdeep = f@;
                    proof {
                        assert(fdeep == tvdeep[j as int]);
                    }
                    let mut single: Vec<Vec<u8>> = Vec::new();
                    single.push(f);
                    r.push(single);
                    proof {
                        assert(r.deep_view() =~~= pre.push(seq![fdeep]));
                        lemma_map_singleton_push(
                            flatten_teams(tf.take(k as int)) + tvdeep.take(j as int),
                            fdeep,
                        );
                        assert((flatten_teams(tf.take(k as int)) + tvdeep.take(j as int)).push(
                            fdeep,
                        ) =~= flatten_teams(tf.take(k as int)) + tvdeep.take(j + 1));
                    }
                    j += 1;
                }
                proof {
                    assert(tvdeep.take(tvdeep.len() as int) =~= tvdeep);
                    assert(tf.take(k + 1).drop_last() =~= tf.take(k as int));
                    assert(tf.take(k + 1).last() == tf[k as int]);
                    assert(flatten_teams(tf.take(k + 1)) =~= flatten_teams(tf.take(k as int))
                        + tvdeep);
                }
                k += 1;
            }
            proof {
                assert(tf.take(tf.len() as int) =~= tf);
            }
        },
    }
    r
}

/// Mapping into singletons distributes over appending one element.
proof fn lemma_map_singleton_push(s: Seq<Seq<u8>>, f: Seq<u8>)
    ensures
        s.push(f).map_values(|g: Seq<u8>| seq![g]) =~= s.map_values(|g: Seq<u8>| seq![g]).push(
            seq![f],
        ),
{
}

/// The planned batches carry exactly the cycle's captured flags: no flag
/// is lost and none is duplicated by planning, whichever mode is
/// configured.
pub proof fn lemma_plan_preserves_flags(mode: SubmitMode, tf: Seq<Seq<Seq<u8>>>)
    ensures
        flatten_teams(plan_spec(mode, tf)) == flatten_teams(tf),
{
    match mode {
        SubmitMode::Batch => {
            if flatten_teams(tf).len() == 0 {
                assert(flatten_teams(plan_spec(mode, tf)) =~= flatten_teams(tf));
            } else {
                let whole = flatten_teams(tf);
                assert(seq![whole].drop_last() =~= Seq::<Seq<Seq<u8>>>::empty());
                assert(flatten_teams(Seq::<Seq<Seq<u8>>>::empty()) =~= Seq::<Seq<u8>>::empty());
                assert(seq![whole].last() == whole);
                assert(flatten_teams(seq![whole]) =~= whole);
            }
        },
        SubmitMode::Grouped => {
            lemma_grouped_preserves(tf);
        },
        SubmitMode::Instant => {
            lemma_flatten_singletons(flatten_teams(tf));
        },
    }
}

proof fn lemma_grouped_preserves(tf: Seq<Seq<Seq<u8>>>)
    ensures
        flatten_teams(grouped_spec(tf)) == flatten_teams(tf),
    decreases tf.len(),
{
    if tf.len() > 0 {
        lemma_grouped_preserves(tf.drop_last());
        let prev = grouped_spec(tf.drop_last());
        if tf.last().len() > 0 {
            assert(grouped_spec(tf) =~= prev.push(tf.last()));
            assert(prev.push(tf.last()).drop_last() =~= prev);
            assert(flatten_teams(prev.push(tf.last())) =~= flatten_teams(prev) + tf.last());
            assert(flatten_teams(grouped_spec(tf)) =~= flatten_teams(tf));
        } else {
            assert(grouped_spec(tf) =~= prev);
            assert(tf.last() =~= Seq::<Seq<u8>>::empty());
            assert(flatten_teams(tf) =~= flatten_teams(tf.drop_last()));
        }
    }
}

proof fn lemma_flatten_singletons(fs: Seq<Seq<u8>>)
    ensures
        flatten_teams(fs.map_values(|f: Seq<u8>| seq![f])) == fs,
    decreases fs.len(),
{
    let g = |f: Seq<u8>| seq![f];
    if fs.len() == 0 {
        assert(fs.map_values(g) =~= Seq::<Seq<Seq<u8>>>::empty());
        assert(flatten_teams(fs.map_values(g)) =~= fs);
    } else {
        lemma_flatten_singletons(fs.drop_last());
        assert(fs.map_values(g).drop_last() =~= fs.drop_last().map_values(g));
        assert(fs.map_values(g).last() == seq![fs.last()]);
        assert(flatten_teams(fs.map_values(g)) =~= flatten_teams(fs.drop_last().map_values(g))
            + seq![fs.last()]);
        assert(flatten_teams(fs.drop_last().map_values(g)) + seq![fs.last()] =~= fs);
    }
}

} // verus!
