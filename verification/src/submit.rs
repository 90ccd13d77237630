//! The submission dispatcher and the common halves of both clients:
//! the pre-pass that stores new flags and collects the pending ones, the
//! positional write-back of per-flag outcomes, and the selection of the
//! configured client.

use vstd::prelude::*;

use crate::config::SubmitterConfig;
use crate::config::SubmitterHTTPConfig;
use crate::config::SubmitterTCPConfig;
use crate::config::SubmitterType;
use crate::errors::SubmitError;
use crate::ledger::pending_of;
use crate::ledger::points_sum;
use crate::ledger::rows_wf;
use crate::ledger::store_spec;
use crate::ledger::update_spec;
use crate::ledger::EntryModel;
use crate::ledger::Ledger;
use crate::line::FlagOutcome;
use crate::line::OutcomeModel;

verus! {

/// The rows after the first `k` (flag, outcome) pairs have been written
/// back, each pair updating the row that holds its flag.
pub open spec fn apply_prefix(
    rows: Seq<EntryModel>,
    flags: Seq<Seq<u8>>,
    outs: Seq<OutcomeModel>,
    now: u64,
    k: int,
) -> Seq<EntryModel>
    decreases k,
{
    if k <= 0 {
        rows
    } else {
        let prev = apply_prefix(rows, flags, outs, now, k - 1);
        update_spec(
            prev,
            flags[k - 1],
            outs[k - 1].status,
            outs[k - 1].points_milli,
            outs[k - 1].error,
            now,
        )
    }
}

/// How many (flag, outcome) pairs there are: outcomes are matched to
/// flags by position, and a response shorter than the request resolves
/// only its own prefix.
pub open spec fn paired_len(flags: Seq<Seq<u8>>, outs: Seq<OutcomeModel>) -> int {
    if flags.len() <= outs.len() {
        flags.len() as int
    } else {
        outs.len() as int
    }
}

/// The rows after a submission attempt's outcomes are written back.
pub open spec fn apply_spec(
    rows: Seq<EntryModel>,
    flags: Seq<Seq<u8>>,
    outs: Seq<OutcomeModel>,
    now: u64,
) -> Seq<EntryModel> {
    apply_prefix(rows, flags, outs, now, paired_len(flags, outs))
}

/// Writing outcomes back moves no row and invents none.
pub proof fn lemma_apply_prefix_len(
    rows: Seq<EntryModel>,
    flags: Seq<Seq<u8>>,
    outs: Seq<OutcomeModel>,
    now: u64,
    k: int,
)
    ensures
        apply_prefix(rows, flags, outs, now, k).len() == rows.len(),
    decreases k,
{
    if k > 0 {
        lemma_apply_prefix_len(rows, flags, outs, now, k - 1);
    }
}

/// A row whose flag is not among the first `k` paired flags is untouched.
pub proof fn lemma_apply_prefix_untouched(
    rows: Seq<EntryModel>,
    flags: Seq<Seq<u8>>,
    outs: Seq<OutcomeModel>,
    now: u64,
    k: int,
    j: int,
)
    requires
        0 <= j < rows.len(),
        forall|i: int| 0 <= i < k ==> flags[i] != rows[j].flag,
    ensures
        apply_prefix(rows, flags, outs, now, k)[j] == rows[j],
    decreases k,
{
    if k > 0 {
        lemma_apply_prefix_untouched(rows, flags, outs, now, k - 1, j);
        lemma_apply_prefix_len(rows, flags, outs, now, k - 1);
    }
}

/// Writing outcomes back keeps every row's flag, so the ledger stays
/// well-formed.
pub proof fn lemma_apply_prefix_wf(
    rows: Seq<EntryModel>,
    flags: Seq<Seq<u8>>,
    outs: Seq<OutcomeModel>,
    now: u64,
    k: int,
)
    ensures
        apply_prefix(rows, flags, outs, now, k).len() == rows.len(),
        forall|j: int|
            0 <= j < rows.len() ==> #[trigger] apply_prefix(rows, flags, outs, now, k)[j].flag
                == rows[j].flag,
        rows_wf(rows) ==> rows_wf(apply_prefix(rows, flags, outs, now, k)),
    decreases k,
{
    if k > 0 {
        lemma_apply_prefix_wf(rows, flags, outs, now, k - 1);
    }
}

/// Writes each outcome into the row holding its flag, pairing outcomes to
/// flags by position.  Flags beyond the outcomes' length are left exactly
/// as they were (a short response resolves only its prefix); an outcome
/// whose flag is in no row writes nothing.
pub fn apply_outcomes(
    ledger: &mut Ledger,
    flags: &Vec<Vec<u8>>,
    outcomes: &Vec<FlagOutcome>,
    now: u64,
)
    requires
        old(ledger).wf(),
    ensures
        final(ledger).wf(),
        final(ledger)@ == apply_spec(old(ledger)@, flags.deep_view(), outcomes.deep_view(), now),
{
    let ghost orig = ledger@;
    let ghost fs = flags.deep_view();
    let ghost os = outcomes.deep_view();
    let n = if flags.len() <= outcomes.len() {
        flags.len()
    } else {
        outcomes.len()
    };
    proof {
        assert(n == paired_len(fs, os));
    }
    let mut k: usize = 0;
    while k < n
        invariant
            n == paired_len(fs, os),
            n <= flags@.len(),
            n <= outcomes@.len(),
            k <= n,
            fs == flags.deep_view(),
            os == outcomes.deep_view(),
            ledger.wf(),
            ledger@ == apply_prefix(orig, fs, os, now, k as int),
        decreases n - k,
    {
        let ghost prev = ledger@;
        let outcome = &outcomes[k];
        let error: Option<Vec<u8>> = match &outcome.error {
            Some(e) => Some(vstd::slice::slice_to_vec(e.as_slice())),
            None => None,
        };
        proof {
            assert(os[k as int] == outcomes@[k as int]@);
            assert(fs[k as int] == flags@[k as int]@);
        }
        let updated = ledger.update_flag_status(
            flags[k].as_slice(),
            outcome.status,
            outcome.points_milli,
            error,
            now,
        );
        proof {
            if !updated {
                assert forall|j: int| 0 <= j < prev.len() implies update_spec(
                    prev,
                    fs[k as int],
                    os[k as int].status,
                    os[k as int].points_milli,
                    os[k as int].error,
                    now,
                )[j] == prev[j] by {
                    assert(prev[j].flag != fs[k as int]);
                }
                assert(ledger@ =~= update_spec(
                    prev,
                    fs[k as int],
                    os[k as int].status,
                    os[k as int].points_milli,
                    os[k as int].error,
                    now,
                ));
            }
        }
        k += 1;
    }
}

/// A response shorter than the request resolves only its own prefix: a
/// row holding one of the flags beyond the outcomes' length is left
/// exactly as it was, provided the submitted flags are pairwise distinct
/// (which the pending list of a well-formed ledger always is).
pub proof fn lemma_short_response_leaves_rest(
    rows: Seq<EntryModel>,
    flags: Seq<Seq<u8>>,
    outs: Seq<OutcomeModel>,
    now: u64,
    i: int,
    j: int,
)
    requires
        forall|a: int, b: int| 0 <= a < b < flags.len() ==> flags[a] != flags[b],
        outs.len() <= i < flags.len(),
        0 <= j < rows.len(),
        rows[j].flag == flags[i],
    ensures
        apply_spec(rows, flags, outs, now)[j] == rows[j],
{
    lemma_apply_prefix_untouched(rows, flags, outs, now, paired_len(flags, outs), j);
}

/// A failed handshake aborts before any outcome exists, and writing back
/// an empty outcome list changes no row: every flag stays as it was, so
/// pending flags stay pending for the next attempt.
pub proof fn lemma_no_outcomes_changes_nothing(
    rows: Seq<EntryModel>,
    flags: Seq<Seq<u8>>,
    now: u64,
)
    ensures
        apply_spec(rows, flags, Seq::<OutcomeModel>::empty(), now) == rows,
{
}

/// The submission pre-pass, shared by both clients: store the freshly
/// captured flags (idempotently), then collect every pending flag, which
/// is what the attempt will send.
pub fn prepare_submission(ledger: &mut Ledger, flags: &Vec<Vec<u8>>, now: u64) -> (pending: Vec<
    Vec<u8>,
>)
    requires
        old(ledger).wf(),
    ensures
        final(ledger).wf(),
        final(ledger)@ == store_spec(old(ledger)@, flags.deep_view(), now),
        pending.deep_view() == pending_of(final(ledger)@),
{
    let _ = ledger.store_flags(flags, now);
    ledger.get_pending_flags()
}

/// The submission attempt's report: whether anything was sent at all, and
/// the ledger's recomputed total of accepted points (in thousandths),
/// read back from the ledger rather than accumulated on the side.
pub fn finish_submission(ledger: &Ledger, pending_len: usize) -> (r: (bool, u64))
    ensures
        r.0 == (pending_len > 0),
        points_sum(ledger@) <= u64::MAX ==> r.1 == points_sum(ledger@),
        points_sum(ledger@) > u64::MAX ==> r.1 == u64::MAX,
{
    (pending_len > 0, ledger.get_points_summary())
}

/// The client the configuration selects.
pub enum SelectedClient<'a> {
    /// The line protocol, with its endpoint.
    Tcp(&'a SubmitterTCPConfig),
    /// The batch protocol, with its endpoint.
    Http(&'a SubmitterHTTPConfig),
}

/// Picks the configured submission client: the selected protocol's
/// endpoint settings must be present, else the attempt fails with
/// `NoSubmitter` before anything is sent.
pub fn select_client<'a>(cfg: &'a SubmitterConfig) -> (r: Result<SelectedClient<'a>, SubmitError>)
    ensures
        match r {
            Ok(c) => match c {
                SelectedClient::Tcp(t) => cfg.kind == SubmitterType::Tcp && cfg.config.tcp
                    == Some(*t),
                SelectedClient::Http(h) => cfg.kind == SubmitterType::Http && cfg.config.http
                    == Some(*h),
            },
            Err(e) => e is NoSubmitter && (cfg.kind == SubmitterType::Tcp ==> cfg.config.tcp
                is None) && (cfg.kind == SubmitterType::Http ==> cfg.config.http is None),
        },
{
    match cfg.kind {
        SubmitterType::Tcp => match &cfg.config.tcp {
            Some(t) => Ok(SelectedClient::Tcp(t)),
            None => Err(SubmitError::NoSubmitter),
        },
        SubmitterType::Http => match &cfg.config.http {
            Some(h) => Ok(SelectedClient::Http(h)),
            None => Err(SubmitError::NoSubmitter),
        },
    }
}

} // verus!
