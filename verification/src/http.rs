//! The batch-protocol submission client.
//!
//! One request carries every pending flag as a JSON array of strings; the
//! service answers with an array of per-flag verdicts matched to the
//! request by position.  The library frames the request body and writes
//! the verdicts back; the caller performs the HTTP exchange and hands the
//! parsed reply elements over as plain values.
//!
//! Fail-closed rules: a reply shorter than the request resolves only its
//! own prefix (the rest stays pending), and a failing response marks every
//! submitted flag as errored — no flag is ever assumed sent.

use vstd::prelude::*;

use crate::flag::spec_status_from;
use crate::flag::FlagStatus;
use crate::flag::HttpResponseModel;
use crate::flag::SubmitterHTTPResponse;
use crate::ledger::EntryModel;
use crate::ledger::Ledger;
use crate::line::FlagOutcome;
use crate::line::OutcomeModel;
use crate::submit::apply_outcomes;
use crate::submit::apply_spec;
use crate::submit::lemma_short_response_leaves_rest;

verus! {

/// The digit for one hex nibble, lower case.
pub open spec fn hex_digit(n: nat) -> u8 {
    if n < 10 {
        (48 + n) as u8
    } else {
        (87 + n) as u8
    }
}

/// How one byte stands inside a JSON string literal: quotes and
/// backslashes are escaped, control bytes become `\u00XX`, everything
/// else stands as itself.
pub open spec fn json_escape_byte(b: u8) -> Seq<u8> {
    if b == 34 {
        seq![92u8, 34u8]
    } else if b == 92 {
        seq![92u8, 92u8]
    } else if b < 32 {
        seq![92u8, 117u8, 48u8, 48u8, hex_digit((b / 16) as nat), hex_digit((b % 16) as nat)]
    } else {
        seq![b]
    }
}

/// A byte string escaped for a JSON string literal.
pub open spec fn json_escape(s: Seq<u8>) -> Seq<u8>
    decreases s.len(),
{
    if s.len() == 0 {
        Seq::empty()
    } else {
        json_escape(s.drop_last()) + json_escape_byte(s.last())
    }
}

/// A byte string as a JSON string literal, quotes included.
pub open spec fn json_string(s: Seq<u8>) -> Seq<u8> {
    seq![34u8] + json_escape(s) + seq![34u8]
}

/// The comma-separated JSON string literals of the flags, in order.
pub open spec fn json_items(flags: Seq<Seq<u8>>) -> Seq<u8>
    decreases flags.len(),
{
    if flags.len() == 0 {
        Seq::empty()
    } else if flags.len() == 1 {
        json_string(flags[0])
    } else {
        json_items(flags.drop_last()) + seq![44u8] + json_string(flags.last())
    }
}

/// The request body: the flags as a JSON array of strings.
pub open spec fn json_flags_body(flags: Seq<Seq<u8>>) -> Seq<u8> {
    seq![91u8] + json_items(flags) + seq![93u8]
}

/// Appends one byte escaped for a JSON string literal.
fn push_escaped(out: &mut Vec<u8>, b: u8)
    ensures
        final(out)@ == old(out)@ + json_escape_byte(b),
{
    if b == 34 {
        out.push(92);
        out.push(34);
    } else if b == 92 {
        out.push(92);
        out.push(92);
    } else if b < 32 {
        out.push(92);
        out.push(117);
        out.push(48);
        out.push(48);
        let hi = b / 16;
        let lo = b % 16;
        out.push(if hi < 10 {
            48 + hi
        } else {
            87 + hi
        });
        out.push(if lo < 10 {
            48 + lo
        } else {
            87 + lo
        });
    } else {
        out.push(b);
    }
    proof {
        assert(final(out)@ =~= old(out)@ + json_escape_byte(b));
    }
}

/// Appends one flag as a JSON string literal.
fn push_json_string(out: &mut Vec<u8>, flag: &[u8])
    ensures
        final(out)@ == old(out)@ + json_string(flag@),
{
    out.push(34);
    let mut i: usize = 0;
    proof {
        assert(flag@.take(0) =~= Seq::<u8>::empty());
        assert(out@ =~= old(out)@ + seq![34u8] + json_escape(flag@.take(0)));
    }
    while i < flag.len()
        invariant
            i <= flag@.len(),
            out@ == old(out)@ + seq![34u8] + json_escape(flag@.take(i as int)),
        decreases flag@.len() - i,
    {
        proof {
            assert(flag@.take(i + 1).drop_last() =~= flag@.take(i as int));
            assert(flag@.take(i + 1).last() == flag@[i as int]);
        }
        let b = flag[i];
        push_escaped(out, b);
        proof {
            assert(out@ =~= old(out)@ + seq![34u8] + json_escape(flag@.take(i + 1)));
        }
        i += 1;
    }
    out.push(34);
    proof {
        assert(flag@.take(flag@.len() as int) =~= flag@);
        assert(out@ =~= old(out)@ + json_string(flag@));
    }
}

/// The request body the batch protocol sends: the pending flags as a JSON
/// array of strings, in order.
pub fn encode_flags_body(flags: &Vec<Vec<u8>>) -> (r: Vec<u8>)
    ensures
        r@ == json_flags_body(flags.deep_view()),
{
    let ghost fs = flags.deep_view();
    let mut out: Vec<u8> = Vec::new();
    out.push(91);
    let mut i: usize = 0;
    proof {
        assert(fs.take(0) =~= Seq::<Seq<u8>>::empty());
        assert(out@ =~= seq![91u8] + json_items(fs.take(0)));
    }
    while i < flags.len()
        invariant
            i <= fs.len(),
            fs == flags.deep_view(),
            fs.len() == flags@.len(),
            out@ == seq![91u8] + json_items(fs.take(i as int)),
        decreases fs.len() - i,
    {
        proof {
            assert(fs.take(i + 1).drop_last() =~= fs.take(i as int));
            assert(fs.take(i + 1).last() == fs[i as int]);
            assert(fs[i as int] == flags@[i as int]@);
        }
        if i > 0 {
            out.push(44);
        }
        push_json_string(&mut out, flags[i].as_slice());
        proof {
            if i == 0 {
                assert(json_items(fs.take(1)) =~= json_string(fs[0]));
                assert(out@ =~= seq![91u8] + json_items(fs.take(i + 1)));
            } else {
                assert(out@ =~= seq![91u8] + json_items(fs.take(i + 1)));
            }
        }
        i += 1;
    }
    out.push(93);
    proof {
        assert(fs.take(fs.len() as int) =~= fs);
        assert(out@ =~= json_flags_body(fs));
    }
    out
}

/// How one reply element lands in the ledger: its verdict maps onto the
/// flag's status (`Resubmit` back to `Pending`), no points are granted
/// by this protocol, and the reply's message is kept as the reason.
pub open spec fn http_outcome(r: HttpResponseModel) -> OutcomeModel {
    OutcomeModel {
        status: spec_status_from(r.status),
        points_milli: 0,
        error: Some(r.message),
    }
}

/// The reply elements as write-back outcomes, in order.
pub fn outcomes_from_responses(responses: &Vec<SubmitterHTTPResponse>) -> (r: Vec<FlagOutcome>)
    ensures
        r.deep_view() == responses.deep_view().map_values(|m: HttpResponseModel| http_outcome(m)),
{
    let ghost rs = responses.deep_view();
    let ghost target = rs.map_values(|m: HttpResponseModel| http_outcome(m));
    let mut r: Vec<FlagOutcome> = Vec::new();
    let mut i: usize = 0;
    while i < responses.len()
        invariant
            i <= rs.len(),
            rs == responses.deep_view(),
            rs.len() == responses@.len(),
            target == rs.map_values(|m: HttpResponseModel| http_outcome(m)),
            r@.len() == i,
            r.deep_view() =~= target.take(i as int),
        decreases rs.len() - i,
    {
        let resp = &responses[i];
        let status = FlagStatus::from(resp.status);
        let message = vstd::slice::slice_to_vec(resp.message.as_slice());
        r.push(FlagOutcome { status, points_milli: 0, error: Some(message) });
        proof {
            assert(rs[i as int] == responses@[i as int]@);
            assert(r@.len() == i + 1);
            assert(r@[i as int]@.status == http_outcome(rs[i as int]).status);
            assert(r@[i as int]@.points_milli == http_outcome(rs[i as int]).points_milli);
            assert(r@[i as int]@.error == http_outcome(rs[i as int]).error);
            assert(r@[i as int]@ == http_outcome(rs[i as int]));
            assert(target[i as int] == http_outcome(rs[i as int]));
            assert(r.deep_view() =~= target.take(i + 1));
        }
        i += 1;
    }
    proof {
        assert(target.take(target.len() as int) =~= target);
        assert(r.deep_view() =~= target);
    }
    r
}

/// Writes a successful reply's verdicts back: the Nth reply element
/// resolves the Nth submitted flag; a reply shorter than the request
/// leaves the flags past its length untouched (they stay pending).
pub fn apply_http_responses(
    ledger: &mut Ledger,
    pending: &Vec<Vec<u8>>,
    responses: &Vec<SubmitterHTTPResponse>,
    now: u64,
)
    requires
        old(ledger).wf(),
    ensures
        final(ledger).wf(),
        final(ledger)@ == apply_spec(
            old(ledger)@,
            pending.deep_view(),
            responses.deep_view().map_values(|m: HttpResponseModel| http_outcome(m)),
            now,
        ),
{
    let outcomes = outcomes_from_responses(responses);
    apply_outcomes(ledger, pending, &outcomes, now);
}

/// The outcome a failing response writes into every submitted flag.
pub open spec fn http_failure_outcome(msg: Seq<u8>) -> OutcomeModel {
    OutcomeModel { status: FlagStatus::Error, points_milli: 0, error: Some(msg) }
}

/// Writes a failing response back, fail-closed: every submitted flag is
/// marked `Error` with the response's text as the reason; none is assumed
/// sent.
pub fn apply_http_failure(ledger: &mut Ledger, pending: &Vec<Vec<u8>>, msg: &[u8], now: u64)
    requires
        old(ledger).wf(),
    ensures
        final(ledger).wf(),
        final(ledger)@ == apply_spec(
            old(ledger)@,
            pending.deep_view(),
            Seq::new(pending.deep_view().len(), |i: int| http_failure_outcome(msg@)),
            now,
        ),
{
    let ghost target = Seq::new(
        pending.deep_view().len(),
        |i: int| http_failure_outcome(msg@),
    );
    let mut outcomes: Vec<FlagOutcome> = Vec::new();
    let mut i: usize = 0;
    while i < pending.len()
        invariant
            i <= pending@.len(),
            target == Seq::new(
                pending.deep_view().len(),
                |i: int| http_failure_outcome(msg@),
            ),
            target.len() == pending@.len(),
            outcomes@.len() == i,
            outcomes.deep_view() =~= target.take(i as int),
        decreases pending@.len() - i,
    {
        let message = vstd::slice::slice_to_vec(msg);
        outcomes.push(FlagOutcome { status: FlagStatus::Error, points_milli: 0, error: Some(message) });
        proof {
            assert(outcomes@[i as int]@ == http_failure_outcome(msg@));
            assert(target[i as int] == http_failure_outcome(msg@));
            assert(outcomes.deep_view() =~= target.take(i + 1));
        }
        i += 1;
    }
    proof {
        assert(target.take(target.len() as int) =~= target);
        assert(outcomes.deep_view() =~= target);
    }
    apply_outcomes(ledger, pending, &outcomes, now);
}

/// The batch protocol's partial-response guarantee: when the reply is
/// shorter than the request, a row holding one of the unanswered flags is
/// left exactly as it was — in particular a pending flag stays pending —
/// provided the submitted flags are pairwise distinct, which the pending
/// list of a well-formed ledger always is.
pub proof fn lemma_partial_response_keeps_rest(
    rows: Seq<EntryModel>,
    pending: Seq<Seq<u8>>,
    responses: Seq<HttpResponseModel>,
    now: u64,
    i: int,
    j: int,
)
    requires
        forall|a: int, b: int| 0 <= a < b < pending.len() ==> pending[a] != pending[b],
        responses.len() <= i < pending.len(),
        0 <= j < rows.len(),
        rows[j].flag == pending[i],
    ensures
        apply_spec(
            rows,
            pending,
            responses.map_values(|m: HttpResponseModel| http_outcome(m)),
            now,
        )[j] == rows[j],
{
    lemma_short_response_leaves_rest(
        rows,
        pending,
        responses.map_values(|m: HttpResponseModel| http_outcome(m)),
        now,
        i,
        j,
    );
}

} // verus!
