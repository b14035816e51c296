use vstd::prelude::*;

use crate::addr::IpAddress;
use crate::error::PingError;
use crate::packet::{decode_echo_reply, spec_decode_reply, EchoReply};

verus! {

/// What one receive attempt on the transport yielded: a datagram, the
/// deadline passing with nothing to read, or a hard transport failure.
#[derive(Debug)]
pub enum RecvOutcome {
    Data(Vec<u8>),
    DeadlinePassed,
    TransportFailed,
}

/// One receive attempt as the engine sees it: its outcome together with
/// the wall-clock time the attempt took, in microseconds.
#[derive(Debug)]
pub struct RecvEvent {
    pub outcome: RecvOutcome,
    pub elapsed_us: u64,
}

/// What the engine decides after one receive attempt.
#[derive(Debug)]
pub enum WaitStep {
    /// The awaited reply arrived; the probe is answered.
    Matched(EchoReply),
    /// The datagram was not our reply; keep waiting with this much of the
    /// budget left.
    KeepWaiting(u64),
    /// Give up with this error.
    Failed(PingError),
}

/// `a + b`, stopping at the top of the 64-bit range.
pub open spec fn sat_add64(a: u64, b: u64) -> u64 {
    if a + b > u64::MAX {
        u64::MAX
    } else {
        (a + b) as u64
    }
}

/// `a - b`, stopping at zero.
pub open spec fn sat_sub64(a: u64, b: u64) -> u64 {
    if a > b {
        (a - b) as u64
    } else {
        0u64
    }
}

/// The engine's decision after one receive attempt, with `remaining_us` of
/// the budget left before the attempt. A deadline that passed is the
/// probe's timeout; a transport failure is surfaced; a datagram first pays
/// its elapsed time out of the budget (a probe whose budget is spent times
/// out even if bytes arrived), then decodes: our reply matches, any other
/// echo-related traffic is ignored, and unparseable bytes are surfaced.
pub open spec fn spec_wait_step(
    to_addr: IpAddress,
    ident: u16,
    seq: u16,
    remaining_us: u64,
    event: RecvEvent,
) -> WaitStep {
    match event.outcome {
        RecvOutcome::DeadlinePassed => WaitStep::Failed(PingError::Timeout(seq)),
        RecvOutcome::TransportFailed => WaitStep::Failed(PingError::IOError),
        RecvOutcome::Data(buf) => {
            let rem = sat_sub64(remaining_us, event.elapsed_us);
            if rem == 0 {
                WaitStep::Failed(PingError::Timeout(seq))
            } else {
                match spec_decode_reply(to_addr, buf@) {
                    Ok(reply) => if reply.ident == ident && reply.seq == seq {
                        WaitStep::Matched(reply)
                    } else {
                        WaitStep::KeepWaiting(rem)
                    },
                    Err(PingError::NotEchoReply(_)) => WaitStep::KeepWaiting(rem),
                    Err(PingError::NotV6EchoReply(_)) => WaitStep::KeepWaiting(rem),
                    Err(PingError::OtherICMP) => WaitStep::KeepWaiting(rem),
                    Err(e) => WaitStep::Failed(e),
                }
            }
        },
    }
}

/// One step of the wait loop; the single place where received traffic is
/// classified against the outstanding request.
pub fn wait_step(
    to_addr: IpAddress,
    ident: u16,
    seq: u16,
    remaining_us: u64,
    event: &RecvEvent,
) -> (r: WaitStep)
    ensures
        r == spec_wait_step(to_addr, ident, seq, remaining_us, *event),
{
    match &event.outcome {
        RecvOutcome::DeadlinePassed => WaitStep::Failed(PingError::Timeout(seq)),
        RecvOutcome::TransportFailed => WaitStep::Failed(PingError::IOError),
        RecvOutcome::Data(buf) => {
            let rem = if remaining_us > event.elapsed_us {
                remaining_us - event.elapsed_us
            } else {
                0
            };
            if rem == 0 {
                return WaitStep::Failed(PingError::Timeout(seq));
            }
            match decode_echo_reply(to_addr, buf.as_slice()) {
                Ok(reply) => if reply.ident == ident && reply.seq == seq {
                    WaitStep::Matched(reply)
                } else {
                    WaitStep::KeepWaiting(rem)
                },
                Err(PingError::NotEchoReply(_)) => WaitStep::KeepWaiting(rem),
                Err(PingError::NotV6EchoReply(_)) => WaitStep::KeepWaiting(rem),
                Err(PingError::OtherICMP) => WaitStep::KeepWaiting(rem),
                Err(e) => WaitStep::Failed(e),
            }
        },
    }
}

/// The whole wait, as a function of the receive attempts in the order the
/// transport yields them. Carries the budget still open and the time spent
/// so far; an exhausted budget, and an exhausted event sequence (nothing
/// more will ever arrive before the deadline), are the probe's timeout.
/// On a match it returns the reply together with the total time spent.
pub open spec fn spec_wait_from(
    to_addr: IpAddress,
    ident: u16,
    seq: u16,
    remaining_us: u64,
    spent_us: u64,
    events: Seq<RecvEvent>,
) -> Result<(EchoReply, u64), PingError>
    decreases events.len(),
{
    if remaining_us == 0 {
        Err(PingError::Timeout(seq))
    } else if events.len() == 0 {
        Err(PingError::Timeout(seq))
    } else {
        let event = events[0];
        let spent2 = sat_add64(spent_us, event.elapsed_us);
        match spec_wait_step(to_addr, ident, seq, remaining_us, event) {
            WaitStep::Matched(reply) => Ok((reply, spent2)),
            WaitStep::KeepWaiting(rem) => spec_wait_from(
                to_addr,
                ident,
                seq,
                rem,
                spent2,
                events.drop_first(),
            ),
            WaitStep::Failed(err) => Err(err),
        }
    }
}

/// The wait over a full event sequence, starting with the whole budget.
pub open spec fn spec_wait_reply(
    to_addr: IpAddress,
    ident: u16,
    seq: u16,
    timeout_us: u64,
    events: Seq<RecvEvent>,
) -> Result<(EchoReply, u64), PingError> {
    spec_wait_from(to_addr, ident, seq, timeout_us, 0u64, events)
}

/// Waits for the reply matching `ident` and `seq` among `events`, the
/// receive attempts in order, spending at most `timeout_us` of budget
/// across all of them. Returns the matching reply and the time spent, or
/// the first surfaced error; a zero budget times out at once.
pub fn wait_reply(
    to_addr: IpAddress,
    ident: u16,
    seq: u16,
    timeout_us: u64,
    events: &Vec<RecvEvent>,
) -> (r: Result<(EchoReply, u64), PingError>)
    ensures
        r == spec_wait_reply(to_addr, ident, seq, timeout_us, events@),
{
    let mut remaining: u64 = timeout_us;
    let mut spent: u64 = 0;
    let mut idx: usize = 0;
    proof {
        assert(events@.skip(0) =~= events@);
    }
    loop
        invariant
            idx <= events@.len(),
            spec_wait_from(to_addr, ident, seq, remaining, spent, events@.skip(idx as int))
                == spec_wait_reply(to_addr, ident, seq, timeout_us, events@),
        decreases events@.len() - idx,
    {
        if remaining == 0 {
            return Err(PingError::Timeout(seq));
        }
        if idx == events.len() {
            return Err(PingError::Timeout(seq));
        }
        let event = &events[idx];
        proof {
            assert(events@.skip(idx as int)[0] == events@[idx as int]);
            assert(events@.skip(idx as int).drop_first() =~= events@.skip(idx as int + 1));
        }
        let spent2 = if spent > u64::MAX - event.elapsed_us {
            u64::MAX
        } else {
            spent + event.elapsed_us
        };
        match wait_step(to_addr, ident, seq, remaining, event) {
            WaitStep::Matched(reply) => {
                return Ok((reply, spent2));
            },
            WaitStep::KeepWaiting(rem) => {
                remaining = rem;
                spent = spent2;
                idx = idx + 1;
            },
            WaitStep::Failed(err) => {
                return Err(err);
            },
        }
    }
}

/// The bytes a receive attempt carried, empty when it carried none.
pub open spec fn event_data(event: RecvEvent) -> Seq<u8> {
    match event.outcome {
        RecvOutcome::Data(buf) => buf@,
        _ => Seq::<u8>::empty(),
    }
}

/// A receive attempt the engine must ignore and outwait: a datagram that
/// decodes to a reply with the wrong identifier or sequence, or to
/// echo-unrelated ICMP traffic.
pub open spec fn spec_ignorable(to_addr: IpAddress, ident: u16, seq: u16, event: RecvEvent) -> bool {
    match event.outcome {
        RecvOutcome::Data(buf) => match spec_decode_reply(to_addr, buf@) {
            Ok(reply) => !(reply.ident == ident && reply.seq == seq),
            Err(PingError::NotEchoReply(_)) => true,
            Err(PingError::NotV6EchoReply(_)) => true,
            Err(PingError::OtherICMP) => true,
            Err(_) => false,
        },
        _ => false,
    }
}

/// A receive attempt carrying exactly the awaited reply.
pub open spec fn spec_matching(to_addr: IpAddress, ident: u16, seq: u16, event: RecvEvent) -> bool {
    &&& event.outcome is Data
    &&& spec_decode_reply(to_addr, event_data(event)) matches Ok(reply) && reply.ident == ident
        && reply.seq == seq
}

/// The wall-clock microseconds of the first `k` receive attempts.
pub open spec fn elapsed_sum(events: Seq<RecvEvent>, k: int) -> int
    decreases k,
{
    if k <= 0 || events.len() == 0 {
        0
    } else {
        events[0].elapsed_us + elapsed_sum(events.drop_first(), k - 1)
    }
}

pub proof fn lemma_elapsed_sum_nonneg(events: Seq<RecvEvent>, k: int)
    ensures
        0 <= elapsed_sum(events, k),
    decreases k,
{
    if k > 0 && events.len() > 0 {
        lemma_elapsed_sum_nonneg(events.drop_first(), k - 1);
    }
}

/// The engine never hands back a false match: a reply it returns carries
/// exactly the identifier and sequence that were awaited.
pub proof fn lemma_wait_no_false_match(
    to_addr: IpAddress,
    ident: u16,
    seq: u16,
    remaining_us: u64,
    spent_us: u64,
    events: Seq<RecvEvent>,
)
    ensures
        spec_wait_from(to_addr, ident, seq, remaining_us, spent_us, events) matches Ok(
            (reply, s),
        ) ==> reply.ident == ident && reply.seq == seq,
    decreases events.len(),
{
    if remaining_us != 0 && events.len() != 0 {
        match spec_wait_step(to_addr, ident, seq, remaining_us, events[0]) {
            WaitStep::KeepWaiting(rem) => {
                lemma_wait_no_false_match(
                    to_addr,
                    ident,
                    seq,
                    rem,
                    sat_add64(spent_us, events[0].elapsed_us),
                    events.drop_first(),
                );
            },
            _ => {},
        }
    }
}

/// A match costs less than the budget: when the wait returns a reply, the
/// total time spent stays strictly below what was already spent plus what
/// remained open.
pub proof fn lemma_wait_within_budget(
    to_addr: IpAddress,
    ident: u16,
    seq: u16,
    remaining_us: u64,
    spent_us: u64,
    events: Seq<RecvEvent>,
)
    ensures
        spec_wait_from(to_addr, ident, seq, remaining_us, spent_us, events) matches Ok(
            (reply, s),
        ) ==> s < spent_us + remaining_us,
    decreases events.len(),
{
    if remaining_us != 0 && events.len() != 0 {
        match spec_wait_step(to_addr, ident, seq, remaining_us, events[0]) {
            WaitStep::KeepWaiting(rem) => {
                lemma_wait_within_budget(
                    to_addr,
                    ident,
                    seq,
                    rem,
                    sat_add64(spent_us, events[0].elapsed_us),
                    events.drop_first(),
                );
            },
            _ => {},
        }
    }
}

/// The whole wait keeps the caller's budget: a reply comes back only with
/// the right identifier and sequence, and only after spending strictly
/// less than the configured timeout across all receive attempts.
pub proof fn lemma_wait_reply_within_timeout(
    to_addr: IpAddress,
    ident: u16,
    seq: u16,
    timeout_us: u64,
    events: Seq<RecvEvent>,
)
    ensures
        spec_wait_reply(to_addr, ident, seq, timeout_us, events) matches Ok((reply, s)) ==> s
            < timeout_us && reply.ident == ident && reply.seq == seq,
{
    lemma_wait_no_false_match(to_addr, ident, seq, timeout_us, 0u64, events);
    lemma_wait_within_budget(to_addr, ident, seq, timeout_us, 0u64, events);
}

/// A wait that sees nothing but ignorable traffic ends in the timeout for
/// the awaited sequence — whether the budget runs out first or the
/// traffic does.
pub proof fn lemma_wait_all_ignorable_times_out(
    to_addr: IpAddress,
    ident: u16,
    seq: u16,
    remaining_us: u64,
    spent_us: u64,
    events: Seq<RecvEvent>,
)
    requires
        forall|i: int| 0 <= i < events.len() ==> spec_ignorable(to_addr, ident, seq, events[i]),
    ensures
        spec_wait_from(to_addr, ident, seq, remaining_us, spent_us, events) == Err::<
            (EchoReply, u64),
            PingError,
        >(PingError::Timeout(seq)),
    decreases events.len(),
{
    if remaining_us != 0 && events.len() != 0 {
        assert(spec_ignorable(to_addr, ident, seq, events[0]));
        match spec_wait_step(to_addr, ident, seq, remaining_us, events[0]) {
            WaitStep::KeepWaiting(rem) => {
                let rest = events.drop_first();
                assert forall|i: int| 0 <= i < rest.len() implies spec_ignorable(
                    to_addr,
                    ident,
                    seq,
                    rest[i],
                ) by {
                    assert(rest[i] == events[i + 1]);
                }
                lemma_wait_all_ignorable_times_out(
                    to_addr,
                    ident,
                    seq,
                    rem,
                    sat_add64(spent_us, events[0].elapsed_us),
                    rest,
                );
            },
            _ => {},
        }
    }
}

/// The budget binds before anything else: when every receive attempt up
/// to some point is ignorable and the time they took alone reaches what
/// remained of the budget, the wait is the timeout for the awaited
/// sequence — whatever arrives later, a matching reply included.
pub proof fn lemma_wait_budget_exhausted(
    to_addr: IpAddress,
    ident: u16,
    seq: u16,
    remaining_us: u64,
    spent_us: u64,
    events: Seq<RecvEvent>,
    k: int,
)
    requires
        0 <= k <= events.len(),
        forall|i: int| 0 <= i < k ==> spec_ignorable(to_addr, ident, seq, events[i]),
        elapsed_sum(events, k) >= remaining_us,
    ensures
        spec_wait_from(to_addr, ident, seq, remaining_us, spent_us, events) == Err::<
            (EchoReply, u64),
            PingError,
        >(PingError::Timeout(seq)),
    decreases k,
{
    if remaining_us != 0 && events.len() != 0 {
        lemma_elapsed_sum_nonneg(events.drop_first(), k - 1);
        assert(k >= 1);
        assert(spec_ignorable(to_addr, ident, seq, events[0]));
        let rem = sat_sub64(remaining_us, events[0].elapsed_us);
        if rem != 0 {
            let rest = events.drop_first();
            assert forall|i: int| 0 <= i < k - 1 implies spec_ignorable(
                to_addr,
                ident,
                seq,
                rest[i],
            ) by {
                assert(rest[i] == events[i + 1]);
            }
            lemma_wait_budget_exhausted(
                to_addr,
                ident,
                seq,
                rem,
                sat_add64(spent_us, events[0].elapsed_us),
                rest,
                k - 1,
            );
        }
    }
}

/// The engine answers with the first matching reply: when the first `n`
/// receive attempts are ignorable, attempt `n` carries the awaited reply,
/// and the time of attempts 0 through `n` fits inside the open budget, the
/// wait returns exactly the reply decoded from attempt `n`.
pub proof fn lemma_wait_match(
    to_addr: IpAddress,
    ident: u16,
    seq: u16,
    remaining_us: u64,
    spent_us: u64,
    events: Seq<RecvEvent>,
    n: int,
)
    requires
        0 <= n < events.len(),
        forall|i: int| 0 <= i < n ==> spec_ignorable(to_addr, ident, seq, events[i]),
        spec_matching(to_addr, ident, seq, events[n]),
        elapsed_sum(events, n + 1) < remaining_us,
    ensures
        spec_wait_from(to_addr, ident, seq, remaining_us, spent_us, events) matches Ok(
            (reply, s),
        ) && Ok::<EchoReply, PingError>(reply) == spec_decode_reply(
            to_addr,
            event_data(events[n]),
        ),
    decreases n,
{
    lemma_elapsed_sum_nonneg(events.drop_first(), n);
    if n == 0 {
        assert(elapsed_sum(events, 1) == events[0].elapsed_us);
    } else {
        let rest = events.drop_first();
        assert(spec_ignorable(to_addr, ident, seq, events[0]));
        let rem = sat_sub64(remaining_us, events[0].elapsed_us);
        assert(rem > 0);
        assert forall|i: int| 0 <= i < n - 1 implies spec_ignorable(
            to_addr,
            ident,
            seq,
            rest[i],
        ) by {
            assert(rest[i] == events[i + 1]);
        }
        assert(rest[n - 1] == events[n]);
        lemma_wait_match(
            to_addr,
            ident,
            seq,
            rem,
            sat_add64(spent_us, events[0].elapsed_us),
            rest,
            n - 1,
        );
    }
}

} // verus!
