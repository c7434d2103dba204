//! Telemetry of the requests served.
//!
//! Times are in nanoseconds: durations as they were measured, instants on a clock that
//! never goes back. Speeds and shares are kept as the two numbers they are made of.

use vstd::prelude::*;

verus! {

/// So many tokens in so much time; no time stands for the speed zero.
#[derive(Debug, Clone, Copy, PartialEq, Eq, Structural)]
pub struct Rate {
    pub count: usize,
    pub nanos: u64,
}

/// A part of a whole; a part of nothing stands for the share zero.
#[derive(Debug, Clone, Copy, PartialEq, Eq, Structural)]
pub struct Share {
    pub part: usize,
    pub whole: usize,
}

/// One completed (or in-flight) request.
#[derive(Debug)]
pub struct QueryRecord {
    pub seq: u64,
    pub started_unix_ms: u64,
    /// A preview on one line.
    pub prompt: String,
    pub prompt_tokens: usize,
    pub completion_tokens: usize,
    pub prefill_nanos: u64,
    pub prefill_rate: Rate,
    pub decode_nanos: u64,
    pub decode_rate: Rate,
    /// Accepted drafts of drafted tokens.
    pub acceptance: Share,
    /// Drafted tokens of completion tokens.
    pub draft_ratio: Share,
    pub target_forwards: usize,
    pub done: bool,
}

/// Sums over all requests.
#[derive(Debug, Clone, Copy, PartialEq, Eq, Structural)]
pub struct Aggregates {
    pub total_queries: u64,
    pub total_completion_tokens: u64,
    pub total_prompt_tokens: u64,
    pub total_drafted_tokens: u64,
    pub total_accepted_drafts: u64,
    pub total_target_forwards: u64,
    pub prefill_nanos: u64,
    pub decode_nanos: u64,
}

impl Default for Aggregates {
    /// The sums over no request.
    fn default() -> (sums: Self)
        ensures
            sums == (Aggregates {
                total_queries: 0,
                total_completion_tokens: 0,
                total_prompt_tokens: 0,
                total_drafted_tokens: 0,
                total_accepted_drafts: 0,
                total_target_forwards: 0,
                prefill_nanos: 0,
                decode_nanos: 0,
            }),
    {
        Aggregates {
            total_queries: 0,
            total_completion_tokens: 0,
            total_prompt_tokens: 0,
            total_drafted_tokens: 0,
            total_accepted_drafts: 0,
            total_target_forwards: 0,
            prefill_nanos: 0,
            decode_nanos: 0,
        }
    }
}

/// What is known of the requests served.
#[derive(Debug)]
pub struct Metrics {
    pub start: u64,
    pub next_seq: u64,
    pub aggregates: Aggregates,
    /// The newest first; older ones are dropped.
    pub queries: Vec<QueryRecord>,
    /// The request under way.
    pub active: Option<QueryRecord>,
    /// When the present window of decoding began, and with how many tokens.
    pub active_decode_start: Option<u64>,
    pub active_decode_tokens: usize,
    pub active_prefill_start: Option<u64>,
}

/// How many requests are kept.
pub const MAX_QUERIES: usize = 40;

/// From this time on (a tenth of a second) a decode counts as measured.
pub const MEASURED_DECODE_NANOS: u64 = 100_000_000;

/// The requests with one more in front, as far as they are kept.
pub open spec fn with_newest(queries: Seq<QueryRecord>, newest: QueryRecord) -> Seq<QueryRecord> {
    let all = seq![newest] + queries;
    if all.len() > MAX_QUERIES {
        all.take(MAX_QUERIES as int)
    } else {
        all
    }
}

/// The request under way, as it goes on record at its end.
pub open spec fn finished(
    active: QueryRecord,
    prefill_nanos: u64,
    decode_nanos: u64,
    target_forwards: usize,
    drafted_tokens: usize,
    accepted_drafts: usize,
) -> QueryRecord {
    QueryRecord {
        prefill_nanos,
        prefill_rate: Rate { count: active.prompt_tokens, nanos: prefill_nanos },
        decode_nanos,
        decode_rate: if decode_nanos >= MEASURED_DECODE_NANOS {
            Rate { count: active.completion_tokens, nanos: decode_nanos }
        } else {
            active.decode_rate
        },
        acceptance: Share { part: accepted_drafts, whole: drafted_tokens },
        draft_ratio: Share { part: drafted_tokens, whole: active.completion_tokens },
        target_forwards,
        done: true,
        ..active
    }
}

impl Metrics {
    /// At most so many requests are kept, the newest first, and each has a number of its
    /// own, given out in order.
    pub open spec fn well_formed(&self) -> bool {
        &&& self.queries@.len() <= MAX_QUERIES
        &&& forall|i: int, j: int|
            0 <= i < j < self.queries@.len() ==> (#[trigger] self.queries@[i]).seq > (
            #[trigger] self.queries@[j]).seq
        &&& forall|i: int|
            0 <= i < self.queries@.len() ==> (#[trigger] self.queries@[i]).seq < self.next_seq
        &&& self.active matches Some(active) ==> {
            &&& active.seq < self.next_seq
            &&& forall|i: int|
                0 <= i < self.queries@.len() ==> (#[trigger] self.queries@[i]).seq < active.seq
        }
    }

    /// Nothing served, at the instant `now`.
    pub fn new(now: u64) -> (metrics: Self)
        ensures
            metrics.well_formed(),
            metrics.start == now,
            metrics.next_seq == 0,
            metrics.aggregates == (Aggregates {
                total_queries: 0,
                total_completion_tokens: 0,
                total_prompt_tokens: 0,
                total_drafted_tokens: 0,
                total_accepted_drafts: 0,
                total_target_forwards: 0,
                prefill_nanos: 0,
                decode_nanos: 0,
            }),
            metrics.queries@ == Seq::<QueryRecord>::empty(),
            metrics.active is None,
            metrics.active_decode_start is None,
            metrics.active_decode_tokens == 0,
            metrics.active_prefill_start is None,
    {
        Metrics {
            start: now,
            next_seq: 0,
            aggregates: Aggregates::default(),
            queries: Vec::new(),
            active: None,
            active_decode_start: None,
            active_decode_tokens: 0,
            active_prefill_start: None,
        }
    }

    /// The time since the start.
    pub fn uptime_nanos(&self, now: u64) -> (nanos: u64)
        ensures
            nanos == (if now >= self.start {
                now - self.start
            } else {
                0
            }),
    {
        now.saturating_sub(self.start)
    }

    /// Begins tracking a request, and gives its number.
    pub fn begin(
        &mut self,
        prompt_preview: String,
        prompt_tokens: usize,
        now_unix_ms: u64,
        now: u64,
    ) -> (seq: u64)
        requires
            old(self).well_formed(),
            old(self).next_seq < u64::MAX,
        ensures
            final(self).well_formed(),
            seq == old(self).next_seq,
            *final(self) == (Metrics {
                next_seq: (old(self).next_seq + 1) as u64,
                active: Some(
                    QueryRecord {
                        seq,
                        started_unix_ms: now_unix_ms,
                        prompt: prompt_preview,
                        prompt_tokens,
                        completion_tokens: 0,
                        prefill_nanos: 0,
                        prefill_rate: Rate { count: 0, nanos: 0 },
                        decode_nanos: 0,
                        decode_rate: Rate { count: 0, nanos: 0 },
                        acceptance: Share { part: 0, whole: 0 },
                        draft_ratio: Share { part: 0, whole: 0 },
                        target_forwards: 0,
                        done: false,
                    },
                ),
                active_decode_start: None,
                active_decode_tokens: 0,
                active_prefill_start: Some(now),
                ..*old(self)
            }),
    {
        let seq: u64 = self.next_seq;
        self.next_seq += 1;
        self.active = Some(
            QueryRecord {
                seq,
                started_unix_ms: now_unix_ms,
                prompt: prompt_preview,
                prompt_tokens,
                completion_tokens: 0,
                prefill_nanos: 0,
                prefill_rate: Rate { count: 0, nanos: 0 },
                decode_nanos: 0,
                decode_rate: Rate { count: 0, nanos: 0 },
                acceptance: Share { part: 0, whole: 0 },
                draft_ratio: Share { part: 0, whole: 0 },
                target_forwards: 0,
                done: false,
            },
        );
        self.active_decode_start = None;
        self.active_decode_tokens = 0;
        self.active_prefill_start = Some(now);
        seq
    }

    /// Records how long the prefill took, once it is through.
    pub fn prefill_done(&mut self, prefill_nanos: u64)
        requires
            old(self).well_formed(),
        ensures
            final(self).well_formed(),
            *final(self) == (Metrics {
                active: match old(self).active {
                    Some(active) => Some(
                        QueryRecord {
                            prefill_nanos,
                            prefill_rate: Rate {
                                count: active.prompt_tokens,
                                nanos: prefill_nanos,
                            },
                            ..active
                        },
                    ),
                    None => None,
                },
                active_prefill_start: None,
                ..*old(self)
            }),
    {
        self.active_prefill_start = None;
        if let Some(mut active) = self.active.take() {
            active.prefill_nanos = prefill_nanos;
            active.prefill_rate = Rate { count: active.prompt_tokens, nanos: prefill_nanos };
            self.active = Some(active);
        }
    }

    /// The telemetry after a tick at `now`: the request under way has so many tokens, and
    /// a window of decoding ends, and another begins, with every tick that brings tokens.
    pub open spec fn ticked(self, completion_tokens: usize, now: u64) -> Metrics {
        let grown = match self.active_decode_start {
            Some(_) => completion_tokens > self.active_decode_tokens,
            None => completion_tokens > 0,
        };
        let measured = match self.active_decode_start {
            Some(start) => if completion_tokens > self.active_decode_tokens && now > start {
                Some(
                    Rate {
                        count: (completion_tokens - self.active_decode_tokens) as usize,
                        nanos: (now - start) as u64,
                    },
                )
            } else {
                None
            },
            None => None,
        };
        Metrics {
            active: match self.active {
                Some(active) => Some(
                    QueryRecord {
                        completion_tokens,
                        decode_rate: match measured {
                            Some(rate) => rate,
                            None => active.decode_rate,
                        },
                        ..active
                    },
                ),
                None => None,
            },
            active_decode_start: if grown {
                Some(now)
            } else {
                self.active_decode_start
            },
            active_decode_tokens: if grown {
                completion_tokens
            } else {
                self.active_decode_tokens
            },
            ..self
        }
    }

    /// Records how many tokens the request under way has by now, and the speed since the
    /// last tick.
    pub fn tick(&mut self, completion_tokens: usize, now: u64)
        requires
            old(self).well_formed(),
        ensures
            final(self).well_formed(),
            *final(self) == old(self).ticked(completion_tokens, now),
    {
        let mut measured: Option<Rate> = None;
        match self.active_decode_start {
            Some(start) => {
                if completion_tokens > self.active_decode_tokens {
                    if now > start {
                        measured = Some(
                            Rate {
                                count: completion_tokens - self.active_decode_tokens,
                                nanos: now - start,
                            },
                        );
                    }
                    self.active_decode_start = Some(now);
                    self.active_decode_tokens = completion_tokens;
                }
            },
            None => {
                if completion_tokens > 0 {
                    self.active_decode_start = Some(now);
                    self.active_decode_tokens = completion_tokens;
                }
            },
        }
        if let Some(mut active) = self.active.take() {
            active.completion_tokens = completion_tokens;
            if let Some(rate) = measured {
                active.decode_rate = rate;
            }
            self.active = Some(active);
        }
    }

    /// Whether the sums can take the request under way.
    pub open spec fn has_room(
        self,
        prefill_nanos: u64,
        decode_nanos: u64,
        target_forwards: usize,
        drafted_tokens: usize,
        accepted_drafts: usize,
    ) -> bool {
        self.active matches Some(active) ==> {
            let sums = self.aggregates;
            &&& sums.total_queries < u64::MAX
            &&& sums.total_completion_tokens + active.completion_tokens <= u64::MAX
            &&& sums.total_prompt_tokens + active.prompt_tokens <= u64::MAX
            &&& sums.total_drafted_tokens + drafted_tokens <= u64::MAX
            &&& sums.total_accepted_drafts + accepted_drafts <= u64::MAX
            &&& sums.total_target_forwards + target_forwards <= u64::MAX
            &&& sums.prefill_nanos + prefill_nanos <= u64::MAX
            &&& sums.decode_nanos + decode_nanos <= u64::MAX
        }
    }

    /// Whether the sums can take the request under way.
    pub fn can_finish(
        &self,
        prefill_nanos: u64,
        decode_nanos: u64,
        target_forwards: usize,
        drafted_tokens: usize,
        accepted_drafts: usize,
    ) -> (room: bool)
        ensures
            room == self.has_room(
                prefill_nanos,
                decode_nanos,
                target_forwards,
                drafted_tokens,
                accepted_drafts,
            ),
    {
        match &self.active {
            Some(active) => {
                let sums = &self.aggregates;
                sums.total_queries < u64::MAX && sums.total_completion_tokens <= u64::MAX
                    - active.completion_tokens as u64 && sums.total_prompt_tokens <= u64::MAX
                    - active.prompt_tokens as u64 && sums.total_drafted_tokens <= u64::MAX
                    - drafted_tokens as u64 && sums.total_accepted_drafts <= u64::MAX
                    - accepted_drafts as u64 && sums.total_target_forwards <= u64::MAX
                    - target_forwards as u64 && sums.prefill_nanos <= u64::MAX - prefill_nanos
                    && sums.decode_nanos <= u64::MAX - decode_nanos
            },
            None => true,
        }
    }

    /// Ends the request under way, with its measured times and how its speculation went.
    pub fn finish(
        &mut self,
        prefill_nanos: u64,
        decode_nanos: u64,
        target_forwards: usize,
        drafted_tokens: usize,
        accepted_drafts: usize,
    )
        requires
            old(self).well_formed(),
            old(self).has_room(
                prefill_nanos,
                decode_nanos,
                target_forwards,
                drafted_tokens,
                accepted_drafts,
            ),
        ensures
            final(self).well_formed(),
            match old(self).active {
                None => *final(self) == *old(self),
                Some(active) => {
                    &&& final(self).queries@ == with_newest(
                        old(self).queries@,
                        finished(
                            active,
                            prefill_nanos,
                            decode_nanos,
                            target_forwards,
                            drafted_tokens,
                            accepted_drafts,
                        ),
                    )
                    &&& final(self).aggregates == (Aggregates {
                        total_queries: (old(self).aggregates.total_queries + 1) as u64,
                        total_completion_tokens: (old(self).aggregates.total_completion_tokens
                            + active.completion_tokens) as u64,
                        total_prompt_tokens: (old(self).aggregates.total_prompt_tokens
                            + active.prompt_tokens) as u64,
                        total_drafted_tokens: (old(self).aggregates.total_drafted_tokens
                            + drafted_tokens) as u64,
                        total_accepted_drafts: (old(self).aggregates.total_accepted_drafts
                            + accepted_drafts) as u64,
                        total_target_forwards: (old(self).aggregates.total_target_forwards
                            + target_forwards) as u64,
                        prefill_nanos: (old(self).aggregates.prefill_nanos + prefill_nanos) as u64,
                        decode_nanos: (old(self).aggregates.decode_nanos + decode_nanos) as u64,
                    })
                    &&& final(self).active is None
                    &&& final(self).active_decode_start is None
                    &&& final(self).active_decode_tokens == 0
                    &&& final(self).active_prefill_start == old(self).active_prefill_start
                    &&& final(self).start == old(self).start
                    &&& final(self).next_seq == old(self).next_seq
                },
            },
    {
        let mut active = match self.active.take() {
            Some(active) => active,
            None => {
                return ;
            },
        };
        active.prefill_nanos = prefill_nanos;
        active.prefill_rate = Rate { count: active.prompt_tokens, nanos: prefill_nanos };
        active.decode_nanos = decode_nanos;
        if decode_nanos >= MEASURED_DECODE_NANOS {
            active.decode_rate = Rate { count: active.completion_tokens, nanos: decode_nanos };
        }
        active.acceptance = Share { part: accepted_drafts, whole: drafted_tokens };
        active.draft_ratio = Share { part: drafted_tokens, whole: active.completion_tokens };
        active.target_forwards = target_forwards;
        active.done = true;
        self.active_decode_start = None;
        self.active_decode_tokens = 0;
        self.aggregates.total_queries += 1;
        self.aggregates.total_completion_tokens += active.completion_tokens as u64;
        self.aggregates.total_prompt_tokens += active.prompt_tokens as u64;
        self.aggregates.total_drafted_tokens += drafted_tokens as u64;
        self.aggregates.total_accepted_drafts += accepted_drafts as u64;
        self.aggregates.total_target_forwards += target_forwards as u64;
        self.aggregates.prefill_nanos += prefill_nanos;
        self.aggregates.decode_nanos += decode_nanos;
        self.keep(active);
    }

    /// Puts a finished request in front of the others.
    fn keep(&mut self, record: QueryRecord)
        requires
            old(self).well_formed(),
            old(self).active is None,
            record.seq < old(self).next_seq,
            forall|i: int|
                0 <= i < old(self).queries@.len() ==> (#[trigger] old(self).queries@[i]).seq
                    < record.seq,
        ensures
            final(self).well_formed(),
            final(self).queries@ == with_newest(old(self).queries@, record),
            final(self).start == old(self).start,
            final(self).next_seq == old(self).next_seq,
            final(self).aggregates == old(self).aggregates,
            final(self).active is None,
            final(self).active_decode_start == old(self).active_decode_start,
            final(self).active_decode_tokens == old(self).active_decode_tokens,
            final(self).active_prefill_start == old(self).active_prefill_start,
    {
        self.queries.insert(0, record);
        assert(self.queries@ =~= seq![record] + old(self).queries@);
        self.queries.truncate(MAX_QUERIES);
        assert(self.queries@ =~= with_newest(old(self).queries@, record));
    }

    /// Ends the request under way as failed: it is counted, with its prompt tokens only.
    pub fn fail(&mut self, prompt_tokens: usize)
        requires
            old(self).well_formed(),
            old(self).active is Some ==> old(self).aggregates.total_queries < u64::MAX
                && old(self).aggregates.total_prompt_tokens + prompt_tokens <= u64::MAX,
        ensures
            final(self).well_formed(),
            match old(self).active {
                None => *final(self) == *old(self),
                Some(active) => {
                    &&& final(self).queries@ == with_newest(
                        old(self).queries@,
                        (QueryRecord { done: true, ..active }),
                    )
                    &&& final(self).aggregates == (Aggregates {
                        total_queries: (old(self).aggregates.total_queries + 1) as u64,
                        total_prompt_tokens: (old(self).aggregates.total_prompt_tokens
                            + prompt_tokens) as u64,
                        ..old(self).aggregates
                    })
                    &&& final(self).active is None
                    &&& final(self).active_decode_start is None
                    &&& final(self).active_decode_tokens == 0
                    &&& final(self).active_prefill_start is None
                    &&& final(self).start == old(self).start
                    &&& final(self).next_seq == old(self).next_seq
                },
            },
    {
        let mut active = match self.active.take() {
            Some(active) => active,
            None => {
                return ;
            },
        };
        active.done = true;
        self.aggregates.total_queries += 1;
        self.aggregates.total_prompt_tokens += prompt_tokens as u64;
        self.active_decode_start = None;
        self.active_decode_tokens = 0;
        self.active_prefill_start = None;
        self.keep(active);
    }
}

/// The newest request comes first, and behind it the others in their order, as many as are
/// kept.
pub proof fn newest_comes_first(queries: Seq<QueryRecord>, newest: QueryRecord, i: int)
    ensures
        with_newest(queries, newest).len() > 0,
        with_newest(queries, newest).len() <= 40,
        with_newest(queries, newest)[0] == newest,
        queries.len() < 40 ==> with_newest(queries, newest).len() == queries.len() + 1,
        0 < i < with_newest(queries, newest).len() ==> with_newest(queries, newest)[i] == queries[i
            - 1],
{
}

/// What goes on record agrees with itself: the speeds are those of the prompt and of the
/// completion over their times, what was drafted is the whole of what was accepted and a
/// part of the completion, and nothing else of the request is changed.
pub proof fn records_agree_with_themselves(
    active: QueryRecord,
    prefill_nanos: u64,
    decode_nanos: u64,
    target_forwards: usize,
    drafted_tokens: usize,
    accepted_drafts: usize,
)
    ensures
        ({
            let record = finished(
                active,
                prefill_nanos,
                decode_nanos,
                target_forwards,
                drafted_tokens,
                accepted_drafts,
            );
            &&& record.seq == active.seq
            &&& record.done
            &&& record.prompt_tokens == active.prompt_tokens
            &&& record.completion_tokens == active.completion_tokens
            &&& record.prefill_rate.count == record.prompt_tokens
            &&& record.prefill_rate.nanos == record.prefill_nanos == prefill_nanos
            &&& record.decode_nanos == decode_nanos
            &&& decode_nanos >= 100_000_000 ==> record.decode_rate.count
                == record.completion_tokens && record.decode_rate.nanos == record.decode_nanos
            &&& decode_nanos < 100_000_000 ==> record.decode_rate == active.decode_rate
            &&& record.acceptance.part == accepted_drafts
            &&& record.acceptance.whole == record.draft_ratio.part == drafted_tokens
            &&& record.draft_ratio.whole == record.completion_tokens
            &&& record.target_forwards == target_forwards
        }),
{
}

/// Between two ticks that both bring tokens, the speed is that of the tokens and of the time
/// between them, whatever was measured before; a tick that brings none leaves it.
pub proof fn ticks_measure_what_lies_between(
    metrics: Metrics,
    first: usize,
    at: u64,
    second: usize,
    later: u64,
)
    requires
        metrics.active is Some,
        metrics.active_decode_start is None || metrics.active_decode_tokens < first,
        0 < first,
        at < later,
    ensures
        ({
            let once = metrics.ticked(first, at);
            let twice = once.ticked(second, later);
            &&& twice.active is Some
            &&& twice.active->0.completion_tokens == second
            &&& first < second ==> twice.active->0.decode_rate == (Rate {
                count: (second - first) as usize,
                nanos: (later - at) as u64,
            })
            &&& second <= first ==> twice.active->0.decode_rate == once.active->0.decode_rate
        }),
{
}

} // verus!
