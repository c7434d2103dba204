//! The dashboard's decisions: what a key does, which rows are shown, which readings.

use vstd::prelude::*;
use vstd::string::*;

use crate::serve::metrics;
use crate::serve::metrics::{Metrics, QueryRecord, Rate, Share};
use crate::text;
use crate::text::{decimal_of, join};

verus! {

/// What the user wants.
#[derive(Debug, Clone, Copy, PartialEq, Eq, Structural)]
pub enum UiEvent {
    Quit,
    Reset,
    Up,
    Down,
    Nothing,
}

/// A key, as far as the dashboard tells keys apart.
#[derive(Debug, Clone, Copy, PartialEq, Eq, Structural)]
pub enum Key {
    Char(char),
    Esc,
    Up,
    Down,
    Other,
}

/// What a key that was pressed stands for.
pub fn key_event(key: Key) -> (event: UiEvent)
    ensures
        event == (match key {
            Key::Char(c) => if c == 'q' {
                UiEvent::Quit
            } else if c == 'r' {
                UiEvent::Reset
            } else if c == 'k' {
                UiEvent::Up
            } else if c == 'j' {
                UiEvent::Down
            } else {
                UiEvent::Nothing
            },
            Key::Esc => UiEvent::Quit,
            Key::Up => UiEvent::Up,
            Key::Down => UiEvent::Down,
            Key::Other => UiEvent::Nothing,
        }),
{
    match key {
        Key::Char(c) => if c == 'q' {
            UiEvent::Quit
        } else if c == 'r' {
            UiEvent::Reset
        } else if c == 'k' {
            UiEvent::Up
        } else if c == 'j' {
            UiEvent::Down
        } else {
            UiEvent::Nothing
        },
        Key::Esc => UiEvent::Quit,
        Key::Up => UiEvent::Up,
        Key::Down => UiEvent::Down,
        Key::Other => UiEvent::Nothing,
    }
}

/// What the dashboard is to do.
#[derive(Debug, Clone, Copy, PartialEq, Eq, Structural)]
pub enum UiStep {
    Quit,
    ClearMetrics,
    Redraw,
}

/// How far the list of requests is scrolled.
#[derive(Debug, Clone, Copy, PartialEq, Eq, Structural)]
pub struct Scroll {
    pub rows: usize,
}

impl Default for Scroll {
    /// Not scrolled.
    fn default() -> (scroll: Self)
        ensures
            scroll.rows == 0,
    {
        Scroll { rows: 0 }
    }
}

impl Scroll {
    /// Takes an event: up and down move by a row, as far as there is anything to move.
    pub fn on_event(&mut self, event: UiEvent) -> (step: UiStep)
        ensures
            step == (match event {
                UiEvent::Quit => UiStep::Quit,
                UiEvent::Reset => UiStep::ClearMetrics,
                _ => UiStep::Redraw,
            }),
            final(self).rows == (match event {
                UiEvent::Up => if old(self).rows < usize::MAX {
                    old(self).rows + 1
                } else {
                    usize::MAX as int
                },
                UiEvent::Down => if old(self).rows > 0 {
                    old(self).rows - 1
                } else {
                    0
                },
                _ => old(self).rows as int,
            }),
    {
        match event {
            UiEvent::Quit => UiStep::Quit,
            UiEvent::Reset => UiStep::ClearMetrics,
            UiEvent::Up => {
                self.rows = self.rows.saturating_add(1);
                UiStep::Redraw
            },
            UiEvent::Down => {
                self.rows = self.rows.saturating_sub(1);
                UiStep::Redraw
            },
            UiEvent::Nothing => UiStep::Redraw,
        }
    }

    /// The first request that is shown, of `count`: the last one always is.
    pub fn first_row(&self, count: usize) -> (first: usize)
        ensures
            first == (if count == 0 {
                0
            } else if self.rows < count {
                self.rows as int
            } else {
                count - 1
            }),
    {
        let max_skip: usize = count.saturating_sub(1);
        if self.rows < max_skip {
            self.rows
        } else {
            max_skip
        }
    }
}

/// Which of a request's speeds is read.
#[derive(Debug, Clone, Copy, PartialEq, Eq, Structural)]
pub enum Speed {
    Prefill,
    Decode,
}

/// Which of a request's shares is read.
#[derive(Debug, Clone, Copy, PartialEq, Eq, Structural)]
pub enum Ratio {
    Acceptance,
    Draft,
}

/// The speed of a request.
pub open spec fn speed_of(record: QueryRecord, which: Speed) -> Rate {
    match which {
        Speed::Prefill => record.prefill_rate,
        Speed::Decode => record.decode_rate,
    }
}

/// The share of a request.
pub open spec fn ratio_of(record: QueryRecord, which: Ratio) -> Share {
    match which {
        Ratio::Acceptance => record.acceptance,
        Ratio::Draft => record.draft_ratio,
    }
}

/// Whether a speed is more than zero.
pub open spec fn is_moving(rate: Rate) -> bool {
    rate.count > 0 && rate.nanos > 0
}

/// Whether a share is worth showing: one part in 2^23, at least.
pub open spec fn is_notable(share: Share) -> bool {
    share.whole > 0 && share.part * 0x80_0000 >= share.whole
}

/// The first of the requests from `from` on whose speed is more than zero.
pub open spec fn first_moving(queries: Seq<QueryRecord>, which: Speed, from: int) -> Option<Rate>
    decreases queries.len() - from,
{
    if from >= queries.len() {
        None
    } else if is_moving(speed_of(queries[from], which)) {
        Some(speed_of(queries[from], which))
    } else {
        first_moving(queries, which, from + 1)
    }
}

/// The first of the requests from `from` on whose share is worth showing.
pub open spec fn first_notable(queries: Seq<QueryRecord>, which: Ratio, from: int) -> Option<Share>
    decreases queries.len() - from,
{
    if from >= queries.len() {
        None
    } else if is_notable(ratio_of(queries[from], which)) {
        Some(ratio_of(queries[from], which))
    } else {
        first_notable(queries, which, from + 1)
    }
}

/// The speed of a request.
fn read_speed(record: &QueryRecord, which: Speed) -> (rate: Rate)
    ensures
        rate == speed_of(*record, which),
{
    match which {
        Speed::Prefill => record.prefill_rate,
        Speed::Decode => record.decode_rate,
    }
}

/// The share of a request.
fn read_ratio(record: &QueryRecord, which: Ratio) -> (share: Share)
    ensures
        share == ratio_of(*record, which),
{
    match which {
        Ratio::Acceptance => record.acceptance,
        Ratio::Draft => record.draft_ratio,
    }
}

/// The latest speed that is more than zero: of the request under way, or else of the
/// newest that has one.
pub fn latest_speed(metrics: &Metrics, which: Speed) -> (rate: Option<Rate>)
    ensures
        rate == (match metrics.active {
            Some(active) => if is_moving(speed_of(active, which)) {
                Some(speed_of(active, which))
            } else {
                first_moving(metrics.queries@, which, 0)
            },
            None => first_moving(metrics.queries@, which, 0),
        }),
{
    if let Some(active) = &metrics.active {
        let rate = read_speed(active, which);
        if rate.count > 0 && rate.nanos > 0 {
            return Some(rate);
        }
    }
    let mut i: usize = 0;
    while i < metrics.queries.len()
        invariant
            i <= metrics.queries@.len(),
            first_moving(metrics.queries@, which, i as int) == first_moving(
                metrics.queries@,
                which,
                0,
            ),
            match metrics.active {
                Some(active) => !is_moving(speed_of(active, which)),
                None => true,
            },
        decreases metrics.queries@.len() - i,
    {
        let rate = read_speed(&metrics.queries[i], which);
        if rate.count > 0 && rate.nanos > 0 {
            return Some(rate);
        }
        i += 1;
    }
    None
}

/// The latest share that is worth showing: of the request under way, or else of the newest
/// that has one.
pub fn latest_ratio(metrics: &Metrics, which: Ratio) -> (share: Option<Share>)
    ensures
        share == (match metrics.active {
            Some(active) => if is_notable(ratio_of(active, which)) {
                Some(ratio_of(active, which))
            } else {
                first_notable(metrics.queries@, which, 0)
            },
            None => first_notable(metrics.queries@, which, 0),
        }),
{
    if let Some(active) = &metrics.active {
        let share = read_ratio(active, which);
        if notable(share) {
            return Some(share);
        }
    }
    let mut i: usize = 0;
    while i < metrics.queries.len()
        invariant
            i <= metrics.queries@.len(),
            first_notable(metrics.queries@, which, i as int) == first_notable(
                metrics.queries@,
                which,
                0,
            ),
            match metrics.active {
                Some(active) => !is_notable(ratio_of(active, which)),
                None => true,
            },
        decreases metrics.queries@.len() - i,
    {
        let share = read_ratio(&metrics.queries[i], which);
        if notable(share) {
            return Some(share);
        }
        i += 1;
    }
    None
}

/// Whether a share is worth showing.
fn notable(share: Share) -> (answer: bool)
    ensures
        answer == is_notable(share),
{
    share.whole > 0 && share.part as u128 * 0x80_0000 >= share.whole as u128
}

/// How long ago a request started, in whole seconds.
pub open spec fn age(now_secs: nat, started_unix_ms: nat) -> nat {
    let started = started_unix_ms / 1000;
    if now_secs >= started {
        (now_secs - started) as nat
    } else {
        0
    }
}

/// How long ago a request started, for display.
pub fn format_time(now_secs: u64, started_unix_ms: u64) -> (text: String)
    ensures
        text@ == text::decimal(age(now_secs as nat, started_unix_ms as nat)) + "s"@,
{
    let ago: u64 = now_secs.saturating_sub(started_unix_ms / 1000);
    join(decimal_of(ago).as_str(), "s")
}

// ---------------------------------------------------------------------------
// Laws
// ---------------------------------------------------------------------------

/// The speed that is shown of the requests is that of the newest that has one: no request
/// in front of it has.
pub proof fn shown_speed_is_the_newest(queries: Seq<QueryRecord>, which: Speed, from: int)
    requires
        0 <= from,
    ensures
        match first_moving(queries, which, from) {
            Some(rate) => is_moving(rate) && exists|i: int|
                from <= i < queries.len() && speed_of(#[trigger] queries[i], which) == rate && none_moves(
                    queries,
                    which,
                    from,
                    i,
                ),
            None => none_moves(queries, which, from, queries.len() as int),
        },
    decreases queries.len() - from,
{
    if from < queries.len() && !is_moving(speed_of(queries[from], which)) {
        shown_speed_is_the_newest(queries, which, from + 1);
        if let Some(rate) = first_moving(queries, which, from + 1) {
            let i = choose|i: int|
                from + 1 <= i < queries.len() && speed_of(#[trigger] queries[i], which) == rate
                    && none_moves(queries, which, from + 1, i);
            assert(none_moves(queries, which, from, i));
        }
    } else if from < queries.len() {
        assert(none_moves(queries, which, from, from));
        assert(speed_of(queries[from], which) == first_moving(queries, which, from)->0);
    }
}

/// None of some requests has a speed.
pub open spec fn none_moves(queries: Seq<QueryRecord>, which: Speed, from: int, to: int) -> bool {
    forall|j: int| from <= j < to ==> !is_moving(speed_of(#[trigger] queries[j], which))
}

/// The share that is shown of the requests is that of the newest that is worth showing.
pub proof fn shown_ratio_is_the_newest(queries: Seq<QueryRecord>, which: Ratio, from: int)
    requires
        0 <= from,
    ensures
        match first_notable(queries, which, from) {
            Some(share) => is_notable(share) && exists|i: int|
                from <= i < queries.len() && ratio_of(#[trigger] queries[i], which) == share
                    && none_notable(queries, which, from, i),
            None => none_notable(queries, which, from, queries.len() as int),
        },
    decreases queries.len() - from,
{
    if from < queries.len() && !is_notable(ratio_of(queries[from], which)) {
        shown_ratio_is_the_newest(queries, which, from + 1);
        if let Some(share) = first_notable(queries, which, from + 1) {
            let i = choose|i: int|
                from + 1 <= i < queries.len() && ratio_of(#[trigger] queries[i], which) == share
                    && none_notable(queries, which, from + 1, i);
            assert(none_notable(queries, which, from, i));
        }
    } else if from < queries.len() {
        assert(none_notable(queries, which, from, from));
        assert(ratio_of(queries[from], which) == first_notable(queries, which, from)->0);
    }
}

/// None of some requests has a share worth showing.
pub open spec fn none_notable(queries: Seq<QueryRecord>, which: Ratio, from: int, to: int) -> bool {
    forall|j: int| from <= j < to ==> !is_notable(ratio_of(#[trigger] queries[j], which))
}

/// What is read of a finished request is what it was finished with: the prompt over the time
/// of the prefill, the completion over the time of decoding, the accepted of the drafted
/// tokens, and the drafted of the completed ones.
pub proof fn readings_are_of_what_happened(
    active: QueryRecord,
    prefill_nanos: u64,
    decode_nanos: u64,
    target_forwards: usize,
    drafted_tokens: usize,
    accepted_drafts: usize,
)
    requires
        decode_nanos >= 100_000_000,
    ensures
        ({
            let record = metrics::finished(
                active,
                prefill_nanos,
                decode_nanos,
                target_forwards,
                drafted_tokens,
                accepted_drafts,
            );
            &&& speed_of(record, Speed::Prefill) == (Rate {
                count: active.prompt_tokens,
                nanos: prefill_nanos,
            })
            &&& speed_of(record, Speed::Decode) == (Rate {
                count: active.completion_tokens,
                nanos: decode_nanos,
            })
            &&& ratio_of(record, Ratio::Acceptance) == (Share {
                part: accepted_drafts,
                whole: drafted_tokens,
            })
            &&& ratio_of(record, Ratio::Draft) == (Share {
                part: drafted_tokens,
                whole: active.completion_tokens,
            })
        }),
{
}

} // verus!
