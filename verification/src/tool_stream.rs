//! Streams that may stop for a tool.
//!
//! The events of a response are collected until the message ends or the model
//! waits for a tool. The upstream does not always say so: a tool block that is
//! closed and followed by silence counts as a request for a tool too. What has
//! already arrived by then is drained and kept with the rest.
use crate::channel::{answers, try_next};
use crate::claude::{ContentBlock, StopReason, StreamEvent};
use crate::events::passes;
use crate::text::texts;
use tokio::sync::mpsc::UnboundedReceiver;
use vstd::prelude::*;

verus! {

/// How long to wait for the next event before the silence counts, in milliseconds.
pub const TOOL_USE_TIMEOUT_MILLIS: u64 = 1000;

/// What waiting for the next event gave: an event, the end of the channel, or
/// nothing in time.
#[derive(Debug)]
pub enum ToolStreamInput {
    Event(StreamEvent),
    Closed,
    Timeout,
}

/// Where a collector stands: it waits for events, it takes what has already
/// arrived, or it is done.
#[derive(Debug, Clone, Copy, PartialEq, Eq, Structural)]
pub enum ToolStreamPhase {
    Collecting,
    Draining,
    Done,
}

/// Collects the events of a response that may stop for a tool.
#[derive(Debug)]
pub struct ToolStreamCollector {
    tool_use_ids: Vec<String>,
    events: Vec<StreamEvent>,
    reached_tool_use: bool,
    last_block_was_tool_use: bool,
    active_tool_use_block_index: Option<usize>,
    phase: ToolStreamPhase,
}

/// A collector as a mathematical value. `closed_tool_block` says that the last
/// block was a tool block and is closed; `open_tool_block` is the index of the
/// tool block that is still open.
#[verifier::ext_equal]
pub ghost struct Collector {
    pub tool_use_ids: Seq<Seq<char>>,
    pub events: Seq<StreamEvent>,
    pub reached_tool_use: bool,
    pub closed_tool_block: bool,
    pub open_tool_block: Option<usize>,
    pub phase: ToolStreamPhase,
}

/// The identifier of the tool call that an event opens.
pub open spec fn opened_tool(event: StreamEvent) -> Option<Seq<char>> {
    match event {
        StreamEvent::ContentBlockStart { content_block: ContentBlock::ToolUse { id, .. }, .. } => {
            Some(id@)
        },
        _ => None,
    }
}

/// The event says that the model stopped for a tool.
pub open spec fn stops_for_tool(event: StreamEvent) -> bool {
    match event {
        StreamEvent::MessageDelta { delta, .. } => delta.stop_reason == Some(StopReason::ToolUse),
        _ => false,
    }
}

/// The event closes the block `open`.
pub open spec fn closes(event: StreamEvent, open: Option<usize>) -> bool {
    match event {
        StreamEvent::ContentBlockStop { index } => open == Some(index),
        _ => false,
    }
}

/// The answers of a channel in which each of `arrived` was found.
pub open spec fn all_found(arrived: Seq<StreamEvent>) -> Seq<Option<StreamEvent>> {
    arrived.map_values(|event: StreamEvent| Some(event))
}

impl Collector {
    /// A collector that has seen nothing.
    pub open spec fn fresh() -> Self {
        Collector {
            tool_use_ids: Seq::empty(),
            events: Seq::empty(),
            reached_tool_use: false,
            closed_tool_block: false,
            open_tool_block: None,
            phase: ToolStreamPhase::Collecting,
        }
    }

    /// What holds of a collector at any time: it drains only for a tool, and a
    /// tool block that is open or was just closed is among the tool calls.
    pub open spec fn wf(self) -> bool {
        &&& self.phase == ToolStreamPhase::Collecting ==> !self.reached_tool_use
        &&& self.phase == ToolStreamPhase::Draining ==> self.reached_tool_use
        &&& self.open_tool_block is Some ==> self.tool_use_ids.len() > 0
        &&& self.closed_tool_block ==> self.tool_use_ids.len() > 0 && self.open_tool_block is None
    }

    /// The collector after one more event.
    pub open spec fn with_event(self, event: StreamEvent) -> Self {
        let reached = self.reached_tool_use || stops_for_tool(event);
        Collector {
            tool_use_ids: match opened_tool(event) {
                Some(id) => self.tool_use_ids.push(id),
                None => self.tool_use_ids,
            },
            events: self.events.push(event),
            reached_tool_use: reached,
            closed_tool_block: if event is ContentBlockStart {
                false
            } else {
                self.closed_tool_block || closes(event, self.open_tool_block)
            },
            open_tool_block: match event {
                StreamEvent::ContentBlockStart { index, content_block: ContentBlock::ToolUse { .. } } => {
                    Some(index)
                },
                _ => if closes(event, self.open_tool_block) {
                    None
                } else {
                    self.open_tool_block
                },
            },
            phase: if reached {
                ToolStreamPhase::Draining
            } else if event is MessageStop {
                ToolStreamPhase::Done
            } else {
                ToolStreamPhase::Collecting
            },
        }
    }

    /// The collector after what waiting gave. One that no longer waits stays as
    /// it is.
    pub open spec fn step(self, input: ToolStreamInput) -> Self {
        if self.phase != ToolStreamPhase::Collecting {
            self
        } else {
            match input {
                ToolStreamInput::Event(event) => self.with_event(event),
                ToolStreamInput::Closed => Collector { phase: ToolStreamPhase::Done, ..self },
                ToolStreamInput::Timeout => if self.closed_tool_block {
                    Collector { reached_tool_use: true, phase: ToolStreamPhase::Draining, ..self }
                } else {
                    self
                },
            }
        }
    }

    /// The collector after it looked for an event that has already arrived. What
    /// is drained opens no tool call.
    pub open spec fn drained(self, next: Option<StreamEvent>) -> Self {
        if self.phase != ToolStreamPhase::Draining {
            self
        } else {
            match next {
                Some(event) => Collector { events: self.events.push(event), ..self },
                None => Collector { phase: ToolStreamPhase::Done, ..self },
            }
        }
    }

    /// The collector after it took in all that had arrived.
    pub open spec fn drained_all(self, arrived: Seq<StreamEvent>) -> Self {
        if self.phase != ToolStreamPhase::Draining {
            self
        } else {
            Collector {
                events: self.events + arrived,
                phase: ToolStreamPhase::Done,
                ..self
            }
        }
    }

    /// The response is to be paused: the model waits for a tool, and there is a
    /// tool call to answer.
    pub open spec fn pauses(self) -> bool {
        self.reached_tool_use && self.tool_use_ids.len() > 0
    }
}

impl View for ToolStreamCollector {
    type V = Collector;

    closed spec fn view(&self) -> Collector {
        Collector {
            tool_use_ids: texts(self.tool_use_ids@),
            events: self.events@,
            reached_tool_use: self.reached_tool_use,
            closed_tool_block: self.last_block_was_tool_use,
            open_tool_block: self.active_tool_use_block_index,
            phase: self.phase,
        }
    }
}

impl ToolStreamCollector {
    /// A collector that has seen nothing.
    pub fn new() -> (collector: Self)
        ensures
            collector@ == Collector::fresh(),
            collector@.wf(),
    {
        let collector = ToolStreamCollector {
            tool_use_ids: Vec::new(),
            events: Vec::new(),
            reached_tool_use: false,
            last_block_was_tool_use: false,
            active_tool_use_block_index: None,
            phase: ToolStreamPhase::Collecting,
        };
        assert(collector@ =~= Collector::fresh());
        collector
    }

    /// Takes in what waiting for the next event gave, and says where the
    /// collector then stands.
    pub fn step(&mut self, input: ToolStreamInput) -> (phase: ToolStreamPhase)
        requires
            old(self)@.wf(),
        ensures
            final(self)@ == old(self)@.step(input),
            final(self)@.wf(),
            phase == final(self)@.phase,
    {
        if self.phase != ToolStreamPhase::Collecting {
            return self.phase;
        }
        let ghost before = self@;
        match input {
            ToolStreamInput::Event(event) => {
                if let StreamEvent::ContentBlockStart {
                    index,
                    content_block: ContentBlock::ToolUse { id, .. },
                } = &event {
                    self.tool_use_ids.push(id.clone());
                    self.active_tool_use_block_index = Some(*index);
                    self.last_block_was_tool_use = false;
                }
                if let StreamEvent::ContentBlockStop { index } = &event {
                    if self.active_tool_use_block_index == Some(*index) {
                        self.last_block_was_tool_use = true;
                        self.active_tool_use_block_index = None;
                    }
                }
                if let StreamEvent::ContentBlockStart { .. } = &event {
                    self.last_block_was_tool_use = false;
                }
                let is_tool_use_delta = match &event {
                    StreamEvent::MessageDelta { delta, .. } => match delta.stop_reason {
                        Some(StopReason::ToolUse) => true,
                        _ => false,
                    },
                    _ => false,
                };
                if is_tool_use_delta {
                    self.reached_tool_use = true;
                }
                let is_stop = matches!(event, StreamEvent::MessageStop);
                let ghost taken = event;
                self.events.push(event);
                if self.reached_tool_use {
                    self.phase = ToolStreamPhase::Draining;
                } else if is_stop {
                    self.phase = ToolStreamPhase::Done;
                }
                assert(self@.tool_use_ids =~= before.with_event(taken).tool_use_ids);
                assert(self@ =~= before.with_event(taken));
            },
            ToolStreamInput::Closed => {
                self.phase = ToolStreamPhase::Done;
            },
            ToolStreamInput::Timeout => {
                if self.last_block_was_tool_use {
                    self.reached_tool_use = true;
                    self.phase = ToolStreamPhase::Draining;
                } else {
                    self.last_block_was_tool_use = false;
                }
            },
        }
        self.phase
    }

    /// Takes in an event that had already arrived, or that there is none, and
    /// says where the collector then stands.
    pub fn drained(&mut self, next: Option<StreamEvent>) -> (phase: ToolStreamPhase)
        requires
            old(self)@.wf(),
        ensures
            final(self)@ == old(self)@.drained(next),
            final(self)@.wf(),
            phase == final(self)@.phase,
    {
        if self.phase == ToolStreamPhase::Draining {
            match next {
                Some(event) => {
                    self.events.push(event);
                },
                None => {
                    self.phase = ToolStreamPhase::Done;
                },
            }
        }
        self.phase
    }

    /// Takes in every event that has already arrived, in order, until none waits;
    /// nothing is taken from the channel where the collector does not drain. The
    /// loop is bounded by what a vector can count.
    pub fn drain(&mut self, receiver: &mut UnboundedReceiver<StreamEvent>)
        requires
            old(self)@.wf(),
        ensures
            final(self)@.wf(),
            old(self)@.phase != ToolStreamPhase::Draining ==> final(self)@ == old(self)@
                && *final(receiver) == *old(receiver),
            old(self)@.phase == ToolStreamPhase::Draining ==> exists|arrived: Seq<StreamEvent>|
                {
                    &&& final(self)@ == #[trigger] old(self)@.drained_all(arrived)
                    &&& {
                        ||| answers(*final(receiver)) == answers(*old(receiver)) + all_found(
                            arrived,
                        ).push(None)
                        ||| {
                            &&& old(self)@.events.len() + arrived.len() == usize::MAX
                            &&& answers(*final(receiver)) == answers(*old(receiver)) + all_found(
                                arrived,
                            )
                        }
                    }
                },
    {
        let ghost before = self@;
        let ghost asked = answers(*receiver);
        let ghost mut arrived: Seq<StreamEvent> = Seq::empty();
        if self.phase != ToolStreamPhase::Draining {
            return;
        }
        assert(before.events + arrived =~= before.events);
        assert(asked + all_found(arrived) =~= asked);
        while self.events.len() < usize::MAX
            invariant
                before == old(self)@,
                asked == answers(*old(receiver)),
                before.phase == ToolStreamPhase::Draining,
                self@.wf(),
                self@ == (Collector { events: before.events + arrived, ..before }),
                answers(*receiver) == asked + all_found(arrived),
            decreases usize::MAX - self.events.len(),
        {
            let next = try_next(receiver);
            let ghost found = next;
            match self.drained(next) {
                ToolStreamPhase::Draining => {
                    proof {
                        let longer = arrived.push(found->0);
                        assert(all_found(longer) =~= all_found(arrived).push(found));
                        assert((asked + all_found(arrived)).push(found) =~= asked + all_found(longer));
                        arrived = longer;
                        assert(self@.events =~= before.events + arrived);
                    }
                },
                _ => {
                    proof {
                        assert(self@ == before.drained_all(arrived));
                        assert((asked + all_found(arrived)).push(None) =~= asked + all_found(
                            arrived,
                        ).push(None));
                    }
                    return;
                },
            }
        }
        self.drained(None);
        assert(self@ == before.drained_all(arrived));
    }

    /// Tells whether the response is to be paused.
    pub fn pauses(&self) -> (pauses: bool)
        ensures
            pauses == self@.pauses(),
    {
        self.reached_tool_use && self.tool_use_ids.len() > 0
    }

    /// Hands out the events for the client and the tool calls.
    pub fn into_parts(self) -> (parts: (Vec<StreamEvent>, Vec<String>))
        ensures
            parts.0@ == self@.events,
            texts(parts.1@) == self@.tool_use_ids,
    {
        (self.events, self.tool_use_ids)
    }
}

/// What a collector has made of all that waiting gave, one after another.
pub open spec fn collect(inputs: Seq<ToolStreamInput>) -> Collector
    decreases inputs.len(),
{
    if inputs.len() == 0 {
        Collector::fresh()
    } else {
        collect(inputs.drop_last()).step(inputs.last())
    }
}

/// The events among what waiting gave.
pub open spec fn events_in(inputs: Seq<ToolStreamInput>) -> Seq<StreamEvent>
    decreases inputs.len(),
{
    if inputs.len() == 0 {
        Seq::empty()
    } else {
        match inputs.last() {
            ToolStreamInput::Event(event) => events_in(inputs.drop_last()).push(event),
            _ => events_in(inputs.drop_last()),
        }
    }
}

/// The tool calls that a list of events opens, in order.
pub open spec fn tools_in(events: Seq<StreamEvent>) -> Seq<Seq<char>>
    decreases events.len(),
{
    if events.len() == 0 {
        Seq::empty()
    } else {
        match opened_tool(events.last()) {
            Some(id) => tools_in(events.drop_last()).push(id),
            None => tools_in(events.drop_last()),
        }
    }
}

/// The collector is well-formed whatever it is given.
pub proof fn law_collect_wf(inputs: Seq<ToolStreamInput>)
    ensures
        collect(inputs).wf(),
    decreases inputs.len(),
{
    if inputs.len() > 0 {
        law_collect_wf(inputs.drop_last());
    }
}

/// As long as the collector waits, and at the moment it stops, it holds every
/// event that came, in order, and exactly the tool calls that these events open.
pub proof fn law_collect_loses_nothing(inputs: Seq<ToolStreamInput>)
    requires
        inputs.len() > 0 ==> collect(inputs.drop_last()).phase == ToolStreamPhase::Collecting,
    ensures
        collect(inputs).events == events_in(inputs),
        collect(inputs).tool_use_ids == tools_in(events_in(inputs)),
    decreases inputs.len(),
{
    if inputs.len() > 0 {
        let shorter = inputs.drop_last();
        if shorter.len() > 0 {
            law_still_collecting(shorter);
        }
        law_collect_loses_nothing(shorter);
        match inputs.last() {
            ToolStreamInput::Event(event) => {
                assert(events_in(inputs).drop_last() =~= events_in(shorter));
            },
            _ => {},
        }
    }
}

/// A collector that still waits has waited all the time.
pub proof fn law_still_collecting(inputs: Seq<ToolStreamInput>)
    requires
        inputs.len() > 0,
        collect(inputs).phase == ToolStreamPhase::Collecting,
    ensures
        collect(inputs.drop_last()).phase == ToolStreamPhase::Collecting,
{
}

/// A collector that has stopped waiting takes nothing more in.
pub proof fn law_stopped_stays(inputs: Seq<ToolStreamInput>, more: Seq<ToolStreamInput>)
    requires
        collect(inputs).phase != ToolStreamPhase::Collecting,
    ensures
        collect(inputs + more) == collect(inputs),
    decreases more.len(),
{
    if more.len() == 0 {
        assert(inputs + more =~= inputs);
    } else {
        assert((inputs + more).drop_last() =~= inputs + more.drop_last());
        law_stopped_stays(inputs, more.drop_last());
    }
}

/// A collector that still waits stops to let a tool run exactly when the model
/// says that it stopped for one, or when nothing comes after a closed tool block.
/// In the second case there is a tool call to answer.
pub proof fn law_when_a_tool_is_awaited(inputs: Seq<ToolStreamInput>, input: ToolStreamInput)
    requires
        collect(inputs).phase == ToolStreamPhase::Collecting,
    ensures
        collect(inputs.push(input)).reached_tool_use <==> match input {
            ToolStreamInput::Event(event) => stops_for_tool(event),
            ToolStreamInput::Closed => false,
            ToolStreamInput::Timeout => collect(inputs).closed_tool_block,
        },
        input is Timeout && collect(inputs.push(input)).reached_tool_use ==> collect(
            inputs.push(input),
        ).pauses(),
{
    assert(inputs.push(input).drop_last() =~= inputs);
    law_collect_wf(inputs);
}

/// The event at `start` opens the tool block `block`, and before `end` neither
/// is that block closed nor another tool block opened.
pub open spec fn open_since(events: Seq<StreamEvent>, start: int, end: int, block: usize) -> bool {
    &&& 0 <= start < end <= events.len()
    &&& opened_tool(events[start]) is Some
    &&& events[start] matches StreamEvent::ContentBlockStart { index, .. } && index == block
    &&& forall|j: int|
        start < j < end ==> opened_tool(#[trigger] events[j]) is None && events[j]
            != (StreamEvent::ContentBlockStop { index: block })
}

/// The tool block `block` that the event at `start` opens is closed by the event
/// at `end`, and no block was opened since.
pub open spec fn closed_since(events: Seq<StreamEvent>, start: int, end: int, block: usize) -> bool {
    &&& open_since(events, start, end, block)
    &&& end < events.len()
    &&& events[end] == (StreamEvent::ContentBlockStop { index: block })
    &&& forall|j: int| end < j < events.len() ==> !((#[trigger] events[j]) is ContentBlockStart)
}

/// Silence counts as a request for a tool exactly where the events that came so
/// far hold a tool block that is closed, with no block opened since.
pub proof fn law_silence_rule(inputs: Seq<ToolStreamInput>)
    requires
        collect(inputs).phase == ToolStreamPhase::Collecting,
    ensures
        collect(inputs.push(ToolStreamInput::Timeout)).reached_tool_use <==> exists|
            start: int,
            end: int,
            block: usize,
        | closed_since(events_in(inputs), start, end, block),
{
    law_when_a_tool_is_awaited(inputs, ToolStreamInput::Timeout);
    if inputs.len() > 0 {
        law_still_collecting(inputs);
    }
    law_collect_loses_nothing(inputs);
    lemma_blocks(inputs);
}

proof fn lemma_blocks(inputs: Seq<ToolStreamInput>)
    requires
        inputs.len() > 0 ==> collect(inputs.drop_last()).phase == ToolStreamPhase::Collecting,
    ensures
        blocks_agree(collect(inputs)),
    decreases inputs.len(),
{
    if inputs.len() > 0 {
        let shorter = inputs.drop_last();
        if shorter.len() > 0 {
            law_still_collecting(shorter);
        }
        lemma_blocks(shorter);
        match inputs.last() {
            ToolStreamInput::Event(event) => {
                lemma_blocks_event(collect(shorter), event);
            },
            _ => {
                lemma_blocks_same(collect(shorter), collect(inputs));
            },
        }
    } else {
        let c = Collector::fresh();
        assert(c.events.len() == 0);
        assert forall|block: usize| c.open_tool_block == Some(block) <==> exists|start: int| #[trigger]
            open_since(c.events, start, c.events.len() as int, block) by {}
        assert(!exists|start: int, end: int, block: usize|
            closed_since(c.events, start, end, block));
        assert(blocks_agree(c));
    }
}

proof fn lemma_blocks_same(c: Collector, d: Collector)
    requires
        blocks_agree(c),
        d.events == c.events,
        d.open_tool_block == c.open_tool_block,
        d.closed_tool_block == c.closed_tool_block,
    ensures
        blocks_agree(d),
{
    assert forall|block: usize| d.open_tool_block == Some(block) <==> exists|start: int| #[trigger]
        open_since(d.events, start, d.events.len() as int, block) by {
        assert(c.open_tool_block == Some(block) <==> exists|start: int| #[trigger]
            open_since(c.events, start, c.events.len() as int, block));
    }
}

spec fn blocks_agree(c: Collector) -> bool {
    &&& forall|block: usize|
        c.open_tool_block == Some(block) <==> exists|start: int| #[trigger]
            open_since(c.events, start, c.events.len() as int, block)
    &&& c.closed_tool_block <==> exists|start: int, end: int, block: usize|
        closed_since(c.events, start, end, block)
}

proof fn lemma_blocks_event(c: Collector, event: StreamEvent)
    requires
        blocks_agree(c),
    ensures
        blocks_agree(c.with_event(event)),
{
    let d = c.with_event(event);
    let n = c.events.len() as int;
    assert(d.events.len() == n + 1);
    assert(d.events[n] == event);
    assert forall|start: int, end: int, block: usize| end <= n implies #[trigger] open_since(
        d.events,
        start,
        end,
        block,
    ) == open_since(c.events, start, end, block) by {
        if open_since(d.events, start, end, block) {
            assert forall|j: int| start < j < end implies opened_tool(#[trigger] c.events[j]) is None
                && c.events[j] != (StreamEvent::ContentBlockStop { index: block }) by {
                assert(d.events[j] == c.events[j]);
            }
        }
        if open_since(c.events, start, end, block) {
            assert forall|j: int| start < j < end implies opened_tool(#[trigger] d.events[j]) is None
                && d.events[j] != (StreamEvent::ContentBlockStop { index: block }) by {
                assert(d.events[j] == c.events[j]);
            }
        }
    }
    assert forall|block: usize| d.open_tool_block == Some(block) <==> exists|start: int| #[trigger]
        open_since(d.events, start, n + 1, block) by {
        if d.open_tool_block == Some(block) {
            if opened_tool(event) is Some {
                assert(open_since(d.events, n, n + 1, block));
            } else {
                assert(c.open_tool_block == Some(block));
                let start = choose|start: int| #[trigger] open_since(c.events, start, n, block);
                assert(open_since(d.events, start, n, block));
                assert(open_since(d.events, start, n + 1, block));
            }
        }
        if exists|start: int| #[trigger] open_since(d.events, start, n + 1, block) {
            let start = choose|start: int| #[trigger] open_since(d.events, start, n + 1, block);
            if start < n {
                assert(opened_tool(d.events[n]) is None);
                assert(open_since(d.events, start, n, block));
                assert(open_since(c.events, start, n, block));
                assert(c.open_tool_block == Some(block));
            }
        }
    }
    if d.closed_tool_block {
        if closes(event, c.open_tool_block) {
            let block = c.open_tool_block->0;
            let start = choose|start: int| #[trigger] open_since(c.events, start, n, block);
            assert(open_since(d.events, start, n, block));
            assert(closed_since(d.events, start, n, block));
        } else {
            let (start, end, block) = choose|start: int, end: int, block: usize|
                closed_since(c.events, start, end, block);
            assert(open_since(d.events, start, end, block));
            assert(d.events[end] == c.events[end]);
            assert(closed_since(d.events, start, end, block));
        }
    }
    if exists|start: int, end: int, block: usize| closed_since(d.events, start, end, block) {
        let (start, end, block) = choose|start: int, end: int, block: usize|
            closed_since(d.events, start, end, block);
        assert(open_since(c.events, start, end, block));
        if end == n {
            assert(c.open_tool_block == Some(block));
        } else {
            assert(!(d.events[n] is ContentBlockStart));
            assert(d.events[end] == c.events[end]);
            assert forall|j: int| end < j < c.events.len() implies !((#[trigger] c.events[j]) is ContentBlockStart) by {
                assert(d.events[j] == c.events[j]);
            }
            assert(closed_since(c.events, start, end, block));
        }
    }
}

/// Draining keeps what was collected and adds what had arrived, in order; the
/// tool calls and whether the response is paused stay as they were, even where
/// what had arrived opens further tool calls.
pub proof fn law_drain_appends(c: Collector, arrived: Seq<StreamEvent>)
    requires
        c.phase == ToolStreamPhase::Draining,
    ensures
        c.drained_all(arrived).phase == ToolStreamPhase::Done,
        c.drained_all(arrived).events == c.events + arrived,
        c.drained_all(arrived).tool_use_ids == c.tool_use_ids,
        c.drained_all(arrived).pauses() == c.pauses(),
{
}

/// A collector that is given only events that may be seen, and drains only such,
/// holds only such.
pub proof fn law_collect_passes(
    inputs: Seq<ToolStreamInput>,
    arrived: Seq<StreamEvent>,
    i: int,
)
    requires
        forall|k: int|
            0 <= k < inputs.len() ==> match #[trigger] inputs[k] {
                ToolStreamInput::Event(event) => passes(event),
                _ => true,
            },
        forall|k: int| 0 <= k < arrived.len() ==> passes(#[trigger] arrived[k]),
        0 <= i < collect(inputs).drained_all(arrived).events.len(),
    ensures
        passes(collect(inputs).drained_all(arrived).events[i]),
{
    let n = collect(inputs).events.len();
    if i < n {
        lemma_collect_passes(inputs, i);
    } else {
        assert(collect(inputs).drained_all(arrived).events[i] == arrived[i - n]);
    }
}

proof fn lemma_collect_passes(inputs: Seq<ToolStreamInput>, i: int)
    requires
        forall|k: int|
            0 <= k < inputs.len() ==> match #[trigger] inputs[k] {
                ToolStreamInput::Event(event) => passes(event),
                _ => true,
            },
        0 <= i < collect(inputs).events.len(),
    ensures
        passes(collect(inputs).events[i]),
    decreases inputs.len(),
{
    if inputs.len() > 0 {
        let shorter = inputs.drop_last();
        if i < collect(shorter).events.len() {
            assert forall|k: int| 0 <= k < shorter.len() implies match #[trigger] shorter[k] {
                ToolStreamInput::Event(event) => passes(event),
                _ => true,
            } by {
                assert(shorter[k] == inputs[k]);
            }
            lemma_collect_passes(shorter, i);
            assert(collect(inputs).events[i] == collect(shorter).events[i]);
        } else {
            assert(inputs[inputs.len() - 1] == inputs.last());
        }
    }
}

/// What a resumed response does with the next event: sends it, and ends with the
/// last one, or ends because the channel did.
#[derive(Debug)]
pub enum Relay {
    Send { event: StreamEvent, last: bool },
    End,
}

/// What a resumed response does with what it received; `None` is the end of the
/// channel.
pub open spec fn relay(received: Option<StreamEvent>) -> Relay {
    match received {
        Some(event) => Relay::Send { event, last: event is MessageStop },
        None => Relay::End,
    }
}

/// Decides what a resumed response does with what it received; `None` is the end
/// of the channel.
pub fn relay_step(received: Option<StreamEvent>) -> (action: Relay)
    ensures
        action == relay(received),
{
    match received {
        Some(event) => {
            let last = matches!(event, StreamEvent::MessageStop);
            Relay::Send { event, last }
        },
        None => Relay::End,
    }
}

/// The events that a resumed response sends after its opening when `received`
/// arrive one after another and then the channel ends.
pub open spec fn relayed(received: Seq<StreamEvent>) -> Seq<StreamEvent>
    decreases received.len(),
{
    if received.len() == 0 {
        Seq::empty()
    } else {
        match relay(Some(received[0])) {
            Relay::Send { event, last } => if last {
                seq![event]
            } else {
                seq![event] + relayed(received.drop_first())
            },
            Relay::End => Seq::empty(),
        }
    }
}

/// A resumed response sends what it received unchanged up to the end of the
/// message, and nothing after it: what it sends is the start of what it received,
/// only the last event can end the message, and only that ends it early.
pub proof fn law_relay_ends_with_message(received: Seq<StreamEvent>)
    ensures
        relayed(received).len() <= received.len(),
        relayed(received) == received.take(relayed(received).len() as int),
        forall|i: int|
            0 <= i < relayed(received).len() - 1 ==> !((#[trigger] relayed(received)[i]) is MessageStop),
        relayed(received).len() < received.len() ==> relayed(received).len() > 0
            && relayed(received).last() is MessageStop,
    decreases received.len(),
{
    let sent = relayed(received);
    if received.len() > 0 {
        let rest = received.drop_first();
        if !(received[0] is MessageStop) {
            law_relay_ends_with_message(rest);
            assert(sent =~= received.take(sent.len() as int));
            assert forall|i: int| 0 <= i < sent.len() - 1 implies !((#[trigger] sent[i]) is MessageStop) by {
                if i > 0 {
                    assert(sent[i] == relayed(rest)[i - 1]);
                }
            }
        } else {
            assert(sent =~= received.take(1));
        }
    } else {
        assert(sent =~= received.take(0));
    }
}

/// A collector that still waits stops at an event exactly where the event ends the
/// message or says that the model stopped for a tool; in the second case it goes
/// on to drain.
pub proof fn law_when_collecting_stops(inputs: Seq<ToolStreamInput>, event: StreamEvent)
    requires
        collect(inputs).phase == ToolStreamPhase::Collecting,
    ensures
        ({
            let after = collect(inputs.push(ToolStreamInput::Event(event)));
            let for_tool = event matches StreamEvent::MessageDelta { delta, .. }
                && delta.stop_reason == Some(StopReason::ToolUse);
            &&& after.phase == ToolStreamPhase::Collecting <==> !(event is MessageStop) && !for_tool
            &&& after.phase == ToolStreamPhase::Draining <==> for_tool
            &&& after.phase == ToolStreamPhase::Done <==> event is MessageStop
        }),
{
    assert(inputs.push(ToolStreamInput::Event(event)).drop_last() =~= inputs);
    law_collect_wf(inputs);
}

/// What one event does to a collector that still waits: the event is kept as the
/// last one; the opening of a tool block adds its tool call and makes it the open
/// one; its closing makes it the closed one until another block opens; and nothing
/// but a stop for a tool says that a tool is awaited.
pub proof fn law_what_an_event_does(c: Collector, event: StreamEvent)
    requires
        c.phase == ToolStreamPhase::Collecting,
    ensures
        ({
            let d = c.step(ToolStreamInput::Event(event));
            &&& d.events == c.events.push(event)
            &&& d.reached_tool_use <==> c.reached_tool_use || (event matches StreamEvent::MessageDelta {
                delta,
                ..
            } && delta.stop_reason == Some(StopReason::ToolUse))
            &&& event matches StreamEvent::ContentBlockStart {
                index,
                content_block: ContentBlock::ToolUse { id, .. },
            } ==> {
                &&& d.tool_use_ids == c.tool_use_ids.push(id@)
                &&& d.open_tool_block == Some(index)
                &&& !d.closed_tool_block
            }
            &&& event matches StreamEvent::ContentBlockStart { content_block, .. } ==> (!(
            content_block is ToolUse) ==> {
                &&& d.tool_use_ids == c.tool_use_ids
                &&& d.open_tool_block == c.open_tool_block
                &&& !d.closed_tool_block
            })
            &&& event matches StreamEvent::ContentBlockStop { index } ==> {
                &&& d.tool_use_ids == c.tool_use_ids
                &&& c.open_tool_block == Some(index) ==> d.closed_tool_block
                    && d.open_tool_block is None
                &&& c.open_tool_block != Some(index) ==> d.closed_tool_block == c.closed_tool_block
                    && d.open_tool_block == c.open_tool_block
            }
            &&& !(event is ContentBlockStart) && !(event is ContentBlockStop) ==> {
                &&& d.tool_use_ids == c.tool_use_ids
                &&& d.open_tool_block == c.open_tool_block
                &&& d.closed_tool_block == c.closed_tool_block
            }
        }),
{
}

/// What happens to a collector that still waits where no event comes: the end of
/// the channel ends it; silence makes it drain for a tool after a closed tool
/// block, and is waited out otherwise. Nothing that was collected changes.
pub proof fn law_what_no_event_does(c: Collector)
    requires
        c.phase == ToolStreamPhase::Collecting,
    ensures
        ({
            let closed = c.step(ToolStreamInput::Closed);
            let silent = c.step(ToolStreamInput::Timeout);
            &&& closed.phase == ToolStreamPhase::Done
            &&& closed.reached_tool_use == c.reached_tool_use
            &&& closed.events == c.events && closed.tool_use_ids == c.tool_use_ids
            &&& silent.events == c.events && silent.tool_use_ids == c.tool_use_ids
            &&& !c.closed_tool_block ==> silent == c
            &&& c.closed_tool_block ==> silent.phase == ToolStreamPhase::Draining
                && silent.reached_tool_use
        }),
{
}

/// What waiting gives when events come one after another without silence.
pub open spec fn as_inputs(events: Seq<StreamEvent>) -> Seq<ToolStreamInput> {
    events.map_values(|event: StreamEvent| ToolStreamInput::Event(event))
}

/// A stream in which nothing ends the message and the model stops for no tool is
/// collected whole and still waited on; the end of the message is then its last
/// event, and the response is not paused.
pub proof fn law_stream_is_collected_whole(events: Seq<StreamEvent>)
    requires
        forall|i: int|
            0 <= i < events.len() ==> !((#[trigger] events[i]) is MessageStop) && !(events[i] matches
                StreamEvent::MessageDelta { delta, .. } && delta.stop_reason == Some(
                StopReason::ToolUse,
            )),
    ensures
        collect(as_inputs(events)).phase == ToolStreamPhase::Collecting,
        collect(as_inputs(events)).events == events,
        collect(as_inputs(events.push(StreamEvent::MessageStop))).phase == ToolStreamPhase::Done,
        collect(as_inputs(events.push(StreamEvent::MessageStop))).events == events.push(
            StreamEvent::MessageStop,
        ),
        !collect(as_inputs(events.push(StreamEvent::MessageStop))).pauses(),
    decreases events.len(),
{
    let inputs = as_inputs(events);
    if events.len() > 0 {
        let shorter = events.drop_last();
        assert forall|i: int| 0 <= i < shorter.len() implies !((#[trigger] shorter[i]) is MessageStop)
            && !(shorter[i] matches StreamEvent::MessageDelta { delta, .. } && delta.stop_reason
            == Some(StopReason::ToolUse)) by {
            assert(shorter[i] == events[i]);
        }
        law_stream_is_collected_whole(shorter);
        assert(as_inputs(shorter).push(ToolStreamInput::Event(events.last())) =~= inputs);
        assert(inputs.drop_last() =~= as_inputs(shorter));
        assert(events[events.len() - 1] == events.last());
        law_when_collecting_stops(as_inputs(shorter), events.last());
        law_what_an_event_does(collect(as_inputs(shorter)), events.last());
        assert(shorter.push(events.last()) =~= events);
    }
    let longer = as_inputs(events.push(StreamEvent::MessageStop));
    assert(longer =~= inputs.push(ToolStreamInput::Event(StreamEvent::MessageStop)));
    assert(longer.drop_last() =~= inputs);
    law_when_collecting_stops(inputs, StreamEvent::MessageStop);
    law_what_an_event_does(collect(inputs), StreamEvent::MessageStop);
    law_collect_wf(inputs);
}

/// A stream that opens a tool call and then stops for a tool is paused with that
/// tool call, whatever came before, and holds every event up to the stop.
pub proof fn law_stop_for_an_opened_tool_pauses(
    inputs: Seq<ToolStreamInput>,
    opened: int,
    stop: StreamEvent,
)
    requires
        collect(inputs).phase == ToolStreamPhase::Collecting,
        0 <= opened < inputs.len(),
        inputs[opened] matches ToolStreamInput::Event(
            StreamEvent::ContentBlockStart { content_block: ContentBlock::ToolUse { .. }, .. },
        ),
        stop matches StreamEvent::MessageDelta { delta, .. } && delta.stop_reason == Some(
            StopReason::ToolUse,
        ),
    ensures
        ({
            let after = collect(inputs.push(ToolStreamInput::Event(stop)));
            &&& after.pauses()
            &&& after.events == collect(inputs).events.push(stop)
            &&& inputs[opened] matches ToolStreamInput::Event(
                StreamEvent::ContentBlockStart { content_block: ContentBlock::ToolUse { id, .. }, .. },
            ) ==> after.tool_use_ids.contains(id@)
        }),
{
    assert(inputs.push(ToolStreamInput::Event(stop)).drop_last() =~= inputs);
    lemma_opened_is_kept(inputs, opened);
    law_what_an_event_does(collect(inputs), stop);
}

proof fn lemma_opened_is_kept(inputs: Seq<ToolStreamInput>, opened: int)
    requires
        collect(inputs).phase == ToolStreamPhase::Collecting,
        0 <= opened < inputs.len(),
        inputs[opened] matches ToolStreamInput::Event(
            StreamEvent::ContentBlockStart { content_block: ContentBlock::ToolUse { .. }, .. },
        ),
    ensures
        collect(inputs).tool_use_ids.len() > 0,
        inputs[opened] matches ToolStreamInput::Event(
            StreamEvent::ContentBlockStart { content_block: ContentBlock::ToolUse { id, .. }, .. },
        ) ==> collect(inputs).tool_use_ids.contains(id@),
    decreases inputs.len(),
{
    let shorter = inputs.drop_last();
    let before = collect(shorter);
    law_still_collecting(inputs);
    match inputs[opened] {
        ToolStreamInput::Event(
            StreamEvent::ContentBlockStart { content_block: ContentBlock::ToolUse { id, .. }, .. },
        ) => {
            if opened == shorter.len() {
                assert(inputs.last() == inputs[opened]);
                assert(collect(inputs).tool_use_ids[before.tool_use_ids.len() as int] == id@);
            } else {
                assert(shorter[opened] == inputs[opened]);
                lemma_opened_is_kept(shorter, opened);
                let k = choose|k: int| 0 <= k < before.tool_use_ids.len() && before.tool_use_ids[k] == id@;
                assert(collect(inputs).tool_use_ids[k] == id@);
            }
        },
        _ => {},
    }
}

/// A response is paused exactly where the model waits for a tool and there is a
/// tool call to answer.
pub proof fn law_when_a_response_pauses(c: Collector)
    ensures
        c.pauses() <==> c.reached_tool_use && c.tool_use_ids.len() > 0,
{
}

/// To drain event by event until none is left is to drain all at once; each event
/// is kept as the last one, and nothing else changes. A collector that does not
/// drain stays as it is.
pub proof fn law_what_draining_does(c: Collector, event: StreamEvent, arrived: Seq<StreamEvent>)
    ensures
        c.phase != ToolStreamPhase::Draining ==> c.drained(Some(event)) == c && c.drained(None) == c
            && c.drained_all(arrived) == c,
        c.phase == ToolStreamPhase::Draining ==> {
            let next = c.drained(Some(event));
            &&& next.events == c.events.push(event)
            &&& next.phase == ToolStreamPhase::Draining
            &&& next.tool_use_ids == c.tool_use_ids && next.reached_tool_use == c.reached_tool_use
            &&& next.drained_all(arrived) == c.drained_all(seq![event] + arrived)
            &&& c.drained(None) == c.drained_all(Seq::empty())
            &&& c.drained(None).phase == ToolStreamPhase::Done
            &&& c.drained(None).events == c.events
            &&& c.drained_all(arrived).reached_tool_use == c.reached_tool_use
        },
{
    if c.phase == ToolStreamPhase::Draining {
        let next = c.drained(Some(event));
        assert(next.drained_all(arrived).events =~= c.drained_all(seq![event] + arrived).events);
        assert(c.drained_all(Seq::empty()).events =~= c.events);
    }
}

/// A channel that found each of some events answered with these events, in order.
pub proof fn law_found_events_are_the_answers(arrived: Seq<StreamEvent>, i: int)
    requires
        0 <= i < arrived.len(),
    ensures
        all_found(arrived).len() == arrived.len(),
        all_found(arrived)[i] == Some(arrived[i]),
{
}

/// A resumed response sends every event that it receives as it is, ends with the
/// end of the message and with nothing else, and ends when the channel does.
pub proof fn law_what_is_relayed(event: StreamEvent)
    ensures
        relay(Some(event)) matches Relay::Send { event: sent, last } && sent == event && (last
            <==> event is MessageStop),
        relay(None) is End,
{
}

/// A new collector waits for events and holds nothing.
pub proof fn law_a_new_collector_is_empty()
    ensures
        Collector::fresh().phase == ToolStreamPhase::Collecting,
        Collector::fresh().events.len() == 0,
        Collector::fresh().tool_use_ids.len() == 0,
        !Collector::fresh().pauses(),
        TOOL_USE_TIMEOUT_MILLIS == 1000,
{
}

} // verus!
