//! Responses that come as plain completion text.
use crate::claude::{
    ContentBlock, Message, MessageContentView, MessageView, Role, StreamError, StreamEvent,
};
use crate::events::{some_failed, Upstream};
use vstd::prelude::*;
use vstd::string::StringExecFns;

verus! {

/// The text of the completions in `events`, joined in order. An event that is no
/// completion adds nothing.
pub open spec fn merged<E>(events: Seq<Result<Option<String>, E>>) -> Seq<char>
    decreases events.len(),
{
    if events.len() == 0 {
        Seq::empty()
    } else {
        let before = merged(events.drop_last());
        match events.last() {
            Ok(Some(completion)) => before + completion@,
            _ => before,
        }
    }
}

/// Every event before position `n` was read without error.
pub open spec fn all_read<E>(events: Seq<Result<Option<String>, E>>, n: int) -> bool {
    forall|i: int| 0 <= i < n ==> (#[trigger] events[i]) is Ok
}

/// Merges the completions of a whole stream into one text. The first error in
/// the stream is handed back instead.
pub fn merge_sse<E>(events: Vec<Result<Option<String>, E>>) -> (text: Result<String, E>)
    ensures
        match text {
            Ok(text) => all_read(events@, events@.len() as int) && text@ == merged(events@),
            Err(error) => exists|n: int|
                0 <= n < events@.len() && #[trigger] all_read(events@, n) && events@[n] == Err::<
                    Option<String>,
                    E,
                >(error),
        },
{
    let ghost all = events@;
    let mut text: String = String::new();
    for event in iter: events
        invariant
            iter.seq() == all,
            all_read(all, iter.index() as int),
            text@ == merged(all.take(iter.index() as int)),
    {
        let ghost n = iter.index() as int;
        proof {
            assert(all.take(n + 1).drop_last() =~= all.take(n));
            assert(all.take(n + 1).last() == all[n]);
        }
        match event {
            Ok(Some(completion)) => {
                text.append(completion.as_str());
            },
            Ok(None) => {},
            Err(error) => {
                assert(all_read(all, n));
                return Err(error);
            },
        }
    }
    assert(all.take(all.len() as int) =~= all);
    Ok(text)
}

/// The message of the assistant that holds one text block.
pub open spec fn assistant_text(text: String) -> MessageView {
    MessageView {
        role: Role::Assistant,
        content: MessageContentView::Blocks(seq![ContentBlock::Text { text, extra: None }]),
    }
}

/// Makes the message of the assistant that holds one text block.
pub fn assistant_message(text: String) -> (message: Message)
    ensures
        message@ == assistant_text(text),
{
    let mut blocks: Vec<ContentBlock> = Vec::new();
    blocks.push(ContentBlock::text(text));
    assert(blocks@ =~= seq![ContentBlock::Text { text, extra: None }]);
    Message::new_blocks(Role::Assistant, blocks)
}

impl<S> vstd::std_specs::convert::FromSpecImpl<S> for Message where S: Into<String> {
    open spec fn obeys_from_spec() -> bool {
        false
    }

    open spec fn from_spec(v: S) -> Self {
        arbitrary()
    }
}

impl<S> From<S> for Message where S: Into<String> {
    /// What can become a string becomes a message of the assistant with that
    /// string.
    fn from(str: S) -> (message: Self)
        ensures
            exists|text: String| #[trigger]
                call_ensures(S::into, (str,), text) && message@ == assistant_text(text),
    {
        assistant_message(str.into())
    }
}

/// What a reader of completions is to do next: let the parser open the message,
/// give the parser a completion, go on, send an error and end, or let the parser
/// finish and end.
#[derive(Debug)]
pub enum ParserCommand {
    Open,
    Feed(String),
    Skip,
    Fail(StreamEvent),
    Finish,
}

/// One thing that a reader of completions does with its parser.
pub ghost enum ParserStep {
    Open,
    Feed(Seq<char>),
    Fail(Seq<char>),
    Finish,
}

/// What one reading asks for; `None` where it asks for nothing. The end of the
/// stream is no reading.
pub open spec fn parser_step(item: Option<Upstream<String>>) -> Option<ParserStep> {
    match item {
        Some(Upstream::Parsed(completion)) => if completion@.len() == 0 {
            None
        } else {
            Some(ParserStep::Feed(completion@))
        },
        Some(Upstream::Unparsed) => None,
        Some(Upstream::Failed(reason)) => Some(ParserStep::Fail(reason@)),
        None => Some(ParserStep::Finish),
    }
}

/// The command says to take the step. A failure is sent as an internal error
/// with its reason.
pub open spec fn says(command: ParserCommand, step: Option<ParserStep>) -> bool {
    match command {
        ParserCommand::Open => step == Some(ParserStep::Open),
        ParserCommand::Feed(completion) => step == Some(ParserStep::Feed(completion@)),
        ParserCommand::Skip => step is None,
        ParserCommand::Fail(StreamEvent::Error { error }) => {
            &&& error.type_@ == "internal_error"@
            &&& step == Some(ParserStep::Fail(error.message@))
        },
        ParserCommand::Fail(_) => false,
        ParserCommand::Finish => step == Some(ParserStep::Finish),
    }
}

/// Decides what one reading asks for; `None` is the end of the stream.
pub fn parser_command(item: Option<Upstream<String>>) -> (command: ParserCommand)
    ensures
        says(command, parser_step(item)),
{
    match item {
        Some(Upstream::Parsed(completion)) => if completion.as_str().is_empty() {
            ParserCommand::Skip
        } else {
            ParserCommand::Feed(completion)
        },
        Some(Upstream::Unparsed) => ParserCommand::Skip,
        Some(Upstream::Failed(reason)) => ParserCommand::Fail(
            StreamEvent::Error {
                error: StreamError { type_: "internal_error".to_owned(), message: reason },
            },
        ),
        None => ParserCommand::Finish,
    }
}

/// All that a reader does with its parser after the opening when `items` are read
/// one after another and then the stream ends. A failure ends it early.
pub open spec fn parser_run(items: Seq<Upstream<String>>) -> Seq<ParserStep>
    decreases items.len(),
{
    if items.len() == 0 {
        seq![ParserStep::Finish]
    } else {
        match parser_step(Some(items[0])) {
            Some(ParserStep::Feed(completion)) => seq![ParserStep::Feed(completion)] + parser_run(
                items.drop_first(),
            ),
            Some(ParserStep::Fail(reason)) => seq![ParserStep::Fail(reason)],
            _ => parser_run(items.drop_first()),
        }
    }
}

/// A reader ends once: between the opening and the last thing it does it only
/// feeds the parser, and never with an empty completion.
pub proof fn law_parser_ends_once(items: Seq<Upstream<String>>, i: int)
    requires
        0 <= i < parser_run(items).len() - 1,
    ensures
        parser_run(items)[i] is Feed,
        parser_run(items)[i]->Feed_0.len() > 0,
    decreases items.len(),
{
    let rest = items.drop_first();
    if items.len() > 0 {
        match parser_step(Some(items[0])) {
            Some(ParserStep::Feed(completion)) => {
                if i > 0 {
                    law_parser_ends_once(rest, i - 1);
                    assert(parser_run(items)[i] == parser_run(rest)[i - 1]);
                }
            },
            Some(ParserStep::Fail(reason)) => {},
            _ => {
                law_parser_ends_once(rest, i);
            },
        }
    }
}

/// The last thing a reader does is to let the parser finish exactly where no
/// reading failed; otherwise it is to send the error.
pub proof fn law_parser_finishes_iff_unbroken(items: Seq<Upstream<String>>)
    ensures
        parser_run(items).len() > 0,
        parser_run(items).last() == ParserStep::Finish <==> !some_failed(items),
        parser_run(items).last() is Fail <==> some_failed(items),
    decreases items.len(),
{
    if items.len() > 0 {
        let rest = items.drop_first();
        law_parser_finishes_iff_unbroken(rest);
        assert(some_failed(items) <==> items[0] is Failed || some_failed(rest)) by {
            if some_failed(items) {
                let i = choose|i: int| 0 <= i < items.len() && (#[trigger] items[i]) is Failed;
                if i > 0 {
                    assert(rest[i - 1] is Failed);
                }
            }
            if some_failed(rest) {
                let i = choose|i: int| 0 <= i < rest.len() && (#[trigger] rest[i]) is Failed;
                assert(items[i + 1] is Failed);
            }
        }
    }
}

/// Reads the completions of a stream on behalf of a parser, from the opening of
/// the message to its end.
pub struct CompletionReader {
    done: bool,
    opening: bool,
    steps: Ghost<Seq<ParserStep>>,
}

/// A reader as a mathematical value: whether it is done, and all that it has had
/// its parser do so far.
#[verifier::ext_equal]
pub ghost struct Reader {
    pub done: bool,
    pub steps: Seq<ParserStep>,
}

impl Reader {
    /// A reader that has opened the message and read nothing.
    pub open spec fn started() -> Self {
        Reader { done: false, steps: seq![ParserStep::Open] }
    }

    /// The reader after one more reading; `None` is the end of the stream. One that
    /// is done stays as it is.
    pub open spec fn read(self, item: Option<Upstream<String>>) -> Self {
        if self.done {
            self
        } else {
            match parser_step(item) {
                Some(step) => Reader { done: !(step is Feed), steps: self.steps.push(step) },
                None => self,
            }
        }
    }

    /// The reader after it was told whether the events of its last step could be
    /// sent. Where nobody receives them it is done, but for the opening.
    pub open spec fn sent(self, delivered: bool) -> Self {
        if delivered || self.steps.last() is Open {
            self
        } else {
            Reader { done: true, ..self }
        }
    }

    /// The reader after `items` were read one after another.
    pub open spec fn read_all(self, items: Seq<Upstream<String>>) -> Self
        decreases items.len(),
    {
        if items.len() == 0 {
            self
        } else {
            self.read(Some(items[0])).read_all(items.drop_first())
        }
    }

    /// What holds of a reader at any time: it opened the message first and once,
    /// and as long as it is not done it has only fed the parser since.
    pub open spec fn wf(self) -> bool {
        &&& self.steps.len() > 0
        &&& self.steps[0] is Open
        &&& forall|i: int| 0 < i < self.steps.len() ==> !((#[trigger] self.steps[i]) is Open)
        &&& forall|i: int|
            0 < i < self.steps.len() && (i < self.steps.len() - 1 || !self.done)
                ==> (#[trigger] self.steps[i]) is Feed
    }
}

impl View for CompletionReader {
    type V = Reader;

    closed spec fn view(&self) -> Reader {
        Reader { done: self.done, steps: self.steps@ }
    }
}

impl CompletionReader {
    /// The reader is in order.
    pub closed spec fn wf(&self) -> bool {
        &&& self@.wf()
        &&& self.opening == (self.steps@.len() == 1)
    }

    /// At any time the reader has opened the message first and once.
    pub proof fn law_always_opened(&self)
        requires
            self.wf(),
        ensures
            self@.wf(),
    {
    }

    /// Starts to read: the first thing to do is to let the parser open the
    /// message.
    pub fn start() -> (started: (Self, ParserCommand))
        ensures
            started.0.wf(),
            started.0@ == Reader::started(),
            says(started.1, Some(ParserStep::Open)),
    {
        let ghost steps = Reader::started().steps;
        let reader = CompletionReader { done: false, opening: true, steps: Ghost(steps) };
        (reader, ParserCommand::Open)
    }

    /// Takes in one reading, or the end of the stream, and says what to do. A
    /// reader that is done asks for nothing.
    pub fn read(&mut self, item: Option<Upstream<String>>) -> (command: ParserCommand)
        requires
            old(self).wf(),
        ensures
            final(self).wf(),
            final(self)@ == old(self)@.read(item),
            says(
                command,
                if old(self)@.done {
                    None
                } else {
                    parser_step(item)
                },
            ),
    {
        if self.done {
            return ParserCommand::Skip;
        }
        let ghost step = parser_step(item);
        let command = parser_command(item);
        match &command {
            ParserCommand::Skip => {
                return command;
            },
            ParserCommand::Feed(_) => {},
            _ => {
                self.done = true;
            },
        }
        self.opening = false;
        self.steps = Ghost(self.steps@.push(step->0));
        command
    }

    /// Takes in whether the events of the last step could be sent. The reader is
    /// done where nobody receives them; of the opening this is not asked.
    pub fn sent(&mut self, delivered: bool)
        requires
            old(self).wf(),
        ensures
            final(self).wf(),
            final(self)@ == old(self)@.sent(delivered),
    {
        if !delivered && !self.opening {
            self.done = true;
        }
    }

    /// Tells whether there is nothing more to do.
    pub fn is_done(&self) -> (done: bool)
        ensures
            done == self@.done,
    {
        self.done
    }
}

/// All that a reader has its parser do when `items` are read one after another
/// and then the stream ends: it opens the message, and then goes through the
/// stream.
pub proof fn law_reader_opens_then_runs(items: Seq<Upstream<String>>)
    ensures
        Reader::started().read_all(items).read(None).steps == seq![ParserStep::Open] + parser_run(
            items,
        ),
        Reader::started().read_all(items).read(None).done,
{
    lemma_reader_runs(Reader::started(), items);
}

proof fn lemma_reader_runs(reader: Reader, items: Seq<Upstream<String>>)
    requires
        !reader.done,
    ensures
        reader.read_all(items).read(None).steps == reader.steps + parser_run(items),
        reader.read_all(items).read(None).done,
    decreases items.len(),
{
    if items.len() == 0 {
        assert(reader.steps.push(ParserStep::Finish) =~= reader.steps + parser_run(items));
    } else {
        let next = reader.read(Some(items[0]));
        let rest = items.drop_first();
        if next.done {
            law_done_reader_stays(next, rest);
            assert(next.steps =~= reader.steps + parser_run(items));
        } else {
            lemma_reader_runs(next, rest);
            assert(next.steps + parser_run(rest) =~= reader.steps + parser_run(items));
        }
    }
}

/// A reader that is done has its parser do nothing more.
pub proof fn law_done_reader_stays(reader: Reader, items: Seq<Upstream<String>>)
    requires
        reader.done,
    ensures
        reader.read_all(items) == reader,
        reader.read_all(items).read(None) == reader,
    decreases items.len(),
{
    if items.len() > 0 {
        law_done_reader_stays(reader, items.drop_first());
    }
}

/// Where nobody receives what a step after the opening gave, the reader is done at
/// once: the parser is not told to finish, and nothing more is read.
pub proof fn law_unreceived_ends_reading(reader: Reader, items: Seq<Upstream<String>>)
    requires
        reader.wf(),
        reader.steps.len() > 1,
    ensures
        reader.sent(false).read_all(items).read(None).steps == reader.steps,
{
    assert(reader.steps.last() == reader.steps[reader.steps.len() - 1]);
    law_done_reader_stays(reader.sent(false), items);
}

/// All the text that a reader gives its parser.
pub open spec fn fed(steps: Seq<ParserStep>) -> Seq<char>
    decreases steps.len(),
{
    if steps.len() == 0 {
        Seq::empty()
    } else {
        match steps[0] {
            ParserStep::Feed(completion) => completion + fed(steps.drop_first()),
            _ => fed(steps.drop_first()),
        }
    }
}

/// The same readings as a stream that is merged into one text.
pub open spec fn as_events(items: Seq<Upstream<String>>) -> Seq<Result<Option<String>, String>> {
    items.map_values(
        |item: Upstream<String>|
            match item {
                Upstream::Parsed(completion) => Ok(Some(completion)),
                Upstream::Unparsed => Ok(None),
                Upstream::Failed(reason) => Err(reason),
            },
    )
}

/// A stream that is read without failure gives the parser exactly the text that
/// merging it gives.
pub proof fn law_parser_is_fed_the_merged_text(items: Seq<Upstream<String>>)
    requires
        !some_failed(items),
    ensures
        fed(Reader::started().read_all(items).read(None).steps) == merged(as_events(items)),
{
    law_reader_opens_then_runs(items);
    lemma_run_feeds_merged(items);
    let steps = seq![ParserStep::Open] + parser_run(items);
    assert(steps.drop_first() =~= parser_run(items));
}

proof fn lemma_run_feeds_merged(items: Seq<Upstream<String>>)
    requires
        !some_failed(items),
    ensures
        fed(parser_run(items)) == merged(as_events(items)),
    decreases items.len(),
{
    let events = as_events(items);
    if items.len() == 0 {
        assert(parser_run(items).drop_first() =~= Seq::<ParserStep>::empty());
        reveal_with_fuel(fed, 2);
    } else {
        let rest = items.drop_first();
        assert(!(items[0] is Failed));
        assert(!some_failed(rest)) by {
            if some_failed(rest) {
                let i = choose|i: int| 0 <= i < rest.len() && (#[trigger] rest[i]) is Failed;
                assert(items[i + 1] is Failed);
            }
        }
        lemma_run_feeds_merged(rest);
        assert(events.drop_first() =~= as_events(rest));
        lemma_merged_first(events);
        match items[0] {
            Upstream::Parsed(completion) => {
                if completion@.len() > 0 {
                    assert(parser_run(items).drop_first() =~= parser_run(rest));
                } else {
                    assert(completion@ + merged(as_events(rest)) =~= merged(as_events(rest)));
                }
            },
            _ => {
                assert(Seq::<char>::empty() + merged(as_events(rest)) =~= merged(as_events(rest)));
            },
        }
    }
}

proof fn lemma_merged_first<E>(events: Seq<Result<Option<String>, E>>)
    requires
        events.len() > 0,
    ensures
        merged(events) == (match events[0] {
            Ok(Some(completion)) => completion@,
            _ => Seq::empty(),
        }) + merged(events.drop_first()),
    decreases events.len(),
{
    let rest = events.drop_first();
    let first = match events[0] {
        Ok(Some(completion)) => completion@,
        _ => Seq::empty(),
    };
    if events.len() == 1 {
        assert(events.drop_last() =~= Seq::<Result<Option<String>, E>>::empty());
        assert(merged(events.drop_last()) =~= Seq::<char>::empty());
        assert(merged(events) =~= first + merged(rest));
    } else {
        lemma_merged_first(events.drop_last());
        assert(events.drop_last().drop_first() =~= rest.drop_last());
        match events.last() {
            Ok(Some(completion)) => {
                assert((first + merged(rest.drop_last())) + completion@ =~= first + (merged(
                    rest.drop_last(),
                ) + completion@));
            },
            _ => {},
        }
    }
}

/// What is merged in two parts is the two texts one after the other; a completion
/// on its own is its text, and anything else is no text.
pub proof fn law_merged_in_parts<E>(
    first: Seq<Result<Option<String>, E>>,
    second: Seq<Result<Option<String>, E>>,
    event: Result<Option<String>, E>,
)
    ensures
        merged(first + second) == merged(first) + merged(second),
        event matches Ok(Some(completion)) ==> merged(seq![event]) == completion@,
        !(event is Ok && event->Ok_0 is Some) ==> merged(seq![event]).len() == 0,
        merged(Seq::<Result<Option<String>, E>>::empty()).len() == 0,
    decreases second.len(),
{
    assert(seq![event].drop_last() =~= Seq::<Result<Option<String>, E>>::empty());
    reveal_with_fuel(merged, 2);
    match event {
        Ok(Some(completion)) => {
            assert(merged(seq![event]) =~= completion@);
        },
        _ => {},
    }
    if second.len() == 0 {
        assert(first + second =~= first);
        assert(merged(first) + merged(second) =~= merged(first));
    } else {
        assert((first + second).drop_last() =~= first + second.drop_last());
        law_merged_in_parts(first, second.drop_last(), event);
        match second.last() {
            Ok(Some(completion)) => {
                assert((merged(first) + merged(second.drop_last())) + completion@ =~= merged(first)
                    + (merged(second.drop_last()) + completion@));
            },
            _ => {},
        }
    }
}

/// Everything before a position was read exactly where no error stands before it.
pub proof fn law_when_all_was_read<E>(events: Seq<Result<Option<String>, E>>, n: int)
    requires
        0 <= n <= events.len(),
    ensures
        all_read(events, n) <==> !(exists|i: int| 0 <= i < n && (#[trigger] events[i]) is Err),
{
}

/// A text becomes a message of the assistant with one block, which is that text.
pub proof fn law_a_text_is_said_by_the_assistant(text: String)
    ensures
        assistant_text(text).role == Role::Assistant,
        assistant_text(text).content matches MessageContentView::Blocks(blocks) && blocks.len() == 1
            && blocks[0] == (ContentBlock::Text { text, extra: None }),
{
}

/// A completion that is not empty is fed to the parser as it is, a failure is
/// passed on with its reason, the end of the stream lets the parser finish, and
/// nothing else asks for anything.
pub proof fn law_what_a_reading_asks_for(item: Option<Upstream<String>>)
    ensures
        item matches Some(Upstream::Parsed(completion)) ==> {
            &&& completion@.len() > 0 ==> parser_step(item) == Some(ParserStep::Feed(completion@))
            &&& completion@.len() == 0 ==> parser_step(item) is None
        },
        item matches Some(Upstream::Failed(reason)) ==> parser_step(item) == Some(
            ParserStep::Fail(reason@),
        ),
        item matches Some(Upstream::Unparsed) ==> parser_step(item) is None,
        item is None ==> parser_step(item) == Some(ParserStep::Finish),
{
}

/// A command says one thing only: to open, to feed the very completion that it
/// holds, to send an internal error with the reason, to finish, or to go on.
pub proof fn law_what_a_command_says(command: ParserCommand, step: Option<ParserStep>)
    requires
        says(command, step),
    ensures
        step is None <==> command is Skip,
        step == Some(ParserStep::Open) <==> command is Open,
        step == Some(ParserStep::Finish) <==> command is Finish,
        step matches Some(ParserStep::Feed(completion)) ==> (command matches ParserCommand::Feed(
            given,
        ) && given@ == completion),
        step matches Some(ParserStep::Fail(reason)) ==> (command matches ParserCommand::Fail(
            StreamEvent::Error { error },
        ) && error.type_@ == "internal_error"@ && error.message@ == reason),
{
}

/// What one reading does to a reader: it adds the step that it asks for, and ends
/// the reader where that is an error or the end. A reader that is done takes in
/// nothing.
pub proof fn law_what_a_reading_does(reader: Reader, item: Option<Upstream<String>>)
    ensures
        reader.done ==> reader.read(item) == reader,
        !reader.done ==> {
            &&& item matches Some(Upstream::Parsed(completion)) ==> {
                &&& !reader.read(item).done
                &&& completion@.len() > 0 ==> reader.read(item).steps == reader.steps.push(
                    ParserStep::Feed(completion@),
                )
                &&& completion@.len() == 0 ==> reader.read(item).steps == reader.steps
            }
            &&& item matches Some(Upstream::Unparsed) ==> reader.read(item) == reader
            &&& item matches Some(Upstream::Failed(reason)) ==> {
                &&& reader.read(item).done
                &&& reader.read(item).steps == reader.steps.push(ParserStep::Fail(reason@))
            }
            &&& item is None ==> {
                &&& reader.read(item).done
                &&& reader.read(item).steps == reader.steps.push(ParserStep::Finish)
            }
        },
        !Reader::started().done,
        Reader::started().steps == seq![ParserStep::Open],
{
}

/// A reader goes on where its events were received, and also where the opening was
/// not; it is done where anything later was not. Its steps stay as they were.
pub proof fn law_what_delivery_does(reader: Reader, delivered: bool)
    requires
        reader.steps.len() > 0,
    ensures
        reader.sent(delivered).steps == reader.steps,
        delivered ==> reader.sent(delivered).done == reader.done,
        !delivered && reader.steps.last() == ParserStep::Open ==> reader.sent(delivered).done
            == reader.done,
        !delivered && reader.steps.last() != ParserStep::Open ==> reader.sent(delivered).done,
{
}

/// The first failure ends the run with its reason, and nothing after it counts:
/// before it the run is what it would have been without the end.
pub proof fn law_first_failure_is_reported(
    before: Seq<Upstream<String>>,
    reason: String,
    after: Seq<Upstream<String>>,
)
    requires
        !some_failed(before),
    ensures
        parser_run(before.push(Upstream::Failed(reason)) + after) == parser_run(
            before,
        ).drop_last().push(ParserStep::Fail(reason@)),
    decreases before.len(),
{
    let all = before.push(Upstream::Failed(reason)) + after;
    law_parser_finishes_iff_unbroken(before);
    if before.len() == 0 {
        assert(all[0] == Upstream::<String>::Failed(reason));
        assert(parser_run(before).drop_last().push(ParserStep::Fail(reason@)) =~= seq![
            ParserStep::Fail(reason@),
        ]);
    } else {
        let rest = before.drop_first();
        assert(all[0] == before[0]);
        assert(!(before[0] is Failed));
        assert(all.drop_first() =~= rest.push(Upstream::Failed(reason)) + after);
        assert(!some_failed(rest)) by {
            if some_failed(rest) {
                let i = choose|i: int| 0 <= i < rest.len() && (#[trigger] rest[i]) is Failed;
                assert(before[i + 1] is Failed);
            }
        }
        law_first_failure_is_reported(rest, reason, after);
        law_parser_finishes_iff_unbroken(rest);
        match before[0] {
            Upstream::Parsed(completion) => {
                if completion@.len() > 0 {
                    let head = seq![ParserStep::Feed(completion@)];
                    assert(head + parser_run(rest).drop_last().push(ParserStep::Fail(reason@))
                        =~= (head + parser_run(rest)).drop_last().push(ParserStep::Fail(reason@)));
                }
            },
            _ => {},
        }
    }
}

} // verus!
