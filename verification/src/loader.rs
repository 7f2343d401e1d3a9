//! Reading a file in chunks: what to do next, and which messages to send along the way.

use vstd::prelude::*;
use vstd::string::*;
use crate::app::Message;

verus! {

/// Bytes read from disk per chunk, at most.
pub const READ_CHUNK: usize = 1048576;

/// Where a read stands.
#[derive(Clone, Copy, PartialEq, Eq, Structural, Debug)]
pub enum Loader {
    /// The file's metadata have been asked for.
    Metadata,
    /// The file's size has been sent.
    Announcing,
    /// The file is being opened.
    Opening,
    /// The next bytes have been asked for.
    Reading,
    /// A chunk has been sent.
    Delivering,
    /// The read is over.
    Finished,
}

/// What came of the last step. Errors carry their description.
pub enum LoadEvent {
    /// The length of the file.
    Metadata(Result<u64, String>),
    Opened(Result<(), String>),
    /// The bytes that were read; none at the end of the file.
    Read(Result<Vec<u8>, String>),
    /// Whether the message went out: it does not once nobody listens any more.
    Sent(bool),
}

/// What to do next.
pub enum LoadAction {
    /// Send a message and report whether it went out.
    Send(Message),
    /// Send a message; nothing follows.
    SendLast(Message),
    Open,
    /// Read the next bytes, `at_most` so many of them.
    Read { at_most: usize },
    Stop,
}

/// The answer to [`LoadAction::Read`] when `n` bytes were read into the front of `scratch`.
pub fn chunk_read(scratch: &[u8], n: usize) -> (event: LoadEvent)
    requires
        n <= scratch@.len() <= READ_CHUNK,
    ensures
        event matches LoadEvent::Read(Ok(chunk)) && chunk@ == scratch@.take(n as int)
            && chunk@.len() <= READ_CHUNK,
        Loader::Reading.awaits_event(event),
{
    let mut chunk: Vec<u8> = Vec::new();
    chunk.extend_from_slice(vstd::slice::slice_subrange(scratch, 0, n));
    assert(chunk@ =~= scratch@.take(n as int));
    LoadEvent::Read(Ok(chunk))
}

impl Loader {
    /// The event that this state waits for; a read never yields more than was asked for.
    pub open spec fn awaits_event(self, event: LoadEvent) -> bool {
        match self {
            Loader::Metadata => event is Metadata,
            Loader::Announcing => event is Sent,
            Loader::Opening => event is Opened,
            Loader::Reading => match event {
                LoadEvent::Read(Ok(chunk)) => chunk@.len() <= READ_CHUNK,
                LoadEvent::Read(Err(_)) => true,
                _ => false,
            },
            Loader::Delivering => event is Sent,
            Loader::Finished => false,
        }
    }

    /// Whether this state waits for `event`.
    pub fn awaits(&self, event: &LoadEvent) -> (r: bool)
        ensures
            r == self.awaits_event(*event),
    {
        match (self, event) {
            (Loader::Metadata, LoadEvent::Metadata(_)) => true,
            (Loader::Announcing, LoadEvent::Sent(_)) => true,
            (Loader::Opening, LoadEvent::Opened(_)) => true,
            (Loader::Reading, LoadEvent::Read(Ok(chunk))) => chunk.len() <= READ_CHUNK,
            (Loader::Reading, LoadEvent::Read(Err(_))) => true,
            (Loader::Delivering, LoadEvent::Sent(_)) => true,
            _ => false,
        }
    }

    /// The state after `event`.
    pub open spec fn after(self, event: LoadEvent) -> Loader {
        match event {
            LoadEvent::Metadata(Ok(len)) => if len <= usize::MAX {
                Loader::Announcing
            } else {
                Loader::Finished
            },
            LoadEvent::Opened(Ok(())) => Loader::Reading,
            LoadEvent::Read(Ok(chunk)) => if chunk@.len() > 0 {
                Loader::Delivering
            } else {
                Loader::Finished
            },
            LoadEvent::Sent(true) => if self is Announcing {
                Loader::Opening
            } else {
                Loader::Reading
            },
            _ => Loader::Finished,
        }
    }

    /// `action` is what `event` calls for.
    pub open spec fn calls_for(self, event: LoadEvent, action: LoadAction) -> bool {
        match event {
            LoadEvent::Metadata(Ok(len)) => if len <= usize::MAX {
                action == LoadAction::Send(Message::FileLoadMeta { total_len: len as usize })
            } else {
                action matches LoadAction::SendLast(Message::FileLoadErr(text)) && text@
                    == "file is larger than this platform's address space"@
            },
            LoadEvent::Metadata(Err(e)) => action matches LoadAction::SendLast(
                Message::FileLoadErr(text),
            ) && text@ == "metadata: "@ + e@,
            LoadEvent::Opened(Ok(())) => action == (LoadAction::Read { at_most: READ_CHUNK }),
            LoadEvent::Opened(Err(e)) => action == LoadAction::SendLast(Message::FileLoadErr(e)),
            LoadEvent::Read(Ok(chunk)) => if chunk@.len() > 0 {
                action == LoadAction::Send(Message::FileLoadChunk(chunk))
            } else {
                action == LoadAction::SendLast(Message::FileLoadDone)
            },
            LoadEvent::Read(Err(e)) => action == LoadAction::SendLast(Message::FileLoadErr(e)),
            LoadEvent::Sent(true) => if self is Announcing {
                action is Open
            } else {
                action == (LoadAction::Read { at_most: READ_CHUNK })
            },
            LoadEvent::Sent(false) => action is Stop,
        }
    }

    /// A new read begins by asking for the metadata.
    pub fn start() -> (loader: Loader)
        ensures
            loader == Loader::Metadata,
    {
        Loader::Metadata
    }

    /// Take the next step.
    pub fn step(&mut self, event: LoadEvent) -> (action: LoadAction)
        requires
            old(self).awaits_event(event),
        ensures
            *final(self) == old(self).after(event),
            old(self).calls_for(event, action),
    {
        match event {
            LoadEvent::Metadata(Ok(len)) => {
                if len <= usize::MAX as u64 {
                    *self = Loader::Announcing;
                    LoadAction::Send(Message::FileLoadMeta { total_len: len as usize })
                } else {
                    *self = Loader::Finished;
                    LoadAction::SendLast(
                        Message::FileLoadErr(
                            "file is larger than this platform's address space".to_owned(),
                        ),
                    )
                }
            },
            LoadEvent::Metadata(Err(e)) => {
                *self = Loader::Finished;
                let mut text = "metadata: ".to_owned();
                text.append(e.as_str());
                LoadAction::SendLast(Message::FileLoadErr(text))
            },
            LoadEvent::Opened(Ok(_)) => {
                *self = Loader::Reading;
                LoadAction::Read { at_most: READ_CHUNK }
            },
            LoadEvent::Opened(Err(e)) => {
                *self = Loader::Finished;
                LoadAction::SendLast(Message::FileLoadErr(e))
            },
            LoadEvent::Read(Ok(chunk)) => {
                if chunk.len() > 0 {
                    *self = Loader::Delivering;
                    LoadAction::Send(Message::FileLoadChunk(chunk))
                } else {
                    *self = Loader::Finished;
                    LoadAction::SendLast(Message::FileLoadDone)
                }
            },
            LoadEvent::Read(Err(e)) => {
                *self = Loader::Finished;
                LoadAction::SendLast(Message::FileLoadErr(e))
            },
            LoadEvent::Sent(true) => match *self {
                Loader::Announcing => {
                    *self = Loader::Opening;
                    LoadAction::Open
                },
                _ => {
                    *self = Loader::Reading;
                    LoadAction::Read { at_most: READ_CHUNK }
                },
            },
            LoadEvent::Sent(false) => {
                *self = Loader::Finished;
                LoadAction::Stop
            },
        }
    }
}

/// Every action that has an answer leads to the state that waits for that answer, and the others
/// end the read: after them no event is awaited.
pub proof fn law_every_action_is_answered(
    loader: Loader,
    event: LoadEvent,
    action: LoadAction,
    answer: LoadEvent,
)
    requires
        loader.awaits_event(event),
        loader.calls_for(event, action),
    ensures
        loader.after(event).awaits_event(answer) <==> match action {
            LoadAction::Send(_) => answer is Sent,
            LoadAction::SendLast(_) => false,
            LoadAction::Open => answer is Opened,
            LoadAction::Read { at_most } => match answer {
                LoadEvent::Read(Ok(chunk)) => chunk@.len() <= at_most,
                LoadEvent::Read(Err(_)) => true,
                _ => false,
            },
            LoadAction::Stop => false,
        },
        loader.after(event) is Finished <==> action is SendLast || action is Stop,
{
}

/// The first message is the file's size or an error, and no size is sent later; only the end of a
/// read is told by [`Message::FileLoadDone`] or [`Message::FileLoadErr`]. Every chunk that is sent
/// holds a byte, and at most [`READ_CHUNK`] of them.
pub proof fn law_message_order(loader: Loader, event: LoadEvent, action: LoadAction)
    requires
        loader.awaits_event(event),
        loader.calls_for(event, action),
    ensures
        action matches LoadAction::Send(msg) ==> if loader is Metadata {
            msg is FileLoadMeta
        } else {
            loader is Reading && (msg matches Message::FileLoadChunk(chunk) && 1 <= chunk@.len()
                <= READ_CHUNK)
        },
        action matches LoadAction::SendLast(msg) ==> msg is FileLoadErr || (msg is FileLoadDone
            && loader is Reading),
{
}

/// The state after several events, from the beginning of a read.
pub open spec fn state_after_all(events: Seq<LoadEvent>) -> Loader
    decreases events.len(),
{
    if events.len() == 0 {
        Loader::Metadata
    } else {
        state_after_all(events.drop_last()).after(events.last())
    }
}

/// `actions` are what a read does upon `events`, each of them awaited.
pub open spec fn is_run(events: Seq<LoadEvent>, actions: Seq<LoadAction>) -> bool
    decreases events.len(),
{
    if events.len() == 0 {
        actions.len() == 0
    } else {
        let before = state_after_all(events.drop_last());
        &&& actions.len() == events.len()
        &&& is_run(events.drop_last(), actions.drop_last())
        &&& before.awaits_event(events.last())
        &&& before.calls_for(events.last(), actions.last())
    }
}

/// The messages among some actions, in order.
pub open spec fn messages_of(actions: Seq<LoadAction>) -> Seq<Message>
    decreases actions.len(),
{
    if actions.len() == 0 {
        Seq::empty()
    } else {
        let before = messages_of(actions.drop_last());
        match actions.last() {
            LoadAction::Send(msg) => before.push(msg),
            LoadAction::SendLast(msg) => before.push(msg),
            _ => before,
        }
    }
}

/// What happens while a file of `len` bytes is opened and read as `chunks`, before its end.
pub open spec fn reading_events(len: u64, chunks: Seq<Vec<u8>>) -> Seq<LoadEvent>
    decreases chunks.len(),
{
    if chunks.len() == 0 {
        seq![LoadEvent::Metadata(Ok(len)), LoadEvent::Sent(true), LoadEvent::Opened(Ok(()))]
    } else {
        reading_events(len, chunks.drop_last()).push(LoadEvent::Read(Ok(chunks.last()))).push(
            LoadEvent::Sent(true),
        )
    }
}

proof fn lemma_reading_run(len: u64, chunks: Seq<Vec<u8>>, actions: Seq<LoadAction>)
    requires
        len <= usize::MAX,
        forall|i: int| 0 <= i < chunks.len() ==> (#[trigger] chunks[i])@.len() > 0,
        is_run(reading_events(len, chunks), actions),
    ensures
        state_after_all(reading_events(len, chunks)) == Loader::Reading,
        messages_of(actions) == seq![Message::FileLoadMeta { total_len: len as usize }]
            + chunks.map_values(|c: Vec<u8>| Message::FileLoadChunk(c)),
        forall|i: int|
            0 <= i < chunks.len() ==> 1 <= (#[trigger] chunks[i])@.len() <= READ_CHUNK,
    decreases chunks.len(),
{
    let events = reading_events(len, chunks);
    if chunks.len() == 0 {
        let e2 = events.drop_last();
        let e1 = e2.drop_last();
        let e0 = e1.drop_last();
        let a2 = actions.drop_last();
        let a1 = a2.drop_last();
        assert(e0 =~= Seq::<LoadEvent>::empty());
        assert(e1.last() == LoadEvent::Metadata(Ok(len)));
        assert(e2.last() == LoadEvent::Sent(true));
        assert(events.last() == LoadEvent::Opened(Ok(())));
        assert(state_after_all(e0) == Loader::Metadata);
        assert(state_after_all(e1) == Loader::Announcing);
        assert(state_after_all(e2) == Loader::Opening);
        assert(is_run(e2, a2));
        assert(is_run(e1, a1));
        let meta = Message::FileLoadMeta { total_len: len as usize };
        assert(is_run(e0, a1.drop_last()));
        assert(a1.last() == LoadAction::Send(meta));
        assert(messages_of(a1.drop_last()) =~= Seq::<Message>::empty());
        assert(messages_of(a1) =~= seq![meta]);
        assert(a2.last() is Open);
        assert(messages_of(a2) == messages_of(a1));
        assert(actions.last() is Read);
        assert(messages_of(actions) == messages_of(a2));
        assert(messages_of(actions) =~= seq![Message::FileLoadMeta { total_len: len as usize }]
            + chunks.map_values(|c: Vec<u8>| Message::FileLoadChunk(c)));
    } else {
        let before = chunks.drop_last();
        let e1 = events.drop_last();
        let e0 = e1.drop_last();
        let a1 = actions.drop_last();
        let a0 = a1.drop_last();
        assert(e0 =~= reading_events(len, before));
        assert(e1.last() == LoadEvent::Read(Ok(chunks.last())));
        assert(events.last() == LoadEvent::Sent(true));
        assert(is_run(e1, a1));
        assert(is_run(e0, a0));
        lemma_reading_run(len, before, a0);
        assert(chunks.last()@.len() > 0);
        assert forall|i: int| 0 <= i < chunks.len() implies 1 <= (
        #[trigger] chunks[i])@.len() <= READ_CHUNK by {
            if i < before.len() {
                assert(before[i] == chunks[i]);
            }
        }
        assert(state_after_all(e1) == Loader::Delivering);
        assert(a1.last() == LoadAction::Send(Message::FileLoadChunk(chunks.last())));
        assert(messages_of(a1) == messages_of(a0).push(Message::FileLoadChunk(chunks.last())));
        assert(actions.last() is Read);
        assert(messages_of(actions) == messages_of(a1));
        assert(messages_of(actions) =~= seq![Message::FileLoadMeta { total_len: len as usize }]
            + chunks.map_values(|c: Vec<u8>| Message::FileLoadChunk(c)));
    }
}

/// Reading a file without a fault sends its size, its chunks in order, and that it is done,
/// nothing else; no chunk holds more than [`READ_CHUNK`] bytes; and a viewer that takes these
/// messages holds the file.
pub proof fn law_clean_read_delivers_file(
    len: u64,
    chunks: Seq<Vec<u8>>,
    end: Vec<u8>,
    actions: Seq<LoadAction>,
    app: crate::app::App,
    buffer: Seq<u8>,
)
    requires
        len <= usize::MAX,
        forall|i: int| 0 <= i < chunks.len() ==> (#[trigger] chunks[i])@.len() > 0,
        end@.len() == 0,
        is_run(reading_events(len, chunks).push(LoadEvent::Read(Ok(end))), actions),
    ensures
        state_after_all(reading_events(len, chunks).push(LoadEvent::Read(Ok(end))))
            == Loader::Finished,
        messages_of(actions) == crate::app::load_messages(len as usize, chunks),
        forall|i: int|
            0 <= i < chunks.len() ==> 1 <= (#[trigger] chunks[i])@.len() <= READ_CHUNK,
        crate::app::joined(chunks).len() == len ==> crate::app::after_all(
            app,
            buffer,
            messages_of(actions),
        ).1 == crate::app::joined(chunks),
{
    let events = reading_events(len, chunks).push(LoadEvent::Read(Ok(end)));
    assert(events.drop_last() =~= reading_events(len, chunks));
    assert(is_run(events.drop_last(), actions.drop_last()));
    lemma_reading_run(len, chunks, actions.drop_last());
    assert(messages_of(actions) =~= crate::app::load_messages(len as usize, chunks));
    crate::app::law_load_fills_buffer(app, buffer, len as usize, chunks);
}

proof fn lemma_reading_run_exists(len: u64, chunks: Seq<Vec<u8>>)
    requires
        len <= usize::MAX,
        forall|i: int|
            0 <= i < chunks.len() ==> 1 <= (#[trigger] chunks[i])@.len() <= READ_CHUNK,
    ensures
        exists|actions: Seq<LoadAction>| is_run(reading_events(len, chunks), actions),
    decreases chunks.len(),
{
    let events = reading_events(len, chunks);
    if chunks.len() == 0 {
        let actions = seq![
            LoadAction::Send(Message::FileLoadMeta { total_len: len as usize }),
            LoadAction::Open,
            LoadAction::Read { at_most: READ_CHUNK },
        ];
        let (e2, a2) = (events.drop_last(), actions.drop_last());
        let (e1, a1) = (e2.drop_last(), a2.drop_last());
        let (e0, a0) = (e1.drop_last(), a1.drop_last());
        assert(e0 =~= Seq::<LoadEvent>::empty());
        assert(is_run(e0, a0));
        assert(state_after_all(e0) == Loader::Metadata);
        assert(is_run(e1, a1));
        assert(state_after_all(e1) == Loader::Announcing);
        assert(is_run(e2, a2));
        assert(state_after_all(e2) == Loader::Opening);
        assert(is_run(events, actions));
    } else {
        let before = chunks.drop_last();
        lemma_reading_run_exists(len, before);
        let a0 = choose|actions: Seq<LoadAction>| is_run(reading_events(len, before), actions);
        lemma_reading_run(len, before, a0);
        let a1 = a0.push(LoadAction::Send(Message::FileLoadChunk(chunks.last())));
        let actions = a1.push(LoadAction::Read { at_most: READ_CHUNK });
        let e1 = events.drop_last();
        assert(e1.drop_last() =~= reading_events(len, before));
        assert(a1.drop_last() =~= a0);
        assert(actions.drop_last() =~= a1);
        assert(1 <= chunks.last()@.len() <= READ_CHUNK);
        assert(is_run(e1, a1));
        assert(state_after_all(e1) == Loader::Delivering);
        assert(is_run(events, actions));
    }
}

/// The events of reading a file without a fault are all awaited, to its very end: there is a run
/// of them.
pub proof fn law_clean_read_is_possible(len: u64, chunks: Seq<Vec<u8>>, end: Vec<u8>)
    requires
        len <= usize::MAX,
        forall|i: int|
            0 <= i < chunks.len() ==> 1 <= (#[trigger] chunks[i])@.len() <= READ_CHUNK,
        end@.len() == 0,
    ensures
        exists|actions: Seq<LoadAction>|
            is_run(reading_events(len, chunks).push(LoadEvent::Read(Ok(end))), actions),
{
    lemma_reading_run_exists(len, chunks);
    let before = choose|actions: Seq<LoadAction>| is_run(reading_events(len, chunks), actions);
    lemma_reading_run(len, chunks, before);
    let events = reading_events(len, chunks).push(LoadEvent::Read(Ok(end)));
    let actions = before.push(LoadAction::SendLast(Message::FileLoadDone));
    assert(events.drop_last() =~= reading_events(len, chunks));
    assert(actions.drop_last() =~= before);
    assert(is_run(events, actions));
}

/// Every fault is told, in the words of whoever met it, and ends the read; nothing else is told as
/// a fault. A read that nobody listens to any more ends without a word.
pub proof fn law_faults_are_told(loader: Loader, event: LoadEvent, action: LoadAction)
    requires
        loader.awaits_event(event),
        loader.calls_for(event, action),
    ensures
        event matches LoadEvent::Metadata(Err(e)) ==> (action matches LoadAction::SendLast(
            Message::FileLoadErr(text),
        ) && text@ == "metadata: "@ + e@),
        event matches LoadEvent::Metadata(Ok(len)) && len > usize::MAX ==> (
        action matches LoadAction::SendLast(Message::FileLoadErr(text)) && text@
            == "file is larger than this platform's address space"@),
        event matches LoadEvent::Opened(Err(e)) ==> action == LoadAction::SendLast(
            Message::FileLoadErr(e),
        ),
        event matches LoadEvent::Read(Err(e)) ==> action == LoadAction::SendLast(
            Message::FileLoadErr(e),
        ),
        event == LoadEvent::Sent(false) <==> action is Stop,
        (action matches LoadAction::SendLast(Message::FileLoadErr(_))) <==> {
            ||| event matches LoadEvent::Metadata(Err(_))
            ||| (event matches LoadEvent::Metadata(Ok(len)) && len > usize::MAX)
            ||| event matches LoadEvent::Opened(Err(_))
            ||| event matches LoadEvent::Read(Err(_))
        },
        action is Stop || action is SendLast <==> loader.after(event) is Finished,
{
}

/// What is sent is what was found: the size, or the bytes that were read, unchanged; and the end of
/// the file, once a read finds nothing more, and only then.
pub proof fn law_findings_are_sent(loader: Loader, event: LoadEvent, action: LoadAction)
    requires
        loader.awaits_event(event),
        loader.calls_for(event, action),
    ensures
        event matches LoadEvent::Metadata(Ok(len)) ==> (len <= usize::MAX ==> (
        action matches LoadAction::Send(Message::FileLoadMeta { total_len }) && total_len == len)),
        event matches LoadEvent::Read(Ok(chunk)) ==> (chunk@.len() > 0 ==> action
            == LoadAction::Send(Message::FileLoadChunk(chunk))),
        action == LoadAction::SendLast(Message::FileLoadDone) <==> (event matches LoadEvent::Read(
            Ok(chunk),
        ) && chunk@.len() == 0),
        action is Open <==> loader is Announcing && event == LoadEvent::Sent(true),
        action is Read <==> (event matches LoadEvent::Opened(Ok(_))) || (loader is Delivering
            && event == LoadEvent::Sent(true)),
        action matches LoadAction::Read { at_most } ==> at_most == 1048576,
{
}

}
