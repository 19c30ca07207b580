use vstd::prelude::*;
use std::collections::HashMap;
use crate::channel_state::{fresh_channel, read_len, ChannelState, ChannelView};

verus! {

broadcast use vstd::std_specs::hash::group_hash_axioms;

/// What the session-wide handler state holds: a record per live channel,
/// keyed by the engine's channel identifier, and one slot for the last
/// error the background driver observed.
pub ghost struct HandlerView<E> {
    pub channels: Map<u32, ChannelView>,
    pub last_error: Option<E>,
}

/// The handler state after a channel with identifier `id` was opened:
/// a fresh record stands under `id`; nothing else changes.
pub open spec fn after_open<E>(h: HandlerView<E>, id: u32) -> HandlerView<E> {
    HandlerView { channels: h.channels.insert(id, fresh_channel()), ..h }
}

/// The handler state after the driver recorded the error `e`.
pub open spec fn after_record_error<E>(h: HandlerView<E>, e: E) -> HandlerView<E> {
    HandlerView { last_error: Some(e), ..h }
}

/// The handler state after the last error was read: the slot is empty.
pub open spec fn after_last_error<E>(h: HandlerView<E>) -> HandlerView<E> {
    HandlerView { last_error: None, ..h }
}

/// The handler state after `f` was applied to the record of channel `id`;
/// unchanged where no such channel is known.
pub open spec fn after_update<E>(
    h: HandlerView<E>,
    id: u32,
    f: spec_fn(ChannelView) -> ChannelView,
) -> HandlerView<E> {
    if h.channels.contains_key(id) {
        HandlerView { channels: h.channels.insert(id, f(h.channels[id])), ..h }
    } else {
        h
    }
}

/// A channel record that the remote side has confirmed.
pub open spec fn with_confirmed(c: ChannelView) -> ChannelView {
    ChannelView { confirmed: true, ..c }
}

/// A channel record with `bytes` appended to its buffer.
pub open spec fn with_data(c: ChannelView, bytes: Seq<u8>) -> ChannelView {
    ChannelView { data: c.data + bytes, ..c }
}

/// A channel record whose remote side has sent end-of-file.
pub open spec fn with_eof(c: ChannelView) -> ChannelView {
    ChannelView { eof: true, ..c }
}

/// A channel record that has been closed.
pub open spec fn with_closed(c: ChannelView) -> ChannelView {
    ChannelView { closed: true, ..c }
}

/// A channel record with the remote process's exit status.
pub open spec fn with_exit_status(c: ChannelView, status: u32) -> ChannelView {
    ChannelView { exit_status: Some(status), ..c }
}

/// A channel record after a read of at most `max` bytes.
pub open spec fn with_read(c: ChannelView, max: nat) -> ChannelView {
    ChannelView { data: c.data.skip(read_len(c.data, max) as int), ..c }
}

/// The handler state after a sequence of channel opens, in order, with no
/// driver activity in between.
pub open spec fn after_opens<E>(h: HandlerView<E>, ids: Seq<u32>) -> HandlerView<E>
    decreases ids.len(),
{
    if ids.len() == 0 {
        h
    } else {
        after_open(after_opens(h, ids.drop_last()), ids.last())
    }
}

/// The handler state after `n` reads of the last error in a row.
pub open spec fn after_last_errors<E>(h: HandlerView<E>, n: nat) -> HandlerView<E>
    decreases n,
{
    if n == 0 {
        h
    } else {
        after_last_error(after_last_errors(h, (n - 1) as nat))
    }
}

/// A request to run `command` on the channel the engine allocated under
/// `channel_id`. The channel's record already exists when it is made.
pub struct ChannelOpenRequest {
    pub command: String,
    pub channel_id: u32,
}

/// Where a channel-open request stands.
#[derive(Debug, Clone, Copy, PartialEq, Eq, Structural)]
pub enum OpenProgress {
    /// The remote side has neither confirmed nor refused the channel yet.
    Waiting,
    /// The remote side confirmed the channel: the command can be sent.
    Confirmed,
    /// The channel was closed before it was confirmed, or its record is gone.
    Refused,
}

/// Where the request for channel `id` stands, given the handler state.
pub open spec fn open_progress_of<E>(h: HandlerView<E>, id: u32) -> OpenProgress {
    if !h.channels.contains_key(id) {
        OpenProgress::Refused
    } else if h.channels[id].confirmed {
        OpenProgress::Confirmed
    } else if h.channels[id].closed {
        OpenProgress::Refused
    } else {
        OpenProgress::Waiting
    }
}

/// The state shared by every channel of one session.
pub struct HandlerState<E> {
    state_for: HashMap<u32, ChannelState>,
    errored_with: Option<E>,
}

impl<E> View for HandlerState<E> {
    type V = HandlerView<E>;

    closed spec fn view(&self) -> HandlerView<E> {
        HandlerView {
            channels: self.state_for@.map_values(|c: ChannelState| c@),
            last_error: self.errored_with,
        }
    }
}

impl<E> HandlerState<E> {
    /// Fresh handler state: no channels, no error recorded.
    pub fn new() -> (r: HandlerState<E>)
        ensures
            r@.channels == Map::<u32, ChannelView>::empty(),
            r@.last_error.is_none(),
    {
        let r = HandlerState { state_for: HashMap::new(), errored_with: None };
        assert(r@.channels =~= Map::<u32, ChannelView>::empty());
        r
    }

    /// The domain of the channel map is finite.
    pub proof fn lemma_channels_finite(&self)
        ensures
            self@.channels.dom().finite(),
    {
        assert(self@.channels.dom() =~= self.state_for@.dom());
    }

    /// Takes the last recorded error, leaving the slot empty.
    pub fn last_error(&mut self) -> (r: Option<E>)
        ensures
            r == old(self)@.last_error,
            final(self)@ == after_last_error(old(self)@),
    {
        let r = self.errored_with.take();
        assert(self@ == after_last_error(old(self)@));
        r
    }

    /// Records an error the background driver observed, replacing any
    /// error that was not yet read.
    pub fn record_error(&mut self, e: E)
        ensures
            final(self)@ == after_record_error(old(self)@, e),
    {
        self.errored_with = Some(e);
        assert(self@ == after_record_error(old(self)@, e));
    }

    /// Registers the channel the engine just allocated under `id` with a
    /// fresh record, and returns the request to run `command` on it.
    pub fn open_exec(&mut self, command: &str, id: u32) -> (r: ChannelOpenRequest)
        ensures
            final(self)@ == after_open(old(self)@, id),
            r.command@ == command@,
            r.channel_id == id,
    {
        self.state_for.insert(id, ChannelState::new());
        assert(self@.channels =~= old(self)@.channels.insert(id, fresh_channel()));
        ChannelOpenRequest { command: command.to_string(), channel_id: id }
    }

    /// Whether a record exists for channel `id`.
    pub fn has_channel(&self, id: u32) -> (r: bool)
        ensures
            r == self@.channels.contains_key(id),
    {
        self.state_for.contains_key(&id)
    }

    /// The record of channel `id`, if there is one.
    pub fn channel(&self, id: u32) -> (r: Option<&ChannelState>)
        ensures
            match r {
                Some(c) => self@.channels.contains_key(id) && c@ == self@.channels[id],
                None => !self@.channels.contains_key(id),
            },
    {
        self.state_for.get(&id)
    }
    /// Records that the remote side confirmed channel `id`. Returns
    /// whether the channel was known.
    pub fn on_open_confirmation(&mut self, id: u32) -> (r: bool)
        ensures
            r == old(self)@.channels.contains_key(id),
            final(self)@ == after_update(old(self)@, id, |c: ChannelView| with_confirmed(c)),
    {
        match self.state_for.remove(&id) {
            Some(mut c) => {
                c.mark_confirmed();
                self.state_for.insert(id, c);
                assert(self@.channels =~= old(self)@.channels.insert(
                    id,
                    with_confirmed(old(self)@.channels[id]),
                ));
                true
            },
            None => {
                assert(self@.channels =~= old(self)@.channels);
                false
            },
        }
    }

    /// Appends bytes that arrived for channel `id`. Returns whether the
    /// channel was known; data for an unknown channel is dropped.
    pub fn on_data(&mut self, id: u32, bytes: &[u8]) -> (r: bool)
        ensures
            r == old(self)@.channels.contains_key(id),
            final(self)@ == after_update(old(self)@, id, |c: ChannelView| with_data(c, bytes@)),
    {
        match self.state_for.remove(&id) {
            Some(mut c) => {
                c.push_data(bytes);
                self.state_for.insert(id, c);
                assert(self@.channels =~= old(self)@.channels.insert(
                    id,
                    with_data(old(self)@.channels[id], bytes@),
                ));
                true
            },
            None => {
                assert(self@.channels =~= old(self)@.channels);
                false
            },
        }
    }

    /// Records end-of-file from the remote side of channel `id`. Returns
    /// whether the channel was known.
    pub fn on_eof(&mut self, id: u32) -> (r: bool)
        ensures
            r == old(self)@.channels.contains_key(id),
            final(self)@ == after_update(old(self)@, id, |c: ChannelView| with_eof(c)),
    {
        match self.state_for.remove(&id) {
            Some(mut c) => {
                c.mark_eof();
                self.state_for.insert(id, c);
                assert(self@.channels =~= old(self)@.channels.insert(
                    id,
                    with_eof(old(self)@.channels[id]),
                ));
                true
            },
            None => {
                assert(self@.channels =~= old(self)@.channels);
                false
            },
        }
    }

    /// Records that channel `id` was closed. Returns whether the channel
    /// was known. The record stays, so that a late reader still sees it.
    pub fn on_close(&mut self, id: u32) -> (r: bool)
        ensures
            r == old(self)@.channels.contains_key(id),
            final(self)@ == after_update(old(self)@, id, |c: ChannelView| with_closed(c)),
    {
        match self.state_for.remove(&id) {
            Some(mut c) => {
                c.mark_closed();
                self.state_for.insert(id, c);
                assert(self@.channels =~= old(self)@.channels.insert(
                    id,
                    with_closed(old(self)@.channels[id]),
                ));
                true
            },
            None => {
                assert(self@.channels =~= old(self)@.channels);
                false
            },
        }
    }

    /// Records the exit status of the process behind channel `id`. Returns
    /// whether the channel was known.
    pub fn on_exit_status(&mut self, id: u32, status: u32) -> (r: bool)
        ensures
            r == old(self)@.channels.contains_key(id),
            final(self)@ == after_update(
                old(self)@,
                id,
                |c: ChannelView| with_exit_status(c, status),
            ),
    {
        match self.state_for.remove(&id) {
            Some(mut c) => {
                c.set_exit_status(status);
                self.state_for.insert(id, c);
                assert(self@.channels =~= old(self)@.channels.insert(
                    id,
                    with_exit_status(old(self)@.channels[id], status),
                ));
                true
            },
            None => {
                assert(self@.channels =~= old(self)@.channels);
                false
            },
        }
    }

    /// Reads at most `max` buffered bytes of channel `id`, oldest first.
    /// `None` where the channel is unknown.
    pub fn read(&mut self, id: u32, max: usize) -> (r: Option<Vec<u8>>)
        ensures
            final(self)@ == after_update(old(self)@, id, |c: ChannelView| with_read(c, max as nat)),
            match r {
                Some(bytes) => old(self)@.channels.contains_key(id) && bytes@ == old(
                    self,
                )@.channels[id].data.take(read_len(old(self)@.channels[id].data, max as nat) as int),
                None => !old(self)@.channels.contains_key(id),
            },
    {
        match self.state_for.remove(&id) {
            Some(mut c) => {
                let bytes = c.read(max);
                self.state_for.insert(id, c);
                assert(self@.channels =~= old(self)@.channels.insert(
                    id,
                    with_read(old(self)@.channels[id], max as nat),
                ));
                Some(bytes)
            },
            None => {
                assert(self@.channels =~= old(self)@.channels);
                None
            },
        }
    }

    /// Whether a read of channel `id` can never again yield bytes. An
    /// unknown channel counts as ended.
    pub fn at_end(&self, id: u32) -> (r: bool)
        ensures
            r == (!self@.channels.contains_key(id) || {
                let c = self@.channels[id];
                c.data.len() == 0 && (c.eof || c.closed)
            }),
    {
        match self.state_for.get(&id) {
            Some(c) => c.at_end(),
            None => true,
        }
    }

    /// Where the request for channel `id` stands.
    pub fn open_progress(&self, id: u32) -> (r: OpenProgress)
        ensures
            r == open_progress_of(self@, id),
    {
        match self.state_for.get(&id) {
            None => OpenProgress::Refused,
            Some(c) => {
                if c.confirmed {
                    OpenProgress::Confirmed
                } else if c.closed {
                    OpenProgress::Refused
                } else {
                    OpenProgress::Waiting
                }
            },
        }
    }
}

} // verus!
