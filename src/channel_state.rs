use vstd::prelude::*;

verus! {

/// What a channel's record holds, as mathematical values.
pub ghost struct ChannelView {
    /// The remote side has confirmed that the channel is open.
    pub confirmed: bool,
    /// Bytes received from the remote process and not yet read.
    pub data: Seq<u8>,
    /// The remote side has sent end-of-file.
    pub eof: bool,
    /// The channel has been closed.
    pub closed: bool,
    /// The exit status of the remote process, once reported.
    pub exit_status: Option<u32>,
}

/// The record a fresh channel starts with: not yet confirmed, nothing
/// buffered, not ended.
pub open spec fn fresh_channel() -> ChannelView {
    ChannelView { confirmed: false, data: Seq::empty(), eof: false, closed: false, exit_status: None }
}

/// How many bytes a read of at most `max` bytes takes from `data`.
pub open spec fn read_len(data: Seq<u8>, max: nat) -> nat {
    if max < data.len() {
        max
    } else {
        data.len()
    }
}

/// The state of one channel: filled by the background driver as protocol
/// events arrive, drained by the channel's reader.
pub struct ChannelState {
    pub confirmed: bool,
    pub data: Vec<u8>,
    pub eof: bool,
    pub closed: bool,
    pub exit_status: Option<u32>,
}

impl View for ChannelState {
    type V = ChannelView;

    open spec fn view(&self) -> ChannelView {
        ChannelView {
            confirmed: self.confirmed,
            data: self.data@,
            eof: self.eof,
            closed: self.closed,
            exit_status: self.exit_status,
        }
    }
}

impl ChannelState {
    /// A fresh record, as created when a channel is opened.
    pub fn new() -> (r: ChannelState)
        ensures
            r@ == fresh_channel(),
    {
        ChannelState { confirmed: false, data: Vec::new(), eof: false, closed: false, exit_status: None }
    }

    /// Appends bytes that arrived for this channel.
    pub fn push_data(&mut self, bytes: &[u8])
        ensures
            final(self)@ == (ChannelView { data: old(self)@.data + bytes@, ..old(self)@ }),
    {
        let ghost start = self.data@;
        let mut i: usize = 0;
        while i < bytes.len()
            invariant
                0 <= i <= bytes@.len(),
                self.data@ == start + bytes@.subrange(0, i as int),
                self.confirmed == old(self).confirmed,
                self.eof == old(self).eof,
                self.closed == old(self).closed,
                self.exit_status == old(self).exit_status,
            decreases bytes@.len() - i,
        {
            self.data.push(bytes[i]);
            i = i + 1;
        }
        assert(bytes@.subrange(0, bytes@.len() as int) == bytes@);
    }

    /// Takes at most `max` buffered bytes, oldest first; the rest stay.
    pub fn read(&mut self, max: usize) -> (r: Vec<u8>)
        ensures
            r@ == old(self)@.data.take(read_len(old(self)@.data, max as nat) as int),
            final(self)@ == (ChannelView {
                data: old(self)@.data.skip(read_len(old(self)@.data, max as nat) as int),
                ..old(self)@
            }),
    {
        let n: usize = if max < self.data.len() { max } else { self.data.len() };
        let mut taken: Vec<u8> = Vec::new();
        let mut rest: Vec<u8> = Vec::new();
        let mut i: usize = 0;
        while i < self.data.len()
            invariant
                0 <= i <= self.data@.len(),
                n <= self.data@.len(),
                self.data@ == old(self).data@,
                i <= n ==> taken@ == self.data@.subrange(0, i as int) && rest@.len() == 0,
                i > n ==> taken@ == self.data@.subrange(0, n as int)
                    && rest@ == self.data@.subrange(n as int, i as int),
            decreases self.data@.len() - i,
        {
            if i < n {
                taken.push(self.data[i]);
            } else {
                rest.push(self.data[i]);
            }
            i = i + 1;
        }
        assert(rest@ == self.data@.skip(n as int));
        assert(taken@ == self.data@.take(n as int));
        self.data = rest;
        taken
    }

    /// Records that the remote side confirmed the channel.
    pub fn mark_confirmed(&mut self)
        ensures
            final(self)@ == (ChannelView { confirmed: true, ..old(self)@ }),
    {
        self.confirmed = true;
    }

    /// Records that the remote side sent end-of-file.
    pub fn mark_eof(&mut self)
        ensures
            final(self)@ == (ChannelView { eof: true, ..old(self)@ }),
    {
        self.eof = true;
    }

    /// Records that the channel was closed.
    pub fn mark_closed(&mut self)
        ensures
            final(self)@ == (ChannelView { closed: true, ..old(self)@ }),
    {
        self.closed = true;
    }

    /// Records the exit status the remote process reported.
    pub fn set_exit_status(&mut self, status: u32)
        ensures
            final(self)@ == (ChannelView { exit_status: Some(status), ..old(self)@ }),
    {
        self.exit_status = Some(status);
    }

    /// Whether a read can never again yield bytes: nothing is buffered and
    /// the stream has ended or the channel is closed.
    pub fn at_end(&self) -> (r: bool)
        ensures
            r == (self@.data.len() == 0 && (self@.eof || self@.closed)),
    {
        self.data.len() == 0 && (self.eof || self.closed)
    }
}

} // verus!
