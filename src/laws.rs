use vstd::prelude::*;
use crate::channel_state::{fresh_channel, ChannelView};
use crate::handler::{
    after_last_error, after_last_errors, after_open, after_opens, after_record_error, after_update,
    HandlerView,
};

verus! {

/// Opening channels one after another, with no driver activity in between,
/// leaves a fresh record under every identifier the engine handed out,
/// keeps every other record as it was and leaves the error slot alone.
/// Where the identifiers are distinct and not yet in use, the map grows by
/// exactly their number: one record per open.
pub proof fn lemma_opens_register_every_channel<E>(h: HandlerView<E>, ids: Seq<u32>)
    requires
        h.channels.dom().finite(),
    ensures
        after_opens(h, ids).last_error == h.last_error,
        after_opens(h, ids).channels.dom().finite(),
        forall|i: int|
            0 <= i < ids.len() ==> #[trigger] after_opens(h, ids).channels.contains_key(ids[i])
                && after_opens(h, ids).channels[ids[i]] == fresh_channel(),
        forall|k: u32|
            !ids.contains(k) ==> (#[trigger] after_opens(h, ids).channels.contains_key(k)
                == h.channels.contains_key(k)) && (h.channels.contains_key(k)
                ==> after_opens(h, ids).channels[k] == h.channels[k]),
        ids.no_duplicates() && (forall|i: int|
            0 <= i < ids.len() ==> !#[trigger] h.channels.contains_key(ids[i]))
            ==> after_opens(h, ids).channels.len() == h.channels.len() + ids.len(),
    decreases ids.len(),
{
    if ids.len() > 0 {
        let init = ids.drop_last();
        let last = ids.last();
        lemma_opens_register_every_channel(h, init);
        let prev = after_opens(h, init);
        assert forall|i: int| 0 <= i < ids.len() implies #[trigger] after_opens(
            h,
            ids,
        ).channels.contains_key(ids[i]) && after_opens(h, ids).channels[ids[i]]
            == fresh_channel() by {
            if i < ids.len() - 1 {
                assert(ids[i] == init[i]);
            }
        }
        assert forall|k: u32| !ids.contains(k) implies (#[trigger] after_opens(
            h,
            ids,
        ).channels.contains_key(k) == h.channels.contains_key(k)) && (h.channels.contains_key(k)
            ==> after_opens(h, ids).channels[k] == h.channels[k]) by {
            assert(k != last);
            if init.contains(k) {
                let j = choose|j: int| 0 <= j < init.len() && init[j] == k;
                assert(ids[j] == k);
            }
        }
        if ids.no_duplicates() && (forall|i: int|
            0 <= i < ids.len() ==> !#[trigger] h.channels.contains_key(ids[i])) {
            assert(init.no_duplicates());
            assert forall|i: int| 0 <= i < init.len() implies !#[trigger] h.channels.contains_key(
                init[i],
            ) by {
                assert(init[i] == ids[i]);
            }
            assert(!init.contains(last)) by {
                if init.contains(last) {
                    let j = choose|j: int| 0 <= j < init.len() && init[j] == last;
                    assert(ids[j] == ids[ids.len() - 1]);
                }
            }
            assert(!h.channels.contains_key(ids[ids.len() - 1]));
            assert(!prev.channels.contains_key(last));
        }
    }
}

/// Reading the last error when none was recorded yields nothing and
/// changes nothing, so a second read yields nothing again.
pub proof fn lemma_last_error_none_idempotent<E>(h: HandlerView<E>)
    requires
        h.last_error.is_none(),
    ensures
        after_last_error(h) == h,
        after_last_error(h).last_error.is_none(),
{
}

/// Once an error `e` is recorded, the next read of the last error yields
/// `e`, and every read after that yields nothing until a new error comes.
pub proof fn lemma_last_error_one_shot<E>(h: HandlerView<E>, e: E, n: nat)
    ensures
        after_record_error(h, e).last_error == Some(e),
        n >= 1 ==> after_last_errors(after_record_error(h, e), n).last_error.is_none(),
    decreases n,
{
    if n > 1 {
        lemma_last_error_one_shot(h, e, (n - 1) as nat);
    }
}

/// Channels do not interfere: an event on channel `a`, or opening `a`,
/// leaves the record of every other channel `b` and the error slot as they
/// were, and events on two different channels may arrive in either order
/// with the same result.
pub proof fn lemma_channels_independent<E>(
    h: HandlerView<E>,
    a: u32,
    b: u32,
    f: spec_fn(ChannelView) -> ChannelView,
    g: spec_fn(ChannelView) -> ChannelView,
)
    requires
        a != b,
    ensures
        after_update(h, a, f).channels.contains_key(b) == h.channels.contains_key(b),
        h.channels.contains_key(b) ==> after_update(h, a, f).channels[b] == h.channels[b],
        after_update(h, a, f).last_error == h.last_error,
        after_open(h, a).channels.contains_key(b) == h.channels.contains_key(b),
        h.channels.contains_key(b) ==> after_open(h, a).channels[b] == h.channels[b],
        after_update(after_update(h, a, f), b, g) == after_update(after_update(h, b, g), a, f),
{
    if h.channels.contains_key(a) && h.channels.contains_key(b) {
        assert(after_update(after_update(h, a, f), b, g).channels =~= after_update(
            after_update(h, b, g),
            a,
            f,
        ).channels);
    }
}

/// A channel-open request dropped before it resolves leaves the session
/// usable: the record it registered stays in place, the error slot is
/// untouched, and a later open registers its own channel as usual.
pub proof fn lemma_dropped_request_keeps_session_usable<E>(
    h: HandlerView<E>,
    dropped: u32,
    next: u32,
)
    ensures
        after_open(after_open(h, dropped), next).channels.contains_key(next),
        after_open(after_open(h, dropped), next).channels[next] == fresh_channel(),
        dropped != next ==> after_open(after_open(h, dropped), next).channels.contains_key(dropped)
            && after_open(after_open(h, dropped), next).channels[dropped] == fresh_channel(),
        after_open(after_open(h, dropped), next).last_error == h.last_error,
{
}

} // verus!
