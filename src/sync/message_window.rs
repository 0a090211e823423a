//! The window-backed event adapter: the state that a hidden message-only window
//! shares with the stream that reads from it, and the decisions of the window's
//! callback.
use vstd::prelude::*;

verus! {

/// Decodes a raw native event addressed to a window into a value of the type, or
/// `None` when the event is not one that the type cares about.
pub trait FromMessage: Sized {
    fn from_message(window: usize, msg: u32, wparam: usize, lparam: isize) -> Option<Self>;
}

/// The state shared by an adapter and its window's callback: at most one decoded
/// value not yet read, and at most one pending wake request of type `W`.
pub struct Inner<Msg, W> {
    pub message: Option<Msg>,
    pub waker: Option<W>,
}

/// What the callback does with an event once it has been decoded.
pub enum Delivery<W> {
    /// The event is not relevant: hand it to the platform's default handling.
    Default,
    /// The value was buffered. `dropped` says whether an unread value was
    /// overwritten; `wake` is the pending wake request, to be invoked.
    Handled { dropped: bool, wake: Option<W> },
}

/// What the callback does with an event before decoding it.
#[derive(Debug, Clone, Copy, PartialEq, Eq)]
pub enum Route {
    /// The creation event: install the shared-state link from the creation
    /// parameters, then hand the event to default handling.
    Install,
    /// No shared state is linked: hand the event to default handling.
    Default,
    /// Decode the event and hand the result to `Inner::receive`.
    Decode,
}

/// The state and result after one poll of the adapter with wake request `w`.
pub open spec fn poll_spec<Msg, W>(s: Inner<Msg, W>, w: W) -> (Inner<Msg, W>, Option<Msg>) {
    match s.message {
        Some(m) => (Inner { message: None, waker: s.waker }, Some(m)),
        None => (Inner { message: None, waker: Some(w) }, None),
    }
}

/// The state and delivery after the callback decoded `decoded` from an event.
pub open spec fn receive_spec<Msg, W>(s: Inner<Msg, W>, decoded: Option<Msg>) -> (
    Inner<Msg, W>,
    Delivery<W>,
) {
    match decoded {
        None => (s, Delivery::Default),
        Some(m) => (
            Inner { message: Some(m), waker: None },
            Delivery::Handled { dropped: s.message is Some, wake: s.waker },
        ),
    }
}

/// The values that polls observe when each value of `ms` is delivered and then
/// polled for, one after another, with wake requests `ws`.
pub open spec fn deliver_then_poll<Msg, W>(s: Inner<Msg, W>, ms: Seq<Msg>, ws: Seq<W>) -> Seq<
    Option<Msg>,
>
    decreases ms.len(),
{
    if ms.len() == 0 || ws.len() == 0 {
        Seq::empty()
    } else {
        let after_event = receive_spec(s, Some(ms[0])).0;
        let (after_poll, seen) = poll_spec(after_event, ws[0]);
        seq![seen] + deliver_then_poll(after_poll, ms.drop_first(), ws.drop_first())
    }
}

impl<Msg, W> Inner<Msg, W> {
    /// Fresh shared state: nothing buffered, nobody to wake.
    pub fn new() -> (s: Inner<Msg, W>)
        ensures
            s.message is None,
            s.waker is None,
    {
        Inner { message: None, waker: None }
    }

    /// One poll step of the adapter's stream: a buffered value is taken and
    /// returned; otherwise `waker` replaces the pending wake request and the
    /// stream is not ready (`None`).
    pub fn poll_next(&mut self, waker: W) -> (r: Option<Msg>)
        ensures
            (*final(self), r) == poll_spec(*old(self), waker),
    {
        match self.message.take() {
            Some(m) => Some(m),
            None => {
                self.waker = Some(waker);
                None
            },
        }
    }

    /// Takes what the decode capability made of an event: a value overwrites any
    /// unread one (last write wins) and hands back the pending wake request;
    /// `None` leaves the state alone and asks for default handling.
    pub fn receive(&mut self, decoded: Option<Msg>) -> (d: Delivery<W>)
        ensures
            (*final(self), d) == receive_spec(*old(self), decoded),
    {
        match decoded {
            None => Delivery::Default,
            Some(m) => {
                let dropped = self.message.is_some();
                self.message = Some(m);
                let wake = self.waker.take();
                Delivery::Handled { dropped, wake }
            },
        }
    }
}

/// The callback's first decision: the creation event installs the link; any other
/// event reaches the shared state only while the window's storage slot holds a link.
pub open spec fn route_spec(is_create: bool, linked: bool) -> Route {
    if is_create {
        Route::Install
    } else if linked {
        Route::Decode
    } else {
        Route::Default
    }
}

/// Makes the callback's first decision for an event (see `route_spec`).
pub fn route(is_create: bool, linked: bool) -> (r: Route)
    ensures
        r == route_spec(is_create, linked),
{
    if is_create {
        Route::Install
    } else if linked {
        Route::Decode
    } else {
        Route::Default
    }
}

/// Two decodable events delivered back to back before a poll: the poll sees the
/// second value, and the first is reported as dropped rather than queued.
pub proof fn lemma_last_write_wins<Msg, W>(s: Inner<Msg, W>, m1: Msg, m2: Msg, w: W)
    ensures
        ({
            let (s1, _) = receive_spec(s, Some(m1));
            let (s2, d2) = receive_spec(s1, Some(m2));
            &&& d2 == Delivery::<W>::Handled { dropped: true, wake: None }
            &&& poll_spec(s2, w) == (Inner::<Msg, W> { message: None, waker: None }, Some(m2))
        }),
{
}

/// Decodable events interleaved one for one with polls, starting with nothing
/// buffered, are observed in the order in which they were sent.
pub proof fn lemma_interleaved_in_order<Msg, W>(s: Inner<Msg, W>, ms: Seq<Msg>, ws: Seq<W>)
    requires
        s.message is None,
        ws.len() == ms.len(),
    ensures
        deliver_then_poll(s, ms, ws) == ms.map_values(|m: Msg| Some(m)),
    decreases ms.len(),
{
    if ms.len() > 0 {
        let after_poll = poll_spec(receive_spec(s, Some(ms[0])).0, ws[0]).0;
        lemma_interleaved_in_order(after_poll, ms.drop_first(), ws.drop_first());
        assert(deliver_then_poll(s, ms, ws) =~= ms.map_values(|m: Msg| Some(m)));
    } else {
        assert(deliver_then_poll(s, ms, ws) =~= ms.map_values(|m: Msg| Some(m)));
    }
}

/// Once the window's storage slot no longer holds a link, every event that still
/// reaches the callback (none of them the creation event) falls back to default
/// handling, however many there are.
pub proof fn lemma_unlinked_goes_to_default(is_create: Seq<bool>)
    requires
        forall|i: int| 0 <= i < is_create.len() ==> !is_create[i],
    ensures
        forall|i: int|
            0 <= i < is_create.len() ==> route_spec(#[trigger] is_create[i], false)
                == Route::Default,
{
}

} // verus!
