use vstd::prelude::*;
use crate::input::{ButtonInput, OSInput};
use crate::os::ApplicationInfo;

verus! {

/// The events of a real-time application: some scheduled for a time in milliseconds, others
/// fired whenever an input arrives.
#[derive(Debug, Clone)]
pub struct RealTimeState<T: Copy> {
    pub time_scheduled_events: Vec<(u32, T)>,
    pub key_events: Vec<(OSInput, T)>,
}

/// The events of `events` whose time has come by `now`, in the order they were scheduled.
pub open spec fn due<T>(events: Seq<(u32, T)>, now: u32) -> Seq<T>
    decreases events.len(),
{
    if events.len() == 0 {
        Seq::empty()
    } else {
        let rest = due(events.drop_last(), now);
        if events.last().0 <= now {
            rest.push(events.last().1)
        } else {
            rest
        }
    }
}

/// The scheduled events of `events` whose time is still to come after `now`.
pub open spec fn pending<T>(events: Seq<(u32, T)>, now: u32) -> Seq<(u32, T)>
    decreases events.len(),
{
    if events.len() == 0 {
        Seq::empty()
    } else {
        let rest = pending(events.drop_last(), now);
        if events.last().0 > now {
            rest.push(events.last())
        } else {
            rest
        }
    }
}

/// The events of `events` registered for `key`, in the order they were registered.
pub open spec fn fired_by<T>(events: Seq<(OSInput, T)>, key: OSInput) -> Seq<T>
    decreases events.len(),
{
    if events.len() == 0 {
        Seq::empty()
    } else {
        let rest = fired_by(events.drop_last(), key);
        if events.last().0 == key {
            rest.push(events.last().1)
        } else {
            rest
        }
    }
}

/// Taking the due events loses no event: every scheduled event is either due or still pending,
/// and those still pending are for later than `now`.
pub proof fn lemma_due_and_pending_partition<T>(events: Seq<(u32, T)>, now: u32)
    ensures
        due(events, now).len() + pending(events, now).len() == events.len(),
        forall|i: int| 0 <= i < pending(events, now).len() ==> #[trigger] pending(events, now)[i].0 > now,
    decreases events.len(),
{
    if events.len() > 0 {
        lemma_due_and_pending_partition(events.drop_last(), now);
        let rest = pending(events.drop_last(), now);
        if events.last().0 > now {
            assert forall|i: int| 0 <= i < pending(events, now).len() implies #[trigger] pending(events, now)[i].0 > now by {
                if i < rest.len() {
                    assert(pending(events, now)[i] == rest[i]);
                }
            }
        }
    }
}

impl<T: Copy> RealTimeState<T> {
    /// A state with no events.
    pub fn new() -> (s: Self)
        ensures
            s.time_scheduled_events@.len() == 0,
            s.key_events@.len() == 0,
    {
        RealTimeState { time_scheduled_events: Vec::new(), key_events: Vec::new() }
    }

    /// Registers `event` to fire every time `key` arrives.
    pub fn on_input(&mut self, key: OSInput, event: T)
        ensures
            final(self).key_events@ == old(self).key_events@.push((key, event)),
            final(self).time_scheduled_events@ == old(self).time_scheduled_events@,
    {
        self.key_events.push((key, event));
    }

    /// Schedules `event` to fire once, `in_millis` milliseconds after `now`.
    pub fn schedule(&mut self, now: u32, in_millis: u32, event: T)
        requires
            now + in_millis <= u32::MAX,
        ensures
            final(self).time_scheduled_events@ == old(self).time_scheduled_events@.push(((now + in_millis) as u32, event)),
            final(self).key_events@ == old(self).key_events@,
    {
        self.time_scheduled_events.push((now + in_millis, event));
    }

    /// Removes the scheduled events whose time has come by `now` and gives them back in the order
    /// they were scheduled.
    pub fn take_due_events(&mut self, now: u32) -> (r: Vec<T>)
        ensures
            r@ == due(old(self).time_scheduled_events@, now),
            final(self).time_scheduled_events@ == pending(old(self).time_scheduled_events@, now),
            final(self).key_events@ == old(self).key_events@,
    {
        let ghost events = self.time_scheduled_events@;
        let mut fired: Vec<T> = Vec::new();
        let mut kept: Vec<(u32, T)> = Vec::new();
        let mut i: usize = 0;
        while i < self.time_scheduled_events.len()
            invariant
                self.time_scheduled_events@ == events,
                i <= events.len(),
                fired@ == due(events.subrange(0, i as int), now),
                kept@ == pending(events.subrange(0, i as int), now),
            decreases events.len() - i,
        {
            let (t, e) = self.time_scheduled_events[i];
            assert(events.subrange(0, i + 1).drop_last() == events.subrange(0, i as int));
            if t <= now {
                fired.push(e);
            } else {
                kept.push((t, e));
            }
            i = i + 1;
        }
        assert(events.subrange(0, i as int) == events);
        self.time_scheduled_events = kept;
        fired
    }

    /// The scheduled events whose time has come by `now`, in the order they were scheduled; the
    /// schedule is left as it is.
    pub fn due_events(&self, now: u32) -> (r: Vec<T>)
        ensures
            r@ == due(self.time_scheduled_events@, now),
    {
        let ghost events = self.time_scheduled_events@;
        let mut fired: Vec<T> = Vec::new();
        let mut i: usize = 0;
        while i < self.time_scheduled_events.len()
            invariant
                events == self.time_scheduled_events@,
                i <= events.len(),
                fired@ == due(events.subrange(0, i as int), now),
            decreases events.len() - i,
        {
            let (t, e) = self.time_scheduled_events[i];
            assert(events.subrange(0, i + 1).drop_last() == events.subrange(0, i as int));
            if t <= now {
                fired.push(e);
            }
            i = i + 1;
        }
        assert(events.subrange(0, i as int) == events);
        fired
    }

    /// The events registered for `key`, in the order they were registered.
    pub fn events_for_key(&self, key: OSInput) -> (r: Vec<T>)
        ensures
            r@ == fired_by(self.key_events@, key),
    {
        let mut fired: Vec<T> = Vec::new();
        let mut i: usize = 0;
        while i < self.key_events.len()
            invariant
                i <= self.key_events@.len(),
                fired@ == fired_by(self.key_events@.subrange(0, i as int), key),
            decreases self.key_events@.len() - i,
        {
            let (k, e) = self.key_events[i];
            assert(self.key_events@.subrange(0, i + 1).drop_last() == self.key_events@.subrange(0, i as int));
            if k == key {
                fired.push(e);
            }
            i = i + 1;
        }
        assert(self.key_events@.subrange(0, i as int) == self.key_events@);
        fired
    }
}

impl<T: Copy> Default for RealTimeState<T> {
    fn default() -> (s: Self)
        ensures
            s.time_scheduled_events@.len() == 0,
            s.key_events@.len() == 0,
    {
        Self::new()
    }
}

/// What to do after a real-time event is handled.
#[derive(PartialEq, Eq, Copy, Clone, Debug, Structural)]
pub enum RealTimeResult {
    /// Nothing.
    NoAction,
    /// Redraw the screen.
    Redraw,
}

/// An application driven by events that fire at scheduled times or on inputs, rather than by
/// blocking on input. Applications implement it, saying through `real_time_state`,
/// `with_real_time_state` and `handles` what their getters and handler do; what is proved of
/// `tick_real_time` rests on that, which nothing here checks of an implementation outside this
/// library.
pub trait RealTimeApplication: Sized {
    type RealTimeEvent: Copy;

    /// The events the application has registered and scheduled.
    spec fn real_time_state(&self) -> RealTimeState<Self::RealTimeEvent>;

    /// The application with its events replaced by `state` and all else kept.
    spec fn with_real_time_state(self, state: RealTimeState<Self::RealTimeEvent>) -> Self;

    /// Whether handling `event` at time `now` can take the application from `self` to `next`
    /// and give `result`.
    spec fn handles(&self, event: Self::RealTimeEvent, now: u32, next: &Self, result: RealTimeResult) -> bool;

    fn get_real_time_state(&self) -> (r: &RealTimeState<Self::RealTimeEvent>)
        ensures
            *r == self.real_time_state(),
    ;

    fn get_real_time_state_mut(&mut self) -> (r: &mut RealTimeState<Self::RealTimeEvent>)
        ensures
            *r == old(self).real_time_state(),
            *final(self) == old(self).with_real_time_state(*final(r)),
            final(self).real_time_state() == *final(r),
    ;

    /// Handles an event that fired at time `now`.
    fn on_event(&mut self, event: Self::RealTimeEvent, now: u32) -> (r: RealTimeResult)
        ensures
            old(self).handles(event, now, &*final(self), r),
    ;
}

/// Whether the applications `states` and the results `results` are what handling `events` at
/// time `now`, one after another from `states[0]`, can give: handling event `i` takes
/// `states[i]` to `states[i + 1]` and gives `results[i]`.
pub open spec fn handled_in_turn<A: RealTimeApplication>(states: Seq<A>, events: Seq<A::RealTimeEvent>, now: u32, results: Seq<RealTimeResult>) -> bool {
    &&& states.len() == events.len() + 1
    &&& results.len() == events.len()
    &&& forall|i: int| 0 <= i < events.len() ==> #[trigger] states[i].handles(events[i], now, &states[i + 1], results[i])
}

/// Whether some result asks for a redraw.
pub open spec fn asks_redraw(results: Seq<RealTimeResult>) -> bool {
    exists|i: int| 0 <= i < results.len() && results[i] == RealTimeResult::Redraw
}

/// Whether the handlers of a step asked for the screen to be redrawn: whether any of their
/// results is `Redraw`.
pub fn redraw_requested(results: &Vec<RealTimeResult>) -> (r: bool)
    ensures
        r == exists|i: int| 0 <= i < results@.len() && results@[i] == RealTimeResult::Redraw,
{
    let mut i: usize = 0;
    while i < results.len()
        invariant
            i <= results@.len(),
            forall|j: int| 0 <= j < i ==> results@[j] != RealTimeResult::Redraw,
        decreases results@.len() - i,
    {
        if results[i] == RealTimeResult::Redraw {
            return true;
        }
        i = i + 1;
    }
    false
}

/// Whether a step at time `now` with `key` took the application from `before` to `after` and
/// gave `redraw`, through the applications `timed` and results `timed_results` of firing the due
/// events in order, then dropping every event whose time has come, then `keyed` and
/// `keyed_results` of firing the events registered for `key` in order: a redraw is asked for
/// exactly when some handler asked for one.
pub open spec fn ticked<A: RealTimeApplication>(
    before: A,
    now: u32,
    key: Option<OSInput>,
    timed: Seq<A>,
    timed_results: Seq<RealTimeResult>,
    keyed: Seq<A>,
    keyed_results: Seq<RealTimeResult>,
    after: A,
    redraw: bool,
) -> bool {
    &&& handled_in_turn(timed, due(before.real_time_state().time_scheduled_events@, now), now, timed_results)
    &&& timed[0] == before
    &&& keyed[0] == timed.last().with_real_time_state(keyed[0].real_time_state())
    &&& keyed[0].real_time_state().time_scheduled_events@ == pending(timed.last().real_time_state().time_scheduled_events@, now)
    &&& keyed[0].real_time_state().key_events@ == timed.last().real_time_state().key_events@
    &&& handled_in_turn(
        keyed,
        match key {
            Some(k) => fired_by(keyed[0].real_time_state().key_events@, k),
            None => Seq::empty(),
        },
        now,
        keyed_results,
    )
    &&& after == keyed.last()
    &&& redraw == asks_redraw(timed_results + keyed_results)
}

/// One step of a real-time application at time `now`: fires, in order, the scheduled events whose
/// time has come; then drops from the schedule every event whose time has come, those the
/// handlers scheduled for a time already reached among them; then fires, in order, the events
/// registered for `key`, if an input arrived. Gives whether any handler asked for the screen to
/// be redrawn.
pub fn tick_real_time<A: RealTimeApplication>(app: &mut A, now: u32, key: Option<OSInput>) -> (redraw: bool)
    ensures
        exists|timed: Seq<A>, timed_results: Seq<RealTimeResult>, keyed: Seq<A>, keyed_results: Seq<RealTimeResult>|
            #[trigger] ticked(*old(app), now, key, timed, timed_results, keyed, keyed_results, *final(app), redraw),
{
    let ghost start = *app;
    let due_events = app.get_real_time_state().due_events(now);
    let mut results: Vec<RealTimeResult> = Vec::new();
    let ghost mut timed: Seq<A> = seq![*app];
    let mut i: usize = 0;
    while i < due_events.len()
        invariant
            i <= due_events@.len(),
            due_events@ == due(start.real_time_state().time_scheduled_events@, now),
            timed.len() == i + 1,
            timed[0] == start,
            timed.last() == *app,
            results@.len() == i,
            forall|k: int| 0 <= k < i ==> #[trigger] timed[k].handles(due_events@[k], now, &timed[k + 1], results@[k]),
        decreases due_events@.len() - i,
    {
        let ghost before = *app;
        let r = app.on_event(due_events[i], now);
        results.push(r);
        proof {
            timed = timed.push(*app);
            assert(timed[i as int] == before);
        }
        i = i + 1;
    }
    let ghost timed_results = results@;
    let ghost fired = *app;
    let _ = app.get_real_time_state_mut().take_due_events(now);
    let ghost keyed_start = *app;
    let ghost mut keyed: Seq<A> = seq![*app];
    let ghost key_list: Seq<A::RealTimeEvent> = Seq::empty();
    if let Some(k) = key {
        let key_events = app.get_real_time_state().events_for_key(k);
        proof {
            key_list = key_events@;
        }
        let mut j: usize = 0;
        while j < key_events.len()
            invariant
                j <= key_events@.len(),
                key_list == key_events@,
                keyed.len() == j + 1,
                keyed[0] == keyed_start,
                keyed.last() == *app,
                results@.len() == timed_results.len() + j,
                results@.subrange(0, timed_results.len() as int) == timed_results,
                forall|m: int| 0 <= m < j ==> #[trigger] keyed[m].handles(key_events@[m], now, &keyed[m + 1], results@[timed_results.len() + m]),
            decreases key_events@.len() - j,
        {
            let ghost before = *app;
            let r = app.on_event(key_events[j], now);
            results.push(r);
            proof {
                keyed = keyed.push(*app);
                assert(keyed[j as int] == before);
                assert(results@.subrange(0, timed_results.len() as int) =~= timed_results);
            }
            j = j + 1;
        }
    }
    let redraw = redraw_requested(&results);
    proof {
        let keyed_results = results@.subrange(timed_results.len() as int, results@.len() as int);
        assert(timed_results + keyed_results =~= results@);
        assert(handled_in_turn(timed, due(start.real_time_state().time_scheduled_events@, now), now, timed_results));
        assert(handled_in_turn(
            keyed,
            match key {
                Some(k) => fired_by(keyed[0].real_time_state().key_events@, k),
                None => Seq::empty(),
            },
            now,
            keyed_results,
        )) by {
            assert forall|m: int| 0 <= m < keyed.len() - 1 implies #[trigger] keyed[m].handles(key_list[m], now, &keyed[m + 1], keyed_results[m]) by {
                assert(keyed_results[m] == results@[timed_results.len() + m]);
            }
        }
        assert(keyed[0] == fired.with_real_time_state(keyed[0].real_time_state()));
        assert(ticked(start, now, key, timed, timed_results, keyed, keyed_results, *app, redraw));
    }
    redraw
}

/// An event of the real-time test application.
#[derive(PartialEq, Eq, Copy, Clone, Debug, Structural)]
pub enum RealTimeTestApplicationEvent {
    Start,
    Second,
    Exe,
}

/// A test of the real-time event model: counts the seconds since it started and the presses of
/// EXE.
pub struct RealTimeTestApplication {
    pub real_time_state: RealTimeState<RealTimeTestApplicationEvent>,
    pub second_counter: u32,
    pub exe_counter: u32,
}

impl RealTimeTestApplication {
    /// How the launcher lists this application: as "Real Time Test", hidden.
    pub fn info() -> (r: ApplicationInfo)
        ensures
            r.name@ == "Real Time Test"@,
            !r.visible,
    {
        ApplicationInfo { name: "Real Time Test".to_owned(), visible: false }
    }

    /// The application as started at time `now`: it redraws at once, counts a second a second
    /// after `now`, and counts presses of EXE.
    pub fn new(now: u32) -> (a: Self)
        requires
            now + 1000 <= u32::MAX,
        ensures
            a.second_counter == 0,
            a.exe_counter == 0,
            a.real_time_state.time_scheduled_events@ == seq![
                (now, RealTimeTestApplicationEvent::Start),
                ((now + 1000) as u32, RealTimeTestApplicationEvent::Second),
            ],
            a.real_time_state.key_events@ == seq![(OSInput::Button(ButtonInput::Exe), RealTimeTestApplicationEvent::Exe)],
    {
        let mut a = RealTimeTestApplication { real_time_state: RealTimeState::new(), second_counter: 0, exe_counter: 0 };
        a.real_time_state.schedule(now, 0, RealTimeTestApplicationEvent::Start);
        a.real_time_state.schedule(now, 1000, RealTimeTestApplicationEvent::Second);
        a.real_time_state.on_input(OSInput::Button(ButtonInput::Exe), RealTimeTestApplicationEvent::Exe);
        a
    }

    /// Handles an event at time `now`: a second is counted and the next one scheduled, a press of
    /// EXE is counted, and every event asks for a redraw.
    pub fn handle_event(&mut self, event: RealTimeTestApplicationEvent, now: u32) -> (r: RealTimeResult)
        requires
            event == RealTimeTestApplicationEvent::Second ==> old(self).second_counter < u32::MAX && now + 1000 <= u32::MAX,
            event == RealTimeTestApplicationEvent::Exe ==> old(self).exe_counter < u32::MAX,
        ensures
            r == RealTimeResult::Redraw,
            final(self).real_time_state.key_events@ == old(self).real_time_state.key_events@,
            event == RealTimeTestApplicationEvent::Start ==> final(self).second_counter == old(self).second_counter
                && final(self).exe_counter == old(self).exe_counter
                && final(self).real_time_state.time_scheduled_events@ == old(self).real_time_state.time_scheduled_events@,
            event == RealTimeTestApplicationEvent::Second ==> final(self).second_counter == old(self).second_counter + 1
                && final(self).exe_counter == old(self).exe_counter
                && final(self).real_time_state.time_scheduled_events@ == old(self).real_time_state.time_scheduled_events@.push(
                ((now + 1000) as u32, RealTimeTestApplicationEvent::Second),
            ),
            event == RealTimeTestApplicationEvent::Exe ==> final(self).exe_counter == old(self).exe_counter + 1
                && final(self).second_counter == old(self).second_counter
                && final(self).real_time_state.time_scheduled_events@ == old(self).real_time_state.time_scheduled_events@,
    {
        match event {
            RealTimeTestApplicationEvent::Start => RealTimeResult::Redraw,
            RealTimeTestApplicationEvent::Second => {
                self.second_counter = self.second_counter + 1;
                self.real_time_state.schedule(now, 1000, RealTimeTestApplicationEvent::Second);
                RealTimeResult::Redraw
            },
            RealTimeTestApplicationEvent::Exe => {
                self.exe_counter = self.exe_counter + 1;
                RealTimeResult::Redraw
            },
        }
    }
}

} // verus!
