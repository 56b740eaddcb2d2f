//! Taking reminders in, and handing due ones out for delivery.

use vstd::prelude::*;
use crate::instant::{Instant, secs_in_range, utc_stamp};
use crate::interval::{interval, invalid_scale_text, lower_of, scale_of_word};
use crate::notify::{reminder_text, reminder_text_of, Delivery};
use crate::store::{
    claim_out, claim_rest, create_spec, views, Reminder, ReminderStore, ReminderView, StorageError,
};

verus! {

/// Why a reminder could not be set.
#[derive(Clone, Copy, Debug, PartialEq, Eq, Structural)]
pub enum CommandError {
    /// The due instant would lie beyond the representable range.
    DateOverflow,
    /// The store refused the reminder.
    Storage(StorageError),
}

/// Precedes the due instant in the confirmation.
pub const CONFIRM_PREFIX: &'static str = "Reminder set for ";

/// Follows the due instant in the confirmation.
pub const CONFIRM_SUFFIX: &'static str = " UTC.";

/// The confirmation for a reminder due `secs` seconds after the epoch.
pub open spec fn confirmation_of(secs: int) -> Seq<char> {
    CONFIRM_PREFIX@ + utc_stamp(secs) + CONFIRM_SUFFIX@
}

/// Sets a reminder for `user_id`, `num` units of `scale` after `now`.
///
/// An unknown scale word is answered with the usage text, as a successful
/// reply, and nothing is stored. A due instant beyond the representable range
/// fails with `DateOverflow`, and a refusal of the store with `Storage`; neither
/// stores anything. Otherwise the reminder is stored and the reply confirms
/// its due instant.
pub fn remindme(
    num: u32,
    scale: &str,
    message: &str,
    user_id: &str,
    now: Instant,
    store: &mut ReminderStore,
) -> (r: Result<String, CommandError>)
    requires
        now.wf(),
        old(store).wf(),
    ensures
        final(store).wf(),
        match scale_of_word(lower_of(scale@)) {
            None => r matches Ok(text) && text@ == invalid_scale_text() && final(store)@ == old(
                store,
            )@,
            Some(unit) => {
                let due = now.secs + num * unit.unit_secs();
                if !secs_in_range(due) {
                    r == Err::<String, CommandError>(CommandError::DateOverflow) && final(store)@
                        == old(store)@
                } else if old(store)@.next_id == i32::MAX {
                    r == Err::<String, CommandError>(
                        CommandError::Storage(StorageError::IdsExhausted),
                    ) && final(store)@ == old(store)@
                } else {
                    &&& r matches Ok(text) && text@ == confirmation_of(due)
                    &&& final(store)@ == create_spec(
                        old(store)@,
                        user_id@,
                        Instant { secs: due as i64, nanos: now.nanos },
                        message@,
                    )
                }
            },
        },
{
    let span = match interval(num, scale) {
        Ok(i) => i,
        Err(why) => return Ok(why),
    };
    let due = match now.checked_add_secs(span.seconds()) {
        Some(d) => d,
        None => return Err(CommandError::DateOverflow),
    };
    match store.create(user_id, due, message) {
        Ok(_) => {},
        Err(e) => return Err(CommandError::Storage(e)),
    }
    let stamp = due.format_utc();
    Ok(String::from_str(CONFIRM_PREFIX).concat(stamp.as_str()).concat(CONFIRM_SUFFIX))
}

/// How long the poll loop sleeps between two looks at the store, in seconds.
pub const POLL_INTERVAL_SECS: u64 = 60;

/// Precedes the reason in the report of a failed delivery.
pub const DELIVERY_FAILED: &'static str = "Error while DM'ing: ";

/// What happened since the poll loop's last action.
pub enum PollEvent {
    /// The sleep ended at the given instant.
    Woke(Instant),
    /// The last delivery was made, or failed for the given reason.
    Delivered(Result<(), String>),
    /// The loop is asked to end.
    ShutdownRequested,
}

/// What the poll loop is to do next.
#[derive(Debug)]
pub enum PollAction {
    /// Sleep this many seconds, then report `Woke`.
    Sleep(u64),
    /// Send this message, then report `Delivered`.
    Deliver(Delivery),
    /// End the loop.
    Stop,
}

/// One decision of the poll loop: the next action, and a failure to report.
#[derive(Debug)]
pub struct PollStep {
    pub action: PollAction,
    pub report: Option<String>,
}

/// The poll loop's decisions, apart from the sleeping and sending it asks for.
///
/// Due reminders are removed from the store before any of them is sent, so a
/// failed delivery is reported and never tried again.
pub struct Poller {
    queue: Vec<Delivery>,
    stopping: bool,
}

/// The poll loop's state as a mathematical value.
pub ghost struct PollerView {
    /// Claimed reminders not yet handed out, as (recipient, text).
    pub queue: Seq<(Seq<char>, Seq<char>)>,
    /// A shutdown was asked for.
    pub stopping: bool,
}

/// The message that delivers a claimed reminder.
pub open spec fn delivery_of(r: ReminderView) -> (Seq<char>, Seq<char>) {
    (r.user_id, reminder_text_of(r.message))
}

/// The messages that deliver claimed reminders, in order.
pub open spec fn deliveries_of(rows: Seq<ReminderView>) -> Seq<(Seq<char>, Seq<char>)> {
    rows.map_values(|r: ReminderView| delivery_of(r))
}

/// The messages waiting once `event` is taken in: on waking, the reminders
/// that the store hands out then join the queue.
pub open spec fn queue_after(p: PollerView, store: crate::store::StoreState, event: PollEvent) -> Seq<
    (Seq<char>, Seq<char>),
> {
    match event {
        PollEvent::Woke(now) => if p.stopping {
            p.queue
        } else {
            p.queue + deliveries_of(claim_out(store, now))
        },
        _ => p.queue,
    }
}

/// Whether taking in `event` claims from the store.
pub open spec fn claims_on(p: PollerView, event: PollEvent) -> bool {
    event is Woke && !p.stopping
}

/// The report for an event: the reason of a failed delivery.
pub open spec fn report_of(event: PollEvent) -> Option<Seq<char>> {
    match event {
        PollEvent::Delivered(Err(why)) => Some(DELIVERY_FAILED@ + why@),
        _ => None,
    }
}

impl View for Poller {
    type V = PollerView;

    closed spec fn view(&self) -> PollerView {
        PollerView {
            queue: self.queue@.map_values(|d: Delivery| d@),
            stopping: self.stopping,
        }
    }
}

impl Poller {
    /// A poll loop with nothing waiting and no shutdown asked for.
    pub fn new() -> (r: Poller)
        ensures
            r@.queue.len() == 0,
            !r@.stopping,
    {
        let r = Poller { queue: Vec::new(), stopping: false };
        assert(r@.queue =~= Seq::<(Seq<char>, Seq<char>)>::empty());
        r
    }

    /// The first action of the loop: sleep one interval.
    pub fn start(&self) -> (r: PollAction)
        ensures
            r == PollAction::Sleep(POLL_INTERVAL_SECS),
    {
        PollAction::Sleep(POLL_INTERVAL_SECS)
    }

    /// Takes in what happened and decides what to do next.
    ///
    /// On waking (unless a shutdown was asked for) every reminder due then is
    /// claimed from the store and queued for delivery; no other event touches
    /// the store. The next action sends the oldest queued message; with none
    /// queued, it ends the loop after a shutdown request and sleeps otherwise.
    /// A failed delivery is reported, and not queued again.
    pub fn step(&mut self, store: &mut ReminderStore, event: PollEvent) -> (r: PollStep)
        requires
            old(store).wf(),
        ensures
            final(store).wf(),
            claims_on(old(self)@, event) ==> final(store)@ == claim_rest(old(store)@, event->Woke_0),
            !claims_on(old(self)@, event) ==> final(store)@ == old(store)@,
            final(self)@.stopping == (old(self)@.stopping || event is ShutdownRequested),
            ({
                let q = queue_after(old(self)@, old(store)@, event);
                if q.len() > 0 {
                    &&& r.action matches PollAction::Deliver(d) && d@ == q[0]
                    &&& final(self)@.queue == q.drop_first()
                } else {
                    &&& final(self)@.queue.len() == 0
                    &&& r.action == (if final(self)@.stopping {
                        PollAction::Stop
                    } else {
                        PollAction::Sleep(POLL_INTERVAL_SECS)
                    })
                }
            }),
            match report_of(event) {
                Some(text) => r.report matches Some(t) && t@ == text,
                None => r.report is None,
            },
    {
        let ghost q0 = self@.queue;
        let ghost s0 = store@;
        let ghost e = event;
        let mut report: Option<String> = None;
        match event {
            PollEvent::Woke(now) => {
                if !self.stopping {
                    let claimed = store.claim_due(now);
                    self.enqueue(&claimed);
                }
            },
            PollEvent::Delivered(outcome) => {
                match outcome {
                    Ok(()) => {},
                    Err(why) => {
                        report = Some(String::from_str(DELIVERY_FAILED).concat(why.as_str()));
                    },
                }
            },
            PollEvent::ShutdownRequested => {
                self.stopping = true;
            },
        }
        assert(self@.queue == queue_after(PollerView { queue: q0, stopping: old(self)@.stopping }, s0, e));
        let action = self.next_action();
        PollStep { action, report }
    }

    /// Queues the messages that deliver `claimed`, in order.
    fn enqueue(&mut self, claimed: &Vec<Reminder>)
        ensures
            final(self)@.stopping == old(self)@.stopping,
            final(self)@.queue == old(self)@.queue + deliveries_of(views(claimed@)),
    {
        let ghost q0 = self@.queue;
        let mut i: usize = 0;
        while i < claimed.len()
            invariant
                i <= claimed@.len(),
                self@.stopping == old(self)@.stopping,
                q0 == old(self)@.queue,
                self@.queue == q0 + deliveries_of(views(claimed@.take(i as int))),
            decreases claimed.len() - i,
        {
            let row = &claimed[i];
            let d = Delivery { user_id: row.user_id.clone(), text: reminder_text(row.message.as_str()) };
            proof {
                assert(claimed@.take(i + 1) =~= claimed@.take(i as int).push(*row));
                assert(deliveries_of(views(claimed@.take(i + 1))) =~= deliveries_of(
                    views(claimed@.take(i as int)),
                ).push(d@));
                assert(self.queue@.push(d).map_values(|x: Delivery| x@) =~= self.queue@.map_values(
                    |x: Delivery| x@,
                ).push(d@));
            }
            self.queue.push(d);
            i = i + 1;
        }
        assert(claimed@.take(i as int) =~= claimed@);
    }

    /// Hands out the oldest queued message, or else stops or sleeps.
    fn next_action(&mut self) -> (r: PollAction)
        ensures
            final(self)@.stopping == old(self)@.stopping,
            old(self)@.queue.len() > 0 ==> (r matches PollAction::Deliver(d) && d@ == old(
                self,
            )@.queue[0]) && final(self)@.queue == old(self)@.queue.drop_first(),
            old(self)@.queue.len() == 0 ==> final(self)@.queue.len() == 0 && r == (
            if old(self)@.stopping {
                PollAction::Stop
            } else {
                PollAction::Sleep(POLL_INTERVAL_SECS)
            }),
    {
        if self.queue.len() > 0 {
            let ghost before = self.queue@;
            let d = self.queue.remove(0);
            assert(self.queue@.map_values(|x: Delivery| x@) =~= before.map_values(
                |x: Delivery| x@,
            ).drop_first());
            PollAction::Deliver(d)
        } else if self.stopping {
            PollAction::Stop
        } else {
            PollAction::Sleep(POLL_INTERVAL_SECS)
        }
    }
}

/// A failed delivery touches neither the store nor the queue beyond handing
/// out the next message: the reminder it came from, removed from the store
/// when it was claimed, stays removed and is not queued again. The failure is
/// reported.
pub proof fn lemma_failed_delivery_not_retried(p: PollerView, s: crate::store::StoreState, why: String)
    ensures
        !claims_on(p, PollEvent::Delivered(Err(why))),
        queue_after(p, s, PollEvent::Delivered(Err(why))) == p.queue,
        report_of(PollEvent::Delivered(Err(why))) == Some(DELIVERY_FAILED@ + why@),
{
}

} // verus!
