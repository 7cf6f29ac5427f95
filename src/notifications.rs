//! One-shot reminders for events about to start.
use crate::api::GraphEvent;
use crate::clock::{parse_date_time, parsed, to_local};
use crate::config::str_eq;
use crate::datetime::DateTime;
use crate::text::{format_hh_mm, hh_mm_spec, push_str};
use vstd::prelude::*;

verus! {

/// A reminder to show on the desktop.
#[derive(Debug)]
pub struct Notification {
    /// Position of the event in the list that was checked.
    pub event_index: usize,
    pub title: String,
    pub body: String,
}

/// Remembers which events were already announced.
#[derive(Debug)]
pub struct NotificationManager {
    notified_events: Vec<String>,
    minutes_before: u64,
    enabled: bool,
}

/// An event is due when its start lies in (now, now + lead minutes].
pub open spec fn is_due(e: GraphEvent, now: DateTime, lead_minutes: int) -> bool {
    match parsed(e.start.date_time@) {
        Some(t) => now.seconds() < t.seconds() && t.seconds() <= now.seconds() + lead_minutes * 60,
        None => false,
    }
}

/// Scans the events in order: each due event whose id was not yet announced
/// is announced and its id remembered. Gives the ids remembered afterwards and
/// the positions of the announced events.
pub open spec fn scan(sent: Set<Seq<char>>, evs: Seq<GraphEvent>, now: DateTime, lead: int) -> (
    Set<Seq<char>>,
    Seq<int>,
)
    decreases evs.len(),
{
    if evs.len() == 0 {
        (sent, seq![])
    } else {
        let (s, idx) = scan(sent, evs.drop_last(), now, lead);
        let e = evs.last();
        if is_due(e, now, lead) && !s.contains(e.id@) {
            (s.insert(e.id@), idx.push(evs.len() - 1))
        } else {
            (s, idx)
        }
    }
}

/// Each event id is announced at most once: an announced id was not yet
/// remembered, is remembered afterwards, and no id is announced twice in one
/// scan; remembered ids are never forgotten.
pub proof fn lemma_announce_once(sent: Set<Seq<char>>, evs: Seq<GraphEvent>, now: DateTime, lead: int)
    ensures
        sent.subset_of(scan(sent, evs, now, lead).0),
        forall|k: int|
            0 <= k < scan(sent, evs, now, lead).1.len() ==> {
                let i = #[trigger] scan(sent, evs, now, lead).1[k];
                &&& 0 <= i < evs.len()
                &&& !sent.contains(evs[i].id@)
                &&& scan(sent, evs, now, lead).0.contains(evs[i].id@)
            },
        forall|k1: int, k2: int|
            0 <= k1 < k2 < scan(sent, evs, now, lead).1.len() ==> evs[#[trigger] scan(
                sent,
                evs,
                now,
                lead,
            ).1[k1]].id@ != evs[#[trigger] scan(sent, evs, now, lead).1[k2]].id@,
    decreases evs.len(),
{
    if evs.len() > 0 {
        let pre = evs.drop_last();
        lemma_announce_once(sent, pre, now, lead);
        lemma_scan_prefix(sent, pre, now, lead);
        let (s, idx) = scan(sent, pre, now, lead);
        assert forall|k: int| 0 <= k < idx.len() implies #[trigger] evs[idx[k]] == pre[idx[k]] by {}
    }
}

proof fn lemma_scan_prefix(sent: Set<Seq<char>>, evs: Seq<GraphEvent>, now: DateTime, lead: int)
    ensures
        forall|k: int|
            0 <= k < scan(sent, evs, now, lead).1.len() ==> 0 <= #[trigger] scan(sent, evs, now, lead).1[k]
                < evs.len(),
    decreases evs.len(),
{
    if evs.len() > 0 {
        let pre = evs.drop_last();
        lemma_scan_prefix(sent, pre, now, lead);
        let idx = scan(sent, pre, now, lead).1;
        assert forall|k: int| 0 <= k < scan(sent, evs, now, lead).1.len() implies 0 <= #[trigger] scan(
            sent,
            evs,
            now,
            lead,
        ).1[k] < evs.len() by {
            if k < idx.len() {
                assert(idx[k] == scan(sent, pre, now, lead).1[k]);
            }
        }
    }
}

/// Upper bound on a lead time, in minutes, beyond every representable instant.
const LEAD_CAP: u64 = 100_000_000_000;

impl NotificationManager {
    pub closed spec fn sent(self) -> Set<Seq<char>> {
        Set::new(
            |x: Seq<char>|
                exists|i: int|
                    0 <= i < self.notified_events@.len() && (#[trigger] self.notified_events@[i])@ == x,
        )
    }

    pub closed spec fn lead(self) -> u64 {
        self.minutes_before
    }

    pub closed spec fn is_enabled(self) -> bool {
        self.enabled
    }

    /// A scheduler that has announced nothing yet.
    pub fn new(enabled: bool, minutes_before: u64) -> (r: Self)
        ensures
            r.sent() == Set::<Seq<char>>::empty(),
            r.lead() == minutes_before,
            r.is_enabled() == enabled,
    {
        let r = Self { notified_events: Vec::new(), minutes_before, enabled };
        assert(r.sent() =~= Set::<Seq<char>>::empty());
        r
    }

    fn was_sent(&self, id: &String) -> (r: bool)
        ensures
            r == self.sent().contains(id@),
    {
        let mut i: usize = 0;
        while i < self.notified_events.len()
            invariant
                i <= self.notified_events@.len(),
                forall|j: int| 0 <= j < i ==> (#[trigger] self.notified_events@[j])@ != id@,
            decreases self.notified_events@.len() - i,
        {
            if str_eq(self.notified_events[i].as_str(), id.as_str()) {
                assert(self.notified_events@[i as int]@ == id@);
                return true;
            }
            i = i + 1;
        }
        false
    }

    /// Announces every due event not announced before, in list order, and
    /// remembers it. A disabled scheduler announces nothing. The body of each
    /// reminder is `Starting at HH:MM` in local time.
    pub fn check_and_notify(&mut self, events: &[GraphEvent], now: DateTime) -> (r: Vec<
        Notification,
    >)
        requires
            now.wf(),
        ensures
            final(self).lead() == old(self).lead(),
            final(self).is_enabled() == old(self).is_enabled(),
            !old(self).is_enabled() ==> final(self).sent() == old(self).sent() && r@.len() == 0,
            old(self).is_enabled() ==> {
                let (s, idx) = scan(old(self).sent(), events@, now, old(self).lead() as int);
                &&& final(self).sent() == s
                &&& r@.len() == idx.len()
                &&& forall|k: int|
                    0 <= k < r@.len() ==> {
                        let n = #[trigger] r@[k];
                        &&& n.event_index == idx[k]
                        &&& n.title@ == events@[idx[k]].subject@
                        &&& n.body@.len() == 17
                        &&& n.body@.subrange(0, 12) == "Starting at "@
                        &&& exists|l: DateTime| l.wf() && n.body@ == "Starting at "@ + hh_mm_spec(l)
                    }
            },
    {
        let mut out: Vec<Notification> = Vec::new();
        if !self.enabled {
            return out;
        }
        let lead = if self.minutes_before > LEAD_CAP {
            LEAD_CAP
        } else {
            self.minutes_before
        };
        let window: u64 = lead * 60;
        let now_s = now.total_seconds();
        proof {
            crate::datetime::lemma_day_number_bounds(now.date);
        }
        let ghost sent0 = self.sent();
        let ghost lead_i = self.minutes_before as int;
        let mut i: usize = 0;
        while i < events.len()
            invariant
                i <= events@.len(),
                now.wf(),
                self.minutes_before == old(self).minutes_before,
                self.enabled == old(self).enabled,
                sent0 == old(self).sent(),
                lead_i == old(self).minutes_before,
                window == (if lead_i > LEAD_CAP { LEAD_CAP as int } else { lead_i }) * 60,
                now_s == now.seconds(),
                ({
                    let (s, idx) = scan(sent0, events@.subrange(0, i as int), now, lead_i);
                    &&& self.sent() == s
                    &&& out@.len() == idx.len()
                    &&& forall|k: int|
                        0 <= k < out@.len() ==> {
                            let n = #[trigger] out@[k];
                            &&& n.event_index == idx[k]
                            &&& n.title@ == events@[idx[k]].subject@
                            &&& n.body@.len() == 17
                            &&& n.body@.subrange(0, 12) == "Starting at "@
                            &&& exists|l: DateTime| l.wf() && n.body@ == "Starting at "@ + hh_mm_spec(l)
                        }
                }),
            decreases events@.len() - i,
        {
            let ghost pre = events@.subrange(0, i as int);
            let ghost post = events@.subrange(0, i + 1);
            assert(post.drop_last() =~= pre);
            let e = &events[i];
            let mut due = false;
            match parse_date_time(e.start.date_time.as_str()) {
                Some(t) => {
                    proof {
                        crate::datetime::lemma_day_number_bounds(t.date);
                    }
                    let ts = t.total_seconds();
                    due = now_s < ts && ts - now_s <= window;
                },
                None => {},
            }
            assert(due == is_due(*e, now, lead_i));
            if due && !self.was_sent(&e.id) {
                let mut body = String::new();
                proof {
                    reveal_strlit("Starting at ");
                }
                push_str(&mut body, "Starting at ");
                let start = match parse_date_time(e.start.date_time.as_str()) {
                    Some(t) => t,
                    None => now,
                };
                let local = to_local(start);
                let hm = format_hh_mm(local);
                push_str(&mut body, hm.as_str());
                assert(body@.subrange(0, 12) =~= "Starting at "@);
                assert(body@ == "Starting at "@ + hh_mm_spec(local));
                out.push(Notification { event_index: i, title: e.subject.clone(), body });
                let ghost old_sent = self.sent();
                let ghost old_vec = self.notified_events@;
                self.notified_events.push(e.id.clone());
                proof {
                    assert forall|x: Seq<char>| self.sent().contains(x) <==> old_sent.insert(
                        e.id@,
                    ).contains(x) by {
                        if old_sent.contains(x) {
                            let j = choose|j: int|
                                0 <= j < old_vec.len() && (#[trigger] old_vec[j])@ == x;
                            assert(self.notified_events@[j] == old_vec[j]);
                        }
                        if x == e.id@ {
                            assert(self.notified_events@[old_vec.len() as int]@ == x);
                        }
                        if self.sent().contains(x) {
                            let j = choose|j: int|
                                0 <= j < self.notified_events@.len() && (
                                #[trigger] self.notified_events@[j])@ == x;
                            if j < old_vec.len() {
                                assert(old_vec[j]@ == x);
                            }
                        }
                    }
                    assert(self.sent() =~= old_sent.insert(e.id@));
                }
            }
            i = i + 1;
        }
        assert(events@.subrange(0, events@.len() as int) =~= events@);
        out
    }
}

} // verus!
