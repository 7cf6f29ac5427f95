//! The refresh pipeline's decisions: which calendars to fetch, what the
//! fetched results come to, and how loaded events replace the shown ones.
use crate::api::GraphEvent;
use crate::app::{is_nearest, start_of, App, ColorCalendar, ColorEvent, MY_CALENDARS_ID};
use crate::config::str_eq;
use crate::datetime::DateTime;
use crate::notifications::{scan, Notification};
use crate::ordering::{sort_events_by_start, sorted_by_start, stable_from};
use crate::theme::Color;
use vstd::multiset::Multiset;
use vstd::prelude::*;

verus! {

broadcast use vstd::seq_lib::group_to_multiset_ensures;

/// Each event with its colour.
pub open spec fn pairs(s: Seq<ColorEvent>) -> Seq<(GraphEvent, Color)> {
    s.map_values(|c: ColorEvent| (c.event, c.color))
}

/// Events all given one colour.
pub open spec fn with_color(v: Seq<GraphEvent>, color: Color) -> Seq<(GraphEvent, Color)> {
    v.map_values(|e: GraphEvent| (e, color))
}

/// Whether a calendar belongs to a scope: every calendar for none, the
/// shareable ones for the "my calendars" id, else the one with that id.
pub open spec fn in_scope(c: ColorCalendar, scope: Option<String>) -> bool {
    match scope {
        None => true,
        Some(id) => if id@ == MY_CALENDARS_ID@ {
            c.calendar.can_share == Some(true)
        } else {
            c.calendar.id@ == id@
        },
    }
}

/// Positions, in order, of the calendars in the current scope.
pub fn calendars_in_scope(calendars: &Vec<ColorCalendar>, scope: &Option<String>) -> (r: Vec<usize>)
    ensures
        forall|k: int|
            0 <= k < r@.len() ==> (#[trigger] r@[k]) < calendars@.len() && in_scope(
                calendars@[r@[k] as int],
                *scope,
            ),
        forall|k1: int, k2: int| 0 <= k1 < k2 < r@.len() ==> r@[k1] < r@[k2],
        forall|i: int|
            0 <= i < calendars@.len() && in_scope(#[trigger] calendars@[i], *scope) ==> r@.contains(
                i as usize,
            ),
{
    let mut out: Vec<usize> = Vec::new();
    let mut i: usize = 0;
    while i < calendars.len()
        invariant
            i <= calendars@.len(),
            forall|k: int|
                0 <= k < out@.len() ==> (#[trigger] out@[k]) < i && in_scope(
                    calendars@[out@[k] as int],
                    *scope,
                ),
            forall|k1: int, k2: int| 0 <= k1 < k2 < out@.len() ==> out@[k1] < out@[k2],
            forall|j: int|
                0 <= j < i && in_scope(#[trigger] calendars@[j], *scope) ==> out@.contains(
                    j as usize,
                ),
        decreases calendars@.len() - i,
    {
        let c = &calendars[i];
        let keep = match scope {
            None => true,
            Some(id) => {
                if str_eq(id.as_str(), MY_CALENDARS_ID) {
                    match c.calendar.can_share {
                        Some(b) => b,
                        None => false,
                    }
                } else {
                    str_eq(c.calendar.id.as_str(), id.as_str())
                }
            },
        };
        let ghost before = out@;
        if keep {
            out.push(i);
            assert(out@[out@.len() - 1] == i);
        }
        proof {
            assert forall|j: int|
                0 <= j < i + 1 && in_scope(#[trigger] calendars@[j], *scope) implies out@.contains(
                j as usize,
            ) by {
                if j < i {
                    let k = choose|k: int| 0 <= k < before.len() && before[k] == j as usize;
                    assert(out@[k] == j as usize);
                } else {
                    assert(out@[out@.len() - 1] == i);
                }
            }
        }
        i = i + 1;
    }
    out
}

/// Shows the cached events at once (refresh step one): sorted by start,
/// replacing the shown ones unless there are none, with the first event
/// selected when nothing (or nothing in range) was selected.
pub fn show_cached_events(app: &mut App, cached: Vec<ColorEvent>)
    requires
        old(app).wf(),
    ensures
        final(app).wf(),
        cached@.len() == 0 ==> *final(app) == *old(app),
        cached@.len() > 0 ==> {
            &&& *final(app) == (App {
                events: final(app).events,
                event_selected: final(app).event_selected,
                ..*old(app)
            })
            &&& final(app).events@.to_multiset() == cached@.to_multiset()
            &&& sorted_by_start(final(app).events@)
            &&& exists|ids: Seq<int>| #[trigger] stable_from(final(app).events@, cached@, ids)
            &&& final(app).event_selected == match old(app).event_selected {
                Some(i) if i < cached@.len() => Some(i),
                _ => Some(0usize),
            }
        },
{
    if cached.len() == 0 {
        return ;
    }
    let n = cached.len();
    let sorted = sort_events_by_start(cached);
    proof {
        assert(sorted@.len() == sorted@.to_multiset().len());
    }
    app.events = sorted;
    match app.event_selected {
        Some(i) => {
            if i >= n {
                app.event_selected = Some(0);
            }
        },
        None => {
            app.event_selected = Some(0);
        },
    }
}

/// What the fetch for one calendar came back with.
#[derive(Debug)]
pub enum FetchOutcome {
    Loaded(Vec<GraphEvent>),
    AuthExpired,
    Failed,
}

/// What the background refresh reports to the controller.
#[derive(Debug)]
pub enum RefreshReport {
    /// The access token was refused: nothing may be replaced.
    TokenExpired,
    /// The events fetched, each with its calendar's colour.
    Loaded(Vec<ColorEvent>),
}

pub open spec fn is_auth_expired(o: FetchOutcome) -> bool {
    o is AuthExpired
}

/// The events of the successful fetches in order, each with the colour of
/// its calendar.
pub open spec fn collected(results: Seq<FetchOutcome>, colors: Seq<Color>) -> Seq<(GraphEvent, Color)>
    decreases results.len(),
{
    if results.len() == 0 {
        seq![]
    } else {
        let last = results.len() - 1;
        collected(results.drop_last(), colors) + match results[last] {
            FetchOutcome::Loaded(v) => with_color(v@, colors[last]),
            _ => seq![],
        }
    }
}

/// Combines the per-calendar fetches (`results[i]` for the calendar with
/// colour `colors[i]`): a refused token anywhere reports that alone;
/// otherwise the events of every successful fetch, in order.
pub fn collect_fetch_results(results: Vec<FetchOutcome>, colors: &Vec<Color>) -> (r: RefreshReport)
    requires
        results@.len() == colors@.len(),
    ensures
        (exists|i: int| 0 <= i < results@.len() && is_auth_expired(#[trigger] results@[i]))
            <==> r is TokenExpired,
        r matches RefreshReport::Loaded(v) ==> pairs(v@)
            == collected(results@, colors@),
{
    let mut k: usize = 0;
    while k < results.len()
        invariant
            k <= results@.len(),
            forall|j: int| 0 <= j < k ==> !is_auth_expired(#[trigger] results@[j]),
        decreases results@.len() - k,
    {
        if let FetchOutcome::AuthExpired = results[k] {
            return RefreshReport::TokenExpired;
        }
        k = k + 1;
    }
    let ghost all = results@;
    let mut rest = results;
    let mut out: Vec<ColorEvent> = Vec::new();
    let mut i: usize = 0;
    while rest.len() > 0
        invariant
            i + rest@.len() == all.len(),
            all.len() <= usize::MAX,
            all.len() == colors@.len(),
            rest@ == all.subrange(i as int, all.len() as int),
            pairs(out@) == collected(
                all.subrange(0, i as int),
                colors@,
            ),
        decreases rest@.len(),
    {
        let outcome = rest.remove(0);
        let color = colors[i];
        let ghost out0 = out@;
        proof {
            assert(all.subrange(0, i + 1).drop_last() =~= all.subrange(0, i as int));
            assert(all.subrange(0, i + 1)[i as int] == outcome);
        }
        match outcome {
            FetchOutcome::Loaded(v) => {
                let vn = v.len();
                let ghost vs = v@;
                let mut v = v;
                let mut j: usize = 0;
                while v.len() > 0
                    invariant
                        j + v@.len() == vs.len(),
                        vs.len() <= usize::MAX,
                        v@ == vs.subrange(j as int, vs.len() as int),
                        pairs(out@) == pairs(out0) + with_color(vs.subrange(0, j as int), color),
                    decreases v@.len(),
                {
                    let e = v.remove(0);
                    proof {
                        assert(e == vs[j as int]);
                    }
                    let ghost prev = out@;
                    let ghost eg = e;
                    out.push(ColorEvent { event: e, color });
                    j = j + 1;
                    proof {
                        assert(pairs(out@) =~= pairs(prev).push((eg, color)));
                        assert(with_color(vs.subrange(0, j as int), color) =~= with_color(
                            vs.subrange(0, j - 1),
                            color,
                        ).push((eg, color)));
                        assert(pairs(out@) =~= pairs(out0) + with_color(vs.subrange(0, j as int), color));
                        assert(v@ =~= vs.subrange(j as int, vs.len() as int));
                    }
                }
                proof {
                    assert(vs.subrange(0, j as int) =~= vs);
                }
            },
            _ => {
                proof {
                    assert(pairs(out@) =~= pairs(out0) + Seq::<(GraphEvent, Color)>::empty());
                }
            },
        }
        i = i + 1;
        proof {
            assert(rest@ =~= all.subrange(i as int, all.len() as int));
        }
    }
    proof {
        assert(all.subrange(0, i as int) =~= all);
    }
    RefreshReport::Loaded(out)
}

/// Messages that background tasks post to the controller.
#[derive(Debug)]
pub enum AppEvent {
    /// The refresh timer fired.
    Refresh,
    /// A background fetch finished with these events.
    EventsLoaded(Vec<ColorEvent>),
    /// A background fetch found the access token refused.
    TokenExpired,
}

/// What the controller must do after a message.
#[derive(Debug, Clone, Copy, PartialEq, Eq, Structural)]
pub enum MessageAction {
    Nothing,
    /// Run the refresh pipeline.
    Refresh,
    /// Renew the access token, then refresh if that worked.
    RenewToken,
}

fn copy_events(events: &Vec<ColorEvent>) -> (r: Vec<GraphEvent>)
    ensures
        r@.len() == events@.len(),
        forall|i: int| 0 <= i < r@.len() ==> (#[trigger] r@[i]).same(events@[i].event),
{
    let mut out: Vec<GraphEvent> = Vec::new();
    let mut i: usize = 0;
    while i < events.len()
        invariant
            i <= events@.len(),
            out@.len() == i,
            forall|k: int| 0 <= k < i ==> (#[trigger] out@[k]).same(events@[k].event),
        decreases events@.len() - i,
    {
        out.push(events[i].event.copy());
        i = i + 1;
    }
    out
}

/// Handles one message. Loaded events are sorted by start, checked for
/// reminders (returned), shown, and the event nearest to `now` selected
/// (no selection when none were loaded).
pub fn handle_message(app: &mut App, msg: AppEvent, now: DateTime) -> (r: (
    MessageAction,
    Vec<Notification>,
))
    requires
        old(app).wf(),
        now.wf(),
    ensures
        final(app).wf(),
        msg is Refresh ==> *final(app) == *old(app) && r.1@.len() == 0 && r.0 == (
        if old(app).current_view == crate::app::CurrentView::Events {
            MessageAction::Refresh
        } else {
            MessageAction::Nothing
        }),
        msg is TokenExpired ==> *final(app) == *old(app) && r.1@.len() == 0 && r.0
            == MessageAction::RenewToken,
        msg matches AppEvent::EventsLoaded(xs) ==> {
            &&& r.0 == MessageAction::Nothing
            &&& *final(app) == (App {
                events: final(app).events,
                event_selected: final(app).event_selected,
                displayed_date: final(app).displayed_date,
                notification_manager: final(app).notification_manager,
                ..*old(app)
            })
            &&& final(app).events@.to_multiset() == xs@.to_multiset()
            &&& sorted_by_start(final(app).events@)
            &&& exists|ids: Seq<int>| #[trigger] stable_from(final(app).events@, xs@, ids)
            &&& xs@.len() == 0 ==> final(app).event_selected is None
                && final(app).displayed_date == old(app).displayed_date
            &&& xs@.len() > 0 ==> final(app).event_selected is Some && is_nearest(
                final(app).events@,
                now,
                final(app).event_selected->0 as int,
            )
            &&& xs@.len() > 0 ==> final(app).displayed_date == match start_of(
                final(app).events@[final(app).event_selected->0 as int],
            ) {
                Some(t) => t.date,
                None => old(app).displayed_date,
            }
            &&& final(app).notification_manager.lead() == old(app).notification_manager.lead()
            &&& final(app).notification_manager.is_enabled()
                == old(app).notification_manager.is_enabled()
            &&& exists|c: Seq<GraphEvent>|
                #![trigger c.len()]
                c.len() == final(app).events@.len() && (forall|i: int|
                    0 <= i < c.len() ==> (#[trigger] c[i]).same(final(app).events@[i].event)) && (
                old(app).notification_manager.is_enabled() ==> final(app).notification_manager.sent() == scan(
                    old(app).notification_manager.sent(),
                    c,
                    now,
                    old(app).notification_manager.lead() as int,
                ).0)
        },
{
    match msg {
        AppEvent::Refresh => {
            let action = if app.current_view == crate::app::CurrentView::Events {
                MessageAction::Refresh
            } else {
                MessageAction::Nothing
            };
            (action, Vec::new())
        },
        AppEvent::TokenExpired => (MessageAction::RenewToken, Vec::new()),
        AppEvent::EventsLoaded(xs) => {
            let sorted = sort_events_by_start(xs);
            let copies = copy_events(&sorted);
            let notes = app.notification_manager.check_and_notify(copies.as_slice(), now);
            app.events = sorted;
            proof {
                assert(app.events@.len() == app.events@.to_multiset().len());
            }
            if app.events.len() > 0 {
                app.event_selected = None;
                app.select_nearest_event(now);
            } else {
                app.event_selected = None;
            }
            assert(copies@.len() == app.events@.len());
            (MessageAction::Nothing, notes)
        },
    }
}

} // verus!
