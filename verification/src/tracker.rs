//! The tracker's decisions: which games are running, how a tick of the
//! polling loop changes the ledger, and when to alert.

use vstd::prelude::*;
use crate::ledger::{GameTimes, lemma_take_one_more, text_views, time_or_zero};
use crate::text::{contains_text, lowercase, occurs_in, to_lowercase};
use crate::config::{Config, GameConfig, config_limit, has_name};
use crate::clock::{is_over_limit, over_limit};
use crate::state::TrackerState;

verus! {

/// Whether `name` occurs in the lower-cased form of one of the process
/// names, the way a game is recognised as running.
pub open spec fn matches_some_process(processes: Seq<Seq<char>>, name: Seq<char>) -> bool {
    exists|i: int| 0 <= i < processes.len() && occurs_in(name, #[trigger] lowercase(processes[i]))
}

fn lower_all(names: &Vec<String>) -> (res: Vec<String>)
    ensures
        res@.len() == names@.len(),
        forall|i: int| 0 <= i < names@.len() ==> #[trigger] res@[i]@ == lowercase(names@[i]@),
{
    let n = names.len();
    let mut res: Vec<String> = Vec::new();
    for i in 0..n
        invariant
            n == names@.len(),
            res@.len() == i,
            forall|j: int| 0 <= j < i ==> #[trigger] res@[j]@ == lowercase(names@[j]@),
    {
        res.push(to_lowercase(names[i].as_str()));
    }
    res
}

fn list_has(list: &Vec<String>, name: &String) -> (b: bool)
    ensures
        b == text_views(list@).contains(name@),
{
    let n = list.len();
    for i in 0..n
        invariant
            n == list@.len(),
            forall|j: int| 0 <= j < i ==> #[trigger] list@[j]@ != name@,
    {
        if list[i] == *name {
            assert(text_views(list@)[i as int] == name@);
            return true;
        }
    }
    assert forall|j: int| 0 <= j < text_views(list@).len() implies text_views(list@)[j]
        != name@ by {
        assert(list@[j]@ != name@);
    }
    false
}

fn some_contains(texts: &Vec<String>, needle: &String) -> (b: bool)
    ensures
        b == exists|i: int| 0 <= i < texts@.len() && occurs_in(needle@, #[trigger] texts@[i]@),
{
    let n = texts.len();
    for i in 0..n
        invariant
            n == texts@.len(),
            forall|j: int| 0 <= j < i ==> !occurs_in(needle@, #[trigger] texts@[j]@),
    {
        if contains_text(texts[i].as_str(), needle.as_str()) {
            return true;
        }
    }
    false
}

/// The games of `candidates` that are running: those whose name occurs in
/// the lower-cased name of some process. Each name is listed once.
pub fn running_games(process_names: &Vec<String>, candidates: &Vec<String>) -> (running: Vec<
    String,
>)
    ensures
        text_views(running@).no_duplicates(),
        forall|k: Seq<char>|
            #![trigger text_views(running@).contains(k)]
            text_views(running@).contains(k) <==> (text_views(candidates@).contains(k)
                && matches_some_process(text_views(process_names@), k)),
{
    let lowered = lower_all(process_names);
    let ghost procs = text_views(process_names@);
    let mut running: Vec<String> = Vec::new();
    let n = candidates.len();
    for c in 0..n
        invariant
            n == candidates@.len(),
            procs == text_views(process_names@),
            lowered@.len() == procs.len(),
            forall|i: int| 0 <= i < procs.len() ==> #[trigger] lowered@[i]@ == lowercase(procs[i]),
            text_views(running@).no_duplicates(),
            forall|k: Seq<char>|
                #![trigger text_views(running@).contains(k)]
                text_views(running@).contains(k) <==> (text_views(candidates@).take(
                    c as int,
                ).contains(k) && matches_some_process(procs, k)),
    {
        let cand = &candidates[c];
        let ghost cv = cand@;
        let ghost before = text_views(running@);
        let ghost prefix = text_views(candidates@).take(c as int);
        let ghost longer = text_views(candidates@).take(c + 1);
        proof {
            lemma_take_one_more(text_views(candidates@), c as int);
        }
        let seen = list_has(&running, cand);
        let hit = some_contains(&lowered, cand);
        assert(hit == matches_some_process(procs, cv)) by {
            if hit {
                let i = choose|i: int| 0 <= i < lowered@.len() && occurs_in(cv, #[trigger] lowered@[i]@);
                assert(occurs_in(cv, lowercase(procs[i])));
            }
            if matches_some_process(procs, cv) {
                let i = choose|i: int| 0 <= i < procs.len() && occurs_in(cv, #[trigger] lowercase(procs[i]));
                assert(occurs_in(cv, lowered@[i]@));
            }
        }
        if !seen && hit {
            running.push(cand.clone());
            assert(text_views(running@) =~= before.push(cv));
        }
        assert forall|k: Seq<char>|
            #![trigger text_views(running@).contains(k)]
            text_views(running@).contains(k) <==> (longer.contains(k) && matches_some_process(procs, k)) by {
            if !seen && hit {
                assert(text_views(running@)[before.len() as int] == cv);
                if text_views(running@).contains(k) && k != cv {
                    let j = choose|j: int| 0 <= j < text_views(running@).len() && text_views(running@)[j] == k;
                    assert(before[j] == k);
                }
                if before.contains(k) {
                    let j = choose|j: int| 0 <= j < before.len() && before[j] == k;
                    assert(text_views(running@)[j] == k);
                }
            }
        }
        assert(text_views(running@).no_duplicates()) by {
            if !seen && hit {
                assert forall|i: int, j: int|
                    0 <= i < j < text_views(running@).len() implies text_views(running@)[i]
                    != text_views(running@)[j] by {
                    if j == before.len() {
                        assert(before.contains(text_views(running@)[i]));
                    }
                }
            }
        }
    }
    assert(text_views(candidates@).take(n as int) =~= text_views(candidates@));
    running
}


/// The ledger after one tick: every running game gains `poll` seconds (a
/// game without any starts at zero); the others keep theirs.
pub open spec fn ticked_times(
    times: Map<Seq<char>, u64>,
    running: Set<Seq<char>>,
    poll: u64,
) -> Map<Seq<char>, u64> {
    Map::new(
        |k: Seq<char>| times.contains_key(k) || running.contains(k),
        |k: Seq<char>|
            if running.contains(k) {
                (time_or_zero(times, k) + poll) as u64
            } else {
                times[k]
            },
    )
}

/// `a - b`, or 0 when `b` is larger.
pub open spec fn elapsed_since(a: u64, b: u64) -> int {
    if a >= b {
        a - b
    } else {
        0
    }
}

/// Whether the configured limit of `name` is reached at `played` seconds.
pub open spec fn limit_reached(games: Seq<GameConfig>, name: Seq<char>, played: u64) -> bool {
    match config_limit(games, name) {
        Some(limit) => over_limit(played, limit),
        None => false,
    }
}

/// Whether a game that has been played `played` seconds is due an alert:
/// it is tracked, its limit is reached, and either it was never alerted
/// (or last at second 0) or a whole reminder interval has passed since the
/// last alert.
pub open spec fn alert_due(
    games: Seq<GameConfig>,
    reminder_mins: u64,
    notified: Map<Seq<char>, u64>,
    name: Seq<char>,
    played: u64,
) -> bool {
    &&& limit_reached(games, name, played)
    &&& (time_or_zero(notified, name) == 0 || elapsed_since(played, time_or_zero(notified, name))
        >= reminder_mins * 60)
}

/// The alert times a tick starts from: those kept from earlier ticks of the
/// same day, none after the day changed.
pub open spec fn notified_base(
    notified: Map<Seq<char>, u64>,
    date: Seq<char>,
    today: Seq<char>,
) -> Map<Seq<char>, u64> {
    if date == today {
        notified
    } else {
        Map::empty()
    }
}

/// The alert times after a tick: each running game that is due an alert
/// records the playtime at which it was alerted.
pub open spec fn notified_after(
    base: Map<Seq<char>, u64>,
    games: Seq<GameConfig>,
    reminder_mins: u64,
    times: Map<Seq<char>, u64>,
    running: Set<Seq<char>>,
) -> Map<Seq<char>, u64> {
    Map::new(
        |k: Seq<char>|
            base.contains_key(k) || (running.contains(k) && alert_due(
                games,
                reminder_mins,
                base,
                k,
                times[k],
            )),
        |k: Seq<char>|
            if running.contains(k) && alert_due(games, reminder_mins, base, k, times[k]) {
                times[k]
            } else {
                base[k]
            },
    )
}

/// The running games, in the order given, that are due an alert.
pub open spec fn due_names(
    running: Seq<Seq<char>>,
    games: Seq<GameConfig>,
    reminder_mins: u64,
    base: Map<Seq<char>, u64>,
    times: Map<Seq<char>, u64>,
) -> Seq<Seq<char>> {
    running.filter(|k: Seq<char>| alert_due(games, reminder_mins, base, k, times[k]))
}

/// What a tick can do without arithmetic overflow: no running game's
/// playtime passes `u64::MAX`, and the reminder interval in seconds fits in
/// a `u64` whenever some running game reaches its limit.
pub open spec fn tick_fits(
    times: Map<Seq<char>, u64>,
    games: Seq<GameConfig>,
    reminder_mins: u64,
    running: Set<Seq<char>>,
    poll: u64,
) -> bool {
    &&& forall|k: Seq<char>| #[trigger]
        running.contains(k) ==> time_or_zero(times, k) + poll <= u64::MAX
    &&& (reminder_mins * 60 <= u64::MAX || forall|k: Seq<char>| #[trigger]
        running.contains(k) ==> !limit_reached(games, k, (time_or_zero(times, k) + poll) as u64))
}

/// An alert to show: the game and its limit.
pub struct Alert {
    pub game_name: String,
    pub limit_seconds: u64,
}

/// The names of a list of alerts.
pub open spec fn alert_views(alerts: Seq<Alert>) -> Seq<Seq<char>> {
    alerts.map_values(|a: Alert| a.game_name@)
}

/// What a tick produced: the running games, the alerts to show, in order,
/// and whether the ledger changed and must be saved.
pub struct TickOutcome {
    pub running: Vec<String>,
    pub alerts: Vec<Alert>,
    pub data_changed: bool,
}

/// Applies one tick of the tracker on `today` to the ledger and to the
/// times of the last alerts: the alert times are forgotten when the ledger
/// is for another day; each running game gains `poll_interval` seconds; each
/// running game due an alert (see `alert_due`) gets one and records the
/// playtime it was alerted at.
pub fn apply_tick(
    state: &mut TrackerState,
    notified: &mut GameTimes,
    config: &Config,
    running: Vec<String>,
    poll_interval: u64,
    today: &String,
) -> (outcome: TickOutcome)
    requires
        text_views(running@).no_duplicates(),
        tick_fits(
            old(state).times@,
            config.games@,
            config.reminder_interval_mins,
            text_views(running@).to_set(),
            poll_interval,
        ),
    ensures
        final(state).date@ == old(state).date@,
        final(state).times@ == ticked_times(
            old(state).times@,
            text_views(running@).to_set(),
            poll_interval,
        ),
        final(notified)@ == notified_after(
            notified_base(old(notified)@, old(state).date@, today@),
            config.games@,
            config.reminder_interval_mins,
            final(state).times@,
            text_views(running@).to_set(),
        ),
        alert_views(outcome.alerts@) == due_names(
            text_views(running@),
            config.games@,
            config.reminder_interval_mins,
            notified_base(old(notified)@, old(state).date@, today@),
            final(state).times@,
        ),
        forall|i: int|
            0 <= i < outcome.alerts@.len() ==> config_limit(
                config.games@,
                #[trigger] outcome.alerts@[i].game_name@,
            ) == Some(outcome.alerts@[i].limit_seconds),
        alert_views(outcome.alerts@).no_duplicates(),
        outcome.running@ == running@,
        outcome.data_changed == (running@.len() > 0),
{
    if state.date != *today {
        notified.clear();
    }
    let ghost base = notified@;
    let ghost old_times = state.times@;
    let ghost run = text_views(running@);
    let ghost games = config.games@;
    let ghost mins = config.reminder_interval_mins;
    let ghost full = ticked_times(old_times, run.to_set(), poll_interval);
    let ghost pred = |k: Seq<char>| alert_due(games, mins, base, k, full[k]);
    let mut alerts: Vec<Alert> = Vec::new();
    let n = running.len();
    for i in 0..n
        invariant
            n == running@.len(),
            run == text_views(running@),
            run.no_duplicates(),
            games == config.games@,
            mins == config.reminder_interval_mins,
            full == ticked_times(old_times, run.to_set(), poll_interval),
            pred == (|k: Seq<char>| alert_due(games, mins, base, k, full[k])),
            tick_fits(old_times, games, mins, run.to_set(), poll_interval),
            state.date@ == old(state).date@,
            state.times@ == ticked_times(old_times, run.take(i as int).to_set(), poll_interval),
            notified@ == notified_after(base, games, mins, full, run.take(i as int).to_set()),
            alert_views(alerts@) == run.take(i as int).filter(pred),
            alert_views(alerts@).no_duplicates(),
            forall|j: int|
                0 <= j < alerts@.len() ==> config_limit(games, #[trigger] alerts@[j].game_name@)
                    == Some(alerts@[j].limit_seconds),
    {
        let name = &running[i];
        let ghost k = name@;
        let ghost prefix = run.take(i as int);
        let ghost longer = run.take(i + 1);
        assert(run[i as int] == k);
        proof {
            lemma_take_one_more(run, i as int);
        }
        assert(run.to_set().contains(k));
        assert(time_or_zero(state.times@, k) == time_or_zero(old_times, k));
        assert(time_or_zero(notified@, k) == time_or_zero(base, k));
        let total = state.add_playtime(name, poll_interval);
        assert(total == full[k]);
        let ghost longer_set = longer.to_set();
        assert(state.times@ =~= ticked_times(old_times, longer_set, poll_interval));
        let mut alerted = false;
        match config.limit_of(name) {
            Some(limit) => {
                if is_over_limit(total, limit) {
                    let last = notified.time_of(name.as_str());
                    let cooldown = config.reminder_interval_mins * 60;
                    if last == 0 || total.saturating_sub(last) >= cooldown {
                        alerts.push(Alert { game_name: name.clone(), limit_seconds: limit });
                        notified.insert(name.clone(), total);
                        alerted = true;
                    }
                }
            },
            None => {},
        }
        assert(alerted == pred(k));
        assert(notified@ =~= notified_after(base, games, mins, full, longer_set));
        assert(longer.drop_last() =~= prefix);
        assert(longer.filter(pred) == if pred(k) {
            prefix.filter(pred).push(k)
        } else {
            prefix.filter(pred)
        }) by {
            prefix.lemma_filter_push(k, pred);
        }
        assert(alert_views(alerts@) =~= longer.filter(pred));
        assert(alert_views(alerts@).no_duplicates()) by {
            if alerted {
                let fp = prefix.filter(pred);
                assert(!fp.contains(k)) by {
                    if fp.contains(k) {
                        prefix.lemma_filter_contains_rev(pred, k);
                    }
                }
                assert forall|a: int, b: int|
                    0 <= a < b < alert_views(alerts@).len() implies alert_views(alerts@)[a]
                    != alert_views(alerts@)[b] by {
                    if b == fp.len() {
                        assert(fp[a] == alert_views(alerts@)[a]);
                    }
                }
            }
        }
    }
    assert(run.take(n as int) =~= run);
    TickOutcome { running, alerts, data_changed: n > 0 }
}


/// Whether one tick can run on these games without arithmetic overflow
/// (see `tick_fits`).
pub fn check_tick_fits(
    state: &TrackerState,
    config: &Config,
    running: &Vec<String>,
    poll_interval: u64,
) -> (b: bool)
    ensures
        b == tick_fits(
            state.times@,
            config.games@,
            config.reminder_interval_mins,
            text_views(running@).to_set(),
            poll_interval,
        ),
{
    let ghost run = text_views(running@);
    let ghost times = state.times@;
    let ghost games = config.games@;
    let n = running.len();
    let mut any_reached = false;
    for i in 0..n
        invariant
            n == running@.len(),
            run == text_views(running@),
            times == state.times@,
            games == config.games@,
            forall|j: int| 0 <= j < i ==> time_or_zero(times, #[trigger] run[j]) + poll_interval <= u64::MAX,
            any_reached == exists|j: int| 0 <= j < i && limit_reached(
                games,
                #[trigger] run[j],
                (time_or_zero(times, run[j]) + poll_interval) as u64,
            ),
    {
        let played = state.times.time_of(running[i].as_str());
        assert(run[i as int] == running@[i as int]@);
        if played > u64::MAX - poll_interval {
            assert(run.to_set().contains(run[i as int]));
            return false;
        }
        let reached = match config.limit_of(&running[i]) {
            Some(limit) => is_over_limit(played + poll_interval, limit),
            None => false,
        };
        if reached {
            any_reached = true;
        }
    }
    assert forall|k: Seq<char>| #[trigger]
        run.to_set().contains(k) implies time_or_zero(times, k) + poll_interval <= u64::MAX by {
        let j = choose|j: int| 0 <= j < run.len() && run[j] == k;
        assert(time_or_zero(times, run[j]) + poll_interval <= u64::MAX);
    }
    if any_reached {
        let ghost j = choose|j: int| 0 <= j < n && limit_reached(
            games,
            #[trigger] run[j],
            (time_or_zero(times, run[j]) + poll_interval) as u64,
        );
        assert(run.to_set().contains(run[j]));
        config.reminder_interval_mins <= u64::MAX / 60
    } else {
        assert forall|k: Seq<char>| #[trigger]
            run.to_set().contains(k) implies !limit_reached(
            games,
            k,
            (time_or_zero(times, k) + poll_interval) as u64,
        ) by {
            let j = choose|j: int| 0 <= j < run.len() && run[j] == k;
            assert(!limit_reached(games, run[j], (time_or_zero(times, run[j]) + poll_interval) as u64));
        }
        true
    }
}


/// The tracked games that are running among these processes.
pub open spec fn running_set(games: Seq<GameConfig>, processes: Seq<Seq<char>>) -> Set<Seq<char>> {
    Set::new(|k: Seq<char>| has_name(games, k) && matches_some_process(processes, k))
}

/// What a tick on the day `today` leaves in the alert times and the alerts,
/// given the alert times before it and the ledger after it.
pub open spec fn alerts_for_day(
    old_notified: Map<Seq<char>, u64>,
    date: Seq<char>,
    today: Seq<char>,
    games: Seq<GameConfig>,
    reminder_mins: u64,
    times: Map<Seq<char>, u64>,
    running: Set<Seq<char>>,
    new_notified: Map<Seq<char>, u64>,
    alerts: Seq<Alert>,
) -> bool {
    let base = notified_base(old_notified, date, today);
    &&& new_notified == notified_after(base, games, reminder_mins, times, running)
    &&& forall|k: Seq<char>| #![trigger alert_views(alerts).contains(k)]
        alert_views(alerts).contains(k) <==> (running.contains(k) && alert_due(
            games,
            reminder_mins,
            base,
            k,
            times[k],
        ))
}

/// One pass of the tracker's polling loop on the day `today`, given the
/// names of the running processes: finds the tracked games among them and
/// applies the tick (see `apply_tick`). Returns `None`, changing nothing,
/// when the tick would overflow (see `tick_fits`).
pub fn tracker_step(
    state: &mut TrackerState,
    notified: &mut GameTimes,
    config: &Config,
    process_names: &Vec<String>,
    poll_interval: u64,
    today: &String,
) -> (outcome: Option<TickOutcome>)
    ensures
        outcome is None <==> !tick_fits(
            old(state).times@,
            config.games@,
            config.reminder_interval_mins,
            running_set(config.games@, text_views(process_names@)),
            poll_interval,
        ),
        outcome is None ==> final(state).date@ == old(state).date@ && final(state).times@ == old(
            state,
        ).times@ && final(notified)@ == old(notified)@,
        outcome matches Some(o) ==> {
            &&& final(state).date@ == old(state).date@
            &&& final(state).times@ == ticked_times(
                old(state).times@,
                running_set(config.games@, text_views(process_names@)),
                poll_interval,
            )
            &&& alerts_for_day(
                    old(notified)@,
                    old(state).date@,
                    today@,
                    config.games@,
                    config.reminder_interval_mins,
                    final(state).times@,
                    running_set(config.games@, text_views(process_names@)),
                    final(notified)@,
                    o.alerts@,
                )
            &&& alert_views(o.alerts@).no_duplicates()
            &&& text_views(o.running@).no_duplicates()
            &&& text_views(o.running@).to_set() == running_set(
                config.games@,
                text_views(process_names@),
            )
            &&& forall|i: int|
                0 <= i < o.alerts@.len() ==> config_limit(
                    config.games@,
                    #[trigger] o.alerts@[i].game_name@,
                ) == Some(o.alerts@[i].limit_seconds)
            &&& o.data_changed == (running_set(
                config.games@,
                text_views(process_names@),
            ) != Set::<Seq<char>>::empty())
        },
{
    let names = config.game_names();
    let running = running_games(process_names, &names);
    let ghost procs = text_views(process_names@);
    let ghost run_set = running_set(config.games@, procs);
    assert(text_views(running@).to_set() =~= run_set) by {
        assert forall|k: Seq<char>| text_views(running@).to_set().contains(k) <==> run_set.contains(k) by {
            if text_views(names@).contains(k) {
                let j = choose|j: int| 0 <= j < text_views(names@).len() && text_views(names@)[j] == k;
                assert(config.games@[j].name@ == k);
            }
            if has_name(config.games@, k) {
                let j = choose|j: int| 0 <= j < config.games@.len() && #[trigger] config.games@[j].name@ == k;
                assert(text_views(names@)[j] == k);
            }
            assert(text_views(running@).contains(k) <==> (text_views(names@).contains(k)
                && matches_some_process(procs, k)));
        }
    }
    if !check_tick_fits(state, config, &running, poll_interval) {
        return None;
    }
    let ghost old_notified = notified@;
    let ghost old_date = state.date@;
    let ghost running_view = running@;
    let outcome = apply_tick(state, notified, config, running, poll_interval, today);
    proof {
        broadcast use vstd::seq_lib::group_filter_ensures;

        let base = notified_base(old_notified, old_date, today@);
        let times = state.times@;
        let games = config.games@;
        let mins = config.reminder_interval_mins;
        let run = text_views(running_view);
        let pred = |k: Seq<char>| alert_due(games, mins, base, k, times[k]);
        assert forall|k: Seq<char>| #![trigger alert_views(outcome.alerts@).contains(k)]
            alert_views(outcome.alerts@).contains(k) <==> (run_set.contains(k) && alert_due(
                games,
                mins,
                base,
                k,
                times[k],
            )) by {
            if alert_views(outcome.alerts@).contains(k) {
                run.lemma_filter_contains_rev(pred, k);
            }
            if run_set.contains(k) && pred(k) {
                assert(run.to_set().contains(k));
                let j = choose|j: int| 0 <= j < run.len() && run[j] == k;
                run.lemma_filter_contains(pred, j);
            }
        }
        assert(alerts_for_day(
            old_notified,
            old_date,
            today@,
            games,
            mins,
            times,
            run_set,
            notified@,
            outcome.alerts@,
        ));
        assert(outcome.data_changed == (run_set != Set::<Seq<char>>::empty())) by {
            if running_view.len() > 0 {
                assert(run.to_set().contains(run[0]));
            } else {
                assert(run_set =~= Set::<Seq<char>>::empty());
            }
        }
    }
    Some(outcome)
}


/// Seconds between two polls of the running processes.
pub const POLL_INTERVAL_SECONDS: u64 = 5;

/// The fixed limit of the single-binary tracker, in seconds.
pub const TIME_LIMIT_SECONDS: u64 = 15;

/// The fixed time between two alerts of the single-binary tracker, in
/// seconds.
pub const NOTIFICATION_COOLDOWN_SECONDS: u64 = 30;

/// Whether the single-binary tracker alerts for a game played
/// `current_time` seconds that was last alerted at `last_nag` (0: never).
pub open spec fn fixed_alert_due(current_time: u64, last_nag: u64) -> bool {
    current_time >= TIME_LIMIT_SECONDS && (last_nag == 0 || current_time - last_nag
        >= NOTIFICATION_COOLDOWN_SECONDS)
}

/// The single-binary tracker's alert rule for `game` at `current_time`
/// seconds of play: alert once the fixed limit is reached, then again each
/// time the fixed cooldown has passed since the last alert. Records the
/// alert time and returns whether to alert.
pub fn handle_notifications(game: &String, current_time: u64, last_notified: &mut GameTimes) -> (alert: bool)
    requires
        !(current_time >= TIME_LIMIT_SECONDS && time_or_zero(old(last_notified)@, game@) != 0
            && time_or_zero(old(last_notified)@, game@) > current_time),
    ensures
        alert == fixed_alert_due(current_time, time_or_zero(old(last_notified)@, game@)),
        final(last_notified)@ == (if alert {
            old(last_notified)@.insert(game@, current_time)
        } else {
            old(last_notified)@
        }),
{
    if current_time >= TIME_LIMIT_SECONDS {
        let last_nag = last_notified.time_of(game.as_str());
        if last_nag == 0 || (current_time - last_nag) >= NOTIFICATION_COOLDOWN_SECONDS {
            last_notified.insert(game.clone(), current_time);
            return true;
        }
    }
    false
}

/// Starts a new day when the ledger is for another date than `today`: the
/// ledger takes today's date and loses its playtimes, and the alert times
/// are forgotten. Returns whether that happened (the ledger must then be
/// saved).
pub fn handle_daily_reset(state: &mut TrackerState, last_notified: &mut GameTimes, today: String) -> (reset: bool)
    ensures
        reset == (old(state).date@ != today@),
        reset ==> final(state).date@ == today@ && final(state).times@ == Map::<Seq<char>, u64>::empty()
            && final(last_notified)@ == Map::<Seq<char>, u64>::empty(),
        !reset ==> final(state).date@ == old(state).date@ && final(state).times@ == old(state).times@
            && final(last_notified)@ == old(last_notified)@,
{
    if state.date != today {
        state.date = today;
        state.times.clear();
        last_notified.clear();
        true
    } else {
        false
    }
}

/// What a tick of the single-binary tracker needs to run without
/// arithmetic overflow: no running game's playtime passes `u64::MAX`, and no
/// running game that reaches the fixed limit was last alerted at a later
/// playtime than its new one.
pub open spec fn fixed_tick_fits(
    times: Map<Seq<char>, u64>,
    notified: Map<Seq<char>, u64>,
    running: Set<Seq<char>>,
    poll: u64,
) -> bool {
    forall|k: Seq<char>| #[trigger]
        running.contains(k) ==> {
            &&& time_or_zero(times, k) + poll <= u64::MAX
            &&& !(time_or_zero(times, k) + poll >= TIME_LIMIT_SECONDS && time_or_zero(notified, k)
                != 0 && time_or_zero(notified, k) > time_or_zero(times, k) + poll)
        }
}

/// The alert times after a tick of the single-binary tracker: each running
/// game due an alert under the fixed rule records its new playtime.
pub open spec fn fixed_notified_after(
    notified: Map<Seq<char>, u64>,
    times: Map<Seq<char>, u64>,
    running: Set<Seq<char>>,
) -> Map<Seq<char>, u64> {
    Map::new(
        |k: Seq<char>|
            notified.contains_key(k) || (running.contains(k) && fixed_alert_due(
                times[k],
                time_or_zero(notified, k),
            )),
        |k: Seq<char>|
            if running.contains(k) && fixed_alert_due(times[k], time_or_zero(notified, k)) {
                times[k]
            } else {
                notified[k]
            },
    )
}

/// One running game in a tick of the single-binary tracker: its new
/// playtime and whether to alert.
pub struct FixedTickEntry {
    pub game_name: String,
    pub total_seconds: u64,
    pub alert: bool,
}

/// What a tick of the single-binary tracker produced: one entry per running
/// game, in order, and whether the ledger changed and must be saved.
pub struct FixedTick {
    pub entries: Vec<FixedTickEntry>,
    pub data_changed: bool,
}

/// One tick of the single-binary tracker: each running game gains
/// `poll_interval` seconds and is alerted under the fixed rule (see
/// `handle_notifications`).
pub fn fixed_tick(
    state: &mut TrackerState,
    last_notified: &mut GameTimes,
    running: &Vec<String>,
    poll_interval: u64,
) -> (tick: FixedTick)
    requires
        text_views(running@).no_duplicates(),
        fixed_tick_fits(
            old(state).times@,
            old(last_notified)@,
            text_views(running@).to_set(),
            poll_interval,
        ),
    ensures
        final(state).date@ == old(state).date@,
        final(state).times@ == ticked_times(
            old(state).times@,
            text_views(running@).to_set(),
            poll_interval,
        ),
        final(last_notified)@ == fixed_notified_after(
            old(last_notified)@,
            final(state).times@,
            text_views(running@).to_set(),
        ),
        tick.entries@.len() == running@.len(),
        forall|i: int|
            0 <= i < running@.len() ==> {
                &&& (#[trigger] tick.entries@[i]).game_name@ == running@[i]@
                &&& tick.entries@[i].total_seconds == final(state).times@[running@[i]@]
                &&& tick.entries@[i].alert == fixed_alert_due(
                    tick.entries@[i].total_seconds,
                    time_or_zero(old(last_notified)@, running@[i]@),
                )
            },
        tick.data_changed == (running@.len() > 0),
{
    let ghost run = text_views(running@);
    let ghost old_times = state.times@;
    let ghost base = last_notified@;
    let ghost full = ticked_times(old_times, run.to_set(), poll_interval);
    let mut entries: Vec<FixedTickEntry> = Vec::new();
    let n = running.len();
    for i in 0..n
        invariant
            n == running@.len(),
            run == text_views(running@),
            run.no_duplicates(),
            full == ticked_times(old_times, run.to_set(), poll_interval),
            fixed_tick_fits(old_times, base, run.to_set(), poll_interval),
            state.date@ == old(state).date@,
            state.times@ == ticked_times(old_times, run.take(i as int).to_set(), poll_interval),
            last_notified@ == fixed_notified_after(base, full, run.take(i as int).to_set()),
            entries@.len() == i,
            forall|j: int|
                0 <= j < i ==> {
                    &&& (#[trigger] entries@[j]).game_name@ == run[j]
                    &&& entries@[j].total_seconds == full[run[j]]
                    &&& entries@[j].alert == fixed_alert_due(
                        entries@[j].total_seconds,
                        time_or_zero(base, run[j]),
                    )
                },
    {
        let name = &running[i];
        let ghost k = name@;
        assert(run[i as int] == k);
        proof {
            lemma_take_one_more(run, i as int);
        }
        assert(run.to_set().contains(k));
        assert(time_or_zero(state.times@, k) == time_or_zero(old_times, k));
        assert(time_or_zero(last_notified@, k) == time_or_zero(base, k));
        let total = state.add_playtime(name, poll_interval);
        assert(total == full[k]);
        let alert = handle_notifications(name, total, last_notified);
        assert(state.times@ =~= ticked_times(old_times, run.take(i + 1).to_set(), poll_interval));
        assert(last_notified@ =~= fixed_notified_after(base, full, run.take(i + 1).to_set()));
        entries.push(FixedTickEntry { game_name: name.clone(), total_seconds: total, alert });
    }
    assert(run.take(n as int) =~= run);
    FixedTick { entries, data_changed: n > 0 }
}

/// Whether one tick of the single-binary tracker can run without arithmetic
/// overflow (see `fixed_tick_fits`).
pub fn check_fixed_tick_fits(
    state: &TrackerState,
    last_notified: &GameTimes,
    running: &Vec<String>,
    poll_interval: u64,
) -> (b: bool)
    ensures
        b == fixed_tick_fits(
            state.times@,
            last_notified@,
            text_views(running@).to_set(),
            poll_interval,
        ),
{
    let ghost run = text_views(running@);
    let n = running.len();
    for i in 0..n
        invariant
            n == running@.len(),
            run == text_views(running@),
            forall|j: int|
                0 <= j < i ==> {
                    let k = #[trigger] run[j];
                    &&& time_or_zero(state.times@, k) + poll_interval <= u64::MAX
                    &&& !(time_or_zero(state.times@, k) + poll_interval >= TIME_LIMIT_SECONDS
                        && time_or_zero(last_notified@, k) != 0 && time_or_zero(last_notified@, k)
                        > time_or_zero(state.times@, k) + poll_interval)
                },
    {
        let played = state.times.time_of(running[i].as_str());
        let last = last_notified.time_of(running[i].as_str());
        assert(run[i as int] == running@[i as int]@);
        if played > u64::MAX - poll_interval {
            assert(run.to_set().contains(run[i as int]));
            return false;
        }
        let total = played + poll_interval;
        if total >= TIME_LIMIT_SECONDS && last != 0 && last > total {
            assert(run.to_set().contains(run[i as int]));
            return false;
        }
    }
    assert forall|k: Seq<char>| #[trigger] run.to_set().contains(k) implies {
        &&& time_or_zero(state.times@, k) + poll_interval <= u64::MAX
        &&& !(time_or_zero(state.times@, k) + poll_interval >= TIME_LIMIT_SECONDS && time_or_zero(
            last_notified@,
            k,
        ) != 0 && time_or_zero(last_notified@, k) > time_or_zero(state.times@, k) + poll_interval)
    } by {
        let j = choose|j: int| 0 <= j < run.len() && run[j] == k;
        assert(run[j] == k);
    }
    true
}

/// The text of the alert the tracker shows when a game reaches its limit.
pub fn limit_alert_body(game_name: &str) -> (body: String)
    ensures
        body@ == "You've hit your limit for "@ + game_name@ + ". Time to wrap up!"@,
{
    let mut body = String::from_str("You've hit your limit for ");
    body.append(game_name);
    body.append(". Time to wrap up!");
    body
}

/// The text of the alert the single-binary tracker shows.
pub fn over_limit_alert_body(game_name: &str) -> (body: String)
    ensures
        body@ == "You're over your limit for "@ + game_name@ + ". Time to wrap up!"@,
{
    let mut body = String::from_str("You're over your limit for ");
    body.append(game_name);
    body.append(". Time to wrap up!");
    body
}

} // verus!
