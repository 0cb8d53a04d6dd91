//! Properties of the library that span several functions or calls.

use vstd::prelude::*;
use vstd::arithmetic::div_mod::lemma_fundamental_div_mod_converse;
use crate::clock::limit_seconds_of;
use crate::config::{GameConfig, config_limit, games_after_add};
use crate::ledger::time_or_zero;
use crate::text::{decimal, digit_char, lowercase, normalized_name, occurs_in, pad2, trim_text, white_space};
use crate::clock::{over_limit, time_text};
use crate::paths::ends_with;
use crate::tracker::{
    fixed_tick_fits,
    fixed_notified_after,
    fixed_alert_due,
    matches_some_process,
    tick_fits,
    alert_due,
    elapsed_since,
    limit_reached,
    notified_after,
    notified_base,
    ticked_times,
};

verus! {

/// A limit composed of `hours` and `minutes` (below 60) splits back into the
/// same hours and minutes: `limit_hours` and `limit_minutes` show what
/// `limit_from_parts` was given.
pub proof fn lemma_limit_parts_round_trip(hours: u32, minutes: u32)
    requires
        minutes < 60,
    ensures
        limit_seconds_of(hours as nat, minutes as nat) / 3600 == hours,
        ((limit_seconds_of(hours as nat, minutes as nat) / 3600) as u32) == hours,
        (limit_seconds_of(hours as nat, minutes as nat) % 3600) / 60 == minutes,
{
    let total = limit_seconds_of(hours as nat, minutes as nat) as int;
    assert(total == hours * 3600 + minutes * 60);
    lemma_fundamental_div_mod_converse(total, 3600, hours as int, minutes * 60);
    lemma_fundamental_div_mod_converse(minutes * 60, 60, minutes as int, 0);
}

/// The hours, minutes and seconds that `format_time` shows add back up to
/// the total, with minutes and seconds below 60.
pub proof fn lemma_time_fields_add_up(total_seconds: nat)
    ensures
        (total_seconds / 3600) * 3600 + ((total_seconds % 3600) / 60) * 60 + total_seconds % 60
            == total_seconds,
        (total_seconds % 3600) / 60 < 60,
        total_seconds % 60 < 60,
{
    let t = total_seconds as int;
    let r = t % 3600;
    assert(t == (t / 3600) * 3600 + r && 0 <= r < 3600) by (nonlinear_arith)
        requires
            t >= 0,
            r == t % 3600,
    ;
    assert(r == (r / 60) * 60 + r % 60 && r / 60 < 60) by (nonlinear_arith)
        requires
            0 <= r < 3600,
    ;
    assert(t % 60 == r % 60) by (nonlinear_arith)
        requires
            t >= 0,
            r == t % 3600,
    ;
}

/// A tick adds exactly the poll interval to each running game (counting
/// from zero for a game without playtime) and leaves every other game as it
/// was.
pub proof fn lemma_tick_adds_poll_interval(
    times: Map<Seq<char>, u64>,
    running: Set<Seq<char>>,
    poll: u64,
    name: Seq<char>,
)
    requires
        running.contains(name) ==> (if times.contains_key(name) {
            times[name] as int
        } else {
            0
        }) + poll <= u64::MAX,
    ensures
        running.contains(name) ==> ticked_times(times, running, poll).contains_key(name)
            && ticked_times(times, running, poll)[name] == (if times.contains_key(name) {
            times[name] as int
        } else {
            0
        }) + poll,
        !running.contains(name) ==> ticked_times(times, running, poll).contains_key(name)
            == times.contains_key(name),
        !running.contains(name) && times.contains_key(name) ==> ticked_times(
            times,
            running,
            poll,
        )[name] == times[name],
{
}

/// The alert times a tick starts from: all earlier ones on the same day,
/// none on a new day.
pub proof fn lemma_notified_base_exact(
    notified: Map<Seq<char>, u64>,
    date: Seq<char>,
    today: Seq<char>,
)
    ensures
        date == today ==> notified_base(notified, date, today) == notified,
        date != today ==> notified_base(notified, date, today).dom().len() == 0 && forall|
            k: Seq<char>,
        | !#[trigger] notified_base(notified, date, today).contains_key(k),
{
    if date != today {
        assert(notified_base(notified, date, today) == Map::<Seq<char>, u64>::empty());
    }
}

/// After a tick, a running game that was due an alert records the playtime
/// it was alerted at; every other game keeps its earlier alert time (or
/// has none).
pub proof fn lemma_notified_after_exact(
    base: Map<Seq<char>, u64>,
    games: Seq<GameConfig>,
    reminder_mins: u64,
    times: Map<Seq<char>, u64>,
    running: Set<Seq<char>>,
    name: Seq<char>,
)
    ensures
        running.contains(name) && alert_due(games, reminder_mins, base, name, times[name]) ==> (
        notified_after(base, games, reminder_mins, times, running).contains_key(name)
            && notified_after(base, games, reminder_mins, times, running)[name] == times[name]),
        !(running.contains(name) && alert_due(games, reminder_mins, base, name, times[name])) ==> (
        notified_after(base, games, reminder_mins, times, running).contains_key(name)
            == base.contains_key(name) && (base.contains_key(name) ==> notified_after(
            base,
            games,
            reminder_mins,
            times,
            running,
        )[name] == base[name])),
{
}

/// After a tick of the single-binary tracker, a running game alerted under
/// the fixed rule records its playtime; every other game keeps its earlier
/// alert time (or has none).
pub proof fn lemma_fixed_notified_after_exact(
    notified: Map<Seq<char>, u64>,
    times: Map<Seq<char>, u64>,
    running: Set<Seq<char>>,
    name: Seq<char>,
)
    ensures
        ({
            let last: u64 = if notified.contains_key(name) {
                notified[name]
            } else {
                0
            };
            let after = fixed_notified_after(notified, times, running);
            &&& running.contains(name) && fixed_alert_due(times[name], last) ==> after.contains_key(
                name,
            ) && after[name] == times[name]
            &&& !(running.contains(name) && fixed_alert_due(times[name], last)) ==> after.contains_key(
                name,
            ) == notified.contains_key(name) && (notified.contains_key(name) ==> after[name]
                == notified[name])
        }),
{
}

/// Trimming keeps a run of consecutive characters of the text, with only
/// white space cut off before and after it, and the run neither starts nor
/// ends with white space.
pub proof fn lemma_trim_keeps_the_middle(s: Seq<char>)
    ensures
        exists|i: int, j: int|
            #![trigger s.subrange(i, j)]
            0 <= i <= j <= s.len() && trim_text(s) == s.subrange(i, j) && (forall|k: int|
                0 <= k < i ==> white_space(#[trigger] s[k])) && (forall|k: int|
                j <= k < s.len() ==> white_space(#[trigger] s[k])) && (i < j ==> !white_space(s[i])
                && !white_space(s[j - 1])),
{
    let (i, rest) = lemma_trim_start_shape(s);
    let j = lemma_trim_end_shape(rest);
    assert(trim_text(s) == s.subrange(i, i + j));
    assert forall|k: int| i + j <= k < s.len() implies white_space(#[trigger] s[k]) by {
        assert(s[k] == rest[k - i]);
    }
    if 0 < j {
        assert(s[i] == rest[0]);
        assert(s[i + j - 1] == rest[j - 1]);
    }
    assert(s.subrange(i, i + j) == trim_text(s));
}

proof fn lemma_trim_start_shape(s: Seq<char>) -> (r: (int, Seq<char>))
    ensures
        0 <= r.0 <= s.len(),
        r.1 == s.subrange(r.0, s.len() as int),
        crate::text::trim_start_text(s) == r.1,
        forall|k: int| 0 <= k < r.0 ==> white_space(#[trigger] s[k]),
        r.0 < s.len() ==> !white_space(s[r.0]),
    decreases s.len(),
{
    if s.len() > 0 && white_space(s[0]) {
        let (i, rest) = lemma_trim_start_shape(s.drop_first());
        assert(s.drop_first().subrange(i, s.len() - 1) =~= s.subrange(i + 1, s.len() as int));
        assert forall|k: int| 0 <= k < i + 1 implies white_space(#[trigger] s[k]) by {
            if k > 0 {
                assert(s[k] == s.drop_first()[k - 1]);
            }
        }
        if i + 1 < s.len() {
            assert(s[i + 1] == s.drop_first()[i]);
        }
        (i + 1, rest)
    } else {
        assert(s.subrange(0, s.len() as int) =~= s);
        (0, s)
    }
}

proof fn lemma_trim_end_shape(s: Seq<char>) -> (j: int)
    ensures
        0 <= j <= s.len(),
        crate::text::trim_end_text(s) == s.subrange(0, j),
        forall|k: int| j <= k < s.len() ==> white_space(#[trigger] s[k]),
        0 < j ==> !white_space(s[j - 1]),
    decreases s.len(),
{
    if s.len() > 0 && white_space(s.last()) {
        let j = lemma_trim_end_shape(s.drop_last());
        assert(s.drop_last().subrange(0, j) =~= s.subrange(0, j));
        assert forall|k: int| j <= k < s.len() implies white_space(#[trigger] s[k]) by {
            if k < s.len() - 1 {
                assert(s[k] == s.drop_last()[k]);
            }
        }
        if 0 < j {
            assert(s[j - 1] == s.drop_last()[j - 1]);
        }
        j
    } else {
        assert(s.subrange(0, s.len() as int) =~= s);
        s.len() as int
    }
}

/// After a game's playtime is reset, the next tick in which it runs leaves
/// it at exactly one poll interval.
pub proof fn lemma_reset_then_tick(
    times: Map<Seq<char>, u64>,
    running: Set<Seq<char>>,
    poll: u64,
    name: Seq<char>,
)
    requires
        running.contains(name),
    ensures
        ticked_times(times.insert(name, 0), running, poll)[name] == poll,
{
}

/// No alert is due for a game below its limit (or without a limit, or not
/// tracked).
pub proof fn lemma_no_alert_below_limit(
    games: Seq<GameConfig>,
    reminder_mins: u64,
    notified: Map<Seq<char>, u64>,
    name: Seq<char>,
    played: u64,
)
    requires
        !limit_reached(games, name, played),
    ensures
        !alert_due(games, reminder_mins, notified, name, played),
{
}

/// A game that reaches its limit and was not alerted yet gets an alert.
pub proof fn lemma_first_alert_at_limit(
    games: Seq<GameConfig>,
    reminder_mins: u64,
    notified: Map<Seq<char>, u64>,
    name: Seq<char>,
    played: u64,
)
    requires
        limit_reached(games, name, played),
        !notified.contains_key(name),
    ensures
        alert_due(games, reminder_mins, notified, name, played),
{
}

/// Once a game has been alerted at a nonzero playtime, a later tick of the
/// same day alerts it again only after a whole reminder interval has passed.
pub proof fn lemma_reminder_waits_for_interval(
    base: Map<Seq<char>, u64>,
    games: Seq<GameConfig>,
    reminder_mins: u64,
    times: Map<Seq<char>, u64>,
    running: Set<Seq<char>>,
    name: Seq<char>,
    later_played: u64,
)
    requires
        running.contains(name),
        alert_due(games, reminder_mins, base, name, times[name]),
        times[name] != 0,
        elapsed_since(later_played, times[name]) < reminder_mins * 60,
    ensures
        !alert_due(
            games,
            reminder_mins,
            notified_after(base, games, reminder_mins, times, running),
            name,
            later_played,
        ),
{
    assert(notified_after(base, games, reminder_mins, times, running).contains_key(name));
}

/// A new day forgets the alerts of the previous one: a game over its limit
/// is alerted again on the first tick of the new day.
pub proof fn lemma_new_day_alerts_again(
    notified: Map<Seq<char>, u64>,
    date: Seq<char>,
    today: Seq<char>,
    games: Seq<GameConfig>,
    reminder_mins: u64,
    name: Seq<char>,
    played: u64,
)
    requires
        date != today,
        limit_reached(games, name, played),
    ensures
        alert_due(games, reminder_mins, notified_base(notified, date, today), name, played),
{
}

/// No two games of the list share a name.
pub open spec fn view_names_unique(games: Seq<(Seq<char>, u64)>) -> bool {
    forall|i: int, j: int| 0 <= i < j < games.len() ==> #[trigger] games[i].0 != #[trigger] games[j].0
}

/// Adding a game never makes two games share a name.
pub proof fn lemma_add_keeps_names_unique(
    games: Seq<(Seq<char>, u64)>,
    raw: Seq<char>,
    hours: u32,
    minutes: u32,
)
    requires
        view_names_unique(games),
    ensures
        view_names_unique(games_after_add(games, raw, hours, minutes)),
{
    let after = games_after_add(games, raw, hours, minutes);
    let name = normalized_name(raw);
    if after != games {
        assert forall|i: int, j: int| 0 <= i < j < after.len() implies #[trigger] after[i].0
            != #[trigger] after[j].0 by {
            if j == games.len() {
                assert(after[i] == games[i]);
                assert(after[j].0 == name);
            } else {
                assert(after[i] == games[i] && after[j] == games[j]);
            }
        }
    }
}

/// Adding the same typed name a second time changes nothing, whatever limit
/// it comes with.
pub proof fn lemma_add_twice_same_as_once(
    games: Seq<(Seq<char>, u64)>,
    raw: Seq<char>,
    hours: u32,
    minutes: u32,
    hours2: u32,
    minutes2: u32,
)
    ensures
        games_after_add(games_after_add(games, raw, hours, minutes), raw, hours2, minutes2)
            == games_after_add(games, raw, hours, minutes),
{
    let once = games_after_add(games, raw, hours, minutes);
    let name = normalized_name(raw);
    if once != games {
        assert(once[games.len() as int].0 == name);
    }
}


/// Every game of the list has a non-empty name.
pub open spec fn view_names_non_empty(games: Seq<(Seq<char>, u64)>) -> bool {
    forall|i: int| 0 <= i < games.len() ==> (#[trigger] games[i]).0.len() > 0
}

/// Adding a game never adds an empty name.
pub proof fn lemma_add_keeps_names_non_empty(
    games: Seq<(Seq<char>, u64)>,
    raw: Seq<char>,
    hours: u32,
    minutes: u32,
)
    requires
        view_names_non_empty(games),
    ensures
        view_names_non_empty(games_after_add(games, raw, hours, minutes)),
{
    let after = games_after_add(games, raw, hours, minutes);
    assert forall|i: int| 0 <= i < after.len() implies (#[trigger] after[i]).0.len() > 0 by {
        if i < games.len() {
            assert(after[i] == games[i]);
        }
    }
}

/// Removing a game keeps the names of the others distinct.
pub proof fn lemma_remove_keeps_names_unique(games: Seq<(Seq<char>, u64)>, index: int)
    requires
        view_names_unique(games),
        0 <= index < games.len(),
    ensures
        view_names_unique(games.remove(index)),
{
    let after = games.remove(index);
    assert forall|i: int, j: int| 0 <= i < j < after.len() implies #[trigger] after[i].0
        != #[trigger] after[j].0 by {
        let oi = if i < index { i } else { i + 1 };
        let oj = if j < index { j } else { j + 1 };
        assert(after[i] == games[oi] && after[j] == games[oj]);
    }
}

/// Changing a game's limit keeps its name, so the names stay distinct.
pub proof fn lemma_set_limit_keeps_names_unique(
    games: Seq<(Seq<char>, u64)>,
    index: int,
    limit: u64,
)
    requires
        view_names_unique(games),
        0 <= index < games.len(),
    ensures
        view_names_unique(games.update(index, (games[index].0, limit))),
{
    let after = games.update(index, (games[index].0, limit));
    assert forall|i: int, j: int| 0 <= i < j < after.len() implies #[trigger] after[i].0
        != #[trigger] after[j].0 by {
        assert(after[i].0 == games[i].0 && after[j].0 == games[j].0);
    }
}

/// The two data files never share a path: the ledger's path ends with
/// `playtime.json` (see `save_file_path`), the settings file's with
/// `config.json` (see `config_file_path`), and no text ends with both.
pub proof fn lemma_data_files_differ(save_path: Seq<char>, config_path: Seq<char>)
    requires
        ends_with(save_path, "playtime.json"@),
        ends_with(config_path, "config.json"@),
    ensures
        save_path != config_path,
{
    reveal_strlit("playtime.json");
    reveal_strlit("config.json");
    if save_path == config_path {
        let n = save_path.len();
        assert(save_path.subrange(n - 13, n as int)[2] == 'a');
        assert(save_path.subrange(n - 11, n as int)[0] == 'c');
        assert(save_path[n - 11] == 'a');
    }
}


/// Whether every character of `s` is one of `0` to `9`.
pub open spec fn all_digits(s: Seq<char>) -> bool {
    forall|i: int| 0 <= i < s.len() ==> '0' <= #[trigger] s[i] <= '9'
}

/// The number a text of decimal digits denotes, most significant first.
pub open spec fn digits_value(s: Seq<char>) -> nat
    decreases s.len(),
{
    if s.len() == 0 {
        0
    } else {
        digits_value(s.drop_last()) * 10 + ((s.last() as int - 48) as nat)
    }
}

proof fn lemma_digit_char(d: nat)
    requires
        d < 10,
    ensures
        '0' <= digit_char(d) <= '9',
        digit_char(d) as int - 48 == d,
{
    assert(((48 + d) as u8) as int == 48 + d);
}

/// The decimal text of `n` is made of digits, denotes `n`, and has no
/// leading zero (a lone `0` for zero).
pub proof fn lemma_decimal_denotes(n: nat)
    ensures
        all_digits(decimal(n)),
        digits_value(decimal(n)) == n,
        decimal(n).len() >= 1,
        decimal(n).len() > 1 ==> decimal(n)[0] != '0',
        n < 10 <==> decimal(n).len() == 1,
    decreases n,
{
    if n < 10 {
        lemma_digit_char(n);
        let d = decimal(n);
        assert(d.drop_last() =~= Seq::<char>::empty());
        assert(digits_value(d.drop_last()) == 0);
        assert(d.last() == digit_char(n));
        assert(digits_value(d) == digits_value(d.drop_last()) * 10 + ((d.last() as int - 48) as nat));
    } else {
        lemma_decimal_denotes(n / 10);
        lemma_digit_char(n % 10);
        let d = decimal(n);
        assert(d.drop_last() =~= decimal(n / 10));
        assert(d.last() == digit_char(n % 10));
        assert(n == (n / 10) * 10 + n % 10) by (nonlinear_arith);
        assert(digits_value(d) == digits_value(d.drop_last()) * 10 + ((d.last() as int - 48) as nat));
        assert(d[0] == decimal(n / 10)[0]);
    }
}

/// A field of `format_time`: the decimal text of `n`, made of digits,
/// at least two long, and longer only when `n` needs more digits (no
/// superfluous leading zero).
pub proof fn lemma_pad2_two_digit_field(n: nat)
    ensures
        all_digits(pad2(n)),
        digits_value(pad2(n)) == n,
        pad2(n).len() >= 2,
        n < 100 ==> pad2(n).len() == 2,
        pad2(n).len() > 2 ==> pad2(n)[0] != '0',
        n >= 10 ==> pad2(n)[0] != '0',
{
    lemma_decimal_denotes(n);
    if n < 10 {
        let p = pad2(n);
        let z = seq!['0'];
        assert(p =~= seq!['0', decimal(n)[0]]);
        assert(p.drop_last() =~= z);
        assert(z.drop_last() =~= Seq::<char>::empty());
        assert(digits_value(z.drop_last()) == 0);
        assert(digits_value(z) == 0);
        assert(p.last() == decimal(n).last());
        assert(decimal(n).drop_last() =~= Seq::<char>::empty());
        assert(digits_value(decimal(n)) == ((decimal(n).last() as int - 48) as nat));
        assert(digits_value(p) == digits_value(p.drop_last()) * 10 + ((p.last() as int - 48) as nat));
    } else {
        lemma_decimal_denotes(n / 10);
        if n < 100 {
            assert(n / 10 < 10);
        }
    }
}

/// `format_time` writes hours, minutes and seconds, each a field of
/// `lemma_pad2_two_digit_field`, separated by colons: minutes and seconds
/// take exactly two digits, and the three values add up to the total.
pub proof fn lemma_time_text_layout(total_seconds: nat)
    ensures
        ({
            let h = pad2(total_seconds / 3600);
            let m = pad2((total_seconds % 3600) / 60);
            let sec = pad2(total_seconds % 60);
            &&& time_text(total_seconds) == h + seq![':'] + m + seq![':'] + sec
            &&& m.len() == 2 && sec.len() == 2 && h.len() >= 2
            &&& all_digits(h) && all_digits(m) && all_digits(sec)
            &&& digits_value(h) * 3600 + digits_value(m) * 60 + digits_value(sec) == total_seconds
        }),
{
    lemma_time_fields_add_up(total_seconds);
    lemma_pad2_two_digit_field(total_seconds / 3600);
    lemma_pad2_two_digit_field((total_seconds % 3600) / 60);
    lemma_pad2_two_digit_field(total_seconds % 60);
}

/// A game is over its limit exactly when the limit is nonzero and the
/// playtime has reached it.
pub proof fn lemma_over_limit_exact(played: u64, limit_seconds: u64)
    ensures
        over_limit(played, limit_seconds) <==> (limit_seconds > 0 && played >= limit_seconds),
        played < limit_seconds ==> !over_limit(played, limit_seconds),
{
}


/// The limit a name has in the settings is that of the first game of that
/// name, and there is none exactly when no game has that name.
pub proof fn lemma_config_limit_first_match(games: Seq<GameConfig>, name: Seq<char>)
    ensures
        config_limit(games, name) is None <==> (forall|i: int|
            0 <= i < games.len() ==> #[trigger] games[i].name@ != name),
        config_limit(games, name) matches Some(l) ==> exists|i: int|
            0 <= i < games.len() && #[trigger] games[i].name@ == name && games[i].limit_seconds == l
                && forall|j: int| 0 <= j < i ==> #[trigger] games[j].name@ != name,
    decreases games.len(),
{
    if games.len() > 0 {
        let rest = games.drop_first();
        lemma_config_limit_first_match(rest, name);
        if games[0].name@ != name {
            assert forall|i: int| 1 <= i < games.len() implies #[trigger] games[i].name@ == rest[i - 1].name@ by {}
            if config_limit(games, name) is None {
                assert forall|i: int| 0 <= i < games.len() implies #[trigger] games[i].name@ != name by {
                    if i > 0 {
                        assert(rest[i - 1].name@ != name);
                    }
                }
            } else {
                let l = config_limit(games, name)->0;
                let i = choose|i: int|
                    0 <= i < rest.len() && #[trigger] rest[i].name@ == name && rest[i].limit_seconds == l
                        && forall|j: int| 0 <= j < i ==> #[trigger] rest[j].name@ != name;
                assert(games[i + 1] == rest[i]);
                assert forall|j: int| 0 <= j < i + 1 implies #[trigger] games[j].name@ != name by {
                    if j > 0 {
                        assert(games[j] == rest[j - 1]);
                    }
                }
            }
            if forall|i: int| 0 <= i < games.len() ==> #[trigger] games[i].name@ != name {
                assert forall|i: int| 0 <= i < rest.len() implies #[trigger] rest[i].name@ != name by {
                    assert(games[i + 1] == rest[i]);
                }
            }
        } else {
            assert(games[0].name@ == name);
        }
    }
}

/// A game reaches its configured limit exactly when the first game of that
/// name has a nonzero limit and the playtime is at least that limit; below
/// the limit it never does.
pub proof fn lemma_limit_reached_exact(games: Seq<GameConfig>, name: Seq<char>, played: u64)
    ensures
        limit_reached(games, name, played) <==> (config_limit(games, name) matches Some(l) && l > 0
            && played >= l),
        config_limit(games, name) matches Some(l) && played < l ==> !limit_reached(
            games,
            name,
            played,
        ),
{
}

/// When an alert is due, in terms of the inputs alone: the game has a
/// nonzero limit that the playtime has reached, and it was never alerted
/// (or at second 0), or the playtime is at least a whole reminder interval
/// past the last alert (an alert time above the playtime, after a reset,
/// counts as no time passed).
pub proof fn lemma_alert_due_exact(
    games: Seq<GameConfig>,
    reminder_mins: u64,
    notified: Map<Seq<char>, u64>,
    name: Seq<char>,
    played: u64,
)
    ensures
        alert_due(games, reminder_mins, notified, name, played) <==> (config_limit(
            games,
            name,
        ) matches Some(l) && l > 0 && played >= l && (!notified.contains_key(name)
            || notified[name] == 0 || (played >= notified[name] && played - notified[name]
            >= reminder_mins * 60) || (played < notified[name] && reminder_mins == 0))),
{
}

/// A tick fits exactly when it overflows nothing: it is accepted whenever
/// no running game's playtime would pass `u64::MAX` and the reminder
/// interval in seconds fits in a `u64`; and an accepted tick never takes a
/// playtime past `u64::MAX`.
pub proof fn lemma_tick_fits_without_overflow(
    times: Map<Seq<char>, u64>,
    games: Seq<GameConfig>,
    reminder_mins: u64,
    running: Set<Seq<char>>,
    poll: u64,
)
    ensures
        ((forall|k: Seq<char>| #[trigger]
            running.contains(k) ==> (if times.contains_key(k) {
                times[k] as int
            } else {
                0
            }) + poll <= u64::MAX) && reminder_mins * 60 <= u64::MAX) ==> tick_fits(
            times,
            games,
            reminder_mins,
            running,
            poll,
        ),
        tick_fits(times, games, reminder_mins, running, poll) ==> forall|k: Seq<char>| #[trigger]
            running.contains(k) ==> (if times.contains_key(k) {
                times[k] as int
            } else {
                0
            }) + poll <= u64::MAX,
{
}

/// The single-binary tracker's rule, in numbers: alert from 15 seconds of
/// play on when never alerted, else once 30 seconds have passed since the
/// last alert.
pub proof fn lemma_fixed_alert_rule(current_time: u64, last_nag: u64)
    ensures
        fixed_alert_due(current_time, 0) <==> current_time >= 15,
        last_nag != 0 ==> (fixed_alert_due(current_time, last_nag) <==> (current_time >= 15
            && current_time - last_nag >= 30)),
        current_time < 15 ==> !fixed_alert_due(current_time, last_nag),
{
}

/// A text occurs in another exactly when it equals the run of characters
/// at some position.
pub proof fn lemma_occurs_in_exact(needle: Seq<char>, hay: Seq<char>)
    ensures
        occurs_in(needle, hay) <==> exists|j: int|
            0 <= j && j + needle.len() <= hay.len() && #[trigger] hay.subrange(j, j + needle.len())
                == needle,
{
}

/// A game counts as running exactly when its name occurs anywhere in the
/// lower-cased name of some process: at the start, the middle or the end.
pub proof fn lemma_matches_some_process_exact(processes: Seq<Seq<char>>, name: Seq<char>)
    ensures
        matches_some_process(processes, name) <==> exists|i: int, j: int|
            0 <= i < processes.len() && 0 <= j && j + name.len() <= lowercase(processes[i]).len()
                && #[trigger] lowercase(processes[i]).subrange(j, j + name.len()) == name,
{
    if matches_some_process(processes, name) {
        let i = choose|i: int| 0 <= i < processes.len() && occurs_in(name, #[trigger] lowercase(processes[i]));
        let j = choose|j: int|
            0 <= j && j + name.len() <= lowercase(processes[i]).len() && #[trigger] lowercase(
                processes[i],
            ).subrange(j, j + name.len()) == name;
        assert(lowercase(processes[i]).subrange(j, j + name.len()) == name);
    }
    if exists|i: int, j: int|
        0 <= i < processes.len() && 0 <= j && j + name.len() <= lowercase(processes[i]).len()
            && #[trigger] lowercase(processes[i]).subrange(j, j + name.len()) == name {
        let (i, j) = choose|i: int, j: int|
            0 <= i < processes.len() && 0 <= j && j + name.len() <= lowercase(processes[i]).len()
                && #[trigger] lowercase(processes[i]).subrange(j, j + name.len()) == name;
        assert(occurs_in(name, lowercase(processes[i])));
    }
}


/// Adding a game appends the trimmed, lower-cased name with a limit of
/// `hours` hours and `minutes` minutes in seconds, unless that name is empty
/// or already in the list, in which case the list is unchanged.
pub proof fn lemma_add_appends_normalized_name(
    games: Seq<(Seq<char>, u64)>,
    raw: Seq<char>,
    hours: u32,
    minutes: u32,
)
    ensures
        ({
            let name = normalized_name(raw);
            let after = games_after_add(games, raw, hours, minutes);
            &&& (name.len() == 0 || exists|i: int| 0 <= i < games.len() && #[trigger] games[i].0
                == name) ==> after == games
            &&& !(name.len() == 0 || exists|i: int| 0 <= i < games.len() && #[trigger] games[i].0
                == name) ==> after.len() == games.len() + 1 && after.take(games.len() as int)
                == games && after.last().0 == name && after.last().1 == hours as int * 3600
                + minutes as int * 60
        }),
{
    let name = normalized_name(raw);
    let after = games_after_add(games, raw, hours, minutes);
    if !(name.len() == 0 || exists|i: int| 0 <= i < games.len() && #[trigger] games[i].0 == name) {
        assert(after.take(games.len() as int) =~= games);
    }
}

/// A tick of the single-binary tracker is accepted exactly when, for every
/// running game, its playtime plus the poll interval fits in a `u64`, and,
/// once that new playtime reaches 15 seconds, the game was not last alerted
/// at a later playtime (the only subtraction of the rule).
pub proof fn lemma_fixed_tick_fits_exact(
    times: Map<Seq<char>, u64>,
    notified: Map<Seq<char>, u64>,
    running: Set<Seq<char>>,
    poll: u64,
)
    ensures
        fixed_tick_fits(times, notified, running, poll) <==> forall|k: Seq<char>| #[trigger]
            running.contains(k) ==> {
                let t: int = if times.contains_key(k) {
                    times[k] as int
                } else {
                    0
                };
                let last: int = if notified.contains_key(k) {
                    notified[k] as int
                } else {
                    0
                };
                &&& t + poll <= u64::MAX
                &&& !(t + poll >= 15 && last != 0 && last > t + poll)
            },
{
}

} // verus!
