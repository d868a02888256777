//! Dispatches: who is called, under which limits, and what is recorded of it.

use vstd::prelude::*;
use vstd::utf8::*;

use crate::db::{switched, with_result, DbModel, LogRowModel, PluginModel};
use crate::hub::{finished, AppModel};
use crate::notification_bus::EventModel;
use crate::plugin::loader::{LoadError, LoadedModel, LoadedPlugin};
use crate::plugin::registry::{
    all_succeeded, dispatch_detail, limits_of, log_extended, log_pushed, marked_enabled,
    marked_failed, mentions_fuel, number_setting, outcome_result, settled, subscribers_of,
    tickers_of, CallOutcome, EntryModel, RegistryModel,
};
use crate::table::in_order;
use crate::text::{decimal, joined, signed_decimal, spelled_u64, trimmed, truncated};

verus! {

broadcast use vstd::seq_lib::group_seq_properties;

/// A letter of a word, in either case.
pub open spec fn letter(c: char, small: char, large: char) -> bool {
    c == small || c == large
}

/// A text speaks of fuel where the four letters stand side by side in it, each
/// in either case.
pub proof fn law_mention_of_fuel(s: Seq<char>)
    ensures
        mentions_fuel(s) <==> exists|i: int|
            0 <= i && i + 4 <= s.len() && letter(#[trigger] s[i], 'f', 'F') && letter(
                s[i + 1],
                'u',
                'U',
            ) && letter(s[i + 2], 'e', 'E') && letter(s[i + 3], 'l', 'L'),
{
    reveal_strlit("fuel");
    let low = crate::plugin::registry::lowered(s);
    let fuel = "fuel"@;
    assert forall|i: int| 0 <= i < s.len() implies {
        &&& ((#[trigger] low[i]) == 'f' <==> letter(s[i], 'f', 'F'))
        &&& (low[i] == 'u' <==> letter(s[i], 'u', 'U'))
        &&& (low[i] == 'e' <==> letter(s[i], 'e', 'E'))
        &&& (low[i] == 'l' <==> letter(s[i], 'l', 'L'))
    } by {
        lemma_lowered(s[i]);
    }
    if mentions_fuel(s) {
        let at = choose|at: int| crate::text::occurs_at(low, fuel, at);
        crate::laws::texts::law_occurs(low, fuel, at);
        assert(fuel[0] == low[at + 0] && fuel[1] == low[at + 1] && fuel[2] == low[at + 2] && fuel[3]
            == low[at + 3]);
        assert(letter(s[at], 'f', 'F'));
    }
    if exists|i: int|
        0 <= i && i + 4 <= s.len() && letter(#[trigger] s[i], 'f', 'F') && letter(
            s[i + 1],
            'u',
            'U',
        ) && letter(s[i + 2], 'e', 'E') && letter(s[i + 3], 'l', 'L') {
        let i = choose|i: int|
            0 <= i && i + 4 <= s.len() && letter(#[trigger] s[i], 'f', 'F') && letter(
                s[i + 1],
                'u',
                'U',
            ) && letter(s[i + 2], 'e', 'E') && letter(s[i + 3], 'l', 'L');
        assert(low[i] == 'f' && low[i + 1] == 'u' && low[i + 2] == 'e' && low[i + 3] == 'l');
        crate::laws::texts::law_occurs(low, fuel, i);
        assert forall|k: int| 0 <= k < fuel.len() implies #[trigger] fuel[k] == low[i + k] by {
            assert(fuel.len() == 4);
        }
        assert(crate::text::occurs_at(low, fuel, i));
    }
}

proof fn lemma_lowered(c: char)
    ensures
        ({
            let low = crate::plugin::registry::lowered_char(c);
            &&& (low == 'f' <==> letter(c, 'f', 'F'))
            &&& (low == 'u' <==> letter(c, 'u', 'U'))
            &&& (low == 'e' <==> letter(c, 'e', 'E'))
            &&& (low == 'l' <==> letter(c, 'l', 'L'))
        }),
{
}

/// What is recorded of a call: `success` for the code 0, `other:` and the code
/// for any other, `timeout` for one that took too long, `fuel_exhausted` for
/// words that speak of fuel, and else `host_error:` and the words, those of a
/// failed call cut to 500 bytes.
pub proof fn law_recorded_results(code: i32, words: String)
    ensures
        outcome_result(CallOutcome::Returned(0)) == "success"@,
        code != 0 ==> outcome_result(CallOutcome::Returned(code)) == "other:"@ + signed_decimal(
            code as int,
        ),
        outcome_result(CallOutcome::TimedOut) == "timeout"@,
        mentions_fuel(words@) ==> outcome_result(CallOutcome::Failed(words)) == "fuel_exhausted"@,
        !mentions_fuel(words@) ==> outcome_result(CallOutcome::Failed(words)) == "host_error:"@
            + truncated(words@, 500),
        outcome_result(CallOutcome::Crashed(words)) == "host_error:"@ + words@,
{
}

/// Only a call that returned 0 counts as a success.
pub proof fn law_only_zero_is_a_success(outcome: CallOutcome)
    ensures
        outcome_result(outcome) == "success"@ <==> outcome == CallOutcome::Returned(0),
{
    reveal_strlit("success");
    reveal_strlit("other:");
    reveal_strlit("timeout");
    reveal_strlit("fuel_exhausted");
    reveal_strlit("host_error:");
    let s = "success"@;
    assert(s[0] == 's');
    match outcome {
        CallOutcome::Returned(code) => {
            if code != 0 {
                assert(outcome_result(outcome)[0] == 'o');
            }
        },
        CallOutcome::Failed(words) => {
            if mentions_fuel(words@) {
                assert("fuel_exhausted"@[0] == 'f');
            } else {
                assert(outcome_result(outcome)[0] == 'h');
            }
        },
        CallOutcome::TimedOut => {
            assert("timeout"@[0] == 't');
        },
        CallOutcome::Crashed(words) => {
            assert(outcome_result(outcome)[0] == 'h');
        },
    }
}

/// The limits of a call are the numbers in the two settings, with whitespace
/// around them or not, and a million and five seconds where there is no such
/// number.
pub proof fn law_limits(settings: Map<Seq<char>, Seq<char>>, n: u64)
    ensures
        !settings.contains_key("plugin.fuel_limit"@) ==> limits_of(settings).fuel_limit
            == 1_000_000,
        !settings.contains_key("plugin.timeout_ms"@) ==> limits_of(settings).timeout_ms == 5_000,
        settings.contains_key("plugin.fuel_limit"@) && spelled_u64(
            trimmed(settings["plugin.fuel_limit"@]),
        ) == Some(n) ==> limits_of(settings).fuel_limit == n,
        settings.contains_key("plugin.timeout_ms"@) && spelled_u64(
            trimmed(settings["plugin.timeout_ms"@]),
        ) == Some(n) ==> limits_of(settings).timeout_ms == n,
        settings.contains_key("plugin.fuel_limit"@) && spelled_u64(
            trimmed(settings["plugin.fuel_limit"@]),
        ) is None ==> limits_of(settings).fuel_limit == 1_000_000,
        settings.contains_key("plugin.timeout_ms"@) && spelled_u64(
            trimmed(settings["plugin.timeout_ms"@]),
        ) is None ==> limits_of(settings).timeout_ms == 5_000,
{
}

/// A setting that is a number gives the number, any other the default.
pub proof fn law_number_setting(
    settings: Map<Seq<char>, Seq<char>>,
    key: Seq<char>,
    default: u64,
    n: u64,
)
    ensures
        !settings.contains_key(key) ==> number_setting(settings, key, default) == default,
        settings.contains_key(key) && settings[key] == decimal(n as nat) ==> number_setting(
            settings,
            key,
            default,
        ) == n,
        settings.contains_key(key) && spelled_u64(trimmed(settings[key])) is None
            ==> number_setting(settings, key, default) == default,
{
    crate::laws::texts::law_written_numbers_are_read_back(n as nat);
    let s = decimal(n as nat);
    assert(trimmed(s) == s) by {
        lemma_digits_are_trimmed(n as nat);
    }
}

proof fn lemma_digits_are_trimmed(n: nat)
    ensures
        trimmed(decimal(n)) == decimal(n),
{
    lemma_all_digits(n);
    let s = decimal(n);
    assert(!crate::text::is_white(s[0]) && !crate::text::is_white(s.last()));
}

proof fn lemma_all_digits(n: nat)
    ensures
        decimal(n).len() > 0,
        forall|i: int| 0 <= i < decimal(n).len() ==> '0' <= (#[trigger] decimal(n)[i]) <= '9',
    decreases n,
{
    crate::laws::texts::law_decimal(n);
    if n >= 10 {
        lemma_all_digits(n / 10);
        assert forall|i: int| 0 <= i < decimal(n).len() implies '0' <= (#[trigger] decimal(n)[i])
            <= '9' by {
            if i < decimal(n).len() - 1 {
                assert(decimal(n)[i] == decimal(n).drop_last()[i]);
            } else {
                assert(decimal(n)[i] == decimal(n).last());
            }
        }
    } else {
        assert(decimal(n)[0] == decimal(n).last());
    }
}

/// One more record stands at the end of the log; up to a thousand stay, and of
/// more the oldest is gone.
pub proof fn law_one_more_record(log: Seq<EntryModel>, entry: EntryModel)
    requires
        log.len() <= 1000,
    ensures
        log.len() < 1000 ==> log_pushed(log, entry) == log.push(entry),
        log.len() == 1000 ==> log_pushed(log, entry) == log.skip(1).push(entry),
{
    if log.len() == 1000 {
        assert(log.push(entry).skip(1) =~= log.skip(1).push(entry));
    }
}

/// Records come in one after the other, in their order.
pub proof fn law_more_records(log: Seq<EntryModel>, entries: Seq<EntryModel>, entry: EntryModel)
    ensures
        log_extended(log, Seq::empty()) == log,
        log_extended(log, entries.push(entry)) == log_pushed(log_extended(log, entries), entry),
{
    assert(entries.push(entry).drop_last() =~= entries);
}

/// An event that is handed over is counted. Where somebody subscribes to it, it
/// waits behind the others with its subscribers, under the limits of the
/// moment; where nobody does, nothing waits. Nothing else changes.
pub proof fn law_handed_over(
    registry: RegistryModel,
    event: EventModel,
    settings: Map<Seq<char>, Seq<char>>,
)
    requires
        registry.loaded.dom().finite(),
    ensures
        ({
            let after = registry.handed(event, settings);
            let heard = exists|id: i64| #[trigger]
                registry.loaded.contains_key(id)
                    && registry.loaded[id].manifest.subscribes.contains(event.event_type());
            &&& after.dispatched == registry.dispatched.wrapping_add(1)
            &&& after.loaded == registry.loaded
            &&& after.log == registry.log
            &&& after.engine == registry.engine
            &&& !heard ==> after.pending == registry.pending
            &&& heard ==> {
                &&& after.pending.len() == registry.pending.len() + 1
                &&& after.pending.drop_last() == registry.pending
                &&& after.pending.last().event == event
                &&& after.pending.last().limits == limits_of(settings)
                &&& forall|id: i64| #[trigger]
                    after.pending.last().subscribers.contains(id) <==> registry.loaded.contains_key(
                        id,
                    ) && registry.loaded[id].manifest.subscribes.contains(event.event_type())
                &&& after.pending.last().subscribers.no_duplicates()
            }
        }),
{
    crate::plugin::registry::law_event_reaches_its_subscribers(
        registry.loaded,
        event.event_type(),
    );
    let ids = subscribers_of(registry.loaded, event.event_type());
    let after = registry.handed(event, settings);
    if exists|id: i64| #[trigger]
        registry.loaded.contains_key(id) && registry.loaded[id].manifest.subscribes.contains(
            event.event_type(),
        ) {
        let id = choose|id: i64| #[trigger]
            registry.loaded.contains_key(id) && registry.loaded[id].manifest.subscribes.contains(
                event.event_type(),
            );
        assert(ids.contains(id));
        assert(after.pending.drop_last() =~= registry.pending);
    } else if ids.len() > 0 {
        assert(ids.contains(ids[0]));
    }
}

/// The clock calls exactly the loaded plugins that declare it, each once.
pub proof fn law_clock_calls_its_plugins(loaded: Map<i64, LoadedModel>)
    requires
        loaded.dom().finite(),
    ensures
        forall|id: i64| #[trigger]
            tickers_of(loaded).contains(id) <==> loaded.contains_key(id)
                && loaded[id].manifest.tick,
        tickers_of(loaded).no_duplicates(),
{
    let rows = in_order::<i64, LoadedModel>(loaded);
    crate::table::lemma_listed::<i64, LoadedModel>(loaded);
    let test = |m: crate::plugin::manifest::ManifestModel| m.tick;
    let p = |row: (i64, LoadedModel)| test(row.1.manifest);
    let kept = rows.filter(p);
    let ids = tickers_of(loaded);
    assert forall|id: i64| #[trigger] ids.contains(id) implies loaded.contains_key(id)
        && loaded[id].manifest.tick by {
        let i = choose|i: int| 0 <= i < ids.len() && ids[i] == id;
        assert(kept.contains(kept[i]));
        crate::table::lemma_filter_member(rows, p, kept[i]);
        let j = choose|j: int| 0 <= j < rows.len() && rows[j] == kept[i];
        assert(loaded.contains_key(rows[j].0));
    }
    assert forall|id: i64|
        loaded.contains_key(id) && loaded[id].manifest.tick implies #[trigger] ids.contains(id) by {
        let j = choose|j: int| 0 <= j < rows.len() && (#[trigger] rows[j]).0 == id;
        crate::table::lemma_filter_keeps(rows, p, rows[j]);
        let i = choose|i: int| 0 <= i < kept.len() && kept[i] == rows[j];
        assert(ids[i] == id);
    }
    crate::table::lemma_filter_ascending::<i64, LoadedModel>(rows, p);
    assert forall|i: int, j: int| 0 <= i < j < ids.len() implies ids[i] != ids[j] by {
        assert(<i64 as crate::table::RowKey>::before(kept[i].0, kept[j].0));
    }
}

/// The detail of a dispatch names its failures and nothing else: one more call
/// that succeeded adds nothing; one more that failed adds its plugin and its
/// result behind the others, all cut to 500 bytes; and without a failure there
/// is no detail.
pub proof fn law_detail_names_the_failures(entries: Seq<EntryModel>, entry: EntryModel)
    ensures
        (forall|i: int| 0 <= i < entries.len() ==> (#[trigger] entries[i]).result == "success"@)
            <==> all_succeeded(entries),
        all_succeeded(entries) ==> dispatch_detail(entries) == ""@,
        entry.result == "success"@ ==> dispatch_detail(entries.push(entry)) == dispatch_detail(
            entries,
        ),
        all_succeeded(entries) && entry.result != "success"@ ==> dispatch_detail(
            entries.push(entry),
        ) == truncated(entry.plugin_id + ": "@ + entry.result, 500),
        entry.result != "success"@ ==> dispatch_detail(entries.push(entry)) == truncated(
            joined(
                crate::plugin::registry::failures(entries).push(
                    entry.plugin_id + ": "@ + entry.result,
                ),
                "; "@,
            ),
            500,
        ),
        entry.result == "success"@ ==> crate::plugin::registry::failures(entries.push(entry))
            == crate::plugin::registry::failures(entries),
        entry.result != "success"@ ==> crate::plugin::registry::failures(entries.push(entry))
            == crate::plugin::registry::failures(entries).push(
            entry.plugin_id + ": "@ + entry.result,
        ),
{
    reveal(Seq::filter);
    let p = |e: EntryModel| e.result != "success"@;
    let f = |e: EntryModel| e.plugin_id + ": "@ + e.result;
    let all = entries.push(entry);
    assert(all.drop_last() =~= entries);
    assert(forall|i: int| 0 <= i < entries.len() ==> all[i] == #[trigger] entries[i]);
    assert(all[entries.len() as int] == entry);
    let words = crate::plugin::registry::failures(entries);
    if entry.result != "success"@ {
        assert(all.filter(p) =~= entries.filter(p).push(entry));
        assert(crate::plugin::registry::failures(all) =~= words.push(f(entry)));
        assert(!all_succeeded(all));
    } else {
        assert(all.filter(p) =~= entries.filter(p));
        assert(all_succeeded(all) <==> all_succeeded(entries));
    }
    if all_succeeded(entries) {
        crate::plugin::registry::law_success_means_all_succeeded(entries);
        assert(words =~= Seq::<Seq<char>>::empty());
        crate::laws::texts::law_joined(words, f(entry), "; "@);
    }
}

/// A finished dispatch is recorded call by call, and its row says whether all
/// of them succeeded and who failed; no other row changes.
pub proof fn law_finished_dispatch(app: AppModel, event: EventModel, entries: Seq<EntryModel>)
    ensures
        ({
            let after = finished(app, event, entries);
            let row = (event.node_id(), event.event_type(), event.dedup_key());
            &&& after.plugins.log == log_extended(app.plugins.log, entries)
            &&& after.plugins.dispatched == app.plugins.dispatched
            &&& after.db.log.dom() == app.db.log.dom()
            &&& app.db.log.contains_key(row) ==> after.db.log[row] == (LogRowModel {
                sent_at: app.db.log[row].sent_at,
                success: forall|i: int|
                    0 <= i < entries.len() ==> (#[trigger] entries[i]).result == "success"@,
                detail: dispatch_detail(entries),
            })
            &&& forall|k: (i64, Seq<char>, i64)|
                k != row && #[trigger] app.db.log.contains_key(k) ==> after.db.log[k]
                    == app.db.log[k]
        }),
{
    let row = (event.node_id(), event.event_type(), event.dedup_key());
    assert(event.log_key() == row);
    assert(finished(app, event, entries).db.log.dom() =~= app.db.log.dom());
}

/// The outcome of a dispatch goes to the row of its node, name and key alone,
/// and does not make one.
pub proof fn law_outcome_of_a_row(
    db: DbModel,
    k: (i64, Seq<char>, i64),
    success: bool,
    detail: Seq<char>,
)
    ensures
        !db.log.contains_key(k) ==> with_result(db, k, success, detail) == db,
        db.log.contains_key(k) ==> with_result(db, k, success, detail).log == db.log.insert(
            k,
            LogRowModel { sent_at: db.log[k].sent_at, success, detail },
        ),
        with_result(db, k, success, detail).plugins == db.plugins,
        with_result(db, k, success, detail).settings == db.settings,
        with_result(db, k, success, detail).data == db.data,
{
}

/// A row that was loaded says `enabled` and has no error; one that could not be
/// says `failed` with the reason; a switched one says what it was switched to.
/// Nothing else of a row changes by any of these.
pub proof fn law_states_of_a_row(row: PluginModel, words: Seq<char>, on: bool)
    ensures
        marked_enabled(row) == (PluginModel {
            status: "enabled"@,
            last_error: None,
            id: row.id,
            plugin_id: row.plugin_id,
            name: row.name,
            version: row.version,
            manifest_json: row.manifest_json,
            wasm_blob: row.wasm_blob,
            wasm_sha256: row.wasm_sha256,
            enabled: row.enabled,
            uploaded_at: row.uploaded_at,
        }),
        marked_failed(row, words) == (PluginModel {
            status: "failed"@,
            last_error: Some(words),
            ..marked_enabled(row)
        }),
        switched(row, on) == (PluginModel {
            enabled: on,
            status: if on {
                "enabled"@
            } else {
                "disabled"@
            },
            ..marked_enabled(row)
        }),
        row.summary() == (PluginModel { wasm_blob: Seq::empty(), ..row }),
{
}

/// A row that was loaded stands in the registry under its id; one that could
/// not be leaves the registry as it is. No other plugin is touched.
pub proof fn law_settled(
    before: (Map<i64, LoadedModel>, DbModel),
    id: i64,
    r: Result<LoadedPlugin, LoadError>,
    after: (Map<i64, LoadedModel>, DbModel),
    other: i64,
)
    requires
        settled(before, id, r, after),
        other != id,
    ensures
        r matches Ok(plugin) ==> after.0.contains_key(id) && after.0[id] == plugin@
            && after.1.plugins[id] == marked_enabled(before.1.plugins[id]),
        r matches Err(e) ==> after.0 == before.0 && after.1.plugins[id] == marked_failed(
            before.1.plugins[id],
            e.full_text(),
        ),
        after.0.contains_key(other) == before.0.contains_key(other),
        before.0.contains_key(other) ==> after.0[other] == before.0[other],
        after.1.plugins.contains_key(other) == before.1.plugins.contains_key(other),
        before.1.plugins.contains_key(other) ==> after.1.plugins[other] == before.1.plugins[other],
        after.1.settings == before.1.settings,
        after.1.data == before.1.data,
        after.1.log == before.1.log,
{
}

} // verus!
