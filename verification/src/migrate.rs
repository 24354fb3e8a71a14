//! Versioned schema migrations, scoped by namespace.

use vstd::prelude::*;

verus! {

/// One migration step.
#[derive(Debug, Clone, Copy)]
pub struct Migration {
    /// Version, increasing within a namespace.
    pub version: u32,
    /// Descriptive name.
    pub name: &'static str,
    /// SQL to execute.
    pub sql: &'static str,
}

/// Indices of the migrations still to apply when `current_version` is the
/// highest version already applied: those with a higher version, in order.
pub open spec fn pending(ms: Seq<Migration>, current_version: u32) -> Seq<int>
    decreases ms.len(),
{
    if ms.len() == 0 {
        Seq::empty()
    } else {
        pending(ms.drop_last(), current_version) + if ms.last().version > current_version {
            seq![ms.len() - 1]
        } else {
            Seq::empty()
        }
    }
}

/// Which migrations to apply, in the order they are listed.
pub fn pending_migrations(migrations: &[Migration], current_version: u32) -> (r: Vec<usize>)
    ensures
        r@.len() == pending(migrations@, current_version).len(),
        forall|i: int| 0 <= i < r@.len() ==> r@[i] as int == #[trigger] pending(migrations@, current_version)[i],
{
    let mut r: Vec<usize> = Vec::new();
    let mut i: usize = 0;
    while i < migrations.len()
        invariant
            0 <= i <= migrations@.len(),
            r@.len() == pending(migrations@.take(i as int), current_version).len(),
            forall|k: int| 0 <= k < r@.len() ==> r@[k] as int == #[trigger] pending(migrations@.take(i as int), current_version)[k],
        decreases migrations@.len() - i,
    {
        assert(migrations@.take(i + 1).drop_last() =~= migrations@.take(i as int));
        if migrations[i].version > current_version {
            r.push(i);
        }
        i += 1;
    }
    assert(migrations@.take(i as int) =~= migrations@);
    r
}

/// The schema of the session database: the session metadata and usage
/// tables, each created only when absent, so running it again changes
/// nothing.
pub const SESSION_SCHEMA: &'static str = "
            CREATE TABLE IF NOT EXISTS session_metadata (
                id TEXT PRIMARY KEY,
                created_at TEXT NOT NULL,
                last_message_at TEXT NOT NULL,
                is_closed INTEGER NOT NULL DEFAULT 0,
                summary TEXT,
                message_count INTEGER NOT NULL DEFAULT 0
            );

            CREATE TABLE IF NOT EXISTS usage_stats (
                id INTEGER PRIMARY KEY AUTOINCREMENT,
                session_id TEXT NOT NULL,
                turn INTEGER NOT NULL,
                input_tokens INTEGER NOT NULL DEFAULT 0,
                output_tokens INTEGER NOT NULL DEFAULT 0,
                cache_read INTEGER NOT NULL DEFAULT 0,
                cache_write INTEGER NOT NULL DEFAULT 0,
                cost_usd REAL NOT NULL DEFAULT 0.0,
                model TEXT,
                timestamp TEXT NOT NULL
            );
        ";

/// The migrations of the session database.
pub fn migrations() -> (ms: Vec<Migration>)
    ensures
        ms@.len() == 1,
        ms@[0].version == 1,
        ms@[0].name@ == "create_session_tables"@,
        ms@[0].sql@ == SESSION_SCHEMA@,
{
    let mut ms: Vec<Migration> = Vec::new();
    ms.push(Migration { version: 1, name: "create_session_tables", sql: SESSION_SCHEMA });
    ms
}

/// The highest version of a list of migrations (0 for none).
pub open spec fn max_version(ms: Seq<Migration>) -> u32
    decreases ms.len(),
{
    if ms.len() == 0 {
        0
    } else if ms.last().version > max_version(ms.drop_last()) {
        ms.last().version
    } else {
        max_version(ms.drop_last())
    }
}

/// The highest applied version after the pending migrations of a list have
/// been applied on top of `current_version`.
pub open spec fn version_after_run(ms: Seq<Migration>, current_version: u32) -> u32 {
    if max_version(ms) > current_version {
        max_version(ms)
    } else {
        current_version
    }
}

/// A migration is pending exactly when its version is above the current
/// one.
proof fn lemma_pending_members(ms: Seq<Migration>, v: u32)
    ensures
        forall|i: int| 0 <= i < ms.len() ==> (pending(ms, v).contains(i) <==> ms[i].version > v),
        forall|k: int| 0 <= k < pending(ms, v).len() ==> 0 <= #[trigger] pending(ms, v)[k] < ms.len(),
    decreases ms.len(),
{
    if ms.len() > 0 {
        let init = ms.drop_last();
        lemma_pending_members(init, v);
        let tail: Seq<int> = if ms.last().version > v { seq![ms.len() - 1] } else { Seq::empty() };
        assert(pending(ms, v) == pending(init, v) + tail);
        assert forall|i: int| 0 <= i < ms.len() implies (pending(ms, v).contains(i) <==> ms[i].version > v) by {
            if i < ms.len() - 1 {
                assert(init[i] == ms[i]);
                assert(pending(init, v).contains(i) <==> init[i].version > v);
                if pending(ms, v).contains(i) {
                    let k = choose|k: int| 0 <= k < pending(ms, v).len() && pending(ms, v)[k] == i;
                    if k >= pending(init, v).len() {
                        assert(pending(ms, v)[k] == tail[k - pending(init, v).len()]);
                    } else {
                        assert(pending(init, v)[k] == i);
                    }
                }
                if ms[i].version > v {
                    let k = choose|k: int| 0 <= k < pending(init, v).len() && pending(init, v)[k] == i;
                    assert(pending(ms, v)[k] == i);
                }
            } else {
                if ms[i].version > v {
                    assert(pending(ms, v)[pending(init, v).len() as int] == i);
                } else {
                    assert(tail.len() == 0);
                    assert(pending(ms, v) =~= pending(init, v));
                    assert(!pending(init, v).contains(i));
                }
            }
        }
        assert forall|k: int| 0 <= k < pending(ms, v).len() implies 0 <= #[trigger] pending(ms, v)[k] < ms.len() by {
            if k < pending(init, v).len() {
                assert(pending(ms, v)[k] == pending(init, v)[k]);
            }
        }
    }
}

/// Every version is at most the highest, and a non-empty list holds it.
proof fn lemma_max_version(ms: Seq<Migration>)
    ensures
        forall|i: int| 0 <= i < ms.len() ==> (#[trigger] ms[i]).version <= max_version(ms),
        ms.len() > 0 ==> exists|i: int| 0 <= i < ms.len() && (#[trigger] ms[i]).version == max_version(ms),
    decreases ms.len(),
{
    if ms.len() > 0 {
        let init = ms.drop_last();
        lemma_max_version(init);
        assert forall|i: int| 0 <= i < ms.len() implies (#[trigger] ms[i]).version <= max_version(ms) by {
            if i < ms.len() - 1 {
                assert(init[i] == ms[i]);
            }
        }
        if ms.last().version > max_version(init) {
            assert(ms[ms.len() - 1].version == max_version(ms));
        } else if init.len() > 0 {
            let i = choose|i: int| 0 <= i < init.len() && (#[trigger] init[i]).version == max_version(init);
            assert(ms[i] == init[i]);
        } else {
            assert(ms[0].version <= max_version(ms));
        }
    }
}

/// Migrations run once: applying the pending migrations of a list records,
/// as the highest applied version, `version_after_run` (the current
/// version, or the highest version that was pending), and a second run
/// with the same list finds nothing pending.
pub proof fn lemma_rerun_applies_nothing(ms: Seq<Migration>, current_version: u32)
    ensures
        pending(ms, version_after_run(ms, current_version)).len() == 0,
        version_after_run(ms, current_version) == current_version || exists|k: int|
            0 <= k < pending(ms, current_version).len() && ms[#[trigger] pending(ms, current_version)[k]].version
                == version_after_run(ms, current_version),
        forall|k: int|
            0 <= k < pending(ms, current_version).len() ==> ms[#[trigger] pending(ms, current_version)[k]].version
                <= version_after_run(ms, current_version),
{
    let v1 = version_after_run(ms, current_version);
    lemma_max_version(ms);
    lemma_pending_members(ms, current_version);
    lemma_pending_members(ms, v1);
    if pending(ms, v1).len() > 0 {
        let i = pending(ms, v1)[0];
        assert(pending(ms, v1).contains(i));
        assert(ms[i].version <= max_version(ms));
    }
    if v1 != current_version {
        let i = choose|i: int| 0 <= i < ms.len() && (#[trigger] ms[i]).version == max_version(ms);
        assert(pending(ms, current_version).contains(i));
        let k = choose|k: int| 0 <= k < pending(ms, current_version).len() && pending(ms, current_version)[k] == i;
        assert(ms[pending(ms, current_version)[k]].version == v1);
    }
    assert forall|k: int| 0 <= k < pending(ms, current_version).len() implies ms[#[trigger] pending(
        ms,
        current_version,
    )[k]].version <= v1 by {
        let i = pending(ms, current_version)[k];
        assert(0 <= i < ms.len());
        assert(ms[i].version <= max_version(ms));
    }
}

} // verus!
