//! The database schema: the migrations that create the framework's
//! tables, in the order they are applied, and which of them a database
//! still needs.

use vstd::prelude::*;

verus! {

/// The migrations of the schema.
pub struct Migrations;

/// The names of the migrations, in the order they are applied.
pub open spec fn migration_names() -> Seq<Seq<char>> {
    seq![
        "001_create_knowledge_table"@,
        "002_create_memory_table"@,
        "003_create_events_table"@,
        "004_create_jobs_table"@,
        "005_create_checkpoints_table"@,
        "006_create_audit_table"@,
        "007_create_evidence_table"@,
        "008_create_plugins_table"@,
    ]
}

/// The positions, in order, of the migrations whose names `applied` does
/// not hold.
pub open spec fn pending_positions(applied: Seq<Seq<char>>) -> Seq<usize> {
    Seq::new(migration_names().len(), |i: int| i as usize).filter(
        |i: usize| !applied.contains(migration_names()[i as int]),
    )
}

/// The statements of the migration at position `index`, in order.
pub open spec fn migration_statements(index: int) -> Seq<Seq<char>> {
    if index == 0 {
        seq!["CREATE TABLE IF NOT EXISTS knowledge (
                id TEXT PRIMARY KEY,
                title TEXT NOT NULL,
                content TEXT NOT NULL,
                tags TEXT NOT NULL DEFAULT '[]',
                metadata TEXT NOT NULL DEFAULT '{}',
                created_at INTEGER NOT NULL,
                updated_at INTEGER NOT NULL
            )"@]
    } else if index == 1 {
        seq!["CREATE TABLE IF NOT EXISTS memory (
                id TEXT PRIMARY KEY,
                key TEXT NOT NULL,
                value TEXT NOT NULL,
                session_id TEXT,
                expires_at INTEGER,
                created_at INTEGER NOT NULL,
                updated_at INTEGER NOT NULL
            )"@, "CREATE INDEX IF NOT EXISTS idx_memory_key ON memory(key)"@]
    } else if index == 2 {
        seq!["CREATE TABLE IF NOT EXISTS events (
                id TEXT PRIMARY KEY,
                event_type TEXT NOT NULL,
                data TEXT NOT NULL,
                timestamp INTEGER NOT NULL,
                processed INTEGER NOT NULL DEFAULT 0
            )"@, "CREATE INDEX IF NOT EXISTS idx_events_type ON events(event_type)"@]
    } else if index == 3 {
        seq!["CREATE TABLE IF NOT EXISTS jobs (
                id TEXT PRIMARY KEY,
                name TEXT NOT NULL,
                description TEXT,
                status TEXT NOT NULL,
                priority TEXT NOT NULL,
                data TEXT NOT NULL DEFAULT '{}',
                checkpoint_id TEXT,
                created_at INTEGER NOT NULL,
                updated_at INTEGER NOT NULL,
                started_at INTEGER,
                completed_at INTEGER,
                FOREIGN KEY (checkpoint_id) REFERENCES checkpoints(id)
            )"@, "CREATE INDEX IF NOT EXISTS idx_jobs_status ON jobs(status)"@]
    } else if index == 4 {
        seq!["CREATE TABLE IF NOT EXISTS checkpoints (
                id TEXT PRIMARY KEY,
                job_id TEXT NOT NULL,
                state TEXT NOT NULL,
                created_at INTEGER NOT NULL,
                FOREIGN KEY (job_id) REFERENCES jobs(id)
            )"@]
    } else if index == 5 {
        seq!["CREATE TABLE IF NOT EXISTS audit (
                id INTEGER PRIMARY KEY AUTOINCREMENT,
                action TEXT NOT NULL,
                entity_type TEXT NOT NULL,
                entity_id TEXT NOT NULL,
                user TEXT,
                timestamp INTEGER NOT NULL,
                details TEXT NOT NULL DEFAULT '{}'
            )"@, "CREATE INDEX IF NOT EXISTS idx_audit_entity ON audit(entity_type, entity_id)"@]
    } else if index == 6 {
        seq!["CREATE TABLE IF NOT EXISTS evidence (
                id TEXT PRIMARY KEY,
                knowledge_id TEXT NOT NULL,
                data BLOB NOT NULL,
                mime_type TEXT NOT NULL,
                created_at INTEGER NOT NULL,
                FOREIGN KEY (knowledge_id) REFERENCES knowledge(id)
            )"@]
    } else if index == 7 {
        seq!["CREATE TABLE IF NOT EXISTS plugins (
                id TEXT PRIMARY KEY,
                name TEXT NOT NULL,
                version TEXT NOT NULL,
                description TEXT,
                enabled INTEGER NOT NULL DEFAULT 1,
                path TEXT NOT NULL,
                created_at INTEGER NOT NULL
            )"@, "CREATE INDEX IF NOT EXISTS idx_plugins_enabled ON plugins(enabled)"@]
    } else {
        Seq::empty()
    }
}

/// The table that a migration's name announces: the name without its
/// number and `_create_` (eleven characters) and without its `_table`
/// ending.
pub open spec fn announced_table(name: Seq<char>) -> Seq<char> {
    name.subrange(11, name.len() - 6)
}

/// Each migration is named `NNN_create_<table>_table`, runs at least one
/// statement, and its first statement creates the table its name
/// announces, where that table does not exist yet.
pub proof fn each_migration_creates_its_table(i: int)
    requires
        0 <= i < migration_names().len(),
    ensures
        migration_names()[i].len() > 17,
        migration_names()[i].subrange(3, 11) == "_create_"@,
        migration_names()[i].subrange(migration_names()[i].len() - 6, migration_names()[i].len() as int)
            == "_table"@,
        migration_statements(i).len() >= 1,
        migration_statements(i)[0].len() >= 29 + announced_table(migration_names()[i]).len(),
        migration_statements(i)[0].subrange(0, 29 + announced_table(migration_names()[i]).len() as int)
            == "CREATE TABLE IF NOT EXISTS "@ + announced_table(migration_names()[i]) + " ("@,
{
    reveal_strlit("_create_");
    reveal_strlit("_table");
    reveal_strlit("CREATE TABLE IF NOT EXISTS ");
    reveal_strlit(" (");
    if i == 0 {
        reveal_strlit("001_create_knowledge_table");
        reveal_strlit("CREATE TABLE IF NOT EXISTS knowledge (
                id TEXT PRIMARY KEY,
                title TEXT NOT NULL,
                content TEXT NOT NULL,
                tags TEXT NOT NULL DEFAULT '[]',
                metadata TEXT NOT NULL DEFAULT '{}',
                created_at INTEGER NOT NULL,
                updated_at INTEGER NOT NULL
            )");
        assert(migration_names()[i] == "001_create_knowledge_table"@);
        assert(migration_names()[i].subrange(3, 11) =~= "_create_"@);
        assert(migration_names()[i].subrange(migration_names()[i].len() - 6, migration_names()[i].len() as int) =~= "_table"@);
        assert(migration_statements(i)[0].subrange(0, 29 + announced_table(migration_names()[i]).len() as int) =~= "CREATE TABLE IF NOT EXISTS "@
            + announced_table(migration_names()[i]) + " ("@);
    } else if i == 1 {
        reveal_strlit("002_create_memory_table");
        reveal_strlit("CREATE TABLE IF NOT EXISTS memory (
                id TEXT PRIMARY KEY,
                key TEXT NOT NULL,
                value TEXT NOT NULL,
                session_id TEXT,
                expires_at INTEGER,
                created_at INTEGER NOT NULL,
                updated_at INTEGER NOT NULL
            )");
        assert(migration_names()[i] == "002_create_memory_table"@);
        assert(migration_names()[i].subrange(3, 11) =~= "_create_"@);
        assert(migration_names()[i].subrange(migration_names()[i].len() - 6, migration_names()[i].len() as int) =~= "_table"@);
        assert(migration_statements(i)[0].subrange(0, 29 + announced_table(migration_names()[i]).len() as int) =~= "CREATE TABLE IF NOT EXISTS "@
            + announced_table(migration_names()[i]) + " ("@);
    } else if i == 2 {
        reveal_strlit("003_create_events_table");
        reveal_strlit("CREATE TABLE IF NOT EXISTS events (
                id TEXT PRIMARY KEY,
                event_type TEXT NOT NULL,
                data TEXT NOT NULL,
                timestamp INTEGER NOT NULL,
                processed INTEGER NOT NULL DEFAULT 0
            )");
        assert(migration_names()[i] == "003_create_events_table"@);
        assert(migration_names()[i].subrange(3, 11) =~= "_create_"@);
        assert(migration_names()[i].subrange(migration_names()[i].len() - 6, migration_names()[i].len() as int) =~= "_table"@);
        assert(migration_statements(i)[0].subrange(0, 29 + announced_table(migration_names()[i]).len() as int) =~= "CREATE TABLE IF NOT EXISTS "@
            + announced_table(migration_names()[i]) + " ("@);
    } else if i == 3 {
        reveal_strlit("004_create_jobs_table");
        reveal_strlit("CREATE TABLE IF NOT EXISTS jobs (
                id TEXT PRIMARY KEY,
                name TEXT NOT NULL,
                description TEXT,
                status TEXT NOT NULL,
                priority TEXT NOT NULL,
                data TEXT NOT NULL DEFAULT '{}',
                checkpoint_id TEXT,
                created_at INTEGER NOT NULL,
                updated_at INTEGER NOT NULL,
                started_at INTEGER,
                completed_at INTEGER,
                FOREIGN KEY (checkpoint_id) REFERENCES checkpoints(id)
            )");
        assert(migration_names()[i] == "004_create_jobs_table"@);
        assert(migration_names()[i].subrange(3, 11) =~= "_create_"@);
        assert(migration_names()[i].subrange(migration_names()[i].len() - 6, migration_names()[i].len() as int) =~= "_table"@);
        assert(migration_statements(i)[0].subrange(0, 29 + announced_table(migration_names()[i]).len() as int) =~= "CREATE TABLE IF NOT EXISTS "@
            + announced_table(migration_names()[i]) + " ("@);
    } else if i == 4 {
        reveal_strlit("005_create_checkpoints_table");
        reveal_strlit("CREATE TABLE IF NOT EXISTS checkpoints (
                id TEXT PRIMARY KEY,
                job_id TEXT NOT NULL,
                state TEXT NOT NULL,
                created_at INTEGER NOT NULL,
                FOREIGN KEY (job_id) REFERENCES jobs(id)
            )");
        assert(migration_names()[i] == "005_create_checkpoints_table"@);
        assert(migration_names()[i].subrange(3, 11) =~= "_create_"@);
        assert(migration_names()[i].subrange(migration_names()[i].len() - 6, migration_names()[i].len() as int) =~= "_table"@);
        assert(migration_statements(i)[0].subrange(0, 29 + announced_table(migration_names()[i]).len() as int) =~= "CREATE TABLE IF NOT EXISTS "@
            + announced_table(migration_names()[i]) + " ("@);
    } else if i == 5 {
        reveal_strlit("006_create_audit_table");
        reveal_strlit("CREATE TABLE IF NOT EXISTS audit (
                id INTEGER PRIMARY KEY AUTOINCREMENT,
                action TEXT NOT NULL,
                entity_type TEXT NOT NULL,
                entity_id TEXT NOT NULL,
                user TEXT,
                timestamp INTEGER NOT NULL,
                details TEXT NOT NULL DEFAULT '{}'
            )");
        assert(migration_names()[i] == "006_create_audit_table"@);
        assert(migration_names()[i].subrange(3, 11) =~= "_create_"@);
        assert(migration_names()[i].subrange(migration_names()[i].len() - 6, migration_names()[i].len() as int) =~= "_table"@);
        assert(migration_statements(i)[0].subrange(0, 29 + announced_table(migration_names()[i]).len() as int) =~= "CREATE TABLE IF NOT EXISTS "@
            + announced_table(migration_names()[i]) + " ("@);
    } else if i == 6 {
        reveal_strlit("007_create_evidence_table");
        reveal_strlit("CREATE TABLE IF NOT EXISTS evidence (
                id TEXT PRIMARY KEY,
                knowledge_id TEXT NOT NULL,
                data BLOB NOT NULL,
                mime_type TEXT NOT NULL,
                created_at INTEGER NOT NULL,
                FOREIGN KEY (knowledge_id) REFERENCES knowledge(id)
            )");
        assert(migration_names()[i] == "007_create_evidence_table"@);
        assert(migration_names()[i].subrange(3, 11) =~= "_create_"@);
        assert(migration_names()[i].subrange(migration_names()[i].len() - 6, migration_names()[i].len() as int) =~= "_table"@);
        assert(migration_statements(i)[0].subrange(0, 29 + announced_table(migration_names()[i]).len() as int) =~= "CREATE TABLE IF NOT EXISTS "@
            + announced_table(migration_names()[i]) + " ("@);
    } else if i == 7 {
        reveal_strlit("008_create_plugins_table");
        reveal_strlit("CREATE TABLE IF NOT EXISTS plugins (
                id TEXT PRIMARY KEY,
                name TEXT NOT NULL,
                version TEXT NOT NULL,
                description TEXT,
                enabled INTEGER NOT NULL DEFAULT 1,
                path TEXT NOT NULL,
                created_at INTEGER NOT NULL
            )");
        assert(migration_names()[i] == "008_create_plugins_table"@);
        assert(migration_names()[i].subrange(3, 11) =~= "_create_"@);
        assert(migration_names()[i].subrange(migration_names()[i].len() - 6, migration_names()[i].len() as int) =~= "_table"@);
        assert(migration_statements(i)[0].subrange(0, 29 + announced_table(migration_names()[i]).len() as int) =~= "CREATE TABLE IF NOT EXISTS "@
            + announced_table(migration_names()[i]) + " ("@);
    }
}

/// The statement that creates the table of applied migrations.
pub open spec fn setup_sql() -> Seq<char> {
    "CREATE TABLE IF NOT EXISTS migrations (
                    id INTEGER PRIMARY KEY AUTOINCREMENT,
                    name TEXT NOT NULL UNIQUE,
                    applied_at INTEGER NOT NULL
                )"@
}

impl Migrations {
    /// The statement that creates the table in which applied migrations are
    /// recorded.
    pub fn setup_statement() -> (r: String)
        ensures
            r@ == setup_sql(),
    {
        String::from_str("CREATE TABLE IF NOT EXISTS migrations (
                    id INTEGER PRIMARY KEY AUTOINCREMENT,
                    name TEXT NOT NULL UNIQUE,
                    applied_at INTEGER NOT NULL
                )")
    }

    /// The names of the migrations, in the order they are applied.
    pub fn names() -> (r: Vec<String>)
        ensures
            r@.map_values(|s: String| s@) == migration_names(),
    {
        let mut r: Vec<String> = Vec::new();
        r.push(String::from_str("001_create_knowledge_table"));
        r.push(String::from_str("002_create_memory_table"));
        r.push(String::from_str("003_create_events_table"));
        r.push(String::from_str("004_create_jobs_table"));
        r.push(String::from_str("005_create_checkpoints_table"));
        r.push(String::from_str("006_create_audit_table"));
        r.push(String::from_str("007_create_evidence_table"));
        r.push(String::from_str("008_create_plugins_table"));
        proof {
            reveal_strlit("001_create_knowledge_table");
            reveal_strlit("002_create_memory_table");
            reveal_strlit("003_create_events_table");
            reveal_strlit("004_create_jobs_table");
            reveal_strlit("005_create_checkpoints_table");
            reveal_strlit("006_create_audit_table");
            reveal_strlit("007_create_evidence_table");
            reveal_strlit("008_create_plugins_table");
            assert(r@.map_values(|s: String| s@) =~= migration_names());
        }
        r
    }

    /// The statements of the migration at position `index`, to be run in
    /// order; none where there is no such migration.
    pub fn statements(index: usize) -> (r: Vec<String>)
        ensures
            r@.map_values(|s: String| s@) == migration_statements(index as int),
    {
        let mut r: Vec<String> = Vec::new();
        if index == 0 {
            r.push(String::from_str("CREATE TABLE IF NOT EXISTS knowledge (
                id TEXT PRIMARY KEY,
                title TEXT NOT NULL,
                content TEXT NOT NULL,
                tags TEXT NOT NULL DEFAULT '[]',
                metadata TEXT NOT NULL DEFAULT '{}',
                created_at INTEGER NOT NULL,
                updated_at INTEGER NOT NULL
            )"));
        } else if index == 1 {
            r.push(String::from_str("CREATE TABLE IF NOT EXISTS memory (
                id TEXT PRIMARY KEY,
                key TEXT NOT NULL,
                value TEXT NOT NULL,
                session_id TEXT,
                expires_at INTEGER,
                created_at INTEGER NOT NULL,
                updated_at INTEGER NOT NULL
            )"));
            r.push(String::from_str("CREATE INDEX IF NOT EXISTS idx_memory_key ON memory(key)"));
        } else if index == 2 {
            r.push(String::from_str("CREATE TABLE IF NOT EXISTS events (
                id TEXT PRIMARY KEY,
                event_type TEXT NOT NULL,
                data TEXT NOT NULL,
                timestamp INTEGER NOT NULL,
                processed INTEGER NOT NULL DEFAULT 0
            )"));
            r.push(String::from_str("CREATE INDEX IF NOT EXISTS idx_events_type ON events(event_type)"));
        } else if index == 3 {
            r.push(String::from_str("CREATE TABLE IF NOT EXISTS jobs (
                id TEXT PRIMARY KEY,
                name TEXT NOT NULL,
                description TEXT,
                status TEXT NOT NULL,
                priority TEXT NOT NULL,
                data TEXT NOT NULL DEFAULT '{}',
                checkpoint_id TEXT,
                created_at INTEGER NOT NULL,
                updated_at INTEGER NOT NULL,
                started_at INTEGER,
                completed_at INTEGER,
                FOREIGN KEY (checkpoint_id) REFERENCES checkpoints(id)
            )"));
            r.push(String::from_str("CREATE INDEX IF NOT EXISTS idx_jobs_status ON jobs(status)"));
        } else if index == 4 {
            r.push(String::from_str("CREATE TABLE IF NOT EXISTS checkpoints (
                id TEXT PRIMARY KEY,
                job_id TEXT NOT NULL,
                state TEXT NOT NULL,
                created_at INTEGER NOT NULL,
                FOREIGN KEY (job_id) REFERENCES jobs(id)
            )"));
        } else if index == 5 {
            r.push(String::from_str("CREATE TABLE IF NOT EXISTS audit (
                id INTEGER PRIMARY KEY AUTOINCREMENT,
                action TEXT NOT NULL,
                entity_type TEXT NOT NULL,
                entity_id TEXT NOT NULL,
                user TEXT,
                timestamp INTEGER NOT NULL,
                details TEXT NOT NULL DEFAULT '{}'
            )"));
            r.push(String::from_str("CREATE INDEX IF NOT EXISTS idx_audit_entity ON audit(entity_type, entity_id)"));
        } else if index == 6 {
            r.push(String::from_str("CREATE TABLE IF NOT EXISTS evidence (
                id TEXT PRIMARY KEY,
                knowledge_id TEXT NOT NULL,
                data BLOB NOT NULL,
                mime_type TEXT NOT NULL,
                created_at INTEGER NOT NULL,
                FOREIGN KEY (knowledge_id) REFERENCES knowledge(id)
            )"));
        } else if index == 7 {
            r.push(String::from_str("CREATE TABLE IF NOT EXISTS plugins (
                id TEXT PRIMARY KEY,
                name TEXT NOT NULL,
                version TEXT NOT NULL,
                description TEXT,
                enabled INTEGER NOT NULL DEFAULT 1,
                path TEXT NOT NULL,
                created_at INTEGER NOT NULL
            )"));
            r.push(String::from_str("CREATE INDEX IF NOT EXISTS idx_plugins_enabled ON plugins(enabled)"));
        }
        assert(r@.map_values(|s: String| s@) =~= migration_statements(index as int));
        r
    }

    /// The positions, in order, of the migrations that a database whose
    /// recorded migrations are `applied` still needs.
    pub fn pending(applied: &Vec<String>) -> (r: Vec<usize>)
        ensures
            r@ == pending_positions(applied@.map_values(|s: String| s@)),
    {
        let names = Migrations::names();
        let ghost done = applied@.map_values(|s: String| s@);
        let ghost all = Seq::new(migration_names().len(), |i: int| i as usize);
        let ghost pred = |i: usize| !done.contains(migration_names()[i as int]);
        let mut r: Vec<usize> = Vec::new();
        let mut i: usize = 0;
        proof {
            reveal(Seq::filter);
            assert(all.take(0) =~= Seq::<usize>::empty());
        }
        while i < names.len()
            invariant
                names@.map_values(|s: String| s@) == migration_names(),
                all == Seq::new(migration_names().len(), |i: int| i as usize),
                done == applied@.map_values(|s: String| s@),
                pred == (|i: usize| !done.contains(migration_names()[i as int])),
                i <= names@.len(),
                r@ == all.take(i as int).filter(pred),
            decreases names@.len() - i,
        {
            let mut found = false;
            let mut j: usize = 0;
            while j < applied.len()
                invariant
                    i < names@.len(),
                    names@.map_values(|s: String| s@) == migration_names(),
                    done == applied@.map_values(|s: String| s@),
                    j <= applied@.len(),
                    found == exists|k: int| 0 <= k < j && done[k] == migration_names()[i as int],
                decreases applied@.len() - j,
            {
                let same = applied[j] == names[i];
                proof {
                    assert(names@.map_values(|s: String| s@)[i as int] == names@[i as int]@);
                    assert(done[j as int] == applied@[j as int]@);
                    if same {
                        assert(done[j as int] == migration_names()[i as int]);
                    }
                }
                if same {
                    found = true;
                }
                j = j + 1;
            }
            proof {
                assert(found == done.contains(migration_names()[i as int]));
                assert(all[i as int] == i);
                assert(all.take(i + 1) =~= all.take(i as int).push(i));
                all.take(i as int).lemma_filter_push(i, pred);
            }
            if !found {
                r.push(i);
            }
            i = i + 1;
        }
        proof {
            assert(all.take(i as int) =~= all);
        }
        r
    }
}

/// Once every migration's name is recorded, none is pending: applying the
/// schema a second time runs nothing.
pub proof fn nothing_pending_once_applied(applied: Seq<Seq<char>>)
    requires
        forall|i: int| 0 <= i < migration_names().len() ==> applied.contains(#[trigger] migration_names()[i]),
    ensures
        pending_positions(applied).len() == 0,
{
    broadcast use vstd::seq_lib::group_filter_ensures;

    let all = Seq::new(migration_names().len(), |i: int| i as usize);
    let pred = |i: usize| !applied.contains(migration_names()[i as int]);
    let p = all.filter(pred);
    if p.len() > 0 {
        assert(pred(p[0]));
        assert(p.contains(p[0]));
        all.lemma_filter_contains_rev(pred, p[0]);
        let j = choose|j: int| 0 <= j < all.len() && all[j] == p[0];
        assert(applied.contains(migration_names()[j]));
    }
}

} // verus!
