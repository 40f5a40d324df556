//! The persistent store: a thin, typed layer over SQLite.
//!
//! The store permits a single writer at a time; a second writer gets a
//! distinguished busy error, which the transaction runner retries. The
//! calls into SQLite itself stand behind small trusted wrappers; every
//! query above them is ordinary verified code that binds arguments,
//! steps the statement, and collects plain values.
use vstd::prelude::*;

verus! {

use vstd::string::StringExecFns;

#[verifier::external_type_specification]
#[verifier::external_body]
pub struct ExConnection(sqlite::Connection);

#[verifier::external_type_specification]
#[verifier::external_body]
pub struct ExStatement<'l>(sqlite::Statement<'l>);

#[verifier::external_type_specification]
#[verifier::external_body]
pub struct ExSqliteError(sqlite::Error);

/// How a store call fails.
///
/// `Busy` is the transient single-writer contention signal and the only
/// error worth retrying; `Constraint` is a uniqueness violation;
/// everything else is `Other` with the store's message, fatal to the
/// session that sees it.
#[derive(Debug)]
pub enum StoreError {
    Busy,
    Constraint,
    Other(String),
}

impl StoreError {
    /// Whether retrying the whole unit of work may help.
    pub fn is_busy(&self) -> (r: bool)
        ensures
            r == (*self == StoreError::Busy),
    {
        match self {
            StoreError::Busy => true,
            _ => false,
        }
    }
}

/// Relies on sqlite::Error: `code` 5 is SQLITE_BUSY, the transient
/// signal that another writer holds the lock, and a message naming a
/// UNIQUE constraint reports a uniqueness violation.
#[verifier::external_body]
fn classify_error(e: sqlite::Error) -> (r: StoreError) {
    if e.code == Some(5) {
        return StoreError::Busy;
    }
    let message = e.message.unwrap_or_default();
    if message.contains("UNIQUE constraint") {
        StoreError::Constraint
    } else {
        StoreError::Other(message)
    }
}

/// Relies on sqlite::Connection::execute: runs the given SQL statements
/// and yields no rows.
#[verifier::external_body]
fn exec_sql(conn: &sqlite::Connection, sql: &str) -> (r: Result<(), StoreError>) {
    conn.execute(sql).map_err(classify_error)
}

/// Relies on sqlite::Connection::prepare: compiles one SQL statement
/// for stepwise evaluation.
#[verifier::external_body]
fn prepare<'l>(conn: &'l sqlite::Connection, sql: &str) -> (r: Result<
    sqlite::Statement<'l>,
    StoreError,
>) {
    conn.prepare(sql).map_err(classify_error)
}

/// Relies on sqlite::Statement::bind: binds an integer to the
/// 1-based parameter `index`.
#[verifier::external_body]
fn bind_int(st: &mut sqlite::Statement<'_>, index: usize, value: i64) -> (r: Result<
    (),
    StoreError,
>) {
    st.bind((index, value)).map_err(classify_error)
}

/// Relies on sqlite::Statement::bind: binds a string to the 1-based
/// parameter `index`.
#[verifier::external_body]
fn bind_str(st: &mut sqlite::Statement<'_>, index: usize, value: &str) -> (r: Result<
    (),
    StoreError,
>) {
    st.bind((index, value)).map_err(classify_error)
}

/// Relies on sqlite::Statement::next: evaluates one step; `Row` (true
/// here) means a row is available to read, `Done` (false) means the
/// statement finished.
#[verifier::external_body]
fn step(st: &mut sqlite::Statement<'_>) -> (r: Result<bool, StoreError>) {
    match st.next() {
        Ok(sqlite::State::Row) => Ok(true),
        Ok(sqlite::State::Done) => Ok(false),
        Err(e) => Err(classify_error(e)),
    }
}

/// Relies on sqlite::Statement::read: reads column `col` of the current
/// row as an integer.
#[verifier::external_body]
fn read_i64(st: &sqlite::Statement<'_>, col: usize) -> (r: Result<i64, StoreError>) {
    st.read::<i64, usize>(col).map_err(classify_error)
}

/// Relies on sqlite::Statement::read: reads column `col` of the current
/// row as text.
#[verifier::external_body]
fn read_str(st: &sqlite::Statement<'_>, col: usize) -> (r: Result<String, StoreError>) {
    st.read::<String, usize>(col).map_err(classify_error)
}

/// Step a statement that must yield no row.
fn expect_done(st: &mut sqlite::Statement<'_>) -> (r: Result<(), StoreError>) {
    if step(st)? {
        Err(StoreError::Other(String::from_str("a statement that stores data returned a row")))
    } else {
        Ok(())
    }
}

/// A session with the store, owning the underlying connection.
pub struct Session {
    conn: sqlite::Connection,
}

/// An open transaction; committing or rolling back consumes it, so no
/// statement can slip in after the decision.
pub struct Transaction<'a> {
    conn: &'a sqlite::Connection,
}

impl Session {
    pub fn new(conn: sqlite::Connection) -> Session {
        Session { conn }
    }

    /// Begin a new transaction by executing the `BEGIN` statement.
    pub fn begin(&mut self) -> Result<Transaction<'_>, StoreError> {
        exec_sql(&self.conn, "BEGIN;")?;
        Ok(Transaction { conn: &self.conn })
    }
}

impl<'a> Transaction<'a> {
    /// Execute the `COMMIT` statement.
    pub fn commit(self) -> Result<(), StoreError> {
        exec_sql(self.conn, "COMMIT;")
    }

    /// Execute the `ROLLBACK` statement.
    pub fn rollback(self) -> Result<(), StoreError> {
        exec_sql(self.conn, "ROLLBACK;")
    }
}

/// Put a fresh connection into the journal and locking modes the
/// single-writer design expects, and create the schema if it is absent.
pub fn init_database(raw: sqlite::Connection) -> Result<Session, StoreError> {
    // Writers and readers wait for each other a little; the transaction
    // runner retries on top of that.
    exec_sql(&raw, "PRAGMA locking_mode = NORMAL;")?;
    exec_sql(&raw, "PRAGMA busy_timeout = 30;")?;
    exec_sql(&raw, "PRAGMA journal_mode = WAL;")?;
    exec_sql(&raw, "PRAGMA foreign_keys = TRUE;")?;
    let mut connection = Session::new(raw);
    let mut tx = connection.begin()?;
    ensure_schema_exists(&mut tx)?;
    tx.commit()?;
    Ok(connection)
}

/// Create every table the store uses, where it does not exist yet.
pub fn ensure_schema_exists(tx: &mut Transaction<'_>) -> Result<(), StoreError> {
    exec_sql(
        tx.conn,
        "create table if not exists teams\
        ( id            integer primary key\
        , name          string  not null\
        , creator_email string  not null\
        , description   string  not null\
        , created_at    string  not null\
        , unique (name)\
        );",
    )?;
    // Every person can be in a given team at most once. They can be in
    // multiple teams, and the team can have multiple members; this is
    // only about cardinality.
    exec_sql(
        tx.conn,
        "create table if not exists team_memberships\
        ( id           integer primary key\
        , team_id      integer not null references teams (id)\
        , member_email string  not null\
        , unique (team_id, member_email)\
        );",
    )?;
    // Every voter can vote at most once on a team. Without this, the
    // quadratic cost could be sidestepped.
    exec_sql(
        tx.conn,
        "create table if not exists votes\
        ( id          integer primary key\
        , voter_email string  not null\
        , team_id     integer not null references teams (id)\
        , points      integer not null\
        , unique (voter_email, team_id)\
        );",
    )?;
    exec_sql(
        tx.conn,
        "create table if not exists cheaters\
        ( voter_email string primary key\
        );",
    )?;
    exec_sql(
        tx.conn,
        "create table if not exists current_phase\
        ( id    integer primary key\
        , phase string  not null\
        );",
    )?;
    Ok(())
}

/// The persisted phase name, if one was ever stored.
pub fn get_current_phase(tx: &mut Transaction<'_>) -> Result<Option<String>, StoreError> {
    let mut st = prepare(tx.conn, "select phase from current_phase where id = 0;")?;
    if step(&mut st)? {
        let name = read_str(&st, 0)?;
        Ok(Some(name))
    } else {
        Ok(None)
    }
}

/// Persist the phase name, replacing the previous one.
pub fn set_current_phase(tx: &mut Transaction<'_>, name: &str) -> Result<(), StoreError> {
    let mut st = prepare(tx.conn, "insert or replace into current_phase (id, phase) values (0, ?1);")?;
    bind_str(&mut st, 1, name)?;
    expect_done(&mut st)
}

/// How many teams one person has created.
pub fn count_teams_by_creator(tx: &mut Transaction<'_>, creator_email: &str) -> Result<
    i64,
    StoreError,
> {
    let mut st = prepare(tx.conn, "select count(1) from teams where creator_email = ?1;")?;
    bind_str(&mut st, 1, creator_email)?;
    if step(&mut st)? {
        let count = read_i64(&st, 0)?;
        expect_done(&mut st)?;
        Ok(count)
    } else {
        Err(StoreError::Other(String::from_str("a count query returned no row")))
    }
}

/// Store a new team and return its assigned id.
pub fn add_team(
    tx: &mut Transaction<'_>,
    name: &str,
    creator_email: &str,
    description: &str,
) -> Result<i64, StoreError> {
    let mut st = prepare(
        tx.conn,
        "insert into teams (name, creator_email, description, created_at)\
        values (?1, ?2, ?3, strftime('%F %TZ', 'now')) returning id;",
    )?;
    bind_str(&mut st, 1, name)?;
    bind_str(&mut st, 2, creator_email)?;
    bind_str(&mut st, 3, description)?;
    if step(&mut st)? {
        let id = read_i64(&st, 0)?;
        expect_done(&mut st)?;
        Ok(id)
    } else {
        Err(StoreError::Other(String::from_str("an insert that returns the new id returned no row")))
    }
}

/// Store a membership; a second membership of the same person in the
/// same team violates a uniqueness constraint.
pub fn add_team_member(tx: &mut Transaction<'_>, team_id: i64, member_email: &str) -> Result<
    (),
    StoreError,
> {
    let mut st = prepare(
        tx.conn,
        "insert into team_memberships (team_id, member_email) values (?1, ?2);",
    )?;
    bind_int(&mut st, 1, team_id)?;
    bind_str(&mut st, 2, member_email)?;
    expect_done(&mut st)
}

/// Remove a membership; removing one that does not exist is a no-op.
pub fn remove_team_member(tx: &mut Transaction<'_>, team_id: i64, member_email: &str) -> Result<
    (),
    StoreError,
> {
    let mut st = prepare(
        tx.conn,
        "delete from team_memberships where team_id = ?1 and member_email = ?2;",
    )?;
    bind_int(&mut st, 1, team_id)?;
    bind_str(&mut st, 2, member_email)?;
    expect_done(&mut st)
}

/// Remove a team record itself.
pub fn delete_team(tx: &mut Transaction<'_>, team_id: i64) -> Result<(), StoreError> {
    let mut st = prepare(tx.conn, "delete from teams where id = ?1;")?;
    bind_int(&mut st, 1, team_id)?;
    expect_done(&mut st)
}

/// A stored team.
#[derive(Debug)]
pub struct Team {
    pub id: i64,
    pub name: String,
    pub creator_email: String,
    pub description: String,
}

/// One stored vote on a team.
#[derive(Debug)]
pub struct Vote {
    pub voter_email: String,
    pub points: i64,
}

/// Every team, ordered by case-folded name.
pub fn iter_teams(tx: &mut Transaction<'_>) -> Result<Vec<Team>, StoreError> {
    let mut st = prepare(
        tx.conn,
        "select id, name, creator_email, description from teams order by lower(name) asc;",
    )?;
    let mut teams: Vec<Team> = Vec::new();
    let mut fuel: u64 = u64::MAX;
    loop
        decreases fuel,
    {
        if !step(&mut st)? {
            return Ok(teams);
        }
        let id = read_i64(&st, 0)?;
        let name = read_str(&st, 1)?;
        let creator_email = read_str(&st, 2)?;
        let description = read_str(&st, 3)?;
        teams.push(Team { id, name, creator_email, description });
        if fuel == 0 {
            return Err(StoreError::Other(String::from_str("too many rows")));
        }
        fuel = fuel - 1;
    }
}

/// The members of one team, in the order they joined.
pub fn iter_team_members(tx: &mut Transaction<'_>, team_id: i64) -> Result<Vec<String>, StoreError> {
    let mut st = prepare(
        tx.conn,
        "select member_email from team_memberships where team_id = ?1 order by id asc;",
    )?;
    bind_int(&mut st, 1, team_id)?;
    let mut members: Vec<String> = Vec::new();
    let mut fuel: u64 = u64::MAX;
    loop
        decreases fuel,
    {
        if !step(&mut st)? {
            return Ok(members);
        }
        members.push(read_str(&st, 0)?);
        if fuel == 0 {
            return Err(StoreError::Other(String::from_str("too many rows")));
        }
        fuel = fuel - 1;
    }
}

/// The teams one person belongs to.
pub fn iter_member_teams(tx: &mut Transaction<'_>, member_email: &str) -> Result<
    Vec<i64>,
    StoreError,
> {
    let mut st = prepare(
        tx.conn,
        "select team_id from team_memberships where member_email = ?1 order by id asc;",
    )?;
    bind_str(&mut st, 1, member_email)?;
    let mut teams: Vec<i64> = Vec::new();
    let mut fuel: u64 = u64::MAX;
    loop
        decreases fuel,
    {
        if !step(&mut st)? {
            return Ok(teams);
        }
        teams.push(read_i64(&st, 0)?);
        if fuel == 0 {
            return Err(StoreError::Other(String::from_str("too many rows")));
        }
        fuel = fuel - 1;
    }
}

/// The points one voter gave one team, if they voted on it.
pub fn get_team_vote_for(tx: &mut Transaction<'_>, team_id: i64, voter_email: &str) -> Result<
    Option<i64>,
    StoreError,
> {
    let mut st = prepare(
        tx.conn,
        "select points from votes where team_id = ?1 and voter_email = ?2;",
    )?;
    bind_int(&mut st, 1, team_id)?;
    bind_str(&mut st, 2, voter_email)?;
    if step(&mut st)? {
        let points = read_i64(&st, 0)?;
        Ok(Some(points))
    } else {
        Ok(None)
    }
}

/// Every stored vote on one team.
pub fn iter_team_votes(tx: &mut Transaction<'_>, team_id: i64) -> Result<Vec<Vote>, StoreError> {
    let mut st = prepare(
        tx.conn,
        "select voter_email, points from votes where team_id = ?1 order by id asc;",
    )?;
    bind_int(&mut st, 1, team_id)?;
    let mut votes: Vec<Vote> = Vec::new();
    let mut fuel: u64 = u64::MAX;
    loop
        decreases fuel,
    {
        if !step(&mut st)? {
            return Ok(votes);
        }
        let voter_email = read_str(&st, 0)?;
        let points = read_i64(&st, 1)?;
        votes.push(Vote { voter_email, points });
        if fuel == 0 {
            return Err(StoreError::Other(String::from_str("too many rows")));
        }
        fuel = fuel - 1;
    }
}

/// Everyone who tried to vote for their own team.
pub fn iter_cheaters(tx: &mut Transaction<'_>) -> Result<Vec<String>, StoreError> {
    let mut st = prepare(tx.conn, "select voter_email from cheaters order by voter_email asc;")?;
    let mut cheaters: Vec<String> = Vec::new();
    let mut fuel: u64 = u64::MAX;
    loop
        decreases fuel,
    {
        if !step(&mut st)? {
            return Ok(cheaters);
        }
        cheaters.push(read_str(&st, 0)?);
        if fuel == 0 {
            return Err(StoreError::Other(String::from_str("too many rows")));
        }
        fuel = fuel - 1;
    }
}

/// How many distinct voters have stored votes.
pub fn count_voters(tx: &mut Transaction<'_>) -> Result<i64, StoreError> {
    let mut st = prepare(tx.conn, "select count(distinct voter_email) from votes;")?;
    if step(&mut st)? {
        let count = read_i64(&st, 0)?;
        expect_done(&mut st)?;
        Ok(count)
    } else {
        Err(StoreError::Other(String::from_str("a count query returned no row")))
    }
}

/// Flag a voter as a cheater; flagging an already-flagged voter is a
/// no-op, so the flag is permanent and idempotent.
pub fn set_cheater(tx: &mut Transaction<'_>, voter_email: &str) -> Result<(), StoreError> {
    let mut st = prepare(tx.conn, "insert or ignore into cheaters (voter_email) values (?1);")?;
    bind_str(&mut st, 1, voter_email)?;
    expect_done(&mut st)
}

/// Remove every stored vote of one voter, so a new submission replaces
/// the old one wholesale.
pub fn delete_votes_for_voter(tx: &mut Transaction<'_>, voter_email: &str) -> Result<
    (),
    StoreError,
> {
    let mut st = prepare(tx.conn, "delete from votes where voter_email = ?1;")?;
    bind_str(&mut st, 1, voter_email)?;
    expect_done(&mut st)
}

/// Store one vote row.
pub fn insert_vote(
    tx: &mut Transaction<'_>,
    voter_email: &str,
    team_id: i64,
    points: i64,
) -> Result<(), StoreError> {
    let mut st = prepare(
        tx.conn,
        "insert into votes (voter_email, team_id, points) values (?1, ?2, ?3);",
    )?;
    bind_str(&mut st, 1, voter_email)?;
    bind_int(&mut st, 2, team_id)?;
    bind_int(&mut st, 3, points)?;
    expect_done(&mut st)
}

} // verus!
