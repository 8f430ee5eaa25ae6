//! The connection form of the database panel: the database type chosen by
//! its label, the port each type suggests, and the connection record that
//! the form describes.

use vstd::prelude::*;
use crate::blame::{decimal, decimal_text};
use crate::git::{parse_usize, parse_usize_exec};
use crate::text::{chars_of, copy_string, str_eq};

verus! {

/// The kinds of database a connection can reach.
#[derive(Debug, Clone, Copy, PartialEq, Eq, Structural)]
pub enum DbType {
    PostgreSQL,
    MySQL,
    SQLite,
    MongoDB,
}

/// The type a label of the type menu names; PostgreSQL for any other
/// label.
pub open spec fn db_type_label(label: Seq<char>) -> DbType {
    if label == "MySQL"@ {
        DbType::MySQL
    } else if label == "SQLite"@ {
        DbType::SQLite
    } else if label == "MongoDB"@ {
        DbType::MongoDB
    } else {
        DbType::PostgreSQL
    }
}

/// The port the form suggests when a label is chosen: 3306 for MySQL,
/// 27017 for MongoDB, 5432 otherwise.
pub open spec fn default_port_of(label: Seq<char>) -> Seq<char> {
    if label == "MySQL"@ {
        "3306"@
    } else if label == "MongoDB"@ {
        "27017"@
    } else {
        "5432"@
    }
}

/// The type a label of the type menu names.
pub fn db_type_of(label: &str) -> (r: DbType)
    ensures
        r == db_type_label(label@),
{
    if str_eq(label, "MySQL") {
        DbType::MySQL
    } else if str_eq(label, "SQLite") {
        DbType::SQLite
    } else if str_eq(label, "MongoDB") {
        DbType::MongoDB
    } else {
        DbType::PostgreSQL
    }
}

/// The port the form suggests when a label is chosen.
pub fn default_port(label: &str) -> (r: &'static str)
    ensures
        r@ == default_port_of(label@),
{
    if str_eq(label, "MySQL") {
        "3306"
    } else if str_eq(label, "MongoDB") {
        "27017"
    } else {
        "5432"
    }
}

/// The fields of the connection form, as typed.
pub struct ConnectionForm {
    pub name: String,
    pub db_type: DbType,
    pub host: String,
    pub port: String,
    pub database: String,
    pub username: String,
    pub password: String,
    pub ssl: bool,
}

/// A saved database connection. An SQLite connection has no host, port,
/// user or password.
pub struct DbConnection {
    pub id: String,
    pub name: String,
    pub db_type: DbType,
    pub host: Option<String>,
    pub port: Option<u16>,
    pub database: String,
    pub username: Option<String>,
    pub password: Option<String>,
    pub ssl: bool,
    /// Seconds since the Unix epoch.
    pub created_at: i64,
    pub last_used: Option<i64>,
}

/// A port as typed, read as `str::parse::<u16>` reads it: an optional `+`,
/// then digits spelling at most 65535.
pub open spec fn parse_port(s: Seq<char>) -> Option<u16> {
    match parse_usize(s) {
        Some(v) => if v <= 65535 { Some(v as u16) } else { None },
        None => None,
    }
}

/// A port as typed, read as a number.
pub fn port_of(s: &str) -> (r: Option<u16>)
    ensures
        r == parse_port(s@),
{
    let cs = chars_of(s);
    match parse_usize_exec(cs.as_slice()) {
        Some(v) => if v <= 65535 { Some(v as u16) } else { None },
        None => None,
    }
}

/// A text field that an SQLite connection leaves out.
pub open spec fn server_field(t: DbType, field: Seq<char>, value: Option<String>) -> bool {
    if t == DbType::SQLite {
        value is None
    } else {
        value matches Some(v) && v@ == field
    }
}

/// Whether a connection is the one the form describes, with id `id` and
/// creation time `created_at`, never used yet.
pub open spec fn describes(c: DbConnection, form: ConnectionForm, id: Seq<char>, created_at: i64) -> bool {
    &&& c.id@ == id
    &&& c.name@ == form.name@
    &&& c.db_type == form.db_type
    &&& server_field(form.db_type, form.host@, c.host)
    &&& c.port == if form.db_type == DbType::SQLite { None } else { parse_port(form.port@) }
    &&& c.database@ == form.database@
    &&& server_field(form.db_type, form.username@, c.username)
    &&& server_field(form.db_type, form.password@, c.password)
    &&& c.ssl == form.ssl
    &&& c.created_at == created_at
    &&& c.last_used is None
}

fn server_value(t: DbType, value: &String) -> (r: Option<String>)
    ensures
        server_field(t, value@, r),
{
    if t == DbType::SQLite {
        None
    } else {
        Some(copy_string(value))
    }
}

fn build(form: &ConnectionForm, id: String, created_at: i64) -> (r: DbConnection)
    ensures
        describes(r, *form, id@, created_at),
{
    let t = form.db_type;
    DbConnection {
        id,
        name: copy_string(&form.name),
        db_type: t,
        host: server_value(t, &form.host),
        port: if t == DbType::SQLite { None } else { port_of(form.port.as_str()) },
        database: copy_string(&form.database),
        username: server_value(t, &form.username),
        password: server_value(t, &form.password),
        ssl: form.ssl,
        created_at,
        last_used: None,
    }
}

/// The connection that Save stores: it keeps the id of the connection
/// being edited, or else takes the current time in seconds (`now`) as its
/// id; it is created at `now`.
pub fn connection_from_form(form: &ConnectionForm, editing: Option<String>, now: u64) -> (r: DbConnection)
    ensures
        describes(
            r,
            *form,
            match editing {
                Some(id) => id@,
                None => decimal_text(now as nat),
            },
            now as i64,
        ),
{
    let id = match editing {
        Some(id) => id,
        None => decimal(now),
    };
    build(form, id, now as i64)
}

/// The connection that Test tries: no id, created at time 0.
pub fn connection_to_test(form: &ConnectionForm) -> (r: DbConnection)
    ensures
        describes(r, *form, Seq::empty(), 0),
{
    build(form, String::new(), 0)
}

/// The form of a new connection: PostgreSQL on localhost, port 5432,
/// everything else empty.
pub fn new_form() -> (r: ConnectionForm)
    ensures
        r.name@ == Seq::<char>::empty(),
        r.db_type == DbType::PostgreSQL,
        r.host@ == "localhost"@,
        r.port@ == "5432"@,
        r.database@ == Seq::<char>::empty(),
        r.username@ == Seq::<char>::empty(),
        r.password@ == Seq::<char>::empty(),
        !r.ssl,
{
    ConnectionForm {
        name: String::new(),
        db_type: DbType::PostgreSQL,
        host: String::from_str("localhost"),
        port: String::from_str("5432"),
        database: String::new(),
        username: String::new(),
        password: String::new(),
        ssl: false,
    }
}

/// The text of an optional field, empty when it is absent.
pub open spec fn or_empty(v: Option<String>) -> Seq<char> {
    match v {
        Some(s) => s@,
        None => Seq::empty(),
    }
}

fn text_or_empty(v: &Option<String>) -> (r: String)
    ensures
        r@ == or_empty(*v),
{
    match v {
        Some(s) => copy_string(s),
        None => String::new(),
    }
}

/// The form that editing a connection starts from: its fields, absent ones
/// empty, and its port in decimal.
pub fn form_from_connection(c: &DbConnection) -> (r: ConnectionForm)
    ensures
        r.name@ == c.name@,
        r.db_type == c.db_type,
        r.host@ == or_empty(c.host),
        r.port@ == match c.port {
            Some(p) => decimal_text(p as nat),
            None => Seq::<char>::empty(),
        },
        r.database@ == c.database@,
        r.username@ == or_empty(c.username),
        r.password@ == or_empty(c.password),
        r.ssl == c.ssl,
{
    ConnectionForm {
        name: copy_string(&c.name),
        db_type: c.db_type,
        host: text_or_empty(&c.host),
        port: match c.port {
            Some(p) => decimal(p as u64),
            None => String::new(),
        },
        database: copy_string(&c.database),
        username: text_or_empty(&c.username),
        password: text_or_empty(&c.password),
        ssl: c.ssl,
    }
}

} // verus!
