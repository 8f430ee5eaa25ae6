use berry_editor::database::{
    connection_from_form, connection_to_test, db_type_of, default_port, form_from_connection, new_form, port_of,
    ConnectionForm, DbType,
};

fn form(t: DbType, port: &str) -> ConnectionForm {
    ConnectionForm {
        name: "main".to_string(),
        db_type: t,
        host: "db.local".to_string(),
        port: port.to_string(),
        database: "app".to_string(),
        username: "me".to_string(),
        password: "pw".to_string(),
        ssl: true,
    }
}

#[test]
fn type_labels() {
    assert_eq!(db_type_of("MySQL"), DbType::MySQL);
    assert_eq!(db_type_of("SQLite"), DbType::SQLite);
    assert_eq!(db_type_of("MongoDB"), DbType::MongoDB);
    assert_eq!(db_type_of("PostgreSQL"), DbType::PostgreSQL);
    assert_eq!(db_type_of("Oracle"), DbType::PostgreSQL);
}

#[test]
fn default_ports() {
    assert_eq!(default_port("MySQL"), "3306");
    assert_eq!(default_port("MongoDB"), "27017");
    assert_eq!(default_port("PostgreSQL"), "5432");
    assert_eq!(default_port("SQLite"), "5432");
}

#[test]
fn ports_are_read_as_u16() {
    assert_eq!(port_of("5432"), Some(5432));
    assert_eq!(port_of("+80"), Some(80));
    assert_eq!(port_of("65535"), Some(65535));
    assert_eq!(port_of("65536"), None);
    assert_eq!(port_of(""), None);
    assert_eq!(port_of("54x"), None);
}

#[test]
fn saved_connection_of_a_server() {
    let c = connection_from_form(&form(DbType::MySQL, "3306"), None, 1700000000);
    assert_eq!(c.id, "1700000000");
    assert_eq!(c.name, "main");
    assert_eq!(c.db_type, DbType::MySQL);
    assert_eq!(c.host, Some("db.local".to_string()));
    assert_eq!(c.port, Some(3306));
    assert_eq!(c.database, "app");
    assert_eq!(c.username, Some("me".to_string()));
    assert_eq!(c.password, Some("pw".to_string()));
    assert!(c.ssl);
    assert_eq!(c.created_at, 1700000000);
    assert_eq!(c.last_used, None);
}

#[test]
fn sqlite_leaves_out_the_server_fields() {
    let c = connection_from_form(&form(DbType::SQLite, "3306"), Some("42".to_string()), 5);
    assert_eq!(c.id, "42");
    assert_eq!(c.host, None);
    assert_eq!(c.port, None);
    assert_eq!(c.username, None);
    assert_eq!(c.password, None);
    assert_eq!(c.database, "app");
}

#[test]
fn tested_connection_has_no_id() {
    let c = connection_to_test(&form(DbType::PostgreSQL, "bad"));
    assert_eq!(c.id, "");
    assert_eq!(c.created_at, 0);
    assert_eq!(c.port, None);
}

#[test]
fn new_and_edited_forms() {
    let f = new_form();
    assert_eq!(f.db_type, DbType::PostgreSQL);
    assert_eq!(f.host, "localhost");
    assert_eq!(f.port, "5432");
    assert!(f.name.is_empty() && !f.ssl);
    let c = connection_from_form(&form(DbType::SQLite, ""), None, 1);
    let g = form_from_connection(&c);
    assert_eq!(g.host, "");
    assert_eq!(g.port, "");
    assert_eq!(g.db_type, DbType::SQLite);
    let c = connection_from_form(&form(DbType::MongoDB, "27017"), None, 1);
    assert_eq!(form_from_connection(&c).port, "27017");
}
