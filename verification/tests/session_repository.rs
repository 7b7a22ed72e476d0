use authcore::result::Error;
use authcore::session::domain::Session;
use authcore::session::framework::InMemorySessionRepository;

fn session(email: &str, urls: &[&str]) -> Session {
    let mut session = Session::new(email);
    for url in urls {
        session.set_directory(url);
    }
    session
}

#[test]
fn session_forgets_a_directory() {
    let mut s = session("a@server.domain", &["one", "two", "one", "three"]);
    s.delete_directory("one");
    assert_eq!(s.directories, vec!["two".to_string(), "three".to_string()]);
    s.delete_directory("four");
    assert_eq!(s.directories.len(), 2);
    assert_eq!(s.duplicate().directories, s.directories);
    assert_eq!(s.sid, "");
    assert_eq!(s.email, "a@server.domain");
}

#[test]
fn session_repository_saves_under_a_fresh_identifier() {
    let mut repo = InMemorySessionRepository::new();
    let stored = repo.save(session("a@server.domain", &[])).unwrap();
    assert_eq!(stored.sid.len(), 8);
    assert_eq!(stored.email, "a@server.domain");
    assert_eq!(repo.find(&stored.sid).unwrap().email, "a@server.domain");
    assert_eq!(repo.find_by_email("a@server.domain").unwrap().sid, stored.sid);
    assert!(matches!(repo.find("unknown"), Err(Error::NotFound)));
    assert!(matches!(repo.find_by_email("b@server.domain"), Err(Error::NotFound)));

    assert!(matches!(repo.save(session("a@server.domain", &[])), Err(Error::AlreadyExists)));
    let other = repo.save(session("b@server.domain", &[])).unwrap();
    assert_ne!(other.sid, stored.sid);
}

#[test]
fn session_repository_saves_as_given() {
    let mut repo = InMemorySessionRepository::new();
    repo.save_as(session("a@server.domain", &[]), "sid-a".to_string()).unwrap();
    assert!(!repo.is_free("sid-a"));
    assert!(repo.is_free("sid-b"));
    assert!(matches!(
        repo.save_as(session("b@server.domain", &[]), "sid-a".to_string()),
        Err(Error::AlreadyExists)
    ));
    assert!(matches!(
        repo.save_as(session("a@server.domain", &[]), "sid-b".to_string()),
        Err(Error::AlreadyExists)
    ));
    let mut known = session("c@server.domain", &[]);
    known.sid = "sid-a".to_string();
    assert!(matches!(repo.save_as(known, "sid-c".to_string()), Err(Error::AlreadyExists)));
    assert!(repo.is_free("sid-c"));
}

#[test]
fn session_repository_deletes() {
    let mut repo = InMemorySessionRepository::new();
    let stored = repo.save_as(session("a@server.domain", &[]), "sid-a".to_string()).unwrap();
    repo.delete(&stored).unwrap();
    assert!(matches!(repo.delete(&stored), Err(Error::NotFound)));
    assert!(matches!(repo.find("sid-a"), Err(Error::NotFound)));
}

#[test]
fn groups_store_and_remove_sessions() {
    let mut repo = InMemorySessionRepository::new();
    assert!(matches!(repo.get("app"), Err(Error::NotFound)));
    repo.store("app", "sid-a");
    repo.store("app", "sid-b");
    repo.store("app", "sid-a");
    assert_eq!(repo.get("app").unwrap(), vec!["sid-a".to_string(), "sid-b".to_string()]);
    repo.remove("app", "sid-a");
    assert_eq!(repo.get("app").unwrap(), vec!["sid-b".to_string()]);
    repo.remove("app", "sid-x");
    assert_eq!(repo.get("app").unwrap(), vec!["sid-b".to_string()]);
    repo.remove("app", "sid-b");
    assert!(matches!(repo.get("app"), Err(Error::NotFound)));
    repo.remove("app", "sid-b");
    repo.remove("other", "sid-b");
    assert!(matches!(repo.get("other"), Err(Error::NotFound)));
}

#[test]
fn groups_are_created_and_destroyed() {
    let mut repo = InMemorySessionRepository::new();
    repo.store("app", "sid-a");
    repo.store("app", "sid-b");
    repo.create_group("app", "sid-c");
    assert_eq!(repo.get("app").unwrap(), vec!["sid-c".to_string()]);
    repo.destroy_group("app");
    assert_eq!(repo.get("app").unwrap(), vec!["sid-c".to_string()]);
    repo.destroy_group("other");
    assert!(matches!(repo.get("other"), Err(Error::NotFound)));
}

#[test]
fn delete_all_by_app_takes_the_directory_from_the_sessions_of_the_group() {
    let mut repo = InMemorySessionRepository::new();
    repo.save_as(session("a@server.domain", &["app", "other"]), "sid-a".to_string()).unwrap();
    repo.save_as(session("b@server.domain", &["app"]), "sid-b".to_string()).unwrap();
    repo.save_as(session("c@server.domain", &["app"]), "sid-c".to_string()).unwrap();
    repo.store("app", "sid-a");
    repo.store("app", "sid-b");
    repo.store("app", "sid-gone");
    repo.store("other", "sid-a");

    repo.delete_all_by_app("app").unwrap();
    assert_eq!(repo.find("sid-a").unwrap().directories, vec!["other".to_string()]);
    assert!(repo.find("sid-b").unwrap().directories.is_empty());
    assert_eq!(repo.find("sid-c").unwrap().directories, vec!["app".to_string()]);
    assert_eq!(repo.get("app").unwrap().len(), 3);
    assert_eq!(repo.get("other").unwrap(), vec!["sid-a".to_string()]);

    assert!(matches!(repo.delete_all_by_app("unknown"), Err(Error::NotFound)));
}
