use quind::fdb::{Change, Error, Fdb, Fetched, File, FileData, Written};
use std::collections::HashMap;

/// A healthy backend that lives in memory.
struct Disk {
    records: HashMap<String, FileData>,
}

impl Disk {
    fn new() -> Disk {
        Disk { records: HashMap::new() }
    }

    fn fetch(&self, key: &String) -> Fetched {
        match self.records.get(key) {
            Some(data) => Fetched::Found(data.clone()),
            None => Fetched::Missing,
        }
    }

    fn write(&mut self, change: Change) -> Written {
        match change {
            Change::Put { key, data } => {
                self.records.insert(key, data);
            }
            Change::Delete { key } => {
                self.records.remove(&key);
            }
        }
        Written::Done
    }
}

fn set(name: &str) -> String {
    let s = format!("./instance/{}", name);
    s
}

fn init() -> Fdb {
    let path = set("db");
    let _fdb: Fdb = Fdb::new(path.clone(), String::from("test").clone());
    _fdb
}

fn load() -> Fdb {
    let path = set("db");
    let _fdb: Fdb = Fdb::load(path.clone(), String::from("test").clone());
    _fdb
}

fn record(name: &str, path: &str) -> File {
    File { name: String::from(name), data: FileData { path: String::from(path) } }
}

/// The text under which a payload is kept: an object with the one field `path`.
fn json_of(data: &FileData) -> String {
    let mut object = serde_json::Map::new();
    object.insert(String::from("path"), serde_json::Value::String(data.path.clone()));
    serde_json::to_string(&serde_json::Value::Object(object)).unwrap()
}

#[test]
fn init_success() {
    let _fdb: Fdb = init();
    assert_eq!(_fdb.name, "test");
    assert_eq!(_fdb.path, "./instance/db");
    assert_eq!(_fdb.config, kv::Config::new("./instance/db"));
    assert_eq!(_fdb.loaded, false);

    // The bucket is opened where it is dropped on close.
    let location = kv::Config::new("/tmp/quind-tests/init").temporary(true);
    let store = kv::Store::new(location).unwrap();
    let bucket = store.bucket::<String, String>(None).unwrap();

    let file_data = FileData {
        path: String::from("/test"),
    };

    let file: File = File {
        name: String::from("test"),
        data: file_data,
    };
    match _fdb.add(&file) {
        Change::Put { key, data } => {
            bucket.set(&key, &json_of(&data)).unwrap();
        }
        Change::Delete { .. } => panic!("add asked for a delete"),
    }
    assert_eq!(bucket.get(&file.name).unwrap().unwrap(), json_of(&file.data));
    assert_eq!(json_of(&file.data), "{\"path\":\"/test\"}");
}

#[test]
fn exist_after_loaded() {
    let _fdb: Fdb = load();
    assert_eq!(_fdb.is_initialized(true).is_ok(), true);
}

#[test]
fn add_one_record() {
    let _fdb: Fdb = load();
    let mut disk = Disk::new();

    let file_data = FileData {
        path: String::from("/test1"),
    };

    let file: File = File {
        name: String::from("test1"),
        data: file_data,
    };
    assert_eq!(_fdb.settle(disk.write(_fdb.add(&file))).is_ok(), true);
    assert_eq!(_fdb.get(&file.name, disk.fetch(&file.name)).unwrap(), file);
}

#[test]
fn get_one_existed_record() {
    let _fdb: Fdb = load();
    let mut disk = Disk::new();

    let file_data = FileData {
        path: String::from("/test2"),
    };

    let file: File = File {
        name: String::from("test2"),
        data: file_data,
    };
    let _res = _fdb.settle(disk.write(_fdb.add(&file)));
    assert_eq!(_fdb.get(&file.name, disk.fetch(&file.name)).unwrap(), file);
}

#[test]
fn check_key_existed() {
    let _fdb: Fdb = load();
    let mut disk = Disk::new();

    let file_data = FileData {
        path: String::from("/test3"),
    };

    let file: File = File {
        name: String::from("test3"),
        data: file_data,
    };
    let _res = _fdb.settle(disk.write(_fdb.add(&file)));
    assert_eq!(_fdb.check(disk.fetch(&file.name)).unwrap(), true);
    assert_eq!(_fdb.check(disk.fetch(&String::from("no exist"))).unwrap(), false);
}

#[test]
fn update_one_existed_record() {
    let _fdb: Fdb = load();
    let mut disk = Disk::new();

    let file_data = FileData {
        path: String::from("/test4"),
    };

    let file: File = File {
        name: String::from("test4"),
        data: file_data,
    };

    let new_file_data = FileData {
        path: String::from("/another"),
    };

    let new_file = File {
        name: String::from("test4"),
        data: new_file_data.clone(),
    };
    let _res = _fdb.settle(disk.write(_fdb.add(&file)));
    let _res = _fdb.settle(disk.write(_fdb.update(&file.name, new_file_data)));
    assert_eq!(_fdb.get(&file.name, disk.fetch(&file.name)).unwrap(), new_file);
}

#[test]
fn remove_one_existed_record() {
    let _fdb: Fdb = load();
    let mut disk = Disk::new();

    let file_data = FileData {
        path: String::from("/test5"),
    };

    let file: File = File {
        name: String::from("test5"),
        data: file_data,
    };
    let _res = _fdb.settle(disk.write(_fdb.add(&file)));
    let _res = _fdb.settle(disk.write(_fdb.remove(&file.name)));
    assert_eq!(_fdb.check(disk.fetch(&file.name)).unwrap(), false);
}

#[test]
fn new_and_load_differ_only_in_the_promise() {
    let fresh = Fdb::new(String::from("./instance/a"), String::from("a"));
    let loaded = Fdb::load(String::from("./instance/a"), String::from("a"));
    assert_eq!(fresh.name, "a");
    assert_eq!(fresh.path, "./instance/a");
    assert_eq!(fresh.loaded, false);
    assert_eq!(loaded.name, "a");
    assert_eq!(loaded.path, "./instance/a");
    assert_eq!(loaded.loaded, true);
    assert_eq!(fresh.config, loaded.config);
    assert_eq!(fresh.config.path, std::path::PathBuf::from("./instance/a"));
    assert_eq!(fresh.config.temporary, false);
    assert_ne!(fresh.config, kv::Config::new("./instance/b"));
}

#[test]
fn absent_location_fails_a_loaded_store_only() {
    assert!(matches!(load().is_initialized(false), Err(Error::KVInitError)));
    assert!(matches!(init().is_initialized(false), Ok(false)));
    assert!(matches!(init().is_initialized(true), Ok(true)));
    assert!(matches!(load().is_initialized(true), Ok(true)));
}

#[test]
fn add_names_the_record_and_its_payload() {
    let fdb = init();
    match fdb.add(&record("a.txt", "./data/a.txt")) {
        Change::Put { key, data } => {
            assert_eq!(key, "a.txt");
            assert_eq!(data.path, "./data/a.txt");
        }
        Change::Delete { .. } => panic!("add asked for a delete"),
    }
}

#[test]
fn update_is_the_same_upsert_as_add() {
    let fdb = init();
    let by_add = fdb.add(&record("a.txt", "./data/a.txt"));
    let by_update = fdb.update(&String::from("a.txt"), FileData { path: String::from("./data/a.txt") });
    match (by_add, by_update) {
        (Change::Put { key: k1, data: d1 }, Change::Put { key: k2, data: d2 }) => {
            assert_eq!(k1, k2);
            assert_eq!(d1, d2);
        }
        _ => panic!("an upsert was expected of both"),
    }
}

#[test]
fn update_of_a_missing_key_creates_the_record() {
    let fdb = init();
    let mut disk = Disk::new();
    let key = String::from("new.txt");
    assert!(fdb.settle(disk.write(fdb.update(&key, FileData { path: String::from("/n/new.txt") }))).is_ok());
    assert_eq!(fdb.get(&key, disk.fetch(&key)).unwrap(), record("new.txt", "/n/new.txt"));
}

#[test]
fn remove_names_the_key() {
    let fdb = init();
    match fdb.remove(&String::from("gone.txt")) {
        Change::Delete { key } => assert_eq!(key, "gone.txt"),
        Change::Put { .. } => panic!("remove asked for an upsert"),
    }
}

#[test]
fn add_twice_leaves_one_record() {
    let fdb = init();
    let mut disk = Disk::new();
    let file = record("a.txt", "./data/a.txt");
    assert!(fdb.settle(disk.write(fdb.add(&file))).is_ok());
    assert!(fdb.settle(disk.write(fdb.add(&file))).is_ok());
    assert_eq!(disk.records.len(), 1);
    assert_eq!(fdb.get(&file.name, disk.fetch(&file.name)).unwrap(), file);
}

#[test]
fn untouched_key_checks_false_and_removes_without_error() {
    let fdb = init();
    let mut disk = Disk::new();
    let key = String::from("never-seen");
    assert_eq!(fdb.check(disk.fetch(&key)).unwrap(), false);
    assert!(fdb.settle(disk.write(fdb.remove(&key))).is_ok());
    assert_eq!(disk.records.len(), 0);
    assert_eq!(fdb.check(disk.fetch(&key)).unwrap(), false);
}

#[test]
fn get_of_a_missing_key_is_not_found() {
    let fdb = init();
    assert!(matches!(fdb.get(&String::from("k"), Fetched::Missing), Err(Error::NotFound)));
}

#[test]
fn get_of_a_corrupt_record_is_a_codec_error() {
    let fdb = init();
    match fdb.get(&String::from("k"), Fetched::Corrupt(String::from("expected value at line 1"))) {
        Err(Error::JSON(report)) => assert_eq!(report, "expected value at line 1"),
        other => panic!("unexpected: {:?}", other),
    }
}

#[test]
fn get_from_a_failed_backend_is_a_backend_error() {
    let fdb = init();
    match fdb.get(&String::from("k"), Fetched::Failed(String::from("IO error"))) {
        Err(Error::KV(report)) => assert_eq!(report, "IO error"),
        other => panic!("unexpected: {:?}", other),
    }
}

#[test]
fn get_keeps_the_key_it_was_asked_for() {
    let fdb = init();
    let found = Fetched::Found(FileData { path: String::from("/x/y") });
    let file = fdb.get(&String::from("asked"), found).unwrap();
    assert_eq!(file.name, "asked");
    assert_eq!(file.data.path, "/x/y");
}

#[test]
fn check_answers_for_every_kind_of_reply() {
    let fdb = init();
    assert!(matches!(fdb.check(Fetched::Found(FileData { path: String::from("/p") })), Ok(true)));
    assert!(matches!(fdb.check(Fetched::Corrupt(String::from("bad"))), Ok(true)));
    assert!(matches!(fdb.check(Fetched::Missing), Ok(false)));
    match fdb.check(Fetched::Failed(String::from("down"))) {
        Err(Error::KV(report)) => assert_eq!(report, "down"),
        other => panic!("unexpected: {:?}", other),
    }
}

#[test]
fn settle_answers_for_every_kind_of_reply() {
    let fdb = init();
    assert!(matches!(fdb.settle(Written::Done), Ok(())));
    match fdb.settle(Written::Rejected(String::from("not encodable"))) {
        Err(Error::JSON(report)) => assert_eq!(report, "not encodable"),
        other => panic!("unexpected: {:?}", other),
    }
    match fdb.settle(Written::Failed(String::from("disk full"))) {
        Err(Error::KV(report)) => assert_eq!(report, "disk full"),
        other => panic!("unexpected: {:?}", other),
    }
}

#[test]
fn records_compare_by_key_and_location() {
    assert_eq!(record("a", "/a"), record("a", "/a"));
    assert_ne!(record("a", "/a"), record("b", "/a"));
    assert_ne!(record("a", "/a"), record("a", "/b"));
    let data = FileData { path: String::from("/a") };
    assert_eq!(data.clone(), data);
}
