use roger::room_workdirs::RoomWorkdirStore;
use std::path::PathBuf;

#[test]
fn missing_file_loads_empty() {
    let store = RoomWorkdirStore::load(PathBuf::from("rw.json"), None);
    assert!(store.get("!a:srv").is_none());
}

#[test]
fn set_then_get_and_persist() {
    let path = PathBuf::from("rw.json");
    let mut store = RoomWorkdirStore::load(path.clone(), None);
    let contents = store.set("!a:srv", "/home/me/proj");
    assert_eq!(store.get("!a:srv").as_deref(), Some("/home/me/proj"));
    assert_eq!(store.path(), &path);
    // Loading what was to be written sees the persisted value.
    let reloaded = RoomWorkdirStore::load(path, Some(&contents));
    assert_eq!(reloaded.get("!a:srv").as_deref(), Some("/home/me/proj"));
}

#[test]
fn invalid_contents_load_empty() {
    for contents in ["", "not json", "[]", "{\"!a:srv\": 1}", "{\"!a:srv\": \"/x\"", "null"] {
        let store = RoomWorkdirStore::load(PathBuf::from("rw.json"), Some(contents));
        assert!(store.get("!a:srv").is_none(), "{}", contents);
    }
}

#[test]
fn contents_are_a_pretty_object() {
    let mut store = RoomWorkdirStore::load(PathBuf::from("rw.json"), None);
    assert_eq!(store.set("b", "/1"), "{\n  \"b\": \"/1\"\n}");
    let contents = store.set("a", "/2");
    assert!(
        contents == "{\n  \"a\": \"/2\",\n  \"b\": \"/1\"\n}"
            || contents == "{\n  \"b\": \"/1\",\n  \"a\": \"/2\"\n}"
    );
}

#[test]
fn set_again_replaces_and_leaves_others() {
    let mut store = RoomWorkdirStore::load(PathBuf::from("rw.json"), None);
    store.set("a", "/1");
    store.set("b", "/2");
    let contents = store.set("a", "/3");
    assert_eq!(store.get("a").as_deref(), Some("/3"));
    assert_eq!(store.get("b").as_deref(), Some("/2"));
    let reloaded = RoomWorkdirStore::load(PathBuf::from("rw.json"), Some(&contents));
    assert_eq!(reloaded.get("a").as_deref(), Some("/3"));
    assert_eq!(reloaded.get("b").as_deref(), Some("/2"));
    assert!(reloaded.get("c").is_none());
}

#[test]
fn odd_strings_survive_a_reload() {
    let mut store = RoomWorkdirStore::load(PathBuf::from("rw.json"), None);
    let room = "!\"q\"\\\n\u{1}\u{7f}\u{2028}\u{1f600}:srv";
    let contents = store.set(room, "/a b/\t\"c\"");
    let reloaded = RoomWorkdirStore::load(PathBuf::from("rw.json"), Some(&contents));
    assert_eq!(reloaded.get(room).as_deref(), Some("/a b/\t\"c\""));
}

#[test]
fn last_of_two_equal_keys_counts() {
    let store =
        RoomWorkdirStore::load(PathBuf::from("rw.json"), Some("{\"a\":\"/1\",\"a\":\"/2\"}"));
    assert_eq!(store.get("a").as_deref(), Some("/2"));
}

#[test]
fn one_bad_member_makes_all_contents_invalid() {
    for contents in ["{\"a\":\"/1\",\"b\":2}", "{\"b\":null,\"a\":\"/1\"}", "{\"a\":1,\"a\":\"/1\"}"] {
        let store = RoomWorkdirStore::load(PathBuf::from("rw.json"), Some(contents));
        assert!(store.get("a").is_none(), "{}", contents);
    }
}

#[test]
fn text_of_a_single_room_is_exact() {
    let mut store = RoomWorkdirStore::load(PathBuf::from("rw.json"), None);
    store.set("!a:srv", "/old");
    let contents = store.set("!a:srv", "/home/me/proj");
    assert_eq!(contents, "{\n  \"!a:srv\": \"/home/me/proj\"\n}");
}

#[test]
fn text_escapes_what_json_escapes() {
    let mut store = RoomWorkdirStore::load(PathBuf::from("rw.json"), None);
    let contents = store.set("!\"\\\u{8}\t\n\u{c}\r\u{0}\u{1f}", "/a\u{7f}\u{e9}/\u{1f600}");
    assert_eq!(
        contents,
        "{\n  \"!\\\"\\\\\\b\\t\\n\\f\\r\\u0000\\u001f\": \"/a\u{7f}\u{e9}/\u{1f600}\"\n}"
    );
}
