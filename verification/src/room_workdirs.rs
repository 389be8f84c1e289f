//! The working directory of each room.

use crate::json::{JsonTree, json_parsed, quoted};
use crate::text::str_eq;
use std::collections::HashMap;
use std::path::PathBuf;
use vstd::prelude::*;

verus! {

/// The room ids in `entries` are pairwise distinct.
pub open spec fn distinct_rooms(entries: Seq<(String, String)>) -> bool {
    forall|i: int, j: int|
        0 <= i < j < entries.len() ==> #[trigger] entries[i].0@ != #[trigger] entries[j].0@
}

/// The map that `entries` list.
pub open spec fn rooms_of(entries: Seq<(String, String)>) -> Map<Seq<char>, Seq<char>>
    decreases entries.len(),
{
    if entries.len() == 0 {
        Map::empty()
    } else {
        rooms_of(entries.drop_last()).insert(entries.last().0@, entries.last().1@)
    }
}

/// The map that `serde_json::from_str` reads from a text as a JSON object whose members are all
/// strings, or `None` where the text is no such object.
pub uninterp spec fn rooms_parsed(text: Seq<char>) -> Option<Map<Seq<char>, Seq<char>>>;

/// The map that a JSON value denotes, where it is an object whose members are all strings.
pub open spec fn string_members(value: Option<JsonTree>) -> Option<Map<Seq<char>, Seq<char>>> {
    match value {
        Some(JsonTree::Object(members)) if forall|key: Seq<char>| #[trigger]
            members.contains_key(key) ==> members[key].string() is Some => Some(
            Map::new(|key: Seq<char>| members.contains_key(key), |key: Seq<char>| members[key].string()->0),
        ),
        _ => None,
    }
}

/// `order` lists each entry of `rooms` once.
pub open spec fn lists(
    order: Seq<(Seq<char>, Seq<char>)>,
    rooms: Map<Seq<char>, Seq<char>>,
) -> bool {
    &&& forall|i: int, j: int|
        0 <= i < j < order.len() ==> #[trigger] order[i].0 != #[trigger] order[j].0
    &&& forall|i: int|
        0 <= i < order.len() ==> rooms.contains_key(#[trigger] order[i].0) && rooms[order[i].0]
            == order[i].1
    &&& forall|room: Seq<char>| #[trigger]
        rooms.contains_key(room) ==> exists|i: int|
            0 <= i < order.len() && #[trigger] order[i].0 == room
}

/// One member of a JSON object, on a line of its own.
pub open spec fn pretty_member(room: Seq<char>, workdir: Seq<char>) -> Seq<char> {
    "  "@ + quoted(room) + ": "@ + quoted(workdir)
}

/// The members of a JSON object, one on each line.
pub open spec fn pretty_members(order: Seq<(Seq<char>, Seq<char>)>) -> Seq<char>
    decreases order.len(),
{
    if order.len() == 0 {
        seq![]
    } else if order.len() == 1 {
        pretty_member(order[0].0, order[0].1)
    } else {
        pretty_members(order.drop_last()) + ",\n"@ + pretty_member(order.last().0, order.last().1)
    }
}

/// A JSON object with the members that `order` lists, in that order, indented by two spaces.
pub open spec fn pretty_object(order: Seq<(Seq<char>, Seq<char>)>) -> Seq<char> {
    if order.len() == 0 {
        "{}"@
    } else {
        "{\n"@ + pretty_members(order) + "\n}"@
    }
}

/// `text` is `rooms` as an indented JSON object, its members in some order.
pub open spec fn is_pretty_text(text: Seq<char>, rooms: Map<Seq<char>, Seq<char>>) -> bool {
    exists|order: Seq<(Seq<char>, Seq<char>)>| #[trigger]
        lists(order, rooms) && text == pretty_object(order)
}

/// The text for a single room is fixed: its member alone, between the braces.
pub proof fn law_text_of_one_room(text: Seq<char>, room: Seq<char>, workdir: Seq<char>)
    requires
        is_pretty_text(text, Map::<Seq<char>, Seq<char>>::empty().insert(room, workdir)),
    ensures
        text == "{\n  "@ + quoted(room) + ": "@ + quoted(workdir) + "\n}"@,
{
    let rooms = Map::<Seq<char>, Seq<char>>::empty().insert(room, workdir);
    let order = choose|order: Seq<(Seq<char>, Seq<char>)>| #[trigger]
        lists(order, rooms) && text == pretty_object(order);
    assert(rooms.contains_key(room));
    assert(order.len() == 1) by {
        if order.len() > 1 {
            assert(order[0].0 != order[1].0);
        }
    }
    reveal_strlit("{\n");
    reveal_strlit("  ");
    reveal_strlit("{\n  ");
    assert("{\n"@ + "  "@ =~= "{\n  "@);
    assert(rooms.contains_key(order[0].0));
    assert(text =~= "{\n  "@ + quoted(room) + ": "@ + quoted(workdir) + "\n}"@);
}

/// Calls `serde_json::from_str` for a map from strings to strings. What map comes back, or that
/// none does, is fixed by the text alone; the entries list each key of that map once, in no
/// particular order. A map comes back only where the text is a JSON object whose members are all
/// strings, and is then the map that the object denotes. Not said is that one comes back for every
/// such object: a member that is no string makes the call fail even where a later member of the
/// same name takes its place in the object.
#[verifier::external_body]
fn rooms_from_str(text: &str) -> (r: Option<Vec<(String, String)>>)
    ensures
        r is Some <==> rooms_parsed(text@) is Some,
        r matches Some(entries) ==> {
            &&& distinct_rooms(entries@)
            &&& rooms_parsed(text@) == Some(rooms_of(entries@))
            &&& string_members(json_parsed(text@)) == Some(rooms_of(entries@))
        },
{
    let parsed: Option<HashMap<String, String>> = serde_json::from_str(text).ok();
    parsed.map(|rooms| rooms.into_iter().collect())
}

/// Calls `serde_json::to_string_pretty` on the map that `entries` list. Printing a map from strings
/// to strings never fails. The text is an object with one member on each line, indented by two
/// spaces, where each key and each value is a JSON string; it is read back as the same map. In which
/// order the members come is left open: a `HashMap` is walked in an order of its own.
#[verifier::external_body]
fn rooms_to_string(entries: &Vec<(String, String)>) -> (r: Result<String, serde_json::Error>)
    requires
        distinct_rooms(entries@),
    ensures
        r is Ok,
        r matches Ok(text) ==> {
            &&& is_pretty_text(text@, rooms_of(entries@))
            &&& rooms_parsed(text@) == Some(rooms_of(entries@))
            &&& string_members(json_parsed(text@)) == Some(rooms_of(entries@))
        },
{
    let rooms: HashMap<&String, &String> = entries.iter().map(|(k, v)| (k, v)).collect();
    serde_json::to_string_pretty(&rooms)
}

/// The type `serde_json::Error`.
#[verifier::external_type_specification]
#[verifier::external_body]
pub struct ExJsonError(serde_json::Error);

/// What a store that finds `contents` in its file starts with: the map that the contents denote,
/// and nothing where there are none or they are no such map.
pub open spec fn loaded_rooms(contents: Option<Seq<char>>) -> Map<Seq<char>, Seq<char>> {
    match contents {
        Some(text) => match rooms_parsed(text) {
            Some(rooms) => rooms,
            None => Map::empty(),
        },
        None => Map::empty(),
    }
}

/// The workdir that `rooms` gives to a room.
pub open spec fn workdir_of(rooms: Map<Seq<char>, Seq<char>>, room: Seq<char>) -> Option<
    Seq<char>,
> {
    if rooms.contains_key(room) {
        Some(rooms[room])
    } else {
        None
    }
}

/// A room has the workdir that was set for it last, and setting it leaves every other room as it
/// was.
pub proof fn law_get_after_set(
    rooms: Map<Seq<char>, Seq<char>>,
    room: Seq<char>,
    workdir: Seq<char>,
    other: Seq<char>,
)
    ensures
        workdir_of(rooms.insert(room, workdir), room) == Some(workdir),
        other != room ==> workdir_of(rooms.insert(room, workdir), other) == workdir_of(
            rooms,
            other,
        ),
{
}

proof fn lemma_rooms_of(entries: Seq<(String, String)>)
    requires
        distinct_rooms(entries),
    ensures
        forall|i: int|
            0 <= i < entries.len() ==> #[trigger] rooms_of(entries).contains_key(entries[i].0@)
                && rooms_of(entries)[entries[i].0@] == entries[i].1@,
        forall|room: Seq<char>| #[trigger]
            rooms_of(entries).contains_key(room) ==> exists|i: int|
                0 <= i < entries.len() && #[trigger] entries[i].0@ == room,
    decreases entries.len(),
{
    if entries.len() > 0 {
        let rest = entries.drop_last();
        let last = entries.len() - 1;
        assert forall|i: int, j: int| 0 <= i < j < rest.len() implies #[trigger] rest[i].0@
            != #[trigger] rest[j].0@ by {
            assert(rest[i] == entries[i] && rest[j] == entries[j]);
        }
        lemma_rooms_of(rest);
        assert forall|i: int| 0 <= i < entries.len() implies #[trigger] rooms_of(
            entries,
        ).contains_key(entries[i].0@) && rooms_of(entries)[entries[i].0@] == entries[i].1@ by {
            if i < last {
                assert(rest[i] == entries[i]);
                assert(entries[i].0@ != entries[last].0@);
                assert(rooms_of(rest).contains_key(rest[i].0@));
            }
        }
        assert forall|room: Seq<char>| #[trigger]
            rooms_of(entries).contains_key(room) implies exists|i: int|
            0 <= i < entries.len() && #[trigger] entries[i].0@ == room by {
            if room == entries[last].0@ {
            } else {
                assert(rooms_of(rest).contains_key(room));
                let i = choose|i: int| 0 <= i < rest.len() && #[trigger] rest[i].0@ == room;
                assert(entries[i] == rest[i]);
            }
        }
    }
}

/// Keeps the per-room agentic working directory (set via the `set_workdir` tool), to be persisted
/// as a single JSON file so that it survives restarts. Keyed by room id, with absolute paths.
pub struct RoomWorkdirStore {
    path: PathBuf,
    entries: Vec<(String, String)>,
}

/// What a [`RoomWorkdirStore`] holds.
pub struct RoomWorkdirs {
    pub path: PathBuf,
    pub rooms: Map<Seq<char>, Seq<char>>,
}

impl View for RoomWorkdirStore {
    type V = RoomWorkdirs;

    closed spec fn view(&self) -> RoomWorkdirs {
        RoomWorkdirs { path: self.path, rooms: rooms_of(self.entries@) }
    }
}

impl RoomWorkdirStore {
    #[verifier::type_invariant]
    spec fn well_formed(self) -> bool {
        distinct_rooms(self.entries@)
    }

    /// The store kept in the file at `path`, given what the file holds (empty if missing or
    /// invalid).
    pub fn load(path: PathBuf, contents: Option<&str>) -> (store: RoomWorkdirStore)
        ensures
            store@.path == path,
            store@.rooms == loaded_rooms(contents.deep_view()),
            store@.rooms == Map::<Seq<char>, Seq<char>>::empty() || (contents matches Some(text)
                && string_members(json_parsed(text@)) == Some(store@.rooms)),
    {
        let parsed: Option<Vec<(String, String)>> = match contents {
            Some(text) => rooms_from_str(text),
            None => None,
        };
        let entries: Vec<(String, String)> = match parsed {
            Some(entries) => entries,
            None => Vec::new(),
        };
        RoomWorkdirStore { path, entries }
    }

    /// The file that the store is kept in.
    pub fn path(&self) -> (path: &PathBuf)
        ensures
            *path == self@.path,
    {
        &self.path
    }

    /// The workdir of a room, where one was set.
    pub fn get(&self, room: &str) -> (workdir: Option<String>)
        ensures
            workdir.deep_view() == workdir_of(self@.rooms, room@),
    {
        proof {
            use_type_invariant(self);
            lemma_rooms_of(self.entries@);
        }
        let mut i: usize = 0;
        while i < self.entries.len()
            invariant
                i <= self.entries@.len(),
                forall|j: int| 0 <= j < i ==> #[trigger] self.entries@[j].0@ != room@,
            decreases self.entries.len() - i,
        {
            if str_eq(self.entries[i].0.as_str(), room) {
                proof {
                    use_type_invariant(self);
                    lemma_rooms_of(self.entries@);
                }
                return Some(self.entries[i].1.clone());
            }
            i = i + 1;
        }
        None
    }

    /// Sets the workdir for a room. What comes back is the whole map as the text to be written to
    /// the store's file.
    pub fn set(&mut self, room: &str, workdir: &str) -> (contents: String)
        ensures
            final(self)@.path == old(self)@.path,
            final(self)@.rooms == old(self)@.rooms.insert(room@, workdir@),
            is_pretty_text(contents@, final(self)@.rooms),
            loaded_rooms(Some(contents@)) == final(self)@.rooms,
            string_members(json_parsed(contents@)) == Some(final(self)@.rooms),
    {
        proof {
            use_type_invariant(&*self);
        }
        let mut entries: Vec<(String, String)> = Vec::new();
        std::mem::swap(&mut entries, &mut self.entries);
        put(&mut entries, room, workdir);
        let contents: String = rooms_to_string(&entries).unwrap();
        self.entries = entries;
        contents
    }
}

fn put(entries: &mut Vec<(String, String)>, room: &str, workdir: &str)
    requires
        distinct_rooms(old(entries)@),
    ensures
        distinct_rooms(final(entries)@),
        rooms_of(final(entries)@) == rooms_of(old(entries)@).insert(room@, workdir@),
{
    let mut i: usize = 0;
    while i < entries.len()
        invariant
            i <= entries@.len(),
            entries@ == old(entries)@,
            forall|j: int| 0 <= j < i ==> #[trigger] entries@[j].0@ != room@,
            distinct_rooms(entries@),
        decreases entries.len() - i,
    {
        if str_eq(entries[i].0.as_str(), room) {
            let ghost before = entries@;
            entries[i] = (room.to_string(), workdir.to_string());
            proof {
                lemma_rooms_of(before);
                assert forall|a: int, b: int| 0 <= a < b < entries@.len() implies #[trigger]
                    entries@[a].0@ != #[trigger] entries@[b].0@ by {
                    assert(before[a].0@ != before[b].0@);
                }
                lemma_rooms_of(entries@);
                lemma_replaced(before, entries@, i as int);
            }
            return ;
        }
        i = i + 1;
    }
    let ghost before = entries@;
    entries.push((room.to_string(), workdir.to_string()));
    proof {
        assert(entries@.drop_last() =~= before);
    }
}

proof fn lemma_replaced(before: Seq<(String, String)>, after: Seq<(String, String)>, i: int)
    requires
        distinct_rooms(before),
        0 <= i < before.len(),
        after.len() == before.len(),
        after == before.update(i, after[i]),
        after[i].0@ == before[i].0@,
    ensures
        rooms_of(after) == rooms_of(before).insert(after[i].0@, after[i].1@),
    decreases before.len(),
{
    let b = before.drop_last();
    let a = after.drop_last();
    let last = before.len() - 1;
    if i == last {
        assert(a =~= b);
        assert(rooms_of(after) =~= rooms_of(before).insert(after[i].0@, after[i].1@));
    } else {
        assert forall|x: int, y: int| 0 <= x < y < b.len() implies #[trigger] b[x].0@
            != #[trigger] b[y].0@ by {
            assert(before[x].0@ != before[y].0@);
        }
        assert(a =~= b.update(i, a[i]));
        lemma_replaced(b, a, i);
        assert(before[i].0@ != before[last].0@);
        assert(after[last] == before[last]);
        assert(rooms_of(after) =~= rooms_of(before).insert(after[i].0@, after[i].1@));
    }
}

/// After a room's workdir is set, the store gives that workdir for it, character for character; for
/// every other room it gives what it gave before, and it is kept in the same file.
pub proof fn law_set_is_seen_by_get(
    store: &mut RoomWorkdirStore,
    room: &str,
    workdir: &str,
    contents: String,
    other: &str,
    found: Option<String>,
    found_before: Option<String>,
)
    requires
        call_ensures(RoomWorkdirStore::set, (store, room, workdir), contents),
        call_ensures(RoomWorkdirStore::get, (&*old(store), other), found_before),
        call_ensures(RoomWorkdirStore::get, (&*final(store), other), found),
    ensures
        other@ == room@ ==> found.deep_view() == Some(workdir@),
        other@ != room@ ==> found.deep_view() == found_before.deep_view(),
        final(store)@.path == old(store)@.path,
{
}

/// What is to be written after a workdir is set, loaded again from any file, gives a store that
/// gives for every room what the store itself gives.
pub proof fn law_written_text_restores_the_store(
    store: &mut RoomWorkdirStore,
    room: &str,
    workdir: &str,
    contents: String,
    text: &str,
    path: PathBuf,
    reloaded: RoomWorkdirStore,
    other: &str,
    found: Option<String>,
    found_again: Option<String>,
)
    requires
        call_ensures(RoomWorkdirStore::set, (store, room, workdir), contents),
        text@ == contents@,
        call_ensures(RoomWorkdirStore::load, (path, Some(text)), reloaded),
        call_ensures(RoomWorkdirStore::get, (&*final(store), other), found),
        call_ensures(RoomWorkdirStore::get, (&reloaded, other), found_again),
    ensures
        found_again.deep_view() == found.deep_view(),
        reloaded@.path == path,
{
}

/// A store whose file is missing, or holds no map from strings to strings, gives no room a workdir;
/// one whose file holds such a map gives every room in it the workdir that it has there, and no
/// other room any.
pub proof fn law_load_gives_what_the_file_holds(
    path: PathBuf,
    contents: Option<&str>,
    store: RoomWorkdirStore,
    room: &str,
    found: Option<String>,
)
    requires
        call_ensures(RoomWorkdirStore::load, (path, contents), store),
        call_ensures(RoomWorkdirStore::get, (&store, room), found),
    ensures
        store@.path == path,
        contents is None ==> found is None,
        contents matches Some(text) && rooms_parsed(text@) is None ==> found is None,
        contents matches Some(text) ==> (rooms_parsed(text@) matches Some(rooms) ==> {
            &&& rooms.contains_key(room@) ==> found.deep_view() == Some(rooms[room@])
            &&& !rooms.contains_key(room@) ==> found is None
        }),
{
    assert(found.deep_view() is None <==> found is None);
}

/// The file that a store is kept in is the one that it was loaded from.
pub proof fn law_path_is_kept(
    path: PathBuf,
    contents: Option<&str>,
    store: RoomWorkdirStore,
    kept: &PathBuf,
)
    requires
        call_ensures(RoomWorkdirStore::load, (path, contents), store),
        call_ensures(RoomWorkdirStore::path, (&store,), kept),
    ensures
        *kept == path,
{
}

/// The text to be written has one member for each room, in some order, with a comma and a line feed
/// between them: each a room and its workdir as JSON strings, behind two spaces.
pub proof fn law_text_has_a_line_for_each_room(
    fore: Seq<(Seq<char>, Seq<char>)>,
    room: Seq<char>,
    workdir: Seq<char>,
)
    ensures
        pretty_object(seq![]) == "{}"@,
        pretty_object(seq![(room, workdir)]) == "{\n"@ + "  "@ + quoted(room) + ": "@ + quoted(
            workdir,
        ) + "\n}"@,
        fore.len() > 0 ==> pretty_members(fore.push((room, workdir))) == pretty_members(fore)
            + ",\n"@ + "  "@ + quoted(room) + ": "@ + quoted(workdir),
        fore.len() > 0 ==> pretty_object(fore) == "{\n"@ + pretty_members(fore) + "\n}"@,
{
    let one = seq![(room, workdir)];
    assert(pretty_members(one) == pretty_member(room, workdir));
    assert(pretty_object(one) =~= "{\n"@ + "  "@ + quoted(room) + ": "@ + quoted(workdir) + "\n}"@);
    if fore.len() > 0 {
        let all = fore.push((room, workdir));
        assert(all.drop_last() =~= fore);
        assert(pretty_members(all) =~= pretty_members(fore) + ",\n"@ + "  "@ + quoted(room) + ": "@
            + quoted(workdir));
    }
}

} // verus!
