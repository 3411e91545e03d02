//! The open connections, each under its name.

use vstd::prelude::*;
use vstd::string::StringExecFns;

use crate::config::{ConfigModel, InfluxConfig};
use crate::response::{Response, ResponseModel};
use crate::text::same;

verus! {

/// `Client::clone` gives another handle to the same client.
pub assume_specification[ <reqwest::Client as Clone>::clone ](client: &reqwest::Client) -> (res:
    reqwest::Client)
    ensures
        res == *client,
;

/// A connection: its configuration and the client that reaches the server.
pub struct InfluxConnection {
    pub client: reqwest::Client,
    pub config: InfluxConfig,
}

/// What an [`InfluxConnection`] holds.
#[verifier::ext_equal]
pub struct ConnectionModel {
    pub client: reqwest::Client,
    pub config: ConfigModel,
}

impl View for InfluxConnection {
    type V = ConnectionModel;

    open spec fn view(&self) -> ConnectionModel {
        ConnectionModel { client: self.client, config: self.config@ }
    }
}

impl Clone for InfluxConnection {
    fn clone(&self) -> (copy: Self)
        ensures
            copy@ == self@,
    {
        InfluxConnection { client: self.client.clone(), config: self.config.clone() }
    }
}

/// The open connections: at most one under each name.
pub struct Connections {
    entries: Vec<(String, InfluxConnection)>,
}

/// Where the connection of the name stands: after the last one, where there is none.
spec fn index_of(entries: Seq<(String, InfluxConnection)>, id: Seq<char>) -> nat
    decreases entries.len(),
{
    if entries.len() == 0 || entries[0].0@ == id {
        0
    } else {
        1 + index_of(entries.skip(1), id)
    }
}

proof fn lemma_index_of(entries: Seq<(String, InfluxConnection)>, id: Seq<char>)
    ensures
        0 <= index_of(entries, id) <= entries.len(),
        index_of(entries, id) < entries.len() ==> entries[index_of(entries, id) as int].0@ == id,
        forall|k: int| 0 <= k < index_of(entries, id) ==> (#[trigger] entries[k]).0@ != id,
    decreases entries.len(),
{
    if entries.len() == 0 || entries[0].0@ == id {
    } else {
        lemma_index_of(entries.skip(1), id);
        assert forall|k: int| 0 <= k < index_of(entries, id) implies (#[trigger] entries[k]).0@
            != id by {
            if k > 0 {
                assert(entries.skip(1)[k - 1] == entries[k]);
            }
        }
    }
}

/// No name occurs twice.
spec fn unique(entries: Seq<(String, InfluxConnection)>) -> bool {
    forall|i: int, j: int|
        0 <= i < j < entries.len() ==> (#[trigger] entries[i]).0@ != (#[trigger] entries[j]).0@
}

/// The entry that holds a name, in a list that holds it once.
proof fn lemma_index_is(entries: Seq<(String, InfluxConnection)>, i: int)
    requires
        unique(entries),
        0 <= i < entries.len(),
    ensures
        index_of(entries, entries[i].0@) == i,
{
    lemma_index_of(entries, entries[i].0@);
    let p = index_of(entries, entries[i].0@) as int;
    if p < i {
        assert(entries[p].0@ != entries[i].0@);
    } else if i < p {
        assert(entries[i].0@ != entries[i].0@);
    }
}

spec fn map_of(entries: Seq<(String, InfluxConnection)>) -> Map<Seq<char>, ConnectionModel> {
    Map::new(
        |id: Seq<char>| index_of(entries, id) < entries.len(),
        |id: Seq<char>| entries[index_of(entries, id) as int].1@,
    )
}

/// The map of a list holds each entry under its name, and nothing else.
proof fn lemma_map_of(entries: Seq<(String, InfluxConnection)>)
    requires
        unique(entries),
    ensures
        forall|i: int|
            0 <= i < entries.len() ==> map_of(entries).contains_key((#[trigger] entries[i]).0@)
                && map_of(entries)[entries[i].0@] == entries[i].1@,
        forall|id: Seq<char>| #[trigger]
            map_of(entries).contains_key(id) ==> exists|i: int|
                0 <= i < entries.len() && (#[trigger] entries[i]).0@ == id,
{
    assert forall|i: int| 0 <= i < entries.len() implies map_of(entries).contains_key(
        (#[trigger] entries[i]).0@,
    ) && map_of(entries)[entries[i].0@] == entries[i].1@ by {
        lemma_index_is(entries, i);
    }
    assert forall|id: Seq<char>| #[trigger] map_of(entries).contains_key(id) implies exists|i: int|
        0 <= i < entries.len() && (#[trigger] entries[i]).0@ == id by {
        lemma_index_of(entries, id);
        assert(entries[index_of(entries, id) as int].0@ == id);
    }
}

/// Without one entry a list holds the same under every other name.
proof fn lemma_removed(entries: Seq<(String, InfluxConnection)>, i: int)
    requires
        unique(entries),
        0 <= i < entries.len(),
    ensures
        unique(entries.remove(i)),
        map_of(entries.remove(i)) == map_of(entries).remove(entries[i].0@),
        forall|k: int|
            0 <= k < entries.remove(i).len() ==> (#[trigger] entries.remove(i)[k]).0@
                != entries[i].0@,
{
    let rest = entries.remove(i);
    assert forall|k: int| 0 <= k < rest.len() implies #[trigger] rest[k] == entries[if k < i {
        k
    } else {
        k + 1
    }] by {}
    assert(unique(rest));
    lemma_map_of(entries);
    lemma_map_of(rest);
    let without = map_of(entries).remove(entries[i].0@);
    assert forall|id: Seq<char>| #[trigger]
        map_of(rest).contains_key(id) <==> without.contains_key(id) by {
        if without.contains_key(id) {
            let k = choose|k: int| 0 <= k < entries.len() && (#[trigger] entries[k]).0@ == id;
            let l = if k < i {
                k
            } else {
                k - 1
            };
            assert(rest[l] == entries[k]);
        }
        if map_of(rest).contains_key(id) {
            let k = choose|k: int| 0 <= k < rest.len() && (#[trigger] rest[k]).0@ == id;
            let l = if k < i {
                k
            } else {
                k + 1
            };
            assert(rest[k] == entries[l]);
        }
    }
    assert forall|id: Seq<char>| #[trigger] map_of(rest).contains_key(id) implies map_of(rest)[id]
        == without[id] by {
        let k = choose|k: int| 0 <= k < rest.len() && (#[trigger] rest[k]).0@ == id;
        let l = if k < i {
            k
        } else {
            k + 1
        };
        assert(rest[k] == entries[l]);
    }
    assert(map_of(rest) =~= without);
}

/// With one more entry, of a new name, a list holds the same under every other name.
proof fn lemma_added(
    entries: Seq<(String, InfluxConnection)>,
    entry: (String, InfluxConnection),
)
    requires
        unique(entries),
        forall|k: int| 0 <= k < entries.len() ==> (#[trigger] entries[k]).0@ != entry.0@,
    ensures
        unique(entries.push(entry)),
        map_of(entries.push(entry)) == map_of(entries).insert(entry.0@, entry.1@),
{
    let now = entries.push(entry);
    let n = entries.len() as int;
    assert forall|k: int| 0 <= k < n implies #[trigger] now[k] == entries[k] by {}
    assert(now[n] == entry);
    assert(unique(now));
    lemma_map_of(entries);
    lemma_map_of(now);
    let with = map_of(entries).insert(entry.0@, entry.1@);
    assert forall|id: Seq<char>| #[trigger]
        map_of(now).contains_key(id) <==> with.contains_key(id) by {
        if map_of(now).contains_key(id) {
            let k = choose|k: int| 0 <= k < now.len() && (#[trigger] now[k]).0@ == id;
            if k < n {
                assert(now[k] == entries[k]);
            }
        }
        if with.contains_key(id) && id != entry.0@ {
            let k = choose|k: int| 0 <= k < entries.len() && (#[trigger] entries[k]).0@ == id;
            assert(now[k] == entries[k]);
        }
    }
    assert forall|id: Seq<char>| #[trigger] map_of(now).contains_key(id) implies map_of(now)[id]
        == with[id] by {
        let k = choose|k: int| 0 <= k < now.len() && (#[trigger] now[k]).0@ == id;
        if k < n {
            assert(now[k] == entries[k]);
        }
    }
    assert(map_of(now) =~= with);
}

/// A name that no entry holds is not in the map.
proof fn lemma_absent(entries: Seq<(String, InfluxConnection)>, id: Seq<char>)
    requires
        unique(entries),
        index_of(entries, id) >= entries.len(),
    ensures
        !map_of(entries).contains_key(id),
        forall|k: int| 0 <= k < entries.len() ==> (#[trigger] entries[k]).0@ != id,
{
    lemma_index_of(entries, id);
}

impl View for Connections {
    type V = Map<Seq<char>, ConnectionModel>;

    closed spec fn view(&self) -> Map<Seq<char>, ConnectionModel> {
        map_of(self.entries@)
    }
}

/// What is answered where no connection of the name is open.
pub open spec fn not_found(id: Seq<char>) -> ResponseModel {
    ResponseModel::Failure {
        code: "connector.connectionNotFound"@,
        message: "no open connection: "@ + id,
    }
}

impl Connections {
    /// No name is held twice.
    pub closed spec fn wf(self) -> bool {
        unique(self.entries@)
    }

    /// No connection.
    pub fn new() -> (connections: Connections)
        ensures
            connections.wf(),
            connections@ == Map::<Seq<char>, ConnectionModel>::empty(),
    {
        let connections = Connections { entries: Vec::new() };
        proof {
            assert(connections@ =~= Map::<Seq<char>, ConnectionModel>::empty());
        }
        connections
    }

    fn position(&self, id: &str) -> (i: usize)
        ensures
            i == index_of(self.entries@, id@),
            i <= self.entries@.len(),
    {
        proof {
            lemma_index_of(self.entries@, id@);
        }
        let mut i: usize = 0;
        while i < self.entries.len()
            invariant
                i <= self.entries@.len(),
                forall|k: int| 0 <= k < i ==> (#[trigger] self.entries@[k]).0@ != id@,
                index_of(self.entries@, id@) <= self.entries@.len(),
                index_of(self.entries@, id@) < self.entries@.len() ==> self.entries@[index_of(
                    self.entries@,
                    id@,
                ) as int].0@ == id@,
                forall|k: int|
                    0 <= k < index_of(self.entries@, id@) ==> (#[trigger] self.entries@[k]).0@
                        != id@,
            decreases self.entries@.len() - i,
        {
            if same(self.entries[i].0.as_str(), id) {
                return i;
            }
            i = i + 1;
        }
        i
    }

    /// Opens a connection under a name, in place of the one that was open under it.
    pub fn insert(&mut self, id: String, connection: InfluxConnection)
        requires
            old(self).wf(),
        ensures
            final(self).wf(),
            final(self)@ == old(self)@.insert(id@, connection@),
    {
        let ghost before = self.entries@;
        let i = self.position(id.as_str());
        proof {
            lemma_index_of(before, id@);
        }
        if i < self.entries.len() {
            self.entries.remove(i);
            proof {
                lemma_removed(before, i as int);
            }
        } else {
            proof {
                lemma_absent(before, id@);
            }
        }
        let ghost rest = self.entries@;
        proof {
            lemma_added(rest, (id, connection));
            assert(map_of(rest).insert(id@, connection@) =~= map_of(before).insert(
                id@,
                connection@,
            ));
        }
        self.entries.push((id, connection));
    }

    /// Closes the connection of a name, and says whether one was open.
    pub fn remove(&mut self, id: &str) -> (existed: bool)
        requires
            old(self).wf(),
        ensures
            final(self).wf(),
            existed == old(self)@.contains_key(id@),
            final(self)@ == old(self)@.remove(id@),
    {
        let ghost before = self.entries@;
        let i = self.position(id);
        proof {
            lemma_index_of(before, id@);
        }
        if i < self.entries.len() {
            self.entries.remove(i);
            proof {
                lemma_removed(before, i as int);
            }
            true
        } else {
            proof {
                lemma_absent(before, id@);
                assert(map_of(before).remove(id@) =~= map_of(before));
            }
            false
        }
    }

    /// The connection of a name, or what is answered where none is open.
    pub fn connection(&self, id: &str) -> (connection: Result<InfluxConnection, Response>)
        requires
            self.wf(),
        ensures
            connection matches Ok(c) ==> self@.contains_key(id@) && c@ == self@[id@],
            connection matches Err(r) ==> !self@.contains_key(id@) && r@ == not_found(id@),
    {
        let i = self.position(id);
        proof {
            lemma_index_of(self.entries@, id@);
        }
        if i < self.entries.len() {
            Ok(self.entries[i].1.clone())
        } else {
            proof {
                lemma_absent(self.entries@, id@);
            }
            let message = "no open connection: ".to_string().concat(id);
            Err(Response::error("connector.connectionNotFound", message.as_str()))
        }
    }
}

} // verus!
