//! The gateway's configuration: the streams it knows by name, the relay
//! server it feeds, and the keys it accepts.

use crate::lookup::{index_of, lemma_index_of_found};
use vstd::prelude::*;

verus! {

/// A stream that can be started by name.
#[derive(Clone, Debug)]
pub struct StreamConfig {
    pub name: String,
    pub url: String,
}

/// The relay server: its API address and the template of the addresses
/// that viewers play from.
#[derive(Clone, Debug)]
pub struct SrsConfig {
    pub api_url: String,
    pub playback_url_template: String,
}

#[derive(Clone, Copy, Debug)]
pub struct ServerConfig {
    pub port: u16,
}

#[derive(Clone, Debug)]
pub struct AppConfig {
    pub server: ServerConfig,
    pub srs: SrsConfig,
    pub streams: Vec<StreamConfig>,
    pub api_keys: Vec<String>,
}

/// The names of the streams, in configuration order.
pub open spec fn stream_names(streams: Seq<StreamConfig>) -> Seq<Seq<char>> {
    streams.map_values(|c: StreamConfig| c.name@)
}

/// Index of the first stream called `name`, or the number of streams where
/// there is none.
pub open spec fn stream_position(streams: Seq<StreamConfig>, name: Seq<char>) -> int {
    index_of(stream_names(streams), name)
}

/// Whether one of `keys` is `token`.
pub open spec fn holds_key(keys: Seq<String>, token: Seq<char>) -> bool {
    exists|i: int| 0 <= i < keys.len() && (#[trigger] keys[i])@ == token
}

impl AppConfig {
    /// A configuration made of its parts.
    pub fn new(
        server: ServerConfig,
        srs: SrsConfig,
        streams: Vec<StreamConfig>,
        api_keys: Vec<String>,
    ) -> (c: Self)
        ensures
            c.server == server,
            c.srs == srs,
            c.streams == streams,
            c.api_keys == api_keys,
    {
        AppConfig { server, srs, streams, api_keys }
    }

    /// The first configured stream called `name`.
    pub fn find_stream(&self, name: &str) -> (r: Option<&StreamConfig>)
        ensures
            r is Some <==> stream_position(self.streams@, name@) < self.streams@.len(),
            r is Some ==> *r->0 == self.streams@[stream_position(self.streams@, name@)],
            r is Some ==> r->0.name@ == name@,
    {
        let key = name.to_owned();
        let mut i: usize = 0;
        while i < self.streams.len()
            invariant
                i <= self.streams.len(),
                key@ == name@,
                forall|j: int| 0 <= j < i ==> self.streams@[j].name@ != name@,
            decreases self.streams.len() - i,
        {
            if self.streams[i].name == key {
                proof {
                    lemma_index_of_found(stream_names(self.streams@), name@, i as int);
                }
                return Some(&self.streams[i]);
            }
            i += 1;
        }
        proof {
            lemma_index_of_found(stream_names(self.streams@), name@, i as int);
        }
        None
    }

    /// Whether `token` is one of the accepted keys.
    pub fn has_api_key(&self, token: &str) -> (r: bool)
        ensures
            r == holds_key(self.api_keys@, token@),
    {
        let key = token.to_owned();
        let mut i: usize = 0;
        while i < self.api_keys.len()
            invariant
                i <= self.api_keys.len(),
                key@ == token@,
                forall|j: int| 0 <= j < i ==> self.api_keys@[j]@ != token@,
            decreases self.api_keys.len() - i,
        {
            if self.api_keys[i] == key {
                return true;
            }
            i += 1;
        }
        false
    }
}

} // verus!
