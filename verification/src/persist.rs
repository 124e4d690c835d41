//! What is kept of the players in state.json, and how they come back.

use vstd::prelude::*;

use crate::audio::player::PlayerModel;
use crate::audio::player::PlayerState;
use crate::audio::player::Repeat;
use crate::json::Json;
use crate::json::JsonModel;
use crate::json::put;
use crate::json;
use crate::state::AppState;
use crate::state;
use crate::string_map::StringMap;
use crate::string_map;
use crate::text::chars::same_text;
use crate::text::chars;
use crate::text::number::write_decimal;
use crate::text::number;
use crate::text::order;

verus! {

broadcast use {vstd::seq::group_seq_axioms, vstd::slice::group_slice_axioms};

// ── Players as JSON ────────────────────────────────────────────────────────

/// The JSON of a list of ids.
pub open spec fn ids_json(ids: Seq<u64>) -> JsonModel {
    JsonModel::List(Seq::new(ids.len(), |i: int| JsonModel::Number(ids[i] as nat)))
}

/// The name of a repeat mode.
pub open spec fn repeat_name(r: Repeat) -> Seq<char> {
    match r {
        Repeat::Off => "Off"@,
        Repeat::One => "One"@,
        Repeat::All => "All"@,
    }
}

/// The JSON of a player.
pub open spec fn player_json(p: PlayerModel) -> JsonModel {
    JsonModel::Object(
        seq![
            ("queue"@, ids_json(p.queue)),
            ("pos"@, JsonModel::Number(p.pos)),
            ("history"@, ids_json(p.history)),
            ("shuffle"@, JsonModel::Bool(p.shuffle)),
            ("repeat"@, JsonModel::Text(repeat_name(p.repeat))),
            (
                "current_token"@,
                match p.current_token {
                    Some(t) => JsonModel::Text(t),
                    None => JsonModel::Null,
                },
            ),
            ("current_offset_ms"@, JsonModel::Number(p.current_offset_ms as nat)),
        ],
    )
}

/// The JSON of named players.
pub open spec fn players_json(pairs: Seq<(Seq<char>, PlayerModel)>) -> Seq<(Seq<char>, JsonModel)> {
    Seq::new(pairs.len(), |i: int| (pairs[i].0, player_json(pairs[i].1)))
}

/// What state.json holds.
pub open spec fn state_json(pairs: Seq<(Seq<char>, PlayerModel)>, saved_secs: u64) -> JsonModel {
    JsonModel::Object(
        seq![
            ("players"@, JsonModel::Object(players_json(pairs))),
            ("saved_at"@, JsonModel::Text(number::decimal(saved_secs as nat))),
        ],
    )
}

// ── Players from JSON ──────────────────────────────────────────────────────

/// Each value is a number.
pub open spec fn all_numbers(v: Seq<JsonModel>) -> bool {
    forall|i: int| 0 <= i < v.len() ==> (#[trigger] v[i]) is Number
}

/// The ids that a JSON list holds; there are none where a value is no number.
pub open spec fn ids_of(j: Option<JsonModel>) -> Option<Seq<u64>> {
    match j {
        Some(JsonModel::List(v)) => if all_numbers(v) {
            Some(Seq::new(v.len(), |i: int| v[i]->Number_0 as u64))
        } else {
            None
        },
        _ => None,
    }
}

/// The number that a JSON value holds.
pub open spec fn number_of(j: Option<JsonModel>) -> Option<nat> {
    match j {
        Some(JsonModel::Number(n)) => Some(n),
        _ => None,
    }
}

/// The truth value that a JSON value holds.
pub open spec fn bool_of(j: Option<JsonModel>) -> Option<bool> {
    match j {
        Some(JsonModel::Bool(b)) => Some(b),
        _ => None,
    }
}

/// The repeat mode that a JSON value names.
pub open spec fn repeat_of(j: Option<JsonModel>) -> Option<Repeat> {
    match j {
        Some(JsonModel::Text(s)) => if s == "Off"@ {
            Some(Repeat::Off)
        } else if s == "One"@ {
            Some(Repeat::One)
        } else if s == "All"@ {
            Some(Repeat::All)
        } else {
            None
        },
        _ => None,
    }
}

/// The optional text that a JSON value holds: none where it is null or missing.
pub open spec fn token_of(j: Option<JsonModel>) -> Option<Option<Seq<char>>> {
    match j {
        None => Some(None),
        Some(JsonModel::Null) => Some(None),
        Some(JsonModel::Text(s)) => Some(Some(s)),
        _ => None,
    }
}

/// The player that an object's fields describe.
pub open spec fn player_of_fields(fs: Seq<(Seq<char>, JsonModel)>) -> Option<PlayerModel> {
    match (
        ids_of(json::field_of(fs, "queue"@)),
        number_of(json::field_of(fs, "pos"@)),
        ids_of(json::field_of(fs, "history"@)),
        bool_of(json::field_of(fs, "shuffle"@)),
        repeat_of(json::field_of(fs, "repeat"@)),
        token_of(json::field_of(fs, "current_token"@)),
        number_of(json::field_of(fs, "current_offset_ms"@)),
    ) {
        (
            Some(queue),
            Some(pos),
            Some(history),
            Some(shuffle),
            Some(repeat),
            Some(current_token),
            Some(offset),
        ) => if pos <= usize::MAX {
            Some(
                PlayerModel {
                    queue,
                    pos,
                    history,
                    shuffle,
                    repeat,
                    current_token,
                    current_offset_ms: offset as u64,
                },
            )
        } else {
            None
        },
        _ => None,
    }
}

/// The player that a JSON value describes.
pub open spec fn player_of(j: JsonModel) -> Option<PlayerModel> {
    match j {
        JsonModel::Object(fs) => player_of_fields(fs),
        _ => None,
    }
}

/// Each value describes a player.
pub open spec fn all_players(ps: Seq<(Seq<char>, JsonModel)>) -> bool {
    forall|i: int| 0 <= i < ps.len() ==> player_of((#[trigger] ps[i]).1) is Some
}

/// The players that named values describe; of a name given twice the last one
/// counts.
pub open spec fn players_of(ps: Seq<(Seq<char>, JsonModel)>) -> Map<Seq<char>, PlayerModel>
    decreases ps.len(),
{
    if ps.len() == 0 {
        Map::empty()
    } else {
        players_of(ps.drop_last()).insert(ps.last().0, player_of(ps.last().1)->0)
    }
}

/// The players that come back from state.json. Where it does not read as what
/// was saved, none do.
pub open spec fn restored(j: JsonModel) -> Map<Seq<char>, PlayerModel> {
    match j {
        JsonModel::Object(fs) => match (
            json::field_of(fs, "players"@),
            json::field_of(fs, "saved_at"@),
        ) {
            (Some(JsonModel::Object(ps)), Some(JsonModel::Text(_))) => if all_players(ps) {
                players_of(ps)
            } else {
                Map::empty()
            },
            _ => Map::empty(),
        },
        _ => Map::empty(),
    }
}

// ── Saving ─────────────────────────────────────────────────────────────────

fn write_ids(ids: &Vec<u64>) -> (r: Json)
    ensures
        r@ == ids_json(ids@),
{
    let mut out: Vec<Json> = Vec::new();
    let mut i: usize = 0;
    let ghost all = Seq::new(ids@.len(), |i: int| JsonModel::Number(ids@[i] as nat));
    assert(json::list_model(out@) =~= all.take(0));
    while i < ids.len()
        invariant
            i <= ids@.len(),
            all == Seq::new(ids@.len(), |i: int| JsonModel::Number(ids@[i] as nat)),
            json::list_model(out@) == all.take(i as int),
        decreases ids@.len() - i,
    {
        let ghost before = out@;
        let j = Json::Number(ids[i]);
        assert(j@ == all[i as int]);
        out.push(j);
        assert(out@.drop_last() == before);
        i = i + 1;
        assert(json::list_model(out@) =~= all.take(i as int));
    }
    assert(all.take(i as int) == all);
    json::list(out)
}

fn write_player(p: &PlayerState) -> (r: Json)
    ensures
        r@ == player_json(p@),
{
    let name = match p.repeat {
        Repeat::Off => "Off",
        Repeat::One => "One",
        Repeat::All => "All",
    };
    let token = match &p.current_token {
        Some(t) => json::text(t.as_str()),
        None => Json::Null,
    };
    let mut f: Vec<(String, Json)> = Vec::new();
    assert(json::fields_model(f@) =~= seq![]);
    put(&mut f, "queue", write_ids(&p.queue));
    put(&mut f, "pos", Json::Number(p.pos as u64));
    put(&mut f, "history", write_ids(&p.history));
    put(&mut f, "shuffle", Json::Bool(p.shuffle));
    put(&mut f, "repeat", json::text(name));
    put(&mut f, "current_token", token);
    put(&mut f, "current_offset_ms", Json::Number(p.current_offset_ms));
    assert(json::fields_model(f@) =~= player_json(p@)->Object_0);
    json::object(f)
}

/// What the named players say.
pub open spec fn player_pairs(pairs: Seq<(Seq<char>, PlayerState)>) -> Seq<
    (Seq<char>, PlayerModel),
> {
    Seq::new(pairs.len(), |i: int| (pairs[i].0, pairs[i].1@))
}

impl AppState {
    /// What state.json is to hold: the players, and when they were saved, in
    /// seconds.
    pub fn save_state(&self, saved_secs: u64) -> (r: Json)
        ensures
            r@ == state_json(player_pairs(self.players.pairs()), saved_secs),
            string_map::ascending(player_pairs(self.players.pairs())),
            string_map::map_of(player_pairs(self.players.pairs())) == self@.players,
    {
        let n: usize = self.players.len();
        let ghost pairs = player_pairs(self.players.pairs());
        let ghost all = players_json(pairs);
        let mut ps: Vec<(String, Json)> = Vec::new();
        let mut i: usize = 0;
        assert(json::fields_model(ps@) =~= all.take(0));
        while i < n
            invariant
                i <= n,
                n == self.players.pairs().len(),
                pairs == player_pairs(self.players.pairs()),
                all == players_json(pairs),
                json::fields_model(ps@) == all.take(i as int),
            decreases n - i,
        {
            let (name, p) = self.players.entry(i);
            put(&mut ps, name, write_player(p));
            i = i + 1;
            assert(json::fields_model(ps@) =~= all.take(i as int));
        }
        assert(all.take(i as int) == all);
        let secs = write_decimal(saved_secs);
        let mut f: Vec<(String, Json)> = Vec::new();
        assert(json::fields_model(f@) =~= seq![]);
        put(&mut f, "players", json::object(ps));
        put(&mut f, "saved_at", json::text(secs.as_str()));
        assert(json::fields_model(f@) =~= state_json(pairs, saved_secs)->Object_0);
        proof {
            lemma_player_pairs(self.players.pairs());
            assert(string_map::map_of(pairs) =~= self@.players);
        }
        json::object(f)
    }
}

proof fn lemma_player_pairs(pairs: Seq<(Seq<char>, PlayerState)>)
    requires
        string_map::ascending(pairs),
    ensures
        string_map::ascending(player_pairs(pairs)),
        string_map::map_of(player_pairs(pairs)) == state::player_models(
            string_map::map_of(pairs),
        ),
{
    let p = player_pairs(pairs);
    let a = string_map::map_of(p);
    let b = state::player_models(string_map::map_of(pairs));
    assert forall|k: Seq<char>| a.dom().contains(k) == b.dom().contains(k) by {
        if string_map::has_key(p, k) {
            let i = choose|i: int| 0 <= i < p.len() && (#[trigger] p[i]).0 == k;
            assert(pairs[i].0 == k);
        }
        if string_map::has_key(pairs, k) {
            let i = choose|i: int| 0 <= i < pairs.len() && (#[trigger] pairs[i]).0 == k;
            assert(p[i].0 == k);
        }
    }
    assert forall|k: Seq<char>| #[trigger] a.dom().contains(k) implies a[k] == b[k] by {
        let i = choose|i: int| 0 <= i < p.len() && (#[trigger] p[i]).0 == k;
        string_map::lemma_value(p, i);
        assert(pairs[i].0 == k);
        string_map::lemma_value(pairs, i);
    }
    assert(a =~= b);
}

// ── Restoring ──────────────────────────────────────────────────────────────

/// What an optional reference to a JSON value says.
pub open spec fn value_model(o: Option<&Json>) -> Option<JsonModel> {
    match o {
        Some(j) => Some(j@),
        None => None,
    }
}

fn read_ids(o: Option<&Json>) -> (r: Option<Vec<u64>>)
    ensures
        match r {
            Some(v) => ids_of(value_model(o)) == Some(v@),
            None => ids_of(value_model(o)) is None,
        },
{
    match o {
        Some(Json::List(v)) => {
            proof {
                json::lemma_list_model(v@);
            }
            let ghost all = json::list_model(v@);
            let mut out: Vec<u64> = Vec::new();
            let mut i: usize = 0;
            while i < v.len()
                invariant
                    i <= v@.len(),
                    all == json::list_model(v@),
                    all.len() == v@.len(),
                    forall|k: int| 0 <= k < v@.len() ==> #[trigger] all[k] == v@[k]@,
                    value_model(o) == Some(JsonModel::List(all)),
                    out@.len() == i,
                    forall|k: int|
                        0 <= k < i ==> (#[trigger] all[k]) is Number && out@[k] == all[k]->Number_0,
                decreases v@.len() - i,
            {
                assert(all[i as int] == v@[i as int]@);
                match &v[i] {
                    Json::Number(n) => out.push(*n),
                    _ => {
                        assert(!(all[i as int] is Number));
                        return None;
                    },
                }
                i = i + 1;
            }
            assert(out@ =~= Seq::new(all.len(), |i: int| all[i]->Number_0 as u64));
            Some(out)
        },
        _ => None,
    }
}

fn read_number(o: Option<&Json>) -> (r: Option<u64>)
    ensures
        match r {
            Some(n) => number_of(value_model(o)) == Some(n as nat),
            None => number_of(value_model(o)) is None,
        },
{
    match o {
        Some(Json::Number(n)) => Some(*n),
        _ => None,
    }
}

fn read_repeat(o: Option<&Json>) -> (r: Option<Repeat>)
    ensures
        r == repeat_of(value_model(o)),
{
    match o {
        Some(Json::Text(s)) => if same_text(s.as_str(), "Off") {
            Some(Repeat::Off)
        } else if same_text(s.as_str(), "One") {
            Some(Repeat::One)
        } else if same_text(s.as_str(), "All") {
            Some(Repeat::All)
        } else {
            None
        },
        _ => None,
    }
}

fn read_token(o: Option<&Json>) -> (r: Option<Option<String>>)
    ensures
        match r {
            Some(t) => token_of(value_model(o)) == Some(chars::opt_text(t)),
            None => token_of(value_model(o)) is None,
        },
{
    match o {
        None => Some(None),
        Some(Json::Null) => Some(None),
        Some(Json::Text(s)) => Some(Some(s.clone())),
        _ => None,
    }
}

fn read_bool(o: Option<&Json>) -> (r: Option<bool>)
    ensures
        r == bool_of(value_model(o)),
{
    match o {
        Some(Json::Bool(b)) => Some(*b),
        _ => None,
    }
}

fn read_player(j: &Json) -> (r: Option<PlayerState>)
    ensures
        match r {
            Some(p) => player_of(j@) == Some(p@),
            None => player_of(j@) is None,
        },
{
    match j {
        Json::Object(_) => {},
        _ => {
            return None;
        },
    }
    match (
        read_ids(j.get("queue")),
        read_number(j.get("pos")),
        read_ids(j.get("history")),
        read_bool(j.get("shuffle")),
        read_repeat(j.get("repeat")),
        read_token(j.get("current_token")),
        read_number(j.get("current_offset_ms")),
    ) {
        (
            Some(queue),
            Some(pos),
            Some(history),
            Some(shuffle),
            Some(repeat),
            Some(current_token),
            Some(current_offset_ms),
        ) => {
            if pos > usize::MAX as u64 {
                return None;
            }
            Some(PlayerState {
                queue,
                pos: pos as usize,
                history,
                shuffle,
                repeat,
                current_token,
                current_offset_ms,
            })
        },
        _ => None,
    }
}

fn read_players(ps: &Vec<(String, Json)>) -> (r: Option<StringMap<PlayerState>>)
    ensures
        match r {
            Some(m) => all_players(json::fields_model(ps@)) && state::player_models(m@)
                == players_of(json::fields_model(ps@)),
            None => !all_players(json::fields_model(ps@)),
        },
{
    let ghost all = json::fields_model(ps@);
    let mut m: StringMap<PlayerState> = StringMap::new();
    let mut i: usize = 0;
    proof {
        json::lemma_fields_model(ps@);
        assert(state::player_models(m@) =~= players_of(all.take(0)));
    }
    while i < ps.len()
        invariant
            i <= ps@.len(),
            all == json::fields_model(ps@),
            all.len() == ps@.len(),
            forall|k: int|
                0 <= k < ps@.len() ==> (#[trigger] all[k]) == (ps@[k].0@, ps@[k].1@),
            forall|k: int| 0 <= k < i ==> player_of((#[trigger] all[k]).1) is Some,
            state::player_models(m@) == players_of(all.take(i as int)),
        decreases ps@.len() - i,
    {
        let (name, value) = &ps[i];
        assert(all[i as int] == (name@, value@));
        match read_player(value) {
            Some(p) => {
                let ghost before = m@;
                m.insert(name.clone(), p);
                assert(all.take(i + 1).drop_last() == all.take(i as int));
                assert(all.take(i + 1).last() == all[i as int]);
                assert(state::player_models(m@) =~= state::player_models(before).insert(
                    name@,
                    p@,
                ));
            },
            None => {
                return None;
            },
        }
        i = i + 1;
    }
    assert(all.take(i as int) == all);
    Some(m)
}

/// The players that come back from state.json.
pub fn load_state(j: &Json) -> (r: StringMap<PlayerState>)
    ensures
        state::player_models(r@) == restored(j@),
{
    let dated = match j.get("saved_at") {
        Some(Json::Text(_)) => true,
        _ => false,
    };
    if dated {
        match j.get("players") {
            Some(Json::Object(ps)) => match read_players(ps) {
                Some(m) => {
                    return m;
                },
                None => {},
            },
            _ => {},
        }
    }
    let none: StringMap<PlayerState> = StringMap::new();
    assert(state::player_models(none@) =~= Map::<Seq<char>, PlayerModel>::empty());
    none
}

// ── Laws ───────────────────────────────────────────────────────────────────

/// Every player of a file that can be read comes back as it stands there.
pub proof fn law_every_readable_player_comes_back(ps: Seq<(Seq<char>, JsonModel)>, i: int)
    requires
        all_players(ps),
        0 <= i < ps.len(),
        forall|j: int| i < j < ps.len() ==> (#[trigger] ps[j]).0 != ps[i].0,
    ensures
        players_of(ps).dom().contains(ps[i].0),
        players_of(ps)[ps[i].0] == player_of(ps[i].1)->0,
    decreases ps.len(),
{
    let n = ps.len() - 1;
    if i < n {
        let init = ps.drop_last();
        assert forall|k: int| 0 <= k < init.len() implies player_of(
            (#[trigger] init[k]).1,
        ) is Some by {
            assert(init[k] == ps[k]);
        }
        assert forall|j: int| i < j < init.len() implies (#[trigger] init[j]).0 != init[i].0 by {
            assert(init[j] == ps[j]);
        }
        law_every_readable_player_comes_back(init, i);
        assert(ps[n].0 != ps[i].0);
    }
}

proof fn lemma_player_fields(p: PlayerModel)
    ensures
        ({
            let fs = player_json(p)->Object_0;
            &&& json::field_of(fs, "queue"@) == Some(fs[0].1)
            &&& json::field_of(fs, "pos"@) == Some(fs[1].1)
            &&& json::field_of(fs, "history"@) == Some(fs[2].1)
            &&& json::field_of(fs, "shuffle"@) == Some(fs[3].1)
            &&& json::field_of(fs, "repeat"@) == Some(fs[4].1)
            &&& json::field_of(fs, "current_token"@) == Some(fs[5].1)
            &&& json::field_of(fs, "current_offset_ms"@) == Some(fs[6].1)
        }),
{
    reveal_strlit("queue");
    reveal_strlit("pos");
    reveal_strlit("history");
    reveal_strlit("shuffle");
    reveal_strlit("repeat");
    reveal_strlit("current_token");
    reveal_strlit("current_offset_ms");
    assert("queue"@.len() == 5);
    assert("pos"@.len() == 3);
    assert("history"@.len() == 7);
    assert("shuffle"@.len() == 7);
    assert("repeat"@.len() == 6);
    assert("current_token"@.len() == 13);
    assert("current_offset_ms"@.len() == 17);
    assert("history"@[0] != "shuffle"@[0]);
    let fs = player_json(p)->Object_0;
    json::lemma_field_at(fs, "queue"@, 0);
    json::lemma_field_at(fs, "pos"@, 1);
    json::lemma_field_at(fs, "history"@, 2);
    json::lemma_field_at(fs, "shuffle"@, 3);
    json::lemma_field_at(fs, "repeat"@, 4);
    json::lemma_field_at(fs, "current_token"@, 5);
    json::lemma_field_at(fs, "current_offset_ms"@, 6);
}

/// A player is read back as it was written.
pub proof fn law_player_round_trip(p: PlayerModel)
    requires
        p.pos <= usize::MAX,
    ensures
        player_of(player_json(p)) == Some(p),
{
    lemma_player_fields(p);
    let fs = player_json(p)->Object_0;
    let q = ids_json(p.queue)->List_0;
    let h = ids_json(p.history)->List_0;
    assert(Seq::new(q.len(), |i: int| q[i]->Number_0 as u64) =~= p.queue);
    assert(Seq::new(h.len(), |i: int| h[i]->Number_0 as u64) =~= p.history);
    reveal_strlit("Off");
    reveal_strlit("One");
    reveal_strlit("All");
    assert("Off"@[1] != "One"@[1]);
    assert("Off"@[0] != "All"@[0]);
    assert("One"@[0] != "All"@[0]);
}

proof fn lemma_players_round_trip(pairs: Seq<(Seq<char>, PlayerModel)>)
    requires
        string_map::ascending(pairs),
        forall|i: int|
            0 <= i < pairs.len() ==> (#[trigger] pairs[i]).1.pos <= usize::MAX,
    ensures
        all_players(players_json(pairs)),
        players_of(players_json(pairs)) == string_map::map_of(pairs),
    decreases pairs.len(),
{
    let js = players_json(pairs);
    assert forall|i: int| 0 <= i < js.len() implies player_of((#[trigger] js[i]).1) == Some(
        pairs[i].1,
    ) by {
        law_player_round_trip(pairs[i].1);
    }
    let whole = string_map::map_of(pairs);
    if pairs.len() == 0 {
        assert(whole =~= Map::<Seq<char>, PlayerModel>::empty());
    } else {
        let init = pairs.drop_last();
        let last = pairs.last();
        assert forall|i: int| 0 <= i < init.len() implies (#[trigger] init[i]).1.pos
            <= usize::MAX by {
            assert(init[i] == pairs[i]);
        }
        assert(string_map::ascending(init));
        lemma_players_round_trip(init);
        assert(js.drop_last() =~= players_json(init));
        assert(js.last() == (last.0, player_json(last.1)));
        assert(player_of(js[js.len() - 1].1) == Some(last.1));
        let part = string_map::map_of(init);
        assert forall|k: Seq<char>| whole.dom().contains(k) == part.insert(
            last.0,
            last.1,
        ).dom().contains(k) by {
            if string_map::has_key(pairs, k) {
                let i = choose|i: int| 0 <= i < pairs.len() && (#[trigger] pairs[i]).0 == k;
                if i < init.len() {
                    assert(init[i].0 == k);
                }
            }
            if string_map::has_key(init, k) {
                let i = choose|i: int| 0 <= i < init.len() && (#[trigger] init[i]).0 == k;
                assert(pairs[i].0 == k);
            }
            assert(pairs[pairs.len() - 1].0 == last.0);
        }
        assert forall|k: Seq<char>| #[trigger] whole.dom().contains(k) implies whole[k]
            == part.insert(last.0, last.1)[k] by {
            let i = choose|i: int| 0 <= i < pairs.len() && (#[trigger] pairs[i]).0 == k;
            string_map::lemma_value(pairs, i);
            string_map::lemma_value(pairs, pairs.len() - 1);
            if i < init.len() {
                assert(init[i] == pairs[i]);
                string_map::lemma_value(init, i);
                order::lemma_before_irreflexive(k);
                assert(order::text_before(pairs[i].0, pairs[pairs.len() - 1].0));
            }
        }
        assert(whole =~= part.insert(last.0, last.1));
    }
}

/// A restart forgets nothing: the players that were saved are the players that
/// come back.
pub proof fn law_saved_players_come_back(
    pairs: Seq<(Seq<char>, PlayerModel)>,
    saved_secs: u64,
)
    requires
        string_map::ascending(pairs),
        forall|i: int|
            0 <= i < pairs.len() ==> (#[trigger] pairs[i]).1.pos <= usize::MAX,
    ensures
        restored(state_json(pairs, saved_secs)) == string_map::map_of(pairs),
{
    let fs = state_json(pairs, saved_secs)->Object_0;
    reveal_strlit("players");
    reveal_strlit("saved_at");
    assert("players"@.len() != "saved_at"@.len());
    json::lemma_field_at(fs, "players"@, 0);
    json::lemma_field_at(fs, "saved_at"@, 1);
    lemma_players_round_trip(pairs);
}

} // verus!
