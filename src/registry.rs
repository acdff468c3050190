//! The session registry: the players currently connected, by name.

use vstd::prelude::*;

verus! {

/// Life total of a freshly connected player.
pub const START_LIFE: i64 = 20;

/// Admission stays open while fewer players than this are registered.
pub const ADMISSION_LIMIT: usize = 9;

/// What the registry knows of one player, as mathematical values.
pub struct PlayerModel {
    pub name: Seq<char>,
    pub address: Seq<char>,
    pub id: nat,
    pub life: int,
}

/// One connected player.
#[derive(Debug, Clone, PartialEq, Eq)]
pub struct Player {
    pub player_name: String,
    pub ip_address: String,
    pub id: usize,
    pub life: i64,
}

impl View for Player {
    type V = PlayerModel;

    open spec fn view(&self) -> PlayerModel {
        PlayerModel {
            name: self.player_name@,
            address: self.ip_address@,
            id: self.id as nat,
            life: self.life as int,
        }
    }
}

impl Player {
    pub fn new_player(player_name: String, ip_address: String, id: usize, life: i64) -> (r: Player)
        ensures
            r.player_name == player_name,
            r.ip_address == ip_address,
            r.id == id,
            r.life == life,
    {
        Player { player_name, ip_address, id, life }
    }

    /// A copy of the player, field by field.
    pub fn duplicate(&self) -> (r: Player)
        ensures
            r@ == self@,
    {
        Player {
            player_name: self.player_name.clone(),
            ip_address: self.ip_address.clone(),
            id: self.id,
            life: self.life,
        }
    }
}

/// No two players share a name.
pub open spec fn names_distinct(s: Seq<PlayerModel>) -> bool {
    forall|i: int, j: int| 0 <= i < j < s.len() ==> s[i].name != s[j].name
}

/// Identifiers grow strictly along the sequence (the order of connection).
pub open spec fn ids_increasing(s: Seq<PlayerModel>) -> bool {
    forall|i: int, j: int| 0 <= i < j < s.len() ==> s[i].id < s[j].id
}

/// Every identifier is below `bound`.
pub open spec fn ids_below(s: Seq<PlayerModel>, bound: nat) -> bool {
    forall|i: int| 0 <= i < s.len() ==> s[i].id < bound
}

pub open spec fn has_name(s: Seq<PlayerModel>, name: Seq<char>) -> bool {
    exists|i: int| 0 <= i < s.len() && s[i].name == name
}

pub open spec fn has_id(s: Seq<PlayerModel>, id: nat) -> bool {
    exists|i: int| 0 <= i < s.len() && s[i].id == id
}

/// The players whose name is not `name`, in registry order.
pub open spec fn others(s: Seq<PlayerModel>, name: Seq<char>) -> Seq<PlayerModel> {
    s.filter(|p: PlayerModel| p.name != name)
}

/// The record of a player that has just connected.
pub open spec fn fresh_player(name: Seq<char>, address: Seq<char>, id: nat) -> PlayerModel {
    PlayerModel { name, address, id, life: START_LIFE as int }
}

/// The record `p` after one point of damage.
pub open spec fn damaged(p: PlayerModel) -> PlayerModel {
    PlayerModel { life: p.life - 1, ..p }
}

/// What a successful connection hands back to the client.
#[derive(Clone, Copy, Debug, PartialEq, Eq, Structural)]
pub struct Admission {
    pub id: usize,
    pub life: i64,
    /// Whether fewer than `ADMISSION_LIMIT` players were registered before.
    pub admission_allowed: bool,
}

#[derive(Clone, Copy, Debug, PartialEq, Eq, Structural)]
pub enum ConnectError {
    /// Another connected player already has this name.
    NameTaken,
}

/// The outcome of one point of damage.
#[derive(Clone, Copy, Debug, PartialEq, Eq, Structural)]
pub enum DamageResult {
    /// The player had life left; this is the life after the hit.
    Alive(i64),
    /// The player had no life left; this is its unchanged life.
    Dead(i64),
}

/// The players currently connected, in the order they connected, and the
/// next identifier to hand out.
pub struct Registry {
    players: Vec<Player>,
    next_id: usize,
}

impl Registry {
    pub closed spec fn players(&self) -> Seq<PlayerModel> {
        self.players@.map_values(|p: Player| p@)
    }

    pub closed spec fn next_id(&self) -> nat {
        self.next_id as nat
    }

    pub open spec fn wf(&self) -> bool {
        &&& names_distinct(self.players())
        &&& ids_increasing(self.players())
        &&& ids_below(self.players(), self.next_id())
    }

    pub fn new() -> (r: Registry)
        ensures
            r.wf(),
            r.players() == Seq::<PlayerModel>::empty(),
            r.next_id() == 0,
    {
        let r = Registry { players: Vec::new(), next_id: 0 };
        assert(r.players() =~= Seq::<PlayerModel>::empty());
        r
    }

    pub fn len(&self) -> (r: usize)
        ensures
            r == self.players().len(),
    {
        self.players.len()
    }

    /// The identifier that the next successful connection receives.
    pub fn next_player_id(&self) -> (r: usize)
        ensures
            r == self.next_id(),
    {
        self.next_id
    }

    /// Whether another connection can still get an identifier.
    pub fn ids_left(&self) -> (r: bool)
        ensures
            r == (self.next_id() < usize::MAX),
    {
        self.next_id < usize::MAX
    }

    /// The player named `name`, if one is connected.
    pub fn find_by_name(&self, name: &String) -> (r: Option<&Player>)
        requires
            self.wf(),
        ensures
            r is None <==> !has_name(self.players(), name@),
            r matches Some(p) ==> p@.name == name@ && self.players().contains(p@),
    {
        match self.index_of_name(name) {
            Some(i) => {
                assert(self.players()[i as int] == self.players@[i as int]@);
                Some(&self.players[i])
            },
            None => None,
        }
    }

    /// The player with identifier `id`, if one is connected.
    pub fn find_by_id(&self, id: usize) -> (r: Option<&Player>)
        requires
            self.wf(),
        ensures
            r is None <==> !has_id(self.players(), id as nat),
            r matches Some(p) ==> p.id == id && self.players().contains(p@),
    {
        match self.index_of_id(id) {
            Some(i) => {
                assert(self.players()[i as int] == self.players@[i as int]@);
                Some(&self.players[i])
            },
            None => None,
        }
    }

    /// Copies of every connected player but the one named `name`, in
    /// registry order.
    pub fn all_except(&self, name: &String) -> (r: Vec<Player>)
        ensures
            r@.map_values(|p: Player| p@) == others(self.players(), name@),
    {
        let ghost pred = |p: PlayerModel| p.name != name@;
        let mut out: Vec<Player> = Vec::new();
        let mut i: usize = 0;
        while i < self.players.len()
            invariant
                i <= self.players@.len(),
                pred == (|p: PlayerModel| p.name != name@),
                out@.map_values(|p: Player| p@) == self.players().take(i as int).filter(pred),
            decreases self.players@.len() - i,
        {
            proof {
                assert(self.players().take(i + 1) =~= self.players().take(i as int).push(self.players()[i as int]));
                self.players().take(i as int).lemma_filter_push(self.players()[i as int], pred);
            }
            if !self.players[i].player_name.eq(name) {
                let p = self.players[i].duplicate();
                let ghost before = out@;
                out.push(p);
                assert(out@.map_values(|p: Player| p@) =~= before.map_values(|p: Player| p@).push(p@));
            }
            i = i + 1;
        }
        assert(self.players().take(i as int) =~= self.players());
        out
    }

    /// Registers a player under `name`, reached at `address`, unless the
    /// name is taken. The new player gets the next identifier and full life;
    /// admission is reported open when fewer than `ADMISSION_LIMIT` players
    /// were registered before.
    pub fn try_connect(&mut self, name: String, address: String) -> (r: Result<Admission, ConnectError>)
        requires
            old(self).wf(),
            old(self).next_id() < usize::MAX,
        ensures
            final(self).wf(),
            r is Err <==> has_name(old(self).players(), name@),
            r is Err ==> r == Err::<Admission, ConnectError>(ConnectError::NameTaken)
                && final(self).players() == old(self).players()
                && final(self).next_id() == old(self).next_id(),
            r matches Ok(a) ==> {
                &&& a.id == old(self).next_id()
                &&& a.life == START_LIFE
                &&& a.admission_allowed == (old(self).players().len() < ADMISSION_LIMIT)
                &&& final(self).players() == old(self).players().push(
                    fresh_player(name@, address@, old(self).next_id()),
                )
                &&& final(self).next_id() == old(self).next_id() + 1
            },
    {
        if self.index_of_name(&name).is_some() {
            return Err(ConnectError::NameTaken);
        }
        let id = self.next_id;
        let admission_allowed = self.players.len() < ADMISSION_LIMIT;
        let player = Player::new_player(name, address, id, START_LIFE);
        let ghost before = self.players@;
        self.players.push(player);
        self.next_id = id + 1;
        assert(self.players() =~= before.map_values(|p: Player| p@).push(player@));
        Ok(Admission { id, life: START_LIFE, admission_allowed })
    }

    /// Removes the player named `name`; nothing changes when no such player
    /// is connected.
    pub fn disconnect(&mut self, name: &String)
        requires
            old(self).wf(),
        ensures
            final(self).wf(),
            final(self).next_id() == old(self).next_id(),
            !has_name(old(self).players(), name@) ==> final(self).players() == old(self).players(),
            forall|i: int|
                0 <= i < old(self).players().len() && #[trigger] old(self).players()[i].name == name@
                    ==> final(self).players() == old(self).players().remove(i),
    {
        match self.index_of_name(name) {
            Some(i) => {
                let ghost before = self.players@;
                self.players.remove(i);
                assert(self.players() =~= before.map_values(|p: Player| p@).remove(i as int));
            },
            None => {},
        }
    }

    /// Deals one point of damage to the player with identifier `id`: a
    /// player with life above zero loses one point, one without life left
    /// is unchanged. `None` when no such player is connected.
    pub fn apply_damage(&mut self, id: usize) -> (r: Option<DamageResult>)
        requires
            old(self).wf(),
        ensures
            final(self).wf(),
            final(self).next_id() == old(self).next_id(),
            r is None <==> !has_id(old(self).players(), id as nat),
            r is None ==> final(self).players() == old(self).players(),
            forall|i: int|
                0 <= i < old(self).players().len() && #[trigger] old(self).players()[i].id == id ==> {
                    let p = old(self).players()[i];
                    if p.life <= 0 {
                        &&& r == Some(DamageResult::Dead(p.life as i64))
                        &&& final(self).players() == old(self).players()
                    } else {
                        &&& r == Some(DamageResult::Alive((p.life - 1) as i64))
                        &&& final(self).players() == old(self).players().update(i, damaged(p))
                    }
                },
    {
        match self.index_of_id(id) {
            Some(i) => {
                let life = self.players[i].life;
                if life <= 0 {
                    Some(DamageResult::Dead(life))
                } else {
                    let ghost before = self.players@;
                    self.players[i].life = life - 1;
                    assert(self.players() =~= before.map_values(|p: Player| p@).update(
                        i as int,
                        damaged(before[i as int]@),
                    ));
                    Some(DamageResult::Alive(life - 1))
                }
            },
            None => None,
        }
    }

    fn index_of_name(&self, name: &String) -> (r: Option<usize>)
        ensures
            match r {
                Some(i) => i < self.players().len() && self.players()[i as int].name == name@,
                None => !has_name(self.players(), name@),
            },
    {
        let mut i: usize = 0;
        while i < self.players.len()
            invariant
                i <= self.players@.len(),
                forall|k: int| 0 <= k < i ==> self.players()[k].name != name@,
            decreases self.players@.len() - i,
        {
            if self.players[i].player_name.eq(name) {
                return Some(i);
            }
            i = i + 1;
        }
        None
    }

    fn index_of_id(&self, id: usize) -> (r: Option<usize>)
        ensures
            match r {
                Some(i) => i < self.players().len() && self.players()[i as int].id == id,
                None => !has_id(self.players(), id as nat),
            },
    {
        let mut i: usize = 0;
        while i < self.players.len()
            invariant
                i <= self.players@.len(),
                forall|k: int| 0 <= k < i ==> self.players()[k].id != id,
            decreases self.players@.len() - i,
        {
            if self.players[i].id == id {
                return Some(i);
            }
            i = i + 1;
        }
        None
    }
}

} // verus!
