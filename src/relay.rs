//! The relay dispatcher: takes one client record at a time, updates the
//! registry and says which records go out, and to whom.

use vstd::prelude::*;

use crate::protocol::{
    copy_value, json_text, text_value, MessageRecieve, MessageSended, MessageType, RecordModel,
    RequestModel,
};
use crate::registry::{
    damaged, fresh_player, has_id, has_name, ids_below, ids_increasing, names_distinct, others,
    DamageResult, Player, PlayerModel, Registry, ADMISSION_LIMIT, START_LIFE,
};

verus! {

/// Text of the reply to a connection under a name already in use.
pub const NAME_TAKEN_TEXT: &'static str = "Username already taken. Please choose another one.";

/// Text of the reply to a successful connection.
pub const CONNECTED_TEXT: &'static str = "Connected successfully";

/// Lowest game level an operator may choose.
pub const MIN_LEVEL: i32 = 1;

/// Highest game level an operator may choose.
pub const MAX_LEVEL: i32 = 3;

/// A server record and the address it is sent to.
#[derive(Debug)]
pub struct Outbound {
    pub destination: String,
    pub message: MessageSended,
}

pub struct OutboundModel {
    pub destination: Seq<char>,
    pub record: RecordModel,
}

impl View for Outbound {
    type V = OutboundModel;

    open spec fn view(&self) -> OutboundModel {
        OutboundModel { destination: self.destination@, record: self.message@ }
    }
}

/// The state of the relay as mathematical values.
pub struct RelayModel {
    /// The registered players, in the order they connected.
    pub players: Seq<PlayerModel>,
    /// The identifier the next successful connection receives.
    pub next_id: nat,
    /// The game level chosen at start, echoed in every server record.
    pub level: int,
    /// The admission flag of the latest successful connection.
    pub admission_open: bool,
}

impl RelayModel {
    pub open spec fn wf(self) -> bool {
        &&& names_distinct(self.players)
        &&& ids_increasing(self.players)
        &&& ids_below(self.players, self.next_id)
        &&& MIN_LEVEL <= self.level <= MAX_LEVEL
    }
}

/// The position of the player named `name` (meaningful when there is one).
pub open spec fn name_index(s: Seq<PlayerModel>, name: Seq<char>) -> int {
    choose|i: int| 0 <= i < s.len() && s[i].name == name
}

/// The position of the player with identifier `id` (meaningful when there
/// is one).
pub open spec fn id_index(s: Seq<PlayerModel>, id: nat) -> int {
    choose|i: int| 0 <= i < s.len() && s[i].id == id
}

/// The life of the player named `name`, or zero when none is registered.
pub open spec fn life_of(s: Seq<PlayerModel>, name: Seq<char>) -> int {
    if has_name(s, name) {
        s[name_index(s, name)].life
    } else {
        0
    }
}

/// The reply to a connection request from `src`, and the state after it.
pub open spec fn connect_step(s: RelayModel, m: RequestModel, src: Seq<char>) -> (
    RelayModel,
    Seq<OutboundModel>,
) {
    if has_name(s.players, m.name) {
        let record = RecordModel {
            kind: MessageType::ConnectFailed,
            name: m.name,
            content: json_text(NAME_TAKEN_TEXT@),
            id: s.next_id,
            life: 0,
            level: s.level,
            canconnect: false,
        };
        (s, seq![OutboundModel { destination: src, record }])
    } else {
        let allowed = s.players.len() < ADMISSION_LIMIT;
        let record = RecordModel {
            kind: MessageType::ConnectSuccessfull,
            name: m.name,
            content: json_text(CONNECTED_TEXT@),
            id: s.next_id,
            life: START_LIFE as int,
            level: s.level,
            canconnect: allowed,
        };
        let t = RelayModel {
            players: s.players.push(fresh_player(m.name, src, s.next_id)),
            next_id: s.next_id + 1,
            admission_open: allowed,
            ..s
        };
        (t, seq![OutboundModel { destination: src, record }])
    }
}

/// The state after the player named in `m` leaves.
pub open spec fn disconnect_step(s: RelayModel, m: RequestModel) -> RelayModel {
    if has_name(s.players, m.name) {
        RelayModel { players: s.players.remove(name_index(s.players, m.name)), ..s }
    } else {
        s
    }
}

/// The action record of `m` as relayed to player `to`.
pub open spec fn action_record(s: RelayModel, m: RequestModel, to: PlayerModel) -> OutboundModel {
    OutboundModel {
        destination: to.address,
        record: RecordModel {
            kind: MessageType::Action,
            name: m.name,
            content: m.content,
            id: m.id,
            life: life_of(s.players, m.name),
            level: s.level,
            canconnect: s.admission_open,
        },
    }
}

/// One relayed action record for every registered player but the sender.
pub open spec fn fan_out(s: RelayModel, m: RequestModel) -> Seq<OutboundModel> {
    others(s.players, m.name).map_values(|p: PlayerModel| action_record(s, m, p))
}

/// One point of damage to the player with the identifier in `m`: a player
/// with life left loses a point silently, one without life left is told it
/// is dead.
pub open spec fn update_life_step(s: RelayModel, m: RequestModel) -> (
    RelayModel,
    Seq<OutboundModel>,
) {
    if has_id(s.players, m.id) {
        let i = id_index(s.players, m.id);
        let p = s.players[i];
        if p.life <= 0 {
            let record = RecordModel {
                kind: MessageType::PlayerDeath,
                name: m.name,
                content: m.content,
                id: m.id,
                life: p.life,
                level: s.level,
                canconnect: s.admission_open,
            };
            (s, seq![OutboundModel { destination: p.address, record }])
        } else {
            (RelayModel { players: s.players.update(i, damaged(p)), ..s }, Seq::empty())
        }
    } else {
        (s, Seq::empty())
    }
}

/// What the relay does with one client record `m` that came from `src`.
/// Kinds that clients do not send are ignored.
pub open spec fn step(s: RelayModel, m: RequestModel, src: Seq<char>) -> (
    RelayModel,
    Seq<OutboundModel>,
) {
    match m.kind {
        MessageType::Connect => connect_step(s, m, src),
        MessageType::Disconnect => (disconnect_step(s, m), Seq::empty()),
        MessageType::Action => (s, fan_out(s, m)),
        MessageType::UpdateLife => update_life_step(s, m),
        _ => (s, Seq::empty()),
    }
}

/// The relay's state: the registry, the level of the game and the admission
/// flag of the latest connection.
pub struct Relay {
    registry: Registry,
    level: i32,
    admission_open: bool,
}

impl View for Relay {
    type V = RelayModel;

    closed spec fn view(&self) -> RelayModel {
        RelayModel {
            players: self.registry.players(),
            next_id: self.registry.next_id(),
            level: self.level as int,
            admission_open: self.admission_open,
        }
    }
}

impl Relay {
    pub open spec fn wf(&self) -> bool {
        self@.wf()
    }

    /// A relay with no player, for a game of the given level; `None` when
    /// the level is outside `MIN_LEVEL..=MAX_LEVEL`.
    pub fn new(level: i32) -> (r: Option<Relay>)
        ensures
            r is Some <==> MIN_LEVEL <= level <= MAX_LEVEL,
            r matches Some(x) ==> x.wf() && x@ == (RelayModel {
                players: Seq::empty(),
                next_id: 0,
                level: level as int,
                admission_open: true,
            }),
    {
        if level < MIN_LEVEL || level > MAX_LEVEL {
            return None;
        }
        Some(Relay { registry: Registry::new(), level, admission_open: true })
    }

    pub fn registry(&self) -> (r: &Registry)
        ensures
            r.wf() == (names_distinct(self@.players) && ids_increasing(self@.players) && ids_below(
                self@.players,
                self@.next_id,
            )),
            r.players() == self@.players,
            r.next_id() == self@.next_id,
    {
        &self.registry
    }

    pub fn level(&self) -> (r: i32)
        ensures
            r == self@.level,
    {
        self.level
    }

    /// Whether a connection request can still be handled: identifiers are
    /// not exhausted.
    pub fn accepts_connections(&self) -> (r: bool)
        ensures
            r == (self@.next_id < usize::MAX),
    {
        self.registry.ids_left()
    }

    fn connect(&mut self, msg: &MessageRecieve, src: String) -> (r: Outbound)
        requires
            old(self).wf(),
            old(self)@.next_id < usize::MAX,
        ensures
            final(self).wf(),
            (final(self)@, seq![r@]) == connect_step(old(self)@, msg@, src@),
    {
        let ghost s = self@;
        match self.registry.try_connect(msg.player_name.clone(), src.clone()) {
            Err(_) => {
                let message = MessageSended {
                    message_type: MessageType::ConnectFailed,
                    player_name: msg.player_name.clone(),
                    content: text_value(NAME_TAKEN_TEXT.to_owned()),
                    id_player: self.registry.next_player_id(),
                    player_life: 0,
                    level: self.level,
                    canconnect: false,
                };
                let r = Outbound { destination: src, message };
                assert(self@ == s);
                r
            },
            Ok(a) => {
                self.admission_open = a.admission_allowed;
                let message = MessageSended {
                    message_type: MessageType::ConnectSuccessfull,
                    player_name: msg.player_name.clone(),
                    content: text_value(CONNECTED_TEXT.to_owned()),
                    id_player: a.id,
                    player_life: a.life,
                    level: self.level,
                    canconnect: a.admission_allowed,
                };
                Outbound { destination: src, message }
            },
        }
    }

    fn disconnect(&mut self, msg: &MessageRecieve)
        requires
            old(self).wf(),
        ensures
            final(self).wf(),
            final(self)@ == disconnect_step(old(self)@, msg@),
    {
        let ghost s = self@;
        self.registry.disconnect(&msg.player_name);
        proof {
            if has_name(s.players, msg@.name) {
                let j = name_index(s.players, msg@.name);
                assert(s.players[j].name == msg@.name);
            }
        }
    }

    fn action(&self, msg: &MessageRecieve) -> (r: Vec<Outbound>)
        requires
            self.wf(),
        ensures
            r@.map_values(|o: Outbound| o@) == fan_out(self@, msg@),
    {
        let life = match self.registry.find_by_name(&msg.player_name) {
            Some(p) => p.life,
            None => 0,
        };
        proof {
            if has_name(self@.players, msg@.name) {
                let j = name_index(self@.players, msg@.name);
                assert(self@.players[j].name == msg@.name);
            }
        }
        let targets = self.registry.all_except(&msg.player_name);
        let ghost tv = targets@.map_values(|p: Player| p@);
        let mut out: Vec<Outbound> = Vec::new();
        let mut i: usize = 0;
        while i < targets.len()
            invariant
                i <= targets@.len(),
                tv == targets@.map_values(|p: Player| p@),
                tv == others(self@.players, msg@.name),
                life == life_of(self@.players, msg@.name),
                out@.len() == i,
                forall|k: int|
                    0 <= k < i ==> #[trigger] out@[k]@ == action_record(self@, msg@, tv[k]),
            decreases targets@.len() - i,
        {
            let message = MessageSended {
                message_type: MessageType::Action,
                player_name: msg.player_name.clone(),
                content: copy_value(&msg.content),
                id_player: msg.id_player,
                player_life: life,
                level: self.level,
                canconnect: self.admission_open,
            };
            out.push(Outbound { destination: targets[i].ip_address.clone(), message });
            i = i + 1;
        }
        assert(out@.map_values(|o: Outbound| o@) =~= fan_out(self@, msg@));
        out
    }

    fn update_life(&mut self, msg: &MessageRecieve) -> (r: Vec<Outbound>)
        requires
            old(self).wf(),
        ensures
            final(self).wf(),
            (final(self)@, r@.map_values(|o: Outbound| o@)) == update_life_step(old(self)@, msg@),
    {
        let ghost s = self@;
        let address = match self.registry.find_by_id(msg.id_player) {
            Some(p) => p.ip_address.clone(),
            None => {
                let r: Vec<Outbound> = Vec::new();
                assert(r@.map_values(|o: Outbound| o@) =~= Seq::<OutboundModel>::empty());
                return r;
            },
        };
        proof {
            let j = id_index(s.players, msg@.id);
            assert(s.players[j].id == msg@.id);
        }
        let mut out: Vec<Outbound> = Vec::new();
        match self.registry.apply_damage(msg.id_player) {
            Some(DamageResult::Dead(life)) => {
                let message = MessageSended {
                    message_type: MessageType::PlayerDeath,
                    player_name: msg.player_name.clone(),
                    content: copy_value(&msg.content),
                    id_player: msg.id_player,
                    player_life: life,
                    level: self.level,
                    canconnect: self.admission_open,
                };
                out.push(Outbound { destination: address, message });
                assert(out@.map_values(|o: Outbound| o@) =~= update_life_step(s, msg@).1);
            },
            _ => {
                assert(out@.map_values(|o: Outbound| o@) =~= Seq::<OutboundModel>::empty());
            },
        }
        out
    }

    /// Handles one client record that came from address `src` and returns
    /// the records to send. A connection request needs an identifier left
    /// to hand out.
    pub fn handle(&mut self, msg: MessageRecieve, src: String) -> (r: Vec<Outbound>)
        requires
            old(self).wf(),
            msg.message_type == MessageType::Connect ==> old(self)@.next_id < usize::MAX,
        ensures
            final(self).wf(),
            (final(self)@, r@.map_values(|o: Outbound| o@)) == step(old(self)@, msg@, src@),
    {
        match msg.message_type {
            MessageType::Connect => {
                let o = self.connect(&msg, src);
                let mut out: Vec<Outbound> = Vec::new();
                out.push(o);
                assert(out@.map_values(|o: Outbound| o@) =~= seq![o@]);
                out
            },
            MessageType::Disconnect => {
                self.disconnect(&msg);
                let out: Vec<Outbound> = Vec::new();
                assert(out@.map_values(|o: Outbound| o@) =~= Seq::<OutboundModel>::empty());
                out
            },
            MessageType::Action => self.action(&msg),
            MessageType::UpdateLife => self.update_life(&msg),
            _ => {
                let out: Vec<Outbound> = Vec::new();
                assert(out@.map_values(|o: Outbound| o@) =~= Seq::<OutboundModel>::empty());
                out
            },
        }
    }
}

} // verus!
