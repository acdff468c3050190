//! Facts about runs of the relay, proved over its state-machine model.

use vstd::prelude::*;

use crate::protocol::{MessageType, RequestModel};
use crate::registry::{fresh_player, has_name, names_distinct, others, PlayerModel, ADMISSION_LIMIT};
use crate::relay::{name_index, step, OutboundModel, RelayModel};

verus! {

/// The state and the records sent after handling `reqs` in order, each with
/// the address it came from, starting in state `s`.
pub open spec fn run(s: RelayModel, reqs: Seq<(RequestModel, Seq<char>)>) -> (
    RelayModel,
    Seq<OutboundModel>,
)
    decreases reqs.len(),
{
    if reqs.len() == 0 {
        (s, Seq::empty())
    } else {
        let first = step(s, reqs[0].0, reqs[0].1);
        let rest = run(first.0, reqs.drop_first());
        (rest.0, first.1 + rest.1)
    }
}

/// `reqs` are connection requests under distinct names, none of them
/// registered in `s`.
pub open spec fn fresh_connects(s: RelayModel, reqs: Seq<(RequestModel, Seq<char>)>) -> bool {
    &&& forall|i: int| 0 <= i < reqs.len() ==> (#[trigger] reqs[i]).0.kind == MessageType::Connect
    &&& forall|i: int, j: int|
        0 <= i < j < reqs.len() ==> (#[trigger] reqs[i]).0.name != (#[trigger] reqs[j]).0.name
    &&& forall|i: int| 0 <= i < reqs.len() ==> !has_name(s.players, (#[trigger] reqs[i]).0.name)
}

proof fn lemma_fresh_connects(s: RelayModel, reqs: Seq<(RequestModel, Seq<char>)>)
    requires
        fresh_connects(s, reqs),
    ensures
        run(s, reqs).1.len() == reqs.len(),
        run(s, reqs).0.next_id == s.next_id + reqs.len(),
        forall|i: int|
            0 <= i < reqs.len() ==> {
                let o = #[trigger] run(s, reqs).1[i];
                &&& o.record.kind == MessageType::ConnectSuccessfull
                &&& o.record.id == s.next_id + i
                &&& o.record.canconnect == (s.players.len() + i < ADMISSION_LIMIT)
                &&& o.destination == reqs[i].1
            },
    decreases reqs.len(),
{
    if reqs.len() > 0 {
        let first = step(s, reqs[0].0, reqs[0].1);
        let t = first.0;
        let tail = reqs.drop_first();
        assert(reqs[0].0.kind == MessageType::Connect);
        assert(!has_name(s.players, reqs[0].0.name));
        assert(t.players == s.players.push(fresh_player(reqs[0].0.name, reqs[0].1, s.next_id)));
        assert forall|i: int| 0 <= i < tail.len() implies !has_name(
            t.players,
            (#[trigger] tail[i]).0.name,
        ) by {
            assert(tail[i] == reqs[i + 1]);
            assert(!has_name(s.players, reqs[i + 1].0.name));
            assert(reqs[0].0.name != reqs[i + 1].0.name);
            if has_name(t.players, tail[i].0.name) {
                let k = choose|k: int| 0 <= k < t.players.len() && t.players[k].name == tail[i].0.name;
                if k < s.players.len() {
                    assert(s.players[k] == t.players[k]);
                }
            }
        }
        assert forall|i: int, j: int| 0 <= i < j < tail.len() implies (#[trigger] tail[i]).0.name
            != (#[trigger] tail[j]).0.name by {
            assert(tail[i] == reqs[i + 1] && tail[j] == reqs[j + 1]);
        }
        assert forall|i: int| 0 <= i < tail.len() implies (#[trigger] tail[i]).0.kind
            == MessageType::Connect by {
            assert(tail[i] == reqs[i + 1]);
        }
        lemma_fresh_connects(t, tail);
        let out = run(s, reqs).1;
        assert(out == first.1 + run(t, tail).1);
        assert forall|i: int| 0 <= i < reqs.len() implies {
            let o = #[trigger] run(s, reqs).1[i];
            &&& o.record.kind == MessageType::ConnectSuccessfull
            &&& o.record.id == s.next_id + i
            &&& o.record.canconnect == (s.players.len() + i < ADMISSION_LIMIT)
            &&& o.destination == reqs[i].1
        } by {
            if i > 0 {
                assert(out[i] == run(t, tail).1[i - 1]);
                assert(tail[i - 1] == reqs[i]);
            }
        }
    }
}

/// Successful connections under distinct, unregistered names receive
/// identifiers that strictly increase in the order of the requests.
pub proof fn connect_ids_strictly_increase(s: RelayModel, reqs: Seq<(RequestModel, Seq<char>)>)
    requires
        fresh_connects(s, reqs),
    ensures
        run(s, reqs).1.len() == reqs.len(),
        forall|i: int|
            0 <= i < reqs.len() ==> (#[trigger] run(s, reqs).1[i]).record.kind
                == MessageType::ConnectSuccessfull,
        forall|i: int, j: int|
            0 <= i < j < reqs.len() ==> (#[trigger] run(s, reqs).1[i]).record.id
                < (#[trigger] run(s, reqs).1[j]).record.id,
{
    lemma_fresh_connects(s, reqs);
}

/// Starting with no player registered, the first nine successful
/// connections are told admission is open, and every later one that it is
/// closed.
pub proof fn admission_closes_after_nine(s: RelayModel, reqs: Seq<(RequestModel, Seq<char>)>)
    requires
        s.players.len() == 0,
        fresh_connects(s, reqs),
    ensures
        run(s, reqs).1.len() == reqs.len(),
        forall|i: int|
            0 <= i < reqs.len() ==> (#[trigger] run(s, reqs).1[i]).record.canconnect == (i < 9),
{
    lemma_fresh_connects(s, reqs);
}

/// A connection request under a name already registered is answered with a
/// single `ConnectFailed` record to the requester and changes nothing.
pub proof fn taken_name_is_refused(s: RelayModel, m: RequestModel, src: Seq<char>)
    requires
        m.kind == MessageType::Connect,
        has_name(s.players, m.name),
    ensures
        step(s, m, src).0 == s,
        step(s, m, src).1.len() == 1,
        step(s, m, src).1[0].record.kind == MessageType::ConnectFailed,
        step(s, m, src).1[0].destination == src,
{
}

/// A hit on the player at position `i` with one point of life left brings
/// it silently to zero; the next hit changes nothing and tells that player
/// it is dead, with life zero.
pub proof fn last_point_then_death(s: RelayModel, m: RequestModel, src: Seq<char>, i: int)
    requires
        s.wf(),
        m.kind == MessageType::UpdateLife,
        0 <= i < s.players.len(),
        s.players[i].id == m.id,
        s.players[i].life == 1,
    ensures
        step(s, m, src).1.len() == 0,
        step(s, m, src).0.players[i].life == 0,
        step(step(s, m, src).0, m, src).0 == step(s, m, src).0,
        step(step(s, m, src).0, m, src).1.len() == 1,
        step(step(s, m, src).0, m, src).1[0].record.kind == MessageType::PlayerDeath,
        step(step(s, m, src).0, m, src).1[0].record.life == 0,
        step(step(s, m, src).0, m, src).1[0].destination == s.players[i].address,
{
    let t = step(s, m, src).0;
    assert(t.players[i].id == m.id);
    assert forall|a: int, b: int| 0 <= a < b < t.players.len() implies t.players[a].id
        < t.players[b].id by {
        assert(t.players[a].id == s.players[a].id && t.players[b].id == s.players[b].id);
    }
}

/// No step makes a life negative when none was.
pub proof fn life_never_negative(s: RelayModel, m: RequestModel, src: Seq<char>)
    requires
        s.wf(),
        forall|i: int| 0 <= i < s.players.len() ==> s.players[i].life >= 0,
    ensures
        forall|i: int|
            0 <= i < step(s, m, src).0.players.len() ==> #[trigger] step(s, m, src).0.players[i].life
                >= 0,
{
    let t = step(s, m, src).0;
    assert forall|i: int| 0 <= i < t.players.len() implies #[trigger] t.players[i].life >= 0 by {
        if m.kind == MessageType::Disconnect && has_name(s.players, m.name) {
            let j = name_index(s.players, m.name);
            if i < j {
                assert(t.players[i] == s.players[i]);
            } else {
                assert(t.players[i] == s.players[i + 1]);
            }
        }
    }
}

/// The players other than `name` are the registry with the entry of `name`
/// removed, when names are distinct.
proof fn lemma_others_remove(s: Seq<PlayerModel>, name: Seq<char>)
    requires
        names_distinct(s),
    ensures
        has_name(s, name) ==> others(s, name) == s.remove(name_index(s, name)),
        !has_name(s, name) ==> others(s, name) == s,
    decreases s.len(),
{
    let pred = |p: PlayerModel| p.name != name;
    if s.len() == 0 {
        reveal(Seq::filter);
        assert(!has_name(s, name));
    } else {
        let p = s.drop_last();
        let l = s.last();
        assert(s == p.push(l));
        p.lemma_filter_push(l, pred);
        assert(names_distinct(p)) by {
            assert forall|a: int, b: int| 0 <= a < b < p.len() implies p[a].name != p[b].name by {
                assert(p[a] == s[a] && p[b] == s[b]);
            }
        }
        lemma_others_remove(p, name);
        if l.name == name {
            assert(!has_name(p, name)) by {
                if has_name(p, name) {
                    let k = choose|k: int| 0 <= k < p.len() && p[k].name == name;
                    assert(s[k].name == s[s.len() - 1].name);
                }
            }
            assert(has_name(s, name)) by {
                assert(s[s.len() - 1].name == name);
            }
            let j = name_index(s, name);
            assert(j == s.len() - 1) by {
                if j != s.len() - 1 {
                    assert(s[j].name == s[s.len() - 1].name);
                }
            }
            assert(s.remove(j) =~= p);
        } else {
            if has_name(p, name) {
                let jp = name_index(p, name);
                assert(p[jp].name == name);
                assert(s[jp].name == name);
                assert(has_name(s, name));
                let j = name_index(s, name);
                assert(j == jp) by {
                    if j != jp {
                        assert(s[j].name == s[jp].name);
                    }
                }
                assert(s.remove(j) =~= p.remove(jp).push(l));
            } else {
                assert(!has_name(s, name)) by {
                    if has_name(s, name) {
                        let k = choose|k: int| 0 <= k < s.len() && s[k].name == name;
                        assert(k < p.len());
                        assert(p[k] == s[k]);
                    }
                }
            }
        }
    }
}

/// An action is relayed to every registered player but its sender, once
/// each, and never to the sender: a sender registered alone reaches nobody.
pub proof fn action_skips_sender(s: RelayModel, m: RequestModel, src: Seq<char>)
    requires
        s.wf(),
        m.kind == MessageType::Action,
    ensures
        step(s, m, src).0 == s,
        step(s, m, src).1.len() == others(s.players, m.name).len(),
        step(s, m, src).1.len() == if has_name(s.players, m.name) {
            s.players.len() - 1
        } else {
            s.players.len() as int
        },
        forall|i: int|
            0 <= i < step(s, m, src).1.len() ==> {
                let q = others(s.players, m.name)[i];
                &&& q.name != m.name
                &&& s.players.contains(q)
                &&& (#[trigger] step(s, m, src).1[i]).destination == q.address
                &&& step(s, m, src).1[i].record.kind == MessageType::Action
                &&& step(s, m, src).1[i].record.name == m.name
                &&& step(s, m, src).1[i].record.content == m.content
            },
        forall|j: int|
            0 <= j < s.players.len() && (#[trigger] s.players[j]).name != m.name ==> others(
                s.players,
                m.name,
            ).contains(s.players[j]),
{
    let o = others(s.players, m.name);
    let pred = |p: PlayerModel| p.name != m.name;
    lemma_others_remove(s.players, m.name);
    assert forall|i: int| 0 <= i < o.len() implies o[i].name != m.name && s.players.contains(o[i]) by {
        s.players.lemma_filter_pred(pred, i);
        s.players.lemma_filter_contains_rev(pred, o[i]);
        assert(o.contains(o[i]));
    }
    assert forall|j: int|
        0 <= j < s.players.len() && (#[trigger] s.players[j]).name != m.name implies o.contains(
        s.players[j],
    ) by {
        s.players.lemma_filter_contains(pred, j);
    }
}

/// Disconnecting a name that is not registered changes nothing and sends
/// nothing; disconnecting a registered name removes that entry alone.
pub proof fn disconnect_touches_only_its_name(s: RelayModel, m: RequestModel, src: Seq<char>)
    requires
        s.wf(),
        m.kind == MessageType::Disconnect,
    ensures
        !has_name(s.players, m.name) ==> step(s, m, src) == (s, Seq::<OutboundModel>::empty()),
        step(s, m, src).0.players == others(s.players, m.name),
        step(s, m, src).0.next_id == s.next_id,
        step(s, m, src).1.len() == 0,
{
    lemma_others_remove(s.players, m.name);
}

} // verus!
