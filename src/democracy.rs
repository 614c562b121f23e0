//! The pick-and-ban history of a match.
use vstd::prelude::*;
use vstd::string::StringExecFns;

verus! {

/// One pick or ban of a vote.
pub struct PickBan {
    pub guid: String,
    pub status: String,
    pub random: bool,
    pub round: u8,
    pub selected_by: String,
}

/// One vote of a match: what is voted on, how, and the picks and bans made.
pub struct VoteSequence {
    pub entity_type: String,
    pub vote_type: String,
    pub entities: Vec<PickBan>,
}

/// The map veto of a match.
pub struct Democracy {
    pub match_id: String,
    pub map_veto: Vec<PickBan>,
}

/// The index of the first vote on maps among `tickets`, or `tickets.len()`.
pub open spec fn first_map_vote(tickets: Seq<VoteSequence>) -> int
    decreases tickets.len(),
{
    if tickets.len() == 0 {
        0
    } else if tickets[0].entity_type@ == "map"@ {
        0
    } else {
        1 + first_map_vote(tickets.drop_first())
    }
}

proof fn lemma_first_map_vote_bounds(tickets: Seq<VoteSequence>)
    ensures
        0 <= first_map_vote(tickets) <= tickets.len(),
    decreases tickets.len(),
{
    if tickets.len() > 0 {
        lemma_first_map_vote_bounds(tickets.drop_first());
    }
}

impl Democracy {
    /// The veto of a match: the picks and bans of its first vote on maps, or
    /// none when no vote is on maps.
    pub fn from_tickets(match_id: String, tickets: Vec<VoteSequence>) -> (r: Democracy)
        ensures
            r.match_id == match_id,
            first_map_vote(tickets@) < tickets@.len() ==> r.map_veto@
                == tickets@[first_map_vote(tickets@)].entities@,
            first_map_vote(tickets@) == tickets@.len() ==> r.map_veto@.len() == 0,
    {
        let map_word = String::from_str("map");
        let mut i: usize = 0;
        proof {
            assert(tickets@.subrange(0, tickets@.len() as int) =~= tickets@);
        }
        while i < tickets.len() && !tickets[i].entity_type.eq(&map_word)
            invariant
                i <= tickets@.len(),
                map_word@ == "map"@,
                first_map_vote(tickets@) == i + first_map_vote(tickets@.subrange(i as int, tickets@.len() as int)),
            decreases tickets@.len() - i,
        {
            proof {
                let rest = tickets@.subrange(i as int, tickets@.len() as int);
                assert(rest.drop_first() =~= tickets@.subrange(i + 1, tickets@.len() as int));
            }
            i += 1;
        }
        proof {
            lemma_first_map_vote_bounds(tickets@);
            if i < tickets@.len() {
                let rest = tickets@.subrange(i as int, tickets@.len() as int);
                assert(rest[0] == tickets@[i as int]);
            }
        }
        if i < tickets.len() {
            let mut tickets = tickets;
            let chosen = tickets.swap_remove(i);
            Democracy { match_id, map_veto: chosen.entities }
        } else {
            Democracy { match_id, map_veto: Vec::new() }
        }
    }
}

} // verus!
