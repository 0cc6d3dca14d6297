//! What a channel tells the model of other channels and agents.

use crate::agent::task_pickup::agent_name;
use crate::assoc::{find_member, law_last_pair_counts, lemma_absent, member};
use crate::text::text_eq;
use vstd::prelude::*;

verus! {

/// A channel as it is stored.
#[derive(Debug, Clone)]
pub struct ChannelInfo {
    pub id: String,
    pub platform: String,
    pub display_name: Option<String>,
}

/// A channel as the model is told of it.
#[derive(Debug, Clone)]
pub struct ChannelEntry {
    pub name: String,
    pub platform: String,
    pub id: String,
}

/// Whether the model is told of a channel: of any other that somebody talks in.
pub open spec fn is_listed(channel: ChannelInfo, own_id: Seq<char>) -> bool {
    channel.id@ != own_id && channel.platform@ != "cron"@ && channel.platform@ != "webhook"@
}

/// A channel as the model is told of it, named by its identifier where it has no
/// name.
pub open spec fn entry_of(channel: ChannelInfo) -> ChannelEntry {
    ChannelEntry {
        name: match channel.display_name {
            Some(name) => name,
            None => channel.id,
        },
        platform: channel.platform,
        id: channel.id,
    }
}

/// The entries of the first channels.
pub open spec fn entries_of(channels: Seq<ChannelInfo>, own_id: Seq<char>, count: int) -> Seq<ChannelEntry>
    decreases count,
{
    if count <= 0 {
        Seq::empty()
    } else if is_listed(channels[count - 1], own_id) {
        entries_of(channels, own_id, count - 1).push(entry_of(channels[count - 1]))
    } else {
        entries_of(channels, own_id, count - 1)
    }
}

/// The other channels that the model is told of: none where there are no such.
pub fn build_available_channels(channels: &Vec<ChannelInfo>, own_id: &str) -> (entries: Option<Vec<ChannelEntry>>)
    ensures
        ({
            let listed = entries_of(channels@, own_id@, channels@.len() as int);
            match entries {
                Some(list) => listed.len() > 0 && list@ == listed,
                None => listed.len() == 0,
            }
        }),
{
    let mut list: Vec<ChannelEntry> = Vec::new();
    let mut i: usize = 0;
    while i < channels.len()
        invariant
            i <= channels.len(),
            list@ == entries_of(channels@, own_id@, i as int),
        decreases channels.len() - i,
    {
        let channel = &channels[i];
        if !text_eq(channel.id.as_str(), own_id) && !text_eq(channel.platform.as_str(), "cron")
            && !text_eq(channel.platform.as_str(), "webhook") {
            let name = match &channel.display_name {
                Some(name) => name.clone(),
                None => channel.id.clone(),
            };
            list.push(
                ChannelEntry { name, platform: channel.platform.clone(), id: channel.id.clone() },
            );
        }
        i = i + 1;
    }
    if list.len() == 0 {
        None
    } else {
        Some(list)
    }
}

/// How two agents stand to each other.
#[derive(Debug, Clone, Copy, PartialEq, Eq, Structural)]
pub enum LinkKind {
    /// The first is above the second.
    Hierarchical,
    Peer,
}

/// A link between two agents, or an agent and a human.
#[derive(Debug, Clone)]
pub struct AgentLink {
    pub from_agent_id: String,
    pub to_agent_id: String,
    pub kind: LinkKind,
}

/// The other side of a link as the model is told of it.
#[derive(Debug, Clone)]
pub struct LinkedAgent {
    pub name: String,
    pub id: String,
    pub is_human: bool,
}

/// The agent's position in the communication hierarchy.
#[derive(Debug, Clone)]
pub struct OrgContext {
    pub superiors: Vec<LinkedAgent>,
    pub subordinates: Vec<LinkedAgent>,
    pub peers: Vec<LinkedAgent>,
}

/// Where the other side of a link stands.
#[derive(Debug, Clone, Copy, PartialEq, Eq, Structural)]
pub enum Rank {
    Superior,
    Subordinate,
    Peer,
}

/// Where the other side of a link of an agent stands.
pub open spec fn rank_of(link: AgentLink, agent_id: Seq<char>) -> Rank {
    match link.kind {
        LinkKind::Peer => Rank::Peer,
        LinkKind::Hierarchical => if link.from_agent_id@ == agent_id {
            Rank::Subordinate
        } else {
            Rank::Superior
        },
    }
}

/// The other side of a link of an agent.
pub open spec fn other_side(link: AgentLink, agent_id: Seq<char>) -> String {
    if link.from_agent_id@ == agent_id {
        link.to_agent_id
    } else {
        link.from_agent_id
    }
}

/// Whether the model is told of the other side of a link. Whoever is no known
/// agent is a human.
pub open spec fn is_linked(told: LinkedAgent, link: AgentLink, agent_id: Seq<char>, names: Seq<(String, String)>) -> bool {
    let other = other_side(link, agent_id);
    &&& told.id == other
    &&& told.name@ == agent_name(names, other@)
    &&& told.is_human == (member(names, other@) is None)
}

/// The links, among the first ones, whose other side stands at a rank.
pub open spec fn links_at(links: Seq<AgentLink>, agent_id: Seq<char>, rank: Rank, count: int) -> Seq<AgentLink>
    decreases count,
{
    if count <= 0 {
        Seq::empty()
    } else if rank_of(links[count - 1], agent_id) == rank {
        links_at(links, agent_id, rank, count - 1).push(links[count - 1])
    } else {
        links_at(links, agent_id, rank, count - 1)
    }
}

/// Whether the model is told of the other sides of links, in their order.
pub open spec fn are_linked(
    told: Seq<LinkedAgent>,
    links: Seq<AgentLink>,
    agent_id: Seq<char>,
    names: Seq<(String, String)>,
) -> bool {
    &&& told.len() == links.len()
    &&& forall|i: int|
        0 <= i < told.len() ==> is_linked(#[trigger] told[i], links[i], agent_id, names)
}

fn linked_agent(link: &AgentLink, agent_id: &str, agent_names: &Vec<(String, String)>) -> (told: LinkedAgent)
    ensures
        is_linked(told, *link, agent_id@, agent_names@),
{
    let other = if text_eq(link.from_agent_id.as_str(), agent_id) {
        &link.to_agent_id
    } else {
        &link.from_agent_id
    };
    match find_member(agent_names, other.as_str()) {
        Some(name) => LinkedAgent { name: name.clone(), id: other.clone(), is_human: false },
        None => LinkedAgent { name: other.clone(), id: other.clone(), is_human: true },
    }
}

/// The agent's position among those it is linked with: none where it has no
/// links. `links` are those of the agent.
pub fn build_org_context(links: &Vec<AgentLink>, agent_id: &str, agent_names: &Vec<(String, String)>) -> (context: Option<
    OrgContext,
>)
    ensures
        match context {
            None => links@.len() == 0,
            Some(told) => {
                let count = links@.len() as int;
                &&& links@.len() > 0
                &&& are_linked(
                    told.superiors@,
                    links_at(links@, agent_id@, Rank::Superior, count),
                    agent_id@,
                    agent_names@,
                )
                &&& are_linked(
                    told.subordinates@,
                    links_at(links@, agent_id@, Rank::Subordinate, count),
                    agent_id@,
                    agent_names@,
                )
                &&& are_linked(
                    told.peers@,
                    links_at(links@, agent_id@, Rank::Peer, count),
                    agent_id@,
                    agent_names@,
                )
            },
        },
{
    if links.len() == 0 {
        return None;
    }
    let mut superiors: Vec<LinkedAgent> = Vec::new();
    let mut subordinates: Vec<LinkedAgent> = Vec::new();
    let mut peers: Vec<LinkedAgent> = Vec::new();
    let mut i: usize = 0;
    while i < links.len()
        invariant
            i <= links.len(),
            are_linked(
                superiors@,
                links_at(links@, agent_id@, Rank::Superior, i as int),
                agent_id@,
                agent_names@,
            ),
            are_linked(
                subordinates@,
                links_at(links@, agent_id@, Rank::Subordinate, i as int),
                agent_id@,
                agent_names@,
            ),
            are_linked(
                peers@,
                links_at(links@, agent_id@, Rank::Peer, i as int),
                agent_id@,
                agent_names@,
            ),
        decreases links.len() - i,
    {
        let link = &links[i];
        let told = linked_agent(link, agent_id, agent_names);
        match link.kind {
            LinkKind::Hierarchical => if text_eq(link.from_agent_id.as_str(), agent_id) {
                subordinates.push(told);
            } else {
                superiors.push(told);
            },
            LinkKind::Peer => peers.push(told),
        }
        i = i + 1;
    }
    Some(OrgContext { superiors, subordinates, peers })
}

/// Everybody that an agent is linked with is told of once for each link.
pub proof fn law_every_link_is_told(links: Seq<AgentLink>, agent_id: Seq<char>, count: int)
    requires
        0 <= count <= links.len(),
    ensures
        links_at(links, agent_id, Rank::Superior, count).len() + links_at(
            links,
            agent_id,
            Rank::Subordinate,
            count,
        ).len() + links_at(links, agent_id, Rank::Peer, count).len() == count,
    decreases count,
{
    if count > 0 {
        law_every_link_is_told(links, agent_id, count - 1);
    }
}

/// The model is told of every other channel that somebody talks in, once and in
/// order, and of no other.
pub proof fn law_every_channel_is_listed(channels: Seq<ChannelInfo>, own_id: Seq<char>, count: int)
    requires
        0 <= count <= channels.len(),
    ensures
        entries_of(channels, own_id, count) == channels.take(count).filter(
            |channel: ChannelInfo|
                channel.id@ != own_id && channel.platform@ != "cron"@ && channel.platform@
                    != "webhook"@,
        ).map_values(
            |channel: ChannelInfo|
                ChannelEntry {
                    name: if channel.display_name is Some {
                        channel.display_name->0
                    } else {
                        channel.id
                    },
                    platform: channel.platform,
                    id: channel.id,
                },
        ),
    decreases count,
{
    reveal(Seq::filter);
    let listed = |channel: ChannelInfo|
        channel.id@ != own_id && channel.platform@ != "cron"@ && channel.platform@ != "webhook"@;
    let entry = |channel: ChannelInfo|
        ChannelEntry {
            name: if channel.display_name is Some {
                channel.display_name->0
            } else {
                channel.id
            },
            platform: channel.platform,
            id: channel.id,
        };
    if count > 0 {
        law_every_channel_is_listed(channels, own_id, count - 1);
        assert(channels.take(count).drop_last() =~= channels.take(count - 1));
        let before = channels.take(count - 1).filter(listed);
        let last = channels[count - 1];
        if listed(last) {
            assert(before.push(last).map_values(entry) =~= before.map_values(entry).push(entry(last)));
        }
    } else {
        assert(channels.take(0).filter(listed).map_values(entry) =~= Seq::<ChannelEntry>::empty());
    }
}

/// A peer is told of as a peer. Of a hierarchical link the side that it starts from
/// is above the other: the agent tells of whom it is above as subordinates, and of
/// the others as superiors.
pub proof fn law_links_are_ranked(
    links: Seq<AgentLink>,
    agent_id: Seq<char>,
    rank: Rank,
    count: int,
)
    requires
        0 <= count <= links.len(),
    ensures
        links_at(links, agent_id, rank, count) == links.take(count).filter(
            |link: AgentLink|
                match rank {
                    Rank::Peer => link.kind == LinkKind::Peer,
                    Rank::Subordinate => link.kind == LinkKind::Hierarchical && link.from_agent_id@
                        == agent_id,
                    Rank::Superior => link.kind == LinkKind::Hierarchical && link.from_agent_id@
                        != agent_id,
                },
        ),
    decreases count,
{
    reveal(Seq::filter);
    if count > 0 {
        law_links_are_ranked(links, agent_id, rank, count - 1);
        assert(links.take(count).drop_last() =~= links.take(count - 1));
    }
}

/// Of a link the other side is told of: by the name that it has as an agent, or as a
/// human by its identifier.
pub proof fn law_other_side_is_told(
    told: LinkedAgent,
    link: AgentLink,
    agent_id: Seq<char>,
    names: Seq<(String, String)>,
    at: int,
)
    requires
        is_linked(told, link, agent_id, names),
    ensures
        told.id == if link.from_agent_id@ == agent_id {
            link.to_agent_id
        } else {
            link.from_agent_id
        },
        0 <= at < names.len() && names[at].0@ == told.id@ && (forall|later: int|
            at < later < names.len() ==> (#[trigger] names[later]).0@ != told.id@) ==> told.name@
            == names[at].1@ && !told.is_human,
        (forall|i: int| 0 <= i < names.len() ==> (#[trigger] names[i]).0@ != told.id@) ==> told.name@
            == told.id@ && told.is_human,
{
    if 0 <= at < names.len() && names[at].0@ == told.id@ && (forall|later: int|
        at < later < names.len() ==> (#[trigger] names[later]).0@ != told.id@) {
        law_last_pair_counts(names, told.id@, at);
    }
    if forall|i: int| 0 <= i < names.len() ==> (#[trigger] names[i]).0@ != told.id@ {
        lemma_absent(names, told.id@);
    }
}

/// Every peer of an agent is told of, in order: the other side of its link.
pub proof fn law_every_peer_is_told(
    links: &Vec<AgentLink>,
    agent_id: &str,
    agent_names: &Vec<(String, String)>,
    context: Option<OrgContext>,
)
    requires
        call_ensures(build_org_context, (links, agent_id, agent_names), context),
        forall|i: int| 0 <= i < links@.len() ==> (#[trigger] links@[i]).kind == LinkKind::Peer,
    ensures
        context is None <==> links@.len() == 0,
        context matches Some(told) ==> told.peers@.len() == links@.len() && told.superiors@.len() == 0
            && told.subordinates@.len() == 0 && forall|i: int|
            0 <= i < links@.len() ==> (#[trigger] told.peers@[i]).id == if links@[i].from_agent_id@
                == agent_id@ {
                links@[i].to_agent_id
            } else {
                links@[i].from_agent_id
            },
{
    lemma_all_peers(links@, agent_id@, links@.len() as int);
    if let Some(told) = context {
        assert(links@.take(links@.len() as int) =~= links@);
        assert forall|i: int| 0 <= i < links@.len() implies (#[trigger] told.peers@[i]).id
            == if links@[i].from_agent_id@ == agent_id@ {
            links@[i].to_agent_id
        } else {
            links@[i].from_agent_id
        } by {
            assert(is_linked(told.peers@[i], links@[i], agent_id@, agent_names@));
        }
    }
}

proof fn lemma_all_peers(links: Seq<AgentLink>, agent_id: Seq<char>, count: int)
    requires
        0 <= count <= links.len(),
        forall|i: int| 0 <= i < links.len() ==> (#[trigger] links[i]).kind == LinkKind::Peer,
    ensures
        links_at(links, agent_id, Rank::Peer, count) == links.take(count),
        links_at(links, agent_id, Rank::Superior, count).len() == 0,
        links_at(links, agent_id, Rank::Subordinate, count).len() == 0,
    decreases count,
{
    if count > 0 {
        lemma_all_peers(links, agent_id, count - 1);
        assert(links[count - 1].kind == LinkKind::Peer);
        assert(links.take(count - 1).push(links[count - 1]) =~= links.take(count));
    } else {
        assert(links.take(0) =~= Seq::<AgentLink>::empty());
    }
}

} // verus!
