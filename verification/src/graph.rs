//! The interaction graph and its topology constructors.

use crate::agent::AgentId;
use vstd::prelude::*;
use vstd::std_specs::convert::FromSpecImpl;

verus! {

/// The views of a sequence of agent ids.
pub open spec fn id_views(ids: Seq<AgentId>) -> Seq<Seq<char>> {
    ids.map_values(|id: AgentId| id@)
}

/// A topology template, before it is lowered into an [`InteractionGraph`].
#[derive(Debug)]
pub enum Topology {
    /// Fan-out: every critic receives the subject prompt independently.
    Parallel {
        /// The critics, in declared order.
        critics: Vec<AgentId>,
    },
    /// Adversarial cross-examination over successive rounds.
    Rounds {
        /// The critics, in declared order.
        critics: Vec<AgentId>,
        /// The maximum number of rounds, including the initial critique round.
        max_rounds: usize,
    },
}

impl Topology {
    /// Builds a parallel-fan-out topology.
    pub fn parallel(critics: Vec<AgentId>) -> (r: Self)
        ensures
            r == (Topology::Parallel { critics }),
    {
        Topology::Parallel { critics }
    }

    /// Builds an adversarial rounds topology.
    pub fn rounds(critics: Vec<AgentId>, max_rounds: usize) -> (r: Self)
        ensures
            r == (Topology::Rounds { critics, max_rounds }),
    {
        Topology::Rounds { critics, max_rounds }
    }
}

/// A realized interaction graph: the executable form of a [`Topology`].
#[derive(Debug)]
pub enum InteractionGraph {
    /// See [`Topology::Parallel`].
    Parallel {
        /// The panel, in declared order.
        critics: Vec<AgentId>,
    },
    /// See [`Topology::Rounds`].
    Rounds {
        /// The panel, in declared order.
        critics: Vec<AgentId>,
        /// The maximum number of rounds.
        max_rounds: usize,
    },
}

/// The graph a topology lowers to.
pub open spec fn lower(t: Topology) -> InteractionGraph {
    match t {
        Topology::Parallel { critics } => InteractionGraph::Parallel { critics },
        Topology::Rounds { critics, max_rounds } => InteractionGraph::Rounds { critics, max_rounds },
    }
}

impl From<Topology> for InteractionGraph {
    fn from(topology: Topology) -> (r: Self) {
        match topology {
            Topology::Parallel { critics } => InteractionGraph::Parallel { critics },
            Topology::Rounds { critics, max_rounds } => InteractionGraph::Rounds {
                critics,
                max_rounds,
            },
        }
    }
}

impl FromSpecImpl<Topology> for InteractionGraph {
    open spec fn obeys_from_spec() -> bool {
        true
    }

    open spec fn from_spec(t: Topology) -> Self {
        lower(t)
    }
}

/// The critics of a graph.
pub open spec fn graph_critics(g: InteractionGraph) -> Seq<AgentId> {
    match g {
        InteractionGraph::Parallel { critics } => critics@,
        InteractionGraph::Rounds { critics, .. } => critics@,
    }
}

/// The round cap of a graph, if it has one.
pub open spec fn graph_max_rounds(g: InteractionGraph) -> Option<usize> {
    match g {
        InteractionGraph::Parallel { .. } => None,
        InteractionGraph::Rounds { max_rounds, .. } => Some(max_rounds),
    }
}

impl InteractionGraph {
    /// Lowers a topology into a graph.
    pub fn from_topology(t: Topology) -> (r: Self)
        ensures
            r == lower(t),
    {
        InteractionGraph::from(t)
    }

    /// The critics that make up this graph's panel, in declared order.
    pub fn critics(&self) -> (r: &[AgentId])
        ensures
            r@ == graph_critics(*self),
    {
        match self {
            InteractionGraph::Parallel { critics } => critics.as_slice(),
            InteractionGraph::Rounds { critics, .. } => critics.as_slice(),
        }
    }

    /// The maximum number of rounds for a `Rounds` graph; `None` for
    /// `Parallel`.
    pub fn max_rounds(&self) -> (r: Option<usize>)
        ensures
            r == graph_max_rounds(*self),
    {
        match self {
            InteractionGraph::Parallel { .. } => None,
            InteractionGraph::Rounds { max_rounds, .. } => Some(*max_rounds),
        }
    }
}

/// Clones a slice of agent ids.
pub fn clone_ids(ids: &[AgentId]) -> (r: Vec<AgentId>)
    ensures
        r@ == ids@,
{
    let mut r: Vec<AgentId> = Vec::new();
    let mut i: usize = 0;
    while i < ids.len()
        invariant
            i <= ids.len(),
            r@ == ids@.take(i as int),
        decreases ids.len() - i,
    {
        r.push(ids[i].clone());
        i = i + 1;
        assert(r@ =~= ids@.take(i as int));
    }
    assert(ids@.take(ids.len() as int) =~= ids@);
    r
}

impl Clone for Topology {
    fn clone(&self) -> (r: Self)
        ensures
            graph_critics(lower(r)) == graph_critics(lower(*self)),
            graph_max_rounds(lower(r)) == graph_max_rounds(lower(*self)),
    {
        match self {
            Topology::Parallel { critics } => Topology::Parallel { critics: clone_ids(critics.as_slice()) },
            Topology::Rounds { critics, max_rounds } => Topology::Rounds {
                critics: clone_ids(critics.as_slice()),
                max_rounds: *max_rounds,
            },
        }
    }
}

impl Clone for InteractionGraph {
    fn clone(&self) -> (r: Self)
        ensures
            graph_critics(r) == graph_critics(*self),
            graph_max_rounds(r) == graph_max_rounds(*self),
    {
        match self {
            InteractionGraph::Parallel { critics } => InteractionGraph::Parallel {
                critics: clone_ids(critics.as_slice()),
            },
            InteractionGraph::Rounds { critics, max_rounds } => InteractionGraph::Rounds {
                critics: clone_ids(critics.as_slice()),
                max_rounds: *max_rounds,
            },
        }
    }
}

} // verus!
