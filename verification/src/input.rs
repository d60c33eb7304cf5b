//! The pointer-interaction state machine: one mode is active at a time
//! (`Add`, `Remove`, `Move`, `Connect`), and a click or drag means something
//! different in each. Mode switches are driven by the host's toolbar; a
//! switch away from `Connect` must call [`InputState::cancel_pending`],
//! which cancels a half-made connection explicitly.

use vstd::prelude::*;
use crate::geometry::{Vec2i, in_canvas};
use crate::graph::{
    Graph, GraphV, NodeId, EdgeId, added_node, removed_node, removed_edge, added_edge,
    with_highlight, with_ignore, moved_node,
};
use crate::node::NodeHighlight;

verus! {

/// The pending half of a two-click connection.
#[derive(Clone, Copy, Debug)]
pub struct ConnectData {
    pub from_node: Option<NodeId>,
}

impl Default for ConnectData {
    fn default() -> (r: ConnectData)
        ensures
            r.from_node is None,
    {
        ConnectData { from_node: None }
    }
}

/// The node currently dragged in `Move` mode, if any.
#[derive(Clone, Copy, Debug)]
pub struct MoveData {
    pub dragged: Option<NodeId>,
}

impl Default for MoveData {
    fn default() -> (r: MoveData)
        ensures
            r.dragged is None,
    {
        MoveData { dragged: None }
    }
}

#[derive(Clone, Copy, Debug)]
pub enum InputState {
    Add,
    Remove,
    Move(MoveData),
    Connect(ConnectData),
}

impl InputState {
    /// The two states are the same top-level mode (the carried drag or
    /// pending-connection data is not compared).
    pub open spec fn same_mode(self, other: InputState) -> bool {
        ||| (self is Add && other is Add)
        ||| (self is Remove && other is Remove)
        ||| (self is Move && other is Move)
        ||| (self is Connect && other is Connect)
    }

    /// The pending connection source, when in `Connect` mode.
    pub open spec fn pending_of(self) -> Option<NodeId> {
        match self {
            InputState::Connect(d) => d.from_node,
            _ => None,
        }
    }

    /// The node being dragged, when in `Move` mode.
    pub open spec fn dragged_of(self) -> Option<NodeId> {
        match self {
            InputState::Move(d) => d.dragged,
            _ => None,
        }
    }

    /// Resolve a primary click at `position` against the current mode.
    ///
    /// Add: create a node there. Remove: remove the node under the pointer,
    /// else the edge under it, else nothing. Move: nothing. Connect: first
    /// click selects and highlights a node; the second click connects the
    /// selection to the node clicked (if any), restores its highlight, and
    /// clears the selection either way.
    pub fn on_left_click(&mut self, graph: &mut Graph, position: Vec2i)
        requires
            old(graph)@.wf(),
            in_canvas(position),
        ensures
            final(graph)@.wf(),
            (*old(self)) is Add ==> *final(self) == *old(self) && final(graph)@ == added_node(
                old(graph)@,
                position,
            ),
            (*old(self)) is Remove ==> *final(self) == *old(self) && final(graph)@ == (
            if old(graph)@.first_node_at(position) is Some {
                removed_node(
                    old(graph)@,
                    NodeId { index: old(graph)@.first_node_at(position)->0 as usize },
                )
            } else if old(graph)@.first_edge_at(position) is Some {
                removed_edge(
                    old(graph)@,
                    EdgeId { index: old(graph)@.first_edge_at(position)->0 as usize },
                )
            } else {
                old(graph)@
            }),
            (*old(self)) is Move ==> *final(self) == *old(self) && final(graph)@ == old(graph)@,
            (*old(self)) is Connect && old(self).pending_of() is None ==> (
            if old(graph)@.first_node_at(position) is Some {
                final(graph)@ == with_highlight(
                    old(graph)@,
                    NodeId { index: old(graph)@.first_node_at(position)->0 as usize },
                    NodeHighlight::Highlighted,
                ) && *final(self) == InputState::Connect(
                    ConnectData {
                        from_node: Some(
                            NodeId { index: old(graph)@.first_node_at(position)->0 as usize },
                        ),
                    },
                )
            } else {
                final(graph)@ == old(graph)@ && *final(self) == *old(self)
            }),
            (*old(self)) is Connect && old(self).pending_of() is Some ==> final(graph)@
                == connect_click_spec(
                old(graph)@,
                old(self).pending_of()->0,
                old(graph)@.first_node_at(position),
            ) && *final(self) == InputState::Connect(ConnectData { from_node: None }),
    {
        match self {
            InputState::Add => {
                graph.add_node(position);
            },
            InputState::Remove => {
                match graph.get_node_at(position) {
                    Some(id) => {
                        graph.remove_node(id);
                    },
                    None => {
                        match graph.get_edge_at(position) {
                            Some(eid) => {
                                graph.remove_edge(eid);
                            },
                            None => {},
                        }
                    },
                }
            },
            InputState::Move(_) => {},
            InputState::Connect(data) => {
                match data.from_node {
                    Some(from) => {
                        match graph.get_node_at(position) {
                            Some(to) => {
                                graph.add_edge(from, to);
                            },
                            None => {},
                        }
                        graph.set_node_highlight(from, NodeHighlight::Normal);
                        data.from_node = None;
                    },
                    None => {
                        match graph.get_node_at(position) {
                            Some(id) => {
                                graph.set_node_highlight(id, NodeHighlight::Highlighted);
                                data.from_node = Some(id);
                            },
                            None => {},
                        }
                    },
                }
            },
        }
    }

    /// Resolve a pointer drag to `position`. Only `Move` mode reacts: the
    /// first drag event picks up the node under the pointer (marking it to
    /// ignore simulation forces); every event moves the held node along.
    pub fn on_drag(&mut self, graph: &mut Graph, position: Vec2i)
        requires
            old(graph)@.wf(),
            in_canvas(position),
        ensures
            final(graph)@.wf(),
            !((*old(self)) is Move) ==> *final(self) == *old(self) && final(graph)@ == old(graph)@,
            (*old(self)) is Move && old(self).dragged_of() is Some ==> *final(self) == *old(self)
                && final(graph)@ == (
            if old(graph)@.node_live(old(self).dragged_of()->0) {
                moved_node(old(graph)@, old(self).dragged_of()->0, position)
            } else {
                old(graph)@
            }),
            (*old(self)) is Move && old(self).dragged_of() is None ==> (
            if old(graph)@.first_node_at(position) is Some {
                ({
                    let id = NodeId { index: old(graph)@.first_node_at(position)->0 as usize };
                    final(graph)@ == moved_node(with_ignore(old(graph)@, id, true), id, position)
                        && *final(self) == InputState::Move(MoveData { dragged: Some(id) })
                })
            } else {
                final(graph)@ == old(graph)@ && *final(self) == *old(self)
            }),
    {
        match self {
            InputState::Move(data) => {
                match data.dragged {
                    Some(id) => {
                        graph.move_node_to(id, position);
                    },
                    None => {
                        match graph.get_node_at(position) {
                            Some(id) => {
                                graph.set_node_ignore(id, true);
                                graph.move_node_to(id, position);
                                data.dragged = Some(id);
                            },
                            None => {},
                        }
                    },
                }
            },
            _ => {},
        }
    }

    /// End a drag: the held node resumes feeling simulation forces.
    pub fn on_drag_end(&mut self, graph: &mut Graph)
        requires
            old(graph)@.wf(),
        ensures
            final(graph)@.wf(),
            !((*old(self)) is Move && old(self).dragged_of() is Some) ==> *final(self) == *old(self)
                && final(graph)@ == old(graph)@,
            (*old(self)) is Move && old(self).dragged_of() is Some ==> final(graph)@ == (
            if old(graph)@.node_live(old(self).dragged_of()->0) {
                with_ignore(old(graph)@, old(self).dragged_of()->0, false)
            } else {
                old(graph)@
            }) && *final(self) == InputState::Move(MoveData { dragged: None }),
    {
        match self {
            InputState::Move(data) => {
                match data.dragged {
                    Some(id) => {
                        graph.set_node_ignore(id, false);
                        data.dragged = None;
                    },
                    None => {},
                }
            },
            _ => {},
        }
    }

    /// Cancel a pending connection: clear the selected node's highlight and
    /// drop the selection. The host must call this when switching away from
    /// `Connect` mode — a mode switch is an implicit cancellation.
    pub fn cancel_pending(&mut self, graph: &mut Graph)
        requires
            old(graph)@.wf(),
        ensures
            final(graph)@.wf(),
            old(self).pending_of() is None ==> *final(self) == *old(self) && final(graph)@ == old(
                graph,
            )@,
            old(self).pending_of() is Some ==> final(graph)@ == (
            if old(graph)@.node_live(old(self).pending_of()->0) {
                with_highlight(old(graph)@, old(self).pending_of()->0, NodeHighlight::Normal)
            } else {
                old(graph)@
            }) && *final(self) == InputState::Connect(ConnectData { from_node: None }),
    {
        match self {
            InputState::Connect(data) => {
                match data.from_node {
                    Some(id) => {
                        graph.set_node_highlight(id, NodeHighlight::Normal);
                        data.from_node = None;
                    },
                    None => {},
                }
            },
            _ => {},
        }
    }
}

/// The graph after the second `Connect` click: an edge from the pending
/// node to the hit node if the click hit one and the pending node is still
/// live, then the pending node's highlight restored to normal.
pub open spec fn connect_click_spec(g: GraphV, from: NodeId, hit: Option<int>) -> GraphV {
    let g1 = if hit is Some && g.node_live(from) && g.node_live_at(hit->0) {
        added_edge(g, from, NodeId { index: hit->0 as usize })
    } else {
        g
    };
    if g1.node_live(from) {
        with_highlight(g1, from, NodeHighlight::Normal)
    } else {
        g1
    }
}

impl PartialEq for InputState {
    /// Two states are equal when they are the same top-level mode, as the
    /// host toolbar understands it; carried data is not compared.
    fn eq(&self, other: &Self) -> (r: bool) {
        match (self, other) {
            (InputState::Add, InputState::Add) => true,
            (InputState::Remove, InputState::Remove) => true,
            (InputState::Move(_), InputState::Move(_)) => true,
            (InputState::Connect(_), InputState::Connect(_)) => true,
            _ => false,
        }
    }
}

impl vstd::std_specs::cmp::PartialEqSpecImpl for InputState {
    open spec fn obeys_eq_spec() -> bool {
        true
    }

    open spec fn eq_spec(&self, other: &Self) -> bool {
        self.same_mode(*other)
    }
}

} // verus!

