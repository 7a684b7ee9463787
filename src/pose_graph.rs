use vstd::prelude::*;
use crate::lidar::LidarScan;

verus! {

/// One scan as stored in the pose graph.
pub struct Node {
    pub scan: LidarScan,
}

/// The scans in the order they were captured; nodes are only ever appended.
pub struct PoseGraph {
    pub nodes: Vec<Node>,
}

impl PoseGraph {
    /// An empty graph.
    pub fn new() -> (r: Self)
        ensures
            r.nodes@.len() == 0,
    {
        PoseGraph { nodes: Vec::new() }
    }

    /// Appends a node for `scan`; the nodes already there stay as they are.
    pub fn add_node(&mut self, scan: LidarScan)
        ensures
            final(self).nodes@ == old(self).nodes@.push(Node { scan }),
    {
        self.nodes.push(Node { scan });
    }

    /// The scan that later scans are matched against: that of the first node,
    /// a fixed frame for the whole map.
    pub fn reference_scan(&self) -> (r: Option<&LidarScan>)
        ensures
            r is Some <==> self.nodes@.len() > 0,
            r matches Some(s) ==> *s == self.nodes@[0].scan,
    {
        if self.nodes.len() > 0 {
            Some(&self.nodes[0].scan)
        } else {
            None
        }
    }
}

} // verus!
