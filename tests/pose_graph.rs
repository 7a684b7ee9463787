use lidar_car::{LidarPoint, LidarScan, PoseGraph};

fn scan_of(angle_q6: u16) -> LidarScan {
    LidarScan { points: vec![LidarPoint { angle_q6, distance_q0: 4, index: 0 }] }
}

#[test]
fn pose_graph_appends_in_order() {
    let mut graph = PoseGraph::new();
    assert!(graph.reference_scan().is_none());
    graph.add_node(scan_of(1));
    graph.add_node(scan_of(2));
    graph.add_node(scan_of(3));
    let firsts: Vec<u16> = graph.nodes.iter().map(|n| n.scan.points[0].angle_q6).collect();
    assert_eq!(firsts, vec![1, 2, 3]);
    assert_eq!(graph.reference_scan().unwrap().points[0].angle_q6, 1);
}
