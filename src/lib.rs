//! Decoding of a spinning LIDAR's express-scan telemetry into scans, and the
//! small wire formats that the robot speaks with its peers.
pub mod bytes;
pub mod cabin;
pub mod client;
pub mod device;
pub mod frame;
pub mod lidar;
pub mod motor_control;
pub mod pose_graph;
pub mod varbitscale;

pub use varbitscale::varbitscale_decode;
pub use client::{parse_client_packets, ClientToCar, ProtocolError};
pub use device::{LidarRequest, LidarResponse, ResponseError};
pub use frame::{FrameError, ScanPacket};
pub use lidar::{LidarEngine, LidarPoint, LidarScan};
pub use motor_control::MotorControlRequest;
pub use pose_graph::{Node, PoseGraph};
