//! The records that every HDFS backend returns.
use vstd::prelude::*;

verus! {

/// Metadata of a file or directory on HDFS.
#[derive(Debug)]
pub struct FileStatus {
    pub path: String,
    pub length: u64,
    pub is_dir: bool,
    pub replication: u16,
    pub block_size: u64,
    pub modification_time: u64,
    pub access_time: u64,
    pub owner: String,
    pub group: String,
    pub permission: String,
}

impl Clone for FileStatus {
    fn clone(&self) -> (r: Self)
        ensures
            r == *self,
    {
        FileStatus {
            path: self.path.clone(),
            length: self.length,
            is_dir: self.is_dir,
            replication: self.replication,
            block_size: self.block_size,
            modification_time: self.modification_time,
            access_time: self.access_time,
            owner: self.owner.clone(),
            group: self.group.clone(),
            permission: self.permission.clone(),
        }
    }
}

/// Summary of the content of a directory.
#[derive(Debug, Clone)]
pub struct ContentSummary {
    pub directory_count: u64,
    pub file_count: u64,
    pub length: u64,
    pub space_consumed: u64,
    /// -1 when there is no quota.
    pub quota: i64,
    pub space_quota: i64,
}

/// One HDFS block of a file.
#[derive(Debug, Clone)]
pub struct BlockInfo {
    pub block_id: u64,
    pub length: u64,
    pub corrupt: bool,
    /// `host:port` of every replica.
    pub datanode_locations: Vec<String>,
}

/// Health of the cluster.
#[derive(Debug, Clone)]
pub struct ClusterHealth {
    pub live_datanodes: u32,
    pub dead_datanodes: u32,
    pub stale_datanodes: u32,
    pub under_replicated_blocks: u64,
    pub corrupt_blocks: u64,
    pub capacity_total_bytes: u64,
    pub capacity_used_bytes: u64,
    pub capacity_remaining_bytes: u64,
    /// "active" or "standby"; `None` when the NameNode is not highly available.
    pub namenode_ha_state: Option<String>,
}

} // verus!
