pub mod client;
pub mod config;
pub mod error;
pub mod hadoop_xml;
pub mod props;
pub mod text;
pub mod schema;
pub mod parquet;
pub mod footer_check;
pub mod parquet_footer;
pub mod parquet_stats;
pub mod parquet_tree;
pub mod webhdfs;
pub mod rpc;
pub mod format;
pub mod avro;
pub mod builder;
pub mod hive;
pub mod cli;
pub mod orc;
pub mod laws;
