//! The plain data that the rest of the crate passes around.

use std::collections::HashMap;
use vstd::prelude::*;

verus! {

/// One published release of the worker executable, as the release index
/// describes it.
#[derive(Debug)]
pub struct FrpcDownload {
    pub hash: String,
    pub os: String,
    pub hash_type: String,
    pub platform: String,
    pub link: String,
    pub arch: String,
    pub size: u64,
}

/// The payload of the release index.
#[derive(Debug)]
pub struct FrpcInfoData {
    pub downloads: Vec<FrpcDownload>,
    pub version: String,
    pub release_notes: Vec<String>,
}

/// The answer of the release index.
#[derive(Debug)]
pub struct FrpcInfoResponse {
    pub msg: String,
    pub state: String,
    pub code: u32,
    pub data: FrpcInfoData,
}

/// Where to fetch the worker executable, and what to hold the file against.
pub struct DownloadInfo {
    pub url: String,
    pub hash: String,
    pub size: u64,
}

/// How a guarded tunnel is started again.
#[derive(Debug)]
pub enum TunnelType {
    /// A numbered tunnel of the account that `user_token` stands for.
    Api { user_token: String },
    /// A tunnel described by the configuration file of `original_id`.
    Custom { original_id: String },
}

impl Clone for TunnelType {
    fn clone(&self) -> (copy: Self)
        ensures
            copy == *self,
    {
        match self {
            TunnelType::Api { user_token } => TunnelType::Api { user_token: user_token.clone() },
            TunnelType::Custom { original_id } => TunnelType::Custom {
                original_id: original_id.clone(),
            },
        }
    }
}

/// What the guard keeps of a tunnel that it watches.
pub struct ProcessGuardInfo {
    pub tunnel_id: i32,
    pub tunnel_type: TunnelType,
}

impl Clone for ProcessGuardInfo {
    fn clone(&self) -> (copy: Self)
        ensures
            copy == *self,
    {
        ProcessGuardInfo { tunnel_id: self.tunnel_id, tunnel_type: self.tunnel_type.clone() }
    }
}

/// One line for the observer's log of a tunnel.
pub struct LogMessage {
    pub tunnel_id: i32,
    pub message: String,
    pub timestamp: String,
}

impl Clone for LogMessage {
    fn clone(&self) -> (copy: Self)
        ensures
            copy == *self,
    {
        LogMessage {
            tunnel_id: self.tunnel_id,
            message: self.message.clone(),
            timestamp: self.timestamp.clone(),
        }
    }
}

/// A request that the application sends on behalf of its front end.
pub struct HttpRequestOptions {
    pub url: String,
    pub method: String,
    pub headers: Option<HashMap<String, String>>,
    pub body: Option<String>,
    pub bypass_proxy: Option<bool>,
}

} // verus!
