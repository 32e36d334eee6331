//! Run configuration, assembled from plain key values.
//!
//! The caller is responsible for reading the sectioned key-value file; this
//! module only checks that every required key is present and packs the values
//! into a [`Config`]. A missing key is reported by name so a broken install
//! fails fast, before any network activity.

use vstd::prelude::*;

verus! {

/// The five required configuration values, one field per key.
#[derive(Debug)]
pub struct Config {
    /// URL of the campaign index page to poll.
    pub mc_campaign_url: String,
    /// Object-store bucket that receives the published site.
    pub s3_bucket: String,
    /// CDN distribution whose cache is invalidated after a publish.
    pub cf_distro_id: String,
    /// Region the object store and CDN clients connect to.
    pub region: String,
    /// Credential profile name for the store and CDN clients.
    pub profile: String,
}

/// The configuration key that was found missing.
#[derive(PartialEq, Eq, Structural, Clone, Copy, Debug)]
pub enum ConfigKey {
    McCampaignUrl,
    S3Bucket,
    CfDistroId,
    Region,
    Profile,
}

/// Builds a [`Config`] from the five required values, or reports the first
/// missing key (in declaration order).
pub fn parse_config(
    mc_campaign_url: Option<String>,
    s3_bucket: Option<String>,
    cf_distro_id: Option<String>,
    region: Option<String>,
    profile: Option<String>,
) -> (r: Result<Config, ConfigKey>)
    ensures
        r is Ok <==> (mc_campaign_url is Some && s3_bucket is Some && cf_distro_id is Some
            && region is Some && profile is Some),
        r matches Ok(c) ==> {
            &&& c.mc_campaign_url == mc_campaign_url->0
            &&& c.s3_bucket == s3_bucket->0
            &&& c.cf_distro_id == cf_distro_id->0
            &&& c.region == region->0
            &&& c.profile == profile->0
        },
        r matches Err(k) ==> match k {
            ConfigKey::McCampaignUrl => mc_campaign_url is None,
            ConfigKey::S3Bucket => mc_campaign_url is Some && s3_bucket is None,
            ConfigKey::CfDistroId => mc_campaign_url is Some && s3_bucket is Some
                && cf_distro_id is None,
            ConfigKey::Region => mc_campaign_url is Some && s3_bucket is Some
                && cf_distro_id is Some && region is None,
            ConfigKey::Profile => mc_campaign_url is Some && s3_bucket is Some
                && cf_distro_id is Some && region is Some && profile is None,
        },
{
    let mc_campaign_url = match mc_campaign_url {
        Some(v) => v,
        None => { return Err(ConfigKey::McCampaignUrl); },
    };
    let s3_bucket = match s3_bucket {
        Some(v) => v,
        None => { return Err(ConfigKey::S3Bucket); },
    };
    let cf_distro_id = match cf_distro_id {
        Some(v) => v,
        None => { return Err(ConfigKey::CfDistroId); },
    };
    let region = match region {
        Some(v) => v,
        None => { return Err(ConfigKey::Region); },
    };
    let profile = match profile {
        Some(v) => v,
        None => { return Err(ConfigKey::Profile); },
    };
    Ok(Config { mc_campaign_url, s3_bucket, cf_distro_id, region, profile })
}

/// Working directories of the running process: the current directory and the
/// directory holding the executable. Filled in by the caller; build outputs
/// and scratch files are placed relative to these.
pub struct SysPaths {
    pub dir: String,
    pub exe: String,
}

} // verus!
