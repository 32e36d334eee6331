use website_my_mailchimp::config::{parse_config, Config, ConfigKey, SysPaths};
use website_my_mailchimp::content::{
    build_archive, build_index, image_put_request, mime_for_name, render_page, LatestResult,
    PutRequest, S3Content,
};
use website_my_mailchimp::invalidation::{
    build_invalidation, decimal_string, invalidate_cloudfront_builds,
};

fn sample_config() -> Config {
    Config {
        mc_campaign_url: "https://example.com/archive".to_string(),
        s3_bucket: "my-bucket".to_string(),
        cf_distro_id: "DISTRO123".to_string(),
        region: "us-east-1".to_string(),
        profile: "default".to_string(),
    }
}

#[test]
fn parse_config_accepts_complete_values() {
    let r = parse_config(
        Some("https://example.com/archive".to_string()),
        Some("my-bucket".to_string()),
        Some("DISTRO123".to_string()),
        Some("us-east-1".to_string()),
        Some("default".to_string()),
    );
    let c = r.expect("all keys present");
    assert_eq!(c.mc_campaign_url, "https://example.com/archive");
    assert_eq!(c.s3_bucket, "my-bucket");
    assert_eq!(c.cf_distro_id, "DISTRO123");
    assert_eq!(c.region, "us-east-1");
    assert_eq!(c.profile, "default");
}

#[test]
fn parse_config_reports_each_missing_key() {
    let url = || Some("u".to_string());
    let bucket = || Some("b".to_string());
    let distro = || Some("d".to_string());
    let region = || Some("r".to_string());
    assert_eq!(
        parse_config(None, bucket(), distro(), region(), Some("p".to_string())).unwrap_err(),
        ConfigKey::McCampaignUrl
    );
    assert_eq!(
        parse_config(url(), None, distro(), region(), Some("p".to_string())).unwrap_err(),
        ConfigKey::S3Bucket
    );
    assert_eq!(
        parse_config(url(), bucket(), None, region(), Some("p".to_string())).unwrap_err(),
        ConfigKey::CfDistroId
    );
    assert_eq!(
        parse_config(url(), bucket(), distro(), None, Some("p".to_string())).unwrap_err(),
        ConfigKey::Region
    );
    assert_eq!(
        parse_config(url(), bucket(), distro(), region(), None).unwrap_err(),
        ConfigKey::Profile
    );
}

#[test]
fn render_page_concatenates_in_order() {
    let page = render_page("<header>", "<p>body</p>", "<footer>");
    assert_eq!(page, "<header><p>body</p><footer>");
}

#[test]
fn render_page_keeps_empty_parts() {
    assert_eq!(render_page("", "x", ""), "x");
    assert_eq!(render_page("a", "", "b"), "ab");
}

#[test]
fn build_index_addresses_index_page() {
    let latest = LatestResult {
        html: "<table></table>".to_string(),
        link: "https://example.com/campaign/42".to_string(),
    };
    let put = build_index("TOP|", &latest, "|BOTTOM");
    assert_eq!(put.dest, "index.html");
    assert_eq!(put.mime, "text/html");
    match put.src {
        S3Content::Text(body) => assert_eq!(body, "TOP|<table></table>|BOTTOM"),
        S3Content::Bytes(_) => panic!("index page must be text"),
    }
}

#[test]
fn build_archive_addresses_archive_page() {
    let put = build_archive("TOP|", "<ul id=\"archive-list\"></ul>", "|BOTTOM");
    assert_eq!(put.dest, "archive.html");
    assert_eq!(put.mime, "text/html");
    match put.src {
        S3Content::Text(body) => assert_eq!(body, "TOP|<ul id=\"archive-list\"></ul>|BOTTOM"),
        S3Content::Bytes(_) => panic!("archive page must be text"),
    }
}

#[test]
fn mime_for_name_knows_image_extensions() {
    assert_eq!(mime_for_name("pic.png"), "image/png");
    assert_eq!(mime_for_name("pic.jpg"), "image/jpeg");
    assert_eq!(mime_for_name("pic.jpeg"), "image/jpeg");
    assert_eq!(mime_for_name("pic.bmp"), "image/bmp");
    assert_eq!(mime_for_name("pic.gif"), "image/gif");
}

#[test]
fn mime_for_name_defaults_to_plain_text() {
    assert_eq!(mime_for_name("pic.svg"), "text/plain");
    assert_eq!(mime_for_name("noextension"), "text/plain");
    assert_eq!(mime_for_name(""), "text/plain");
}

#[test]
fn mime_for_name_uses_last_dot() {
    assert_eq!(mime_for_name("archive.tar.png"), "image/png");
    assert_eq!(mime_for_name("pic.png.txt"), "text/plain");
}

#[test]
fn image_put_request_mirrors_under_gallery_path() {
    let put: PutRequest = image_put_request(
        "https://gallery.mailchimp.com/a/b/pic.png",
        vec![1u8, 2u8, 3u8],
    );
    assert_eq!(put.dest, "assets/mailchimpGallery/pic.png");
    assert_eq!(put.mime, "image/png");
    match put.src {
        S3Content::Bytes(b) => assert_eq!(b, vec![1u8, 2u8, 3u8]),
        S3Content::Text(_) => panic!("image payload must be bytes"),
    }
}

#[test]
fn image_put_request_falls_back_on_placeholder_name() {
    let put = image_put_request("https://gallery.mailchimp.com/", vec![9u8]);
    assert_eq!(put.dest, "assets/mailchimpGallery/tmp.bin");
    assert_eq!(put.mime, "text/plain");
    let put2 = image_put_request("not a url at all", vec![9u8]);
    assert_eq!(put2.dest, "assets/mailchimpGallery/tmp.bin");
}

#[test]
fn decimal_string_renders_bytes() {
    assert_eq!(decimal_string(0), "0");
    assert_eq!(decimal_string(7), "7");
    assert_eq!(decimal_string(10), "10");
    assert_eq!(decimal_string(42), "42");
    assert_eq!(decimal_string(100), "100");
    assert_eq!(decimal_string(255), "255");
}

#[test]
fn build_invalidation_lists_the_fixed_paths() {
    let req = build_invalidation(&sample_config(), 42);
    assert_eq!(req.distribution_id, "DISTRO123");
    assert_eq!(req.nonce, "42");
    assert_eq!(
        req.path_list,
        vec![
            "/index.html".to_string(),
            "/archive.html".to_string(),
            "/assets/js/main.js".to_string(),
            "/assets/css/main.css".to_string(),
        ]
    );
}

#[test]
fn invalidate_cloudfront_builds_uses_fixed_paths() {
    let req = invalidate_cloudfront_builds(&sample_config());
    assert_eq!(req.distribution_id, "DISTRO123");
    assert_eq!(req.path_list.len(), 4);
    assert_eq!(req.path_list[0], "/index.html");
    assert_eq!(req.path_list[3], "/assets/css/main.css");
    let parsed: u32 = req.nonce.parse().expect("nonce is a decimal number");
    assert!(parsed <= 255);
}

#[test]
fn sys_paths_holds_directories() {
    let p = SysPaths { dir: "/work".to_string(), exe: "/opt/bin".to_string() };
    assert_eq!(p.dir, "/work");
    assert_eq!(p.exe, "/opt/bin");
}
