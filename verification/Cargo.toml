[package]
name = "website_my_mailchimp"
version = "0.1.0"
edition = "2021"
publish = false

[dependencies]
scraper = "*"
url = "*"
rand = "*"
configparser = "*"
reqwest = { version = "*", default-features = false, features = ["blocking", "rustls-tls"] }
rusoto_core = { version = "0.48.0", default-features = false, features = ["rustls"] }
rusoto_s3 = { version = "0.48.0", default-features = false, features = ["rustls"] }
rusoto_cloudfront = { version = "0.48.0", default-features = false, features = ["rustls"] }
rusoto_credential = "0.48.0"
tokio = { version = "*", features = ["rt", "rt-multi-thread"] }
futures = "*"
bytes = "*"
