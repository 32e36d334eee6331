//! The CDN cache-invalidation request issued after a publish.
//!
//! One request per run, listing exactly the fixed set of paths that a
//! publish can change: the two rebuilt pages and the site's main script and
//! stylesheet. The list deliberately does not grow with newly published
//! image paths; that is documented behavior, preserved here. The request's
//! nonce is a freshly drawn byte, rendered in decimal; it only serves the
//! CDN's request deduplication, so any run-unique token suffices.

use vstd::prelude::*;

use crate::config::Config;

verus! {

/// One CDN invalidation request.
pub struct InvalidationRequest {
    /// The distribution whose cache is invalidated.
    pub distribution_id: String,
    /// The paths to invalidate, in order.
    pub path_list: Vec<String>,
    /// Run-unique token for the CDN's request deduplication.
    pub nonce: String,
}

/// The mathematical value of an [`InvalidationRequest`].
pub struct InvalidationView {
    pub distribution_id: Seq<char>,
    pub path_list: Seq<Seq<char>>,
    pub nonce: Seq<char>,
}

impl View for InvalidationRequest {
    type V = InvalidationView;

    open spec fn view(&self) -> InvalidationView {
        InvalidationView {
            distribution_id: self.distribution_id@,
            path_list: self.path_list.deep_view(),
            nonce: self.nonce@,
        }
    }
}

impl Clone for InvalidationRequest {
    fn clone(&self) -> (r: Self)
        ensures
            r@ == self@,
    {
        let paths = self.path_list.clone();
        proof {
            assert(paths.deep_view() =~= self.path_list.deep_view());
        }
        InvalidationRequest {
            distribution_id: self.distribution_id.clone(),
            path_list: paths,
            nonce: self.nonce.clone(),
        }
    }
}

/// The fixed invalidation list: the two rebuilt pages, the main script and
/// the main stylesheet.
pub open spec fn fixed_paths() -> Seq<Seq<char>> {
    seq!["/index.html"@, "/archive.html"@, "/assets/js/main.js"@, "/assets/css/main.css"@]
}

/// The request issued for a given distribution and nonce: always the fixed
/// path list.
pub open spec fn invalidation_view(distribution_id: Seq<char>, nonce: u8) -> InvalidationView {
    InvalidationView {
        distribution_id: distribution_id,
        path_list: fixed_paths(),
        nonce: decimal_of(nonce as nat),
    }
}

/// The decimal rendering of a number: most significant digit first, no
/// leading zeros (a lone zero for 0).
pub open spec fn decimal_of(n: nat) -> Seq<char>
    decreases n,
{
    if n < 10 {
        seq![digit_char(n)]
    } else {
        decimal_of(n / 10).push(digit_char(n % 10))
    }
}

/// The character for one decimal digit.
pub open spec fn digit_char(d: nat) -> char {
    if d == 0 {
        '0'
    } else if d == 1 {
        '1'
    } else if d == 2 {
        '2'
    } else if d == 3 {
        '3'
    } else if d == 4 {
        '4'
    } else if d == 5 {
        '5'
    } else if d == 6 {
        '6'
    } else if d == 7 {
        '7'
    } else if d == 8 {
        '8'
    } else {
        '9'
    }
}

fn digit_str(d: u8) -> (r: &'static str)
    requires
        d < 10,
    ensures
        r@ == seq![digit_char(d as nat)],
{
    proof {
        reveal_strlit("0");
        reveal_strlit("1");
        reveal_strlit("2");
        reveal_strlit("3");
        reveal_strlit("4");
        reveal_strlit("5");
        reveal_strlit("6");
        reveal_strlit("7");
        reveal_strlit("8");
        reveal_strlit("9");
    }
    if d == 0 {
        "0"
    } else if d == 1 {
        "1"
    } else if d == 2 {
        "2"
    } else if d == 3 {
        "3"
    } else if d == 4 {
        "4"
    } else if d == 5 {
        "5"
    } else if d == 6 {
        "6"
    } else if d == 7 {
        "7"
    } else if d == 8 {
        "8"
    } else {
        "9"
    }
}

/// Renders a byte in decimal.
pub fn decimal_string(n: u8) -> (r: String)
    ensures
        r@ == decimal_of(n as nat),
{
    let mut out = String::new();
    if n >= 100 {
        out.append(digit_str(n / 100));
    }
    if n >= 10 {
        out.append(digit_str((n / 10) % 10));
    }
    out.append(digit_str(n % 10));
    proof {
        let m = n as nat;
        if m < 10 {
            assert(out@ =~= decimal_of(m));
        } else if m < 100 {
            assert(m / 10 < 10);
            assert(m / 10 >= 1);
            assert((m / 10) % 10 == m / 10);
            assert(out@ =~= decimal_of(m / 10).push(digit_char(m % 10)));
        } else {
            assert(m / 100 < 10);
            assert(m / 10 >= 10);
            assert(m / 10 / 10 == m / 100) by (nonlinear_arith);
            assert(decimal_of(m / 10) == decimal_of(m / 10 / 10).push(digit_char((m / 10) % 10)));
            assert(out@ =~= decimal_of(m / 10).push(digit_char(m % 10)));
        }
    }
    out
}

/// Relies on `rand::random`: draws one byte from the thread-local generator.
/// Nothing is promised of the value; callers state what holds of any byte.
#[verifier::external_body]
pub(crate) fn fresh_nonce() -> u8 {
    rand::random::<u8>()
}

/// Builds the invalidation request for a given nonce: the fixed path list,
/// addressed to the configured distribution.
pub fn build_invalidation(config: &Config, nonce: u8) -> (r: InvalidationRequest)
    ensures
        r@ == invalidation_view(config.cf_distro_id@, nonce),
{
    let mut path_list: Vec<String> = Vec::new();
    path_list.push("/index.html".to_owned());
    path_list.push("/archive.html".to_owned());
    path_list.push("/assets/js/main.js".to_owned());
    path_list.push("/assets/css/main.css".to_owned());
    proof {
        assert(path_list.deep_view() =~= fixed_paths());
    }
    InvalidationRequest {
        distribution_id: config.cf_distro_id.clone(),
        path_list,
        nonce: decimal_string(nonce),
    }
}

/// Builds the one invalidation request of a publish, with a freshly drawn
/// nonce.
pub fn invalidate_cloudfront_builds(config: &Config) -> (r: InvalidationRequest)
    ensures
        r@.distribution_id == config.cf_distro_id@,
        r@.path_list == fixed_paths(),
        exists|b: u8| r@.nonce == decimal_of(b as nat),
{
    let b = fresh_nonce();
    let r = build_invalidation(config, b);
    proof {
        assert(r@.nonce == decimal_of(b as nat));
    }
    r
}

} // verus!
