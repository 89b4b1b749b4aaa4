//! The download mirrors and what each of them offers.

use vstd::prelude::*;
use crate::text::{ascii_lowercase, ascii_lowercased, chars_of, decimal_digits, push_decimal, spells};

verus! {

/// A service that serves beatmap archives by set id.
#[derive(Debug, Clone, Copy, PartialEq, Eq, Structural)]
pub enum Mirror {
    /// The primary mirror.  It reports its quota in the headers of every
    /// response.
    Nerinyan,
    /// The alternative mirror.  Its quota is read from a status endpoint.
    Catboy,
}

/// Whether the value of the opt-in flag selects the alternative mirror:
/// `true`, `yes` or `1`, in any mix of upper and lower case.
pub open spec fn is_truthy(value: Seq<char>) -> bool {
    let v = ascii_lowercase(value);
    v == "true"@ || v == "yes"@ || v == "1"@
}

/// Whether a status code stands for success: 200 to 299.
pub open spec fn is_success(status: u16) -> bool {
    200 <= status < 300
}

pub fn status_is_success(status: u16) -> (b: bool)
    ensures
        b == is_success(status),
{
    200 <= status && status < 300
}

impl Mirror {
    /// The mirror that the opt-in flag selects.
    pub open spec fn selected(flag: Option<Seq<char>>) -> Mirror {
        match flag {
            Some(value) => if is_truthy(value) {
                Mirror::Catboy
            } else {
                Mirror::Nerinyan
            },
            None => Mirror::Nerinyan,
        }
    }

    /// Where archives of a beatmap set are fetched from.
    pub open spec fn spec_download_url(self, beatmapset_id: u32) -> Seq<char> {
        match self {
            Mirror::Nerinyan => "https://api.nerinyan.moe/d/"@ + decimal_digits(
                beatmapset_id as nat,
            ),
            Mirror::Catboy => "https://catboy.best/d/"@ + decimal_digits(beatmapset_id as nat),
        }
    }

    /// How many downloads may be in flight at once.
    pub open spec fn spec_max_concurrent(self) -> usize {
        match self {
            Mirror::Nerinyan => 3,
            Mirror::Catboy => 1,
        }
    }

    /// Whether the mirror reports its quota in response headers.
    pub open spec fn spec_supports_header_feedback(self) -> bool {
        self == Mirror::Nerinyan
    }

    /// Whether the mirror's quota is read from its status endpoint.
    pub open spec fn spec_supports_polled_quota(self) -> bool {
        self == Mirror::Catboy
    }

    /// Selects the mirror from the value of the opt-in flag, `None` where the
    /// flag is not set.  Anything but a truthy value gives the primary mirror.
    pub fn from_env(flag: Option<&str>) -> (m: Mirror)
        ensures
            m == Mirror::selected(
                match flag {
                    Some(s) => Some(s@),
                    None => None,
                },
            ),
    {
        match flag {
            Some(value) => {
                let folded = ascii_lowercased(&chars_of(value));
                if spells(&folded, "true") || spells(&folded, "yes") || spells(&folded, "1") {
                    Mirror::Catboy
                } else {
                    Mirror::Nerinyan
                }
            },
            None => Mirror::Nerinyan,
        }
    }

    pub fn download_url(&self, beatmapset_id: u32) -> (url: String)
        ensures
            url@ == self.spec_download_url(beatmapset_id),
    {
        let mut url = match self {
            Mirror::Nerinyan => "https://api.nerinyan.moe/d/".to_owned(),
            Mirror::Catboy => "https://catboy.best/d/".to_owned(),
        };
        push_decimal(&mut url, beatmapset_id as u64);
        url
    }

    pub fn name(&self) -> (n: &'static str)
        ensures
            *self == Mirror::Nerinyan ==> n@ == "Nerinyan"@,
            *self == Mirror::Catboy ==> n@ == "Catboy"@,
    {
        match self {
            Mirror::Nerinyan => "Nerinyan",
            Mirror::Catboy => "Catboy",
        }
    }

    #[verifier::when_used_as_spec(spec_max_concurrent)]
    pub fn max_concurrent(self) -> (n: usize)
        ensures
            n == self.spec_max_concurrent(),
    {
        match self {
            Mirror::Nerinyan => 3,
            Mirror::Catboy => 1,
        }
    }

    #[verifier::when_used_as_spec(spec_supports_header_feedback)]
    pub fn supports_header_feedback(self) -> (b: bool)
        ensures
            b == self.spec_supports_header_feedback(),
    {
        match self {
            Mirror::Nerinyan => true,
            Mirror::Catboy => false,
        }
    }

    #[verifier::when_used_as_spec(spec_supports_polled_quota)]
    pub fn supports_polled_quota(self) -> (b: bool)
        ensures
            b == self.spec_supports_polled_quota(),
    {
        match self {
            Mirror::Nerinyan => false,
            Mirror::Catboy => true,
        }
    }

    /// The status endpoint of a mirror whose quota is polled.
    pub fn quota_url(self) -> (url: Option<&'static str>)
        ensures
            url is Some <==> self.supports_polled_quota(),
            url matches Some(u) ==> u@ == "https://catboy.best/api/ratelimits"@,
    {
        match self {
            Mirror::Nerinyan => None,
            Mirror::Catboy => Some("https://catboy.best/api/ratelimits"),
        }
    }
}

} // verus!
