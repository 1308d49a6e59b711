//! Endpoint and region resolution.
//!
//! With a region supplied the pair is decided locally, substituting the
//! region into a known endpoint template where one exists.  Without one, a
//! probe of `{endpoint}/{bucket}` is requested, and the probe's status and
//! `x-amz-bucket-region` header decide the pair; resolution runs once,
//! during configuration finalization, never per request.

use crate::error::{message_spec, Error, ErrorKind};
use crate::headers::str_eq;
use crate::strutil::{
    chars_to_string, contains_at, dec_str, find_pat_from, push_dec, string_to_chars,
};
use vstd::prelude::*;
use vstd::string::StringExecFns;

verus! {

/// `template` with the first `{region}` placeholder replaced by `region`;
/// a template without the placeholder is returned unchanged.
pub open spec fn substitute_spec(template: Seq<char>, region: Seq<char>) -> Seq<char> {
    match find_pat_from(template, "{region}"@, 0) {
        None => template,
        Some(i) => template.take(i) + region + template.skip(i + "{region}"@.len()),
    }
}

/// Substitutes `region` into an endpoint template.
pub fn substitute_region(template: &str, region: &str) -> (r: String)
    ensures
        r@ == substitute_spec(template@, region@),
{
    let cs = string_to_chars(template);
    let pat = string_to_chars("{region}");
    proof {
        reveal_strlit("{region}");
        assert(pat@.len() == 8);
    }
    let n = cs.len();
    let mut i: usize = 0;
    while n >= 8 && i <= n - 8
        invariant
            i <= n,
            n == cs.len(),
            cs@ == template@,
            pat@ == "{region}"@,
            pat@.len() == 8,
            find_pat_from(template@, "{region}"@, 0) == find_pat_from(template@, "{region}"@, i as int),
        decreases n - i,
    {
        let mut j: usize = 0;
        let mut matched = true;
        while j < 8
            invariant
                j <= 8,
                i + 8 <= n,
                n == cs.len(),
                pat@.len() == 8,
                matched == (forall|k: int| 0 <= k < j ==> cs@[i + k] == pat@[k]),
            decreases 8 - j,
        {
            if cs[i + j] != pat[j] {
                matched = false;
                proof {
                    assert(cs@[i + j as int] != pat@[j as int]);
                }
                j = 8;
            } else {
                j = j + 1;
            }
        }
        if matched {
            proof {
                assert(template@.subrange(i as int, i + 8) =~= "{region}"@);
                assert(contains_at(template@, "{region}"@, i as int));
            }
            let rcs = string_to_chars(region);
            let mut out: Vec<char> = Vec::new();
            let mut a: usize = 0;
            while a < i
                invariant
                    a <= i,
                    i <= n,
                    n == cs.len(),
                    out@ == cs@.subrange(0, a as int),
                decreases i - a,
            {
                out.push(cs[a]);
                a = a + 1;
                proof {
                    assert(out@ =~= cs@.subrange(0, a as int));
                }
            }
            let mut b: usize = 0;
            while b < rcs.len()
                invariant
                    b <= rcs.len(),
                    i + 8 <= n,
                    n == cs.len(),
                    out@ == cs@.subrange(0, i as int) + rcs@.subrange(0, b as int),
                decreases rcs.len() - b,
            {
                out.push(rcs[b]);
                b = b + 1;
                proof {
                    assert(out@ =~= cs@.subrange(0, i as int) + rcs@.subrange(0, b as int));
                }
            }
            proof {
                assert(rcs@.subrange(0, rcs@.len() as int) =~= rcs@);
            }
            let mut c: usize = i + 8;
            while c < n
                invariant
                    i + 8 <= c <= n,
                    n == cs.len(),
                    out@ == cs@.subrange(0, i as int) + rcs@ + cs@.subrange(i + 8, c as int),
                decreases n - c,
            {
                out.push(cs[c]);
                c = c + 1;
                proof {
                    assert(out@ =~= cs@.subrange(0, i as int) + rcs@ + cs@.subrange(
                        i + 8,
                        c as int,
                    ));
                }
            }
            proof {
                assert(out@ =~= template@.take(i as int) + region@ + template@.skip(i + 8));
            }
            return chars_to_string(&out);
        }
        proof {
            let ghost w = choose|k: int| 0 <= k < 8 && cs@[i + k] != pat@[k];
            assert(template@.subrange(i as int, i + 8)[w] != "{region}"@[w]);
            assert(!contains_at(template@, "{region}"@, i as int));
        }
        i = i + 1;
    }
    proof {
        assert(find_pat_from(template@, "{region}"@, i as int) is None);
    }
    let mut out: Vec<char> = Vec::new();
    let mut a: usize = 0;
    while a < n
        invariant
            a <= n,
            n == cs.len(),
            out@ == cs@.subrange(0, a as int),
        decreases n - a,
    {
        out.push(cs[a]);
        a = a + 1;
        proof {
            assert(out@ =~= cs@.subrange(0, a as int));
        }
    }
    proof {
        assert(out@ =~= template@);
    }
    chars_to_string(&out)
}

/// The canonical global endpoint assumed when none is configured.
pub fn default_endpoint() -> (r: String)
    ensures
        r@ == "https://s3.amazonaws.com"@,
{
    String::from_str("https://s3.amazonaws.com")
}

/// The fallback region assumed when a probe carries no region header.
pub fn default_region() -> (r: String)
    ensures
        r@ == "us-east-1"@,
{
    String::from_str("us-east-1")
}

/// The `{region}` template known for an endpoint, if any.
pub open spec fn endpoint_template_spec(e: Seq<char>) -> Option<Seq<char>> {
    if e == "https://s3.amazonaws.com"@ {
        Some("https://s3.{region}.amazonaws.com"@)
    } else {
        None
    }
}

/// Looks up the known regional template for an endpoint.
pub fn endpoint_template(e: &str) -> (r: Option<String>)
    ensures
        (match r {
            Some(t) => endpoint_template_spec(e@) == Some(t@),
            None => endpoint_template_spec(e@) is None,
        }),
{
    if str_eq(e, "https://s3.amazonaws.com") {
        Some(String::from_str("https://s3.{region}.amazonaws.com"))
    } else {
        None
    }
}

/// The next step of resolution: either a decided pair, or a probe of the
/// bucket under the chosen endpoint.
pub enum RegionResolution {
    Resolved { endpoint: String, region: String },
    Probe { endpoint: String, uri: String },
}

/// The endpoint a configuration falls back to when none is set.
pub open spec fn chosen_endpoint_spec(endpoint_opt: Option<Seq<char>>) -> Seq<char> {
    match endpoint_opt {
        Some(e) => e,
        None => "https://s3.amazonaws.com"@,
    }
}

/// Decides (endpoint, region) without any network traffic when a region is
/// supplied, substituting it into the endpoint's template where one is
/// known; without a region, asks for a `HEAD` probe of
/// `{endpoint}/{bucket}`.
pub fn prepare_region(endpoint_opt: &Option<String>, region_opt: &Option<String>, bucket: &str) -> (r:
    RegionResolution)
    ensures
        ({
            let ep = chosen_endpoint_spec(
                match endpoint_opt {
                    Some(e) => Some(e@),
                    None => None,
                },
            );
            match r {
                RegionResolution::Resolved { endpoint, region } => {
                    &&& region_opt is Some
                    &&& region@ == region_opt->0@
                    &&& endpoint@ == (match endpoint_template_spec(ep) {
                        Some(t) => substitute_spec(t, region_opt->0@),
                        None => ep,
                    })
                },
                RegionResolution::Probe { endpoint, uri } => {
                    &&& region_opt is None
                    &&& endpoint@ == ep
                    &&& uri@ == ep + seq!['/'] + bucket@
                },
            }
        }),
{
    let ep: String = match endpoint_opt {
        Some(e) => e.clone(),
        None => default_endpoint(),
    };
    match region_opt {
        Some(rg) => {
            match endpoint_template(ep.as_str()) {
                Some(t) => RegionResolution::Resolved {
                    endpoint: substitute_region(t.as_str(), rg.as_str()),
                    region: rg.clone(),
                },
                None => RegionResolution::Resolved { endpoint: ep, region: rg.clone() },
            }
        },
        None => {
            let mut uri = ep.clone();
            uri.append("/");
            uri.append(bucket);
            proof {
                reveal_strlit("/");
                assert("/"@ =~= seq!['/']);
            }
            RegionResolution::Probe { endpoint: ep, uri }
        },
    }
}

/// What a finished resolution looks like from the probe's answer.
pub open spec fn probe_resolution_spec(
    endpoint: Seq<char>,
    status: u16,
    region_header: Option<Seq<char>>,
) -> Option<(Seq<char>, Seq<char>)> {
    if status == 200 || status == 403 {
        let region = match region_header {
            Some(v) => v,
            None => "us-east-1"@,
        };
        Some((endpoint, region))
    } else if status == 301 {
        match region_header {
            None => None,
            Some(v) => match endpoint_template_spec(endpoint) {
                None => None,
                Some(t) => Some((substitute_spec(t, v), v)),
            },
        }
    } else {
        None
    }
}

/// Interprets the probe of `{endpoint}/{bucket}`.
///
/// Status 200 or 403 keeps the endpoint and takes the region from the
/// `x-amz-bucket-region` header, falling back to the canonical region when
/// the header is absent — even a permission-denied probe carries the
/// region hint.  Status 301 requires the header and a known template for
/// the endpoint, and substitutes the region into it.  Any other status is
/// a configuration error carrying the status code.
pub fn resolve_from_probe(endpoint: &str, status: u16, region_header: &Option<String>) -> (r:
    Result<(String, String), Error>)
    ensures
        ({
            let hv = match region_header {
                Some(v) => Some(v@),
                None => None,
            };
            match r {
                Ok(pair) => probe_resolution_spec(endpoint@, status, hv) == Some(
                    (pair.0@, pair.1@),
                ),
                Err(e) => {
                    &&& probe_resolution_spec(endpoint@, status, hv) is None
                    &&& e.kind_spec() == ErrorKind::BackendConfigurationInvalid
                    &&& message_spec(&e) == (if status == 301 {
                        if hv is Some {
                            "can't detect region automatically, no valid endpoint template for "@
                                + endpoint@
                        } else {
                            "can't detect region automatically, region is empty"@
                        }
                    } else {
                        "can't detect region automatically, unexpected response: status code "@
                            + dec_str(status as nat)
                    })
                },
            }
        }),
{
    if status == 200 || status == 403 {
        let region: String = match region_header {
            Some(v) => v.clone(),
            None => default_region(),
        };
        Ok((String::from_str(endpoint), region))
    } else if status == 301 {
        match region_header {
            None => Err(
                Error::Backend {
                    kind: ErrorKind::BackendConfigurationInvalid,
                    message: String::from_str(
                        "can't detect region automatically, region is empty",
                    ),
                },
            ),
            Some(v) => {
                match endpoint_template(endpoint) {
                    None => {
                        let mut message = String::from_str(
                            "can't detect region automatically, no valid endpoint template for ",
                        );
                        message.append(endpoint);
                        Err(
                            Error::Backend {
                                kind: ErrorKind::BackendConfigurationInvalid,
                                message,
                            },
                        )
                    },
                    Some(t) => Ok(
                        (substitute_region(t.as_str(), v.as_str()), v.clone()),
                    ),
                }
            },
        }
    } else {
        let mut mcs = string_to_chars(
            "can't detect region automatically, unexpected response: status code ",
        );
        push_dec(status as u64, &mut mcs);
        Err(
            Error::Backend {
                kind: ErrorKind::BackendConfigurationInvalid,
                message: chars_to_string(&mcs),
            },
        )
    }
}

} // verus!
