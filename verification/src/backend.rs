//! The configuration builder and the backend facade: validated, immutable
//! configuration, and the fully-decided requests and response
//! interpretations for the five public operations.

use crate::codecs::{base64_encode, base64_of, md5_digest, md5_of, parse_rfc2822, rfc2822_of};
use crate::endpoint::{chosen_endpoint_spec, endpoint_template_spec, substitute_spec, RegionResolution};
use crate::error::{classify_status_spec, Error, ErrorKind};
use crate::headers::{find_header, find_header_spec, header_pairs, pairs_view, str_eq, HeaderSpec};
use crate::list::ListState;
use crate::metadata::{Metadata, ObjectMode};
use crate::path::{abs_key, abs_key_spec, ends_slash, normalize_path, rel_path, rel_path_spec, rooted, rooted_spec};
use crate::range::{range_header_spec, HeaderRange};
use crate::strutil::{all_dec_digits, chars_to_string, dec_str, dec_value, parse_u64, string_to_chars, u64_to_dec};
use vstd::prelude::*;
use vstd::string::StringExecFns;

verus! {

/// A credential for the signer: an explicit key pair, or the instruction
/// to read one from the process environment.
#[derive(Debug)]
pub enum Credential {
    Plain,
    Hmac { access_key_id: String, secret_access_key: String },
}

/// The view of a credential.
pub enum CredentialView {
    Plain,
    Hmac { access_key_id: Seq<char>, secret_access_key: Seq<char> },
}

impl View for Credential {
    type V = CredentialView;

    open spec fn view(&self) -> CredentialView {
        match self {
            Credential::Plain => CredentialView::Plain,
            Credential::Hmac { access_key_id, secret_access_key } => CredentialView::Hmac {
                access_key_id: access_key_id@,
                secret_access_key: secret_access_key@,
            },
        }
    }
}

fn clone_credential(c: &Credential) -> (r: Credential)
    ensures
        r@ == c@,
{
    match c {
        Credential::Plain => Credential::Plain,
        Credential::Hmac { access_key_id, secret_access_key } => Credential::Hmac {
            access_key_id: access_key_id.clone(),
            secret_access_key: secret_access_key.clone(),
        },
    }
}

fn clone_opt_string(o: &Option<String>) -> (r: Option<String>)
    ensures
        r.deep_view() == o.deep_view(),
{
    match o {
        None => None,
        Some(s) => Some(s.clone()),
    }
}

/// The view of a builder's settings.
#[verifier::ext_equal]
pub struct BuilderView {
    pub root: Option<Seq<char>>,
    pub bucket: Seq<char>,
    pub credential: Option<CredentialView>,
    pub endpoint: Option<Seq<char>>,
    pub region: Option<Seq<char>>,
    pub server_side_encryption: Option<Seq<char>>,
    pub server_side_encryption_aws_kms_key_id: Option<Seq<char>>,
    pub server_side_encryption_customer_algorithm: Option<Seq<char>>,
    pub server_side_encryption_customer_key: Option<Seq<char>>,
    pub server_side_encryption_customer_key_md5: Option<Seq<char>>,
}

/// Collects the settings of a backend; `finish` validates them and
/// produces the immutable backend.  A setter taking a string treats the
/// empty string as clearing the setting.
pub struct Builder {
    root: Option<String>,
    bucket: String,
    credential: Option<Credential>,
    endpoint: Option<String>,
    region: Option<String>,
    server_side_encryption: Option<String>,
    server_side_encryption_aws_kms_key_id: Option<String>,
    server_side_encryption_customer_algorithm: Option<String>,
    server_side_encryption_customer_key: Option<String>,
    server_side_encryption_customer_key_md5: Option<String>,
}

impl View for Builder {
    type V = BuilderView;

    closed spec fn view(&self) -> BuilderView {
        BuilderView {
            root: self.root.deep_view(),
            bucket: self.bucket@,
            credential: self.credential.deep_view(),
            endpoint: self.endpoint.deep_view(),
            region: self.region.deep_view(),
            server_side_encryption: self.server_side_encryption.deep_view(),
            server_side_encryption_aws_kms_key_id: self.server_side_encryption_aws_kms_key_id.deep_view(),
            server_side_encryption_customer_algorithm: self.server_side_encryption_customer_algorithm.deep_view(),
            server_side_encryption_customer_key: self.server_side_encryption_customer_key.deep_view(),
            server_side_encryption_customer_key_md5: self.server_side_encryption_customer_key_md5.deep_view(),
        }
    }
}

impl DeepView for Credential {
    type V = CredentialView;

    open spec fn deep_view(&self) -> CredentialView {
        self.view()
    }
}

/// The empty configuration.
pub open spec fn builder_default_spec() -> BuilderView {
    BuilderView {
        root: None,
        bucket: Seq::empty(),
        credential: None,
        endpoint: None,
        region: None,
        server_side_encryption: None,
        server_side_encryption_aws_kms_key_id: None,
        server_side_encryption_customer_algorithm: None,
        server_side_encryption_customer_key: None,
        server_side_encryption_customer_key_md5: None,
    }
}

impl Default for Builder {
    fn default() -> (b: Builder)
        ensures
            b@ == builder_default_spec(),
    {
        let b = Builder {
            root: None,
            bucket: String::new(),
            credential: None,
            endpoint: None,
            region: None,
            server_side_encryption: None,
            server_side_encryption_aws_kms_key_id: None,
            server_side_encryption_customer_algorithm: None,
            server_side_encryption_customer_key: None,
            server_side_encryption_customer_key_md5: None,
        };
        proof {
            assert(b@ =~= builder_default_spec());
        }
        b
    }
}

/// `Some` of the string's characters unless it is empty.
pub open spec fn opt_setting(v: Seq<char>) -> Option<Seq<char>> {
    if v.len() == 0 {
        None
    } else {
        Some(v)
    }
}

fn set_opt(v: &str) -> (r: Option<String>)
    ensures
        r.deep_view() == opt_setting(v@),
{
    if v.is_empty() {
        None
    } else {
        Some(v.to_owned())
    }
}

/// The canonical root a configuration finishes with: `/` when none is
/// set, the canonicalized setting otherwise.
pub open spec fn finished_root(root: Option<Seq<char>>) -> Seq<char> {
    match root {
        None => seq!['/'],
        Some(v) => rooted_spec(v),
    }
}

/// Every root a configuration can finish with is canonical, so the path
/// model's round trip (`lemma_abs_rel_round_trip`) applies to every
/// backend: keys made by `get_abs_path` always translate back through
/// `get_rel_path`.
pub proof fn lemma_finished_root_wf(root: Option<Seq<char>>)
    ensures
        crate::path::root_wf(finished_root(root)),
{
    match root {
        None => {
            crate::path::lemma_root_slash_wf();
        },
        Some(v) => {
            crate::path::lemma_rooted_wf(v);
        },
    }
}

impl Builder {
    /// Sets the root all operations happen under.
    pub fn root(&mut self, root: &str)
        ensures
            final(self)@ == (BuilderView { root: opt_setting(root@), ..old(self)@ }),
    {
        self.root = set_opt(root);
        proof {
            assert(self@ =~= (BuilderView { root: opt_setting(root@), ..old(self)@ }));
        }
    }

    /// Sets the bucket this backend works on.
    pub fn bucket(&mut self, bucket: &str)
        ensures
            final(self)@ == (BuilderView { bucket: bucket@, ..old(self)@ }),
    {
        self.bucket = bucket.to_owned();
        proof {
            assert(self@ =~= (BuilderView { bucket: bucket@, ..old(self)@ }));
        }
    }

    /// Sets the credential handed to the signer.
    pub fn credential(&mut self, credential: Credential)
        ensures
            final(self)@ == (BuilderView { credential: Some(credential@), ..old(self)@ }),
    {
        self.credential = Some(credential);
        proof {
            assert(self@ =~= (BuilderView {
                credential: self.credential.deep_view(),
                ..old(self)@
            }));
        }
    }

    /// Sets the endpoint, a full base URI.
    pub fn endpoint(&mut self, endpoint: &str)
        ensures
            final(self)@ == (BuilderView { endpoint: opt_setting(endpoint@), ..old(self)@ }),
    {
        self.endpoint = set_opt(endpoint);
        proof {
            assert(self@ =~= (BuilderView { endpoint: opt_setting(endpoint@), ..old(self)@ }));
        }
    }

    /// Sets the signing region; without one it is detected by a probe.
    pub fn region(&mut self, region: &str)
        ensures
            final(self)@ == (BuilderView { region: opt_setting(region@), ..old(self)@ }),
    {
        self.region = set_opt(region);
        proof {
            assert(self@ =~= (BuilderView { region: opt_setting(region@), ..old(self)@ }));
        }
    }

    /// Sets the server-side-encryption mode (`AES256` or `aws:kms`).
    pub fn server_side_encryption(&mut self, v: &str)
        ensures
            final(self)@ == (BuilderView {
                server_side_encryption: opt_setting(v@),
                ..old(self)@
            }),
    {
        self.server_side_encryption = set_opt(v);
        proof {
            assert(self@ =~= (BuilderView {
                server_side_encryption: opt_setting(v@),
                ..old(self)@
            }));
        }
    }

    /// Sets the KMS key id used when the mode is `aws:kms`.
    pub fn server_side_encryption_aws_kms_key_id(&mut self, v: &str)
        ensures
            final(self)@ == (BuilderView {
                server_side_encryption_aws_kms_key_id: opt_setting(v@),
                ..old(self)@
            }),
    {
        self.server_side_encryption_aws_kms_key_id = set_opt(v);
        proof {
            assert(self@ =~= (BuilderView {
                server_side_encryption_aws_kms_key_id: opt_setting(v@),
                ..old(self)@
            }));
        }
    }

    /// Sets the customer-key algorithm (`AES256`).
    pub fn server_side_encryption_customer_algorithm(&mut self, v: &str)
        ensures
            final(self)@ == (BuilderView {
                server_side_encryption_customer_algorithm: opt_setting(v@),
                ..old(self)@
            }),
    {
        self.server_side_encryption_customer_algorithm = set_opt(v);
        proof {
            assert(self@ =~= (BuilderView {
                server_side_encryption_customer_algorithm: opt_setting(v@),
                ..old(self)@
            }));
        }
    }

    /// Sets the base64 of the customer-supplied key.
    pub fn server_side_encryption_customer_key(&mut self, v: &str)
        ensures
            final(self)@ == (BuilderView {
                server_side_encryption_customer_key: opt_setting(v@),
                ..old(self)@
            }),
    {
        self.server_side_encryption_customer_key = set_opt(v);
        proof {
            assert(self@ =~= (BuilderView {
                server_side_encryption_customer_key: opt_setting(v@),
                ..old(self)@
            }));
        }
    }

    /// Sets the base64 of the MD5 of the customer-supplied key.
    pub fn server_side_encryption_customer_key_md5(&mut self, v: &str)
        ensures
            final(self)@ == (BuilderView {
                server_side_encryption_customer_key_md5: opt_setting(v@),
                ..old(self)@
            }),
    {
        self.server_side_encryption_customer_key_md5 = set_opt(v);
        proof {
            assert(self@ =~= (BuilderView {
                server_side_encryption_customer_key_md5: opt_setting(v@),
                ..old(self)@
            }));
        }
    }

    /// Enables SSE-KMS with the AWS-managed key.
    pub fn server_side_encryption_with_aws_managed_kms_key(&mut self)
        ensures
            final(self)@ == (BuilderView {
                server_side_encryption: Some("aws:kms"@),
                ..old(self)@
            }),
    {
        self.server_side_encryption = Some(String::from_str("aws:kms"));
        proof {
            assert(self@ =~= (BuilderView {
                server_side_encryption: Some("aws:kms"@),
                ..old(self)@
            }));
        }
    }

    /// Enables SSE-KMS with a customer-managed KMS key.
    pub fn server_side_encryption_with_customer_managed_kms_key(&mut self, aws_kms_key_id: &str)
        ensures
            final(self)@ == (BuilderView {
                server_side_encryption: Some("aws:kms"@),
                server_side_encryption_aws_kms_key_id: Some(aws_kms_key_id@),
                ..old(self)@
            }),
    {
        self.server_side_encryption = Some(String::from_str("aws:kms"));
        self.server_side_encryption_aws_kms_key_id = Some(aws_kms_key_id.to_owned());
        proof {
            assert(self@ =~= (BuilderView {
                server_side_encryption: Some("aws:kms"@),
                server_side_encryption_aws_kms_key_id: Some(aws_kms_key_id@),
                ..old(self)@
            }));
        }
    }

    /// Enables SSE-S3.
    pub fn server_side_encryption_with_s3_key(&mut self)
        ensures
            final(self)@ == (BuilderView {
                server_side_encryption: Some("AES256"@),
                ..old(self)@
            }),
    {
        self.server_side_encryption = Some(String::from_str("AES256"));
        proof {
            assert(self@ =~= (BuilderView {
                server_side_encryption: Some("AES256"@),
                ..old(self)@
            }));
        }
    }

    /// Enables SSE-C: stores the algorithm, the base64 of the key, and the
    /// base64 of the key's MD5 digest.
    pub fn server_side_encryption_with_customer_key(&mut self, algorithm: &str, key: &[u8])
        requires
            key@.len() <= usize::MAX / 4,
        ensures
            final(self)@ == (BuilderView {
                server_side_encryption_customer_algorithm: Some(algorithm@),
                server_side_encryption_customer_key: Some(base64_of(key@)),
                server_side_encryption_customer_key_md5: Some(base64_of(md5_of(key@))),
                ..old(self)@
            }),
    {
        self.server_side_encryption_customer_algorithm = Some(algorithm.to_owned());
        self.server_side_encryption_customer_key = Some(base64_encode(key));
        let digest = md5_digest(key);
        self.server_side_encryption_customer_key_md5 = Some(base64_encode(digest.as_slice()));
        proof {
            assert(self@ =~= (BuilderView {
                server_side_encryption_customer_algorithm: Some(algorithm@),
                server_side_encryption_customer_key: Some(base64_of(key@)),
                server_side_encryption_customer_key_md5: Some(base64_of(md5_of(key@))),
                ..old(self)@
            }));
        }
    }

    /// The configured bucket name.
    pub fn bucket_name(&self) -> (r: &String)
        ensures
            r@ == self@.bucket,
    {
        &self.bucket
    }

    /// The resolution step for this configuration: decided locally when a
    /// region is set, otherwise a probe of `{endpoint}/{bucket}`.
    pub fn prepare_region(&self, bucket: &str) -> (r: RegionResolution)
        ensures
            ({
                let ep = chosen_endpoint_spec(self@.endpoint);
                match r {
                    RegionResolution::Resolved { endpoint, region } => {
                        &&& self@.region is Some
                        &&& region@ == self@.region->0
                        &&& endpoint@ == (match endpoint_template_spec(ep) {
                            Some(t) => substitute_spec(t, self@.region->0),
                            None => ep,
                        })
                    },
                    RegionResolution::Probe { endpoint, uri } => {
                        &&& self@.region is None
                        &&& endpoint@ == ep
                        &&& uri@ == ep + seq!['/'] + bucket@
                    },
                }
            }),
    {
        crate::endpoint::prepare_region(&self.endpoint, &self.region, bucket)
    }

    /// Validates the configuration and assembles the immutable backend
    /// around the resolved endpoint and region.  An empty bucket is a
    /// fatal configuration error.
    pub fn finish(&self, endpoint: &str, region: &str) -> (r: Result<Backend, Error>)
        ensures
            r is Err <==> self@.bucket.len() == 0,
            r is Err ==> r->Err_0.kind_spec() == ErrorKind::BackendConfigurationInvalid,
            r is Ok ==> r->Ok_0@ == (BackendView {
                root: finished_root(self@.root),
                bucket: self@.bucket,
                endpoint: endpoint@,
                region: region@,
                credential: self@.credential,
                server_side_encryption: self@.server_side_encryption,
                server_side_encryption_aws_kms_key_id: self@.server_side_encryption_aws_kms_key_id,
                server_side_encryption_customer_algorithm: self@.server_side_encryption_customer_algorithm,
                server_side_encryption_customer_key: self@.server_side_encryption_customer_key,
                server_side_encryption_customer_key_md5: self@.server_side_encryption_customer_key_md5,
            }),
    {
        if self.bucket.as_str().is_empty() {
            return Err(
                Error::Backend {
                    kind: ErrorKind::BackendConfigurationInvalid,
                    message: String::from_str("bucket is empty"),
                },
            );
        }
        let root: String = match &self.root {
            None => String::from_str("/"),
            Some(v) => rooted(v.as_str()),
        };
        proof {
            if self@.root is None {
                reveal_strlit("/");
                assert(root@ =~= seq!['/']);
            }
        }
        let credential: Option<Credential> = match &self.credential {
            None => None,
            Some(c) => Some(clone_credential(c)),
        };
        let b = Backend {
            root,
            bucket: self.bucket.clone(),
            endpoint: endpoint.to_owned(),
            region: region.to_owned(),
            credential,
            server_side_encryption: clone_opt_string(&self.server_side_encryption),
            server_side_encryption_aws_kms_key_id: clone_opt_string(
                &self.server_side_encryption_aws_kms_key_id,
            ),
            server_side_encryption_customer_algorithm: clone_opt_string(
                &self.server_side_encryption_customer_algorithm,
            ),
            server_side_encryption_customer_key: clone_opt_string(
                &self.server_side_encryption_customer_key,
            ),
            server_side_encryption_customer_key_md5: clone_opt_string(
                &self.server_side_encryption_customer_key_md5,
            ),
        };
        proof {
            assert(b@ =~= (BackendView {
                root: finished_root(self@.root),
                bucket: self@.bucket,
                endpoint: endpoint@,
                region: region@,
                credential: self@.credential,
                server_side_encryption: self@.server_side_encryption,
                server_side_encryption_aws_kms_key_id: self@.server_side_encryption_aws_kms_key_id,
                server_side_encryption_customer_algorithm: self@.server_side_encryption_customer_algorithm,
                server_side_encryption_customer_key: self@.server_side_encryption_customer_key,
                server_side_encryption_customer_key_md5: self@.server_side_encryption_customer_key_md5,
            }));
        }
        Ok(b)
    }
}

/// The view of a backend's immutable configuration.
#[verifier::ext_equal]
pub struct BackendView {
    pub root: Seq<char>,
    pub bucket: Seq<char>,
    pub endpoint: Seq<char>,
    pub region: Seq<char>,
    pub credential: Option<CredentialView>,
    pub server_side_encryption: Option<Seq<char>>,
    pub server_side_encryption_aws_kms_key_id: Option<Seq<char>>,
    pub server_side_encryption_customer_algorithm: Option<Seq<char>>,
    pub server_side_encryption_customer_key: Option<Seq<char>>,
    pub server_side_encryption_customer_key_md5: Option<Seq<char>>,
}

/// The backend facade: immutable after construction and safely shared by
/// concurrent callers.
#[derive(Debug)]
pub struct Backend {
    root: String,
    bucket: String,
    endpoint: String,
    region: String,
    credential: Option<Credential>,
    server_side_encryption: Option<String>,
    server_side_encryption_aws_kms_key_id: Option<String>,
    server_side_encryption_customer_algorithm: Option<String>,
    server_side_encryption_customer_key: Option<String>,
    server_side_encryption_customer_key_md5: Option<String>,
}

impl View for Backend {
    type V = BackendView;

    closed spec fn view(&self) -> BackendView {
        BackendView {
            root: self.root@,
            bucket: self.bucket@,
            endpoint: self.endpoint@,
            region: self.region@,
            credential: self.credential.deep_view(),
            server_side_encryption: self.server_side_encryption.deep_view(),
            server_side_encryption_aws_kms_key_id: self.server_side_encryption_aws_kms_key_id.deep_view(),
            server_side_encryption_customer_algorithm: self.server_side_encryption_customer_algorithm.deep_view(),
            server_side_encryption_customer_key: self.server_side_encryption_customer_key.deep_view(),
            server_side_encryption_customer_key_md5: self.server_side_encryption_customer_key_md5.deep_view(),
        }
    }
}

impl Backend {
    /// A fresh builder.
    pub fn build() -> (b: Builder)
        ensures
            b@ == builder_default_spec(),
    {
        Builder::default()
    }

    /// The configured root.
    pub fn root(&self) -> (r: &String)
        ensures
            r@ == self@.root,
    {
        &self.root
    }

    /// The configured bucket.
    pub fn bucket(&self) -> (r: &String)
        ensures
            r@ == self@.bucket,
    {
        &self.bucket
    }

    /// The resolved endpoint.
    pub fn endpoint(&self) -> (r: &String)
        ensures
            r@ == self@.endpoint,
    {
        &self.endpoint
    }

    /// The resolved signing region.
    pub fn region(&self) -> (r: &String)
        ensures
            r@ == self@.region,
    {
        &self.region
    }

    /// The configured credential, if any.
    pub fn credential(&self) -> (r: &Option<Credential>)
        ensures
            r.deep_view() == self@.credential,
    {
        &self.credential
    }
}

/// The method of a store request.
#[derive(Clone, Copy, Debug, PartialEq, Eq, Structural)]
pub enum HttpMethod {
    Get,
    Put,
    Head,
    Delete,
}

/// One fully-decided store request.  The unverified shell signs it and
/// sends it without further decisions; `body_length` is the declared
/// length of a streamed request body, where one is sent at all.
pub struct RequestSpec {
    pub method: HttpMethod,
    pub uri: String,
    pub headers: Vec<HeaderSpec>,
    pub body_length: Option<u64>,
}

/// The encryption headers owed to one request: the store-managed/KMS pair
/// on writes only, and the customer-key triple on every operation touching
/// encrypted data, since decrypting on read needs the key used on write.
pub open spec fn sse_headers_spec(b: BackendView, is_write: bool) -> Seq<(Seq<char>, Seq<char>)> {
    (if is_write && b.server_side_encryption is Some {
        seq![("x-amz-server-side-encryption"@, b.server_side_encryption->0)]
    } else {
        Seq::<(Seq<char>, Seq<char>)>::empty()
    }) + (if is_write && b.server_side_encryption_aws_kms_key_id is Some {
        seq![
            ("x-amz-server-side-encryption-aws-kms-key-id"@, b.server_side_encryption_aws_kms_key_id->0),
        ]
    } else {
        Seq::<(Seq<char>, Seq<char>)>::empty()
    }) + (if b.server_side_encryption_customer_algorithm is Some {
        seq![
            ("x-amz-server-side-encryption-customer-algorithm"@, b.server_side_encryption_customer_algorithm->0),
        ]
    } else {
        Seq::<(Seq<char>, Seq<char>)>::empty()
    }) + (if b.server_side_encryption_customer_key is Some {
        seq![
            ("x-amz-server-side-encryption-customer-key"@, b.server_side_encryption_customer_key->0),
        ]
    } else {
        Seq::<(Seq<char>, Seq<char>)>::empty()
    }) + (if b.server_side_encryption_customer_key_md5 is Some {
        seq![
            ("x-amz-server-side-encryption-customer-key-md5"@, b.server_side_encryption_customer_key_md5->0),
        ]
    } else {
        Seq::<(Seq<char>, Seq<char>)>::empty()
    })
}

/// The URI of one object: `{endpoint}/{bucket}/{key}`.
pub open spec fn object_uri_spec(b: BackendView, key: Seq<char>) -> Seq<char> {
    b.endpoint + seq!['/'] + b.bucket + seq!['/'] + key
}

/// The URI of one listing page: `{endpoint}/{bucket}` with the list
/// query, the prefix, and the continuation token when one is present.
pub open spec fn list_uri_spec(b: BackendView, key: Seq<char>, token: Seq<char>) -> Seq<char> {
    b.endpoint + seq!['/'] + b.bucket + "?list-type=2&delimiter=/&prefix="@ + key + (if token.len()
        == 0 {
        Seq::<char>::empty()
    } else {
        "&continuation-token="@ + token
    })
}

impl Backend {
    /// The encryption headers to attach, each marked sensitive for
    /// redaction in logs and traces.
    pub fn sse_headers(&self, is_write: bool) -> (hs: Vec<HeaderSpec>)
        ensures
            header_pairs(hs@) == sse_headers_spec(self@, is_write),
            forall|i: int| 0 <= i < hs@.len() ==> (#[trigger] hs@[i]).sensitive,
    {
        let mut hs: Vec<HeaderSpec> = Vec::new();
        if is_write {
            if let Some(v) = &self.server_side_encryption {
                hs.push(
                    HeaderSpec {
                        name: String::from_str("x-amz-server-side-encryption"),
                        value: v.clone(),
                        sensitive: true,
                    },
                );
            }
            if let Some(v) = &self.server_side_encryption_aws_kms_key_id {
                hs.push(
                    HeaderSpec {
                        name: String::from_str("x-amz-server-side-encryption-aws-kms-key-id"),
                        value: v.clone(),
                        sensitive: true,
                    },
                );
            }
        }
        if let Some(v) = &self.server_side_encryption_customer_algorithm {
            hs.push(
                HeaderSpec {
                    name: String::from_str("x-amz-server-side-encryption-customer-algorithm"),
                    value: v.clone(),
                    sensitive: true,
                },
            );
        }
        if let Some(v) = &self.server_side_encryption_customer_key {
            hs.push(
                HeaderSpec {
                    name: String::from_str("x-amz-server-side-encryption-customer-key"),
                    value: v.clone(),
                    sensitive: true,
                },
            );
        }
        if let Some(v) = &self.server_side_encryption_customer_key_md5 {
            hs.push(
                HeaderSpec {
                    name: String::from_str("x-amz-server-side-encryption-customer-key-md5"),
                    value: v.clone(),
                    sensitive: true,
                },
            );
        }
        proof {
            assert(header_pairs(hs@) =~= sse_headers_spec(self@, is_write));
        }
        hs
    }

    fn object_uri(&self, key: &str) -> (r: String)
        ensures
            r@ == object_uri_spec(self@, key@),
    {
        let mut u = self.endpoint.clone();
        u.append("/");
        u.append(self.bucket.as_str());
        u.append("/");
        u.append(key);
        proof {
            reveal_strlit("/");
            assert("/"@ =~= seq!['/']);
            assert(u@ =~= object_uri_spec(self@, key@));
        }
        u
    }

    /// The GET request for one object, with an optional byte range.
    pub fn get_object_request(&self, key: &str, offset: Option<u64>, size: Option<u64>) -> (r:
        RequestSpec)
        requires
            size is Some ==> size->0 > 0,
            offset is Some && size is Some ==> offset->0 + size->0 - 1 <= u64::MAX,
        ensures
            r.method == HttpMethod::Get,
            r.uri@ == object_uri_spec(self@, key@),
            header_pairs(r.headers@) == (if offset is Some || size is Some {
                seq![("range"@, range_header_spec(offset, size))]
            } else {
                Seq::<(Seq<char>, Seq<char>)>::empty()
            }) + sse_headers_spec(self@, false),
            r.body_length is None,
    {
        let mut headers: Vec<HeaderSpec> = Vec::new();
        if offset.is_some() || size.is_some() {
            headers.push(
                HeaderSpec {
                    name: String::from_str("range"),
                    value: HeaderRange::new(offset, size).header_value(),
                    sensitive: false,
                },
            );
        }
        let mut sse = self.sse_headers(false);
        headers.append(&mut sse);
        proof {
            assert(header_pairs(headers@) =~= (if offset is Some || size is Some {
                seq![("range"@, range_header_spec(offset, size))]
            } else {
                Seq::<(Seq<char>, Seq<char>)>::empty()
            }) + sse_headers_spec(self@, false));
        }
        RequestSpec {
            method: HttpMethod::Get,
            uri: self.object_uri(key),
            headers,
            body_length: None,
        }
    }

    /// The PUT request for one object whose body of `size` bytes will be
    /// streamed from the caller's source, never buffered whole.
    pub fn put_object_request(&self, key: &str, size: u64) -> (r: RequestSpec)
        ensures
            r.method == HttpMethod::Put,
            r.uri@ == object_uri_spec(self@, key@),
            header_pairs(r.headers@) == seq![("content-length"@, dec_str(size as nat))]
                + sse_headers_spec(self@, true),
            r.body_length == Some(size),
    {
        let mut headers: Vec<HeaderSpec> = Vec::new();
        headers.push(
            HeaderSpec {
                name: String::from_str("content-length"),
                value: u64_to_dec(size),
                sensitive: false,
            },
        );
        let mut sse = self.sse_headers(true);
        headers.append(&mut sse);
        proof {
            assert(header_pairs(headers@) =~= seq![("content-length"@, dec_str(size as nat))]
                + sse_headers_spec(self@, true));
        }
        RequestSpec {
            method: HttpMethod::Put,
            uri: self.object_uri(key),
            headers,
            body_length: Some(size),
        }
    }

    /// The HEAD request for one object.
    pub fn head_object_request(&self, key: &str) -> (r: RequestSpec)
        ensures
            r.method == HttpMethod::Head,
            r.uri@ == object_uri_spec(self@, key@),
            header_pairs(r.headers@) == sse_headers_spec(self@, false),
            r.body_length is None,
    {
        RequestSpec {
            method: HttpMethod::Head,
            uri: self.object_uri(key),
            headers: self.sse_headers(false),
            body_length: None,
        }
    }

    /// The DELETE request for one object.
    pub fn delete_object_request(&self, key: &str) -> (r: RequestSpec)
        ensures
            r.method == HttpMethod::Delete,
            r.uri@ == object_uri_spec(self@, key@),
            r.headers@.len() == 0,
            r.body_length is None,
    {
        RequestSpec {
            method: HttpMethod::Delete,
            uri: self.object_uri(key),
            headers: Vec::new(),
            body_length: None,
        }
    }

    /// The GET request for one listing page under `key`, continuing from
    /// `continuation_token` when it is non-empty.
    pub fn list_objects_request(&self, key: &str, continuation_token: &str) -> (r: RequestSpec)
        ensures
            r.method == HttpMethod::Get,
            r.uri@ == list_uri_spec(self@, key@, continuation_token@),
            r.headers@.len() == 0,
            r.body_length is None,
    {
        let mut u = self.endpoint.clone();
        u.append("/");
        u.append(self.bucket.as_str());
        u.append("?list-type=2&delimiter=/&prefix=");
        u.append(key);
        if !continuation_token.is_empty() {
            u.append("&continuation-token=");
            u.append(continuation_token);
        }
        proof {
            reveal_strlit("/");
            assert("/"@ =~= seq!['/']);
            assert(u@ =~= list_uri_spec(self@, key@, continuation_token@));
        }
        RequestSpec { method: HttpMethod::Get, uri: u, headers: Vec::new(), body_length: None }
    }
}

/// What `stat` must do for a path: answer at once (the virtual root), or
/// issue the HEAD request and interpret its response for the given key.
pub enum StatAction {
    Ready(Metadata),
    Fetch { key: String, request: RequestSpec },
}

/// Whether the path resolves to the virtual root of the backend.
pub open spec fn is_root_path(b: BackendView, path: Seq<char>) -> bool {
    seq!['/'] + crate::path::normalize_spec(abs_key_spec(b.root, path)) == b.root
}

/// A record fit for the virtual root or an implicit directory: directory
/// mode, zero length, complete.
pub open spec fn dir_metadata_ok(m: Metadata, path: Seq<char>) -> bool {
    &&& m.path@ == path
    &&& m.content_length == 0
    &&& m.content_md5 is None
    &&& m.last_modified is None
    &&& m.mode == ObjectMode::DIR
    &&& m.complete
}

/// Whether the store's HEAD response headers are well-formed: a present
/// `content-length` must be a decimal length that fits, and a present
/// `last-modified` must parse as RFC-2822.  A conforming store always
/// satisfies this; a violation is fatal for the call.
pub open spec fn stat_headers_wf(hs: Seq<(Seq<char>, Seq<char>)>) -> bool {
    &&& (match find_header_spec(hs, "content-length"@) {
        Some(v) => v.len() > 0 && all_dec_digits(v) && dec_value(v) <= u64::MAX,
        None => true,
    })
    &&& (match find_header_spec(hs, "last-modified"@) {
        Some(v) => rfc2822_of(v) is Some,
        None => true,
    })
}

/// The record owed for a 200 HEAD response with the given headers.
pub open spec fn stat_metadata_ok(
    m: Metadata,
    path: Seq<char>,
    key: Seq<char>,
    hs: Seq<(Seq<char>, Seq<char>)>,
) -> bool {
    &&& m.path@ == path
    &&& m.content_length as nat == (match find_header_spec(hs, "content-length"@) {
        Some(v) => dec_value(v),
        None => 0,
    })
    &&& (match find_header_spec(hs, "content-md5"@) {
        Some(v) => m.content_md5 is Some && m.content_md5->0@ == v,
        None => m.content_md5 is None,
    })
    &&& m.last_modified == (match find_header_spec(hs, "last-modified"@) {
        Some(v) => rfc2822_of(v),
        None => None,
    })
    &&& m.mode == (if ends_slash(key) {
        ObjectMode::DIR
    } else {
        ObjectMode::FILE
    })
    &&& m.complete
}

/// The fields stored in the classified error of one failed operation.
pub open spec fn object_error_ok(
    e: Error,
    kind: ErrorKind,
    op: Seq<char>,
    path: Seq<char>,
    status: u16,
    headers: Seq<(String, String)>,
    body: Seq<u8>,
) -> bool {
    match e {
        Error::Object { kind: k, op: o, path: p, status: s, headers: h, body: b } => {
            &&& k == kind
            &&& o@ == op
            &&& p@ == path
            &&& s == status
            &&& h@ == headers
            &&& b@ == body
        },
        _ => false,
    }
}

/// Builds the classified error for a non-success response: the kind comes
/// from the status alone, and the response is kept in summary form.  The
/// body must already have been capped (`accumulate_error_body`).
pub fn error_from_response(
    op: &str,
    path: &str,
    status: u16,
    headers: Vec<(String, String)>,
    body: Vec<u8>,
) -> (e: Error)
    ensures
        object_error_ok(e, classify_status_spec(status), op@, path@, status, headers@, body@),
        e.kind_spec() == classify_status_spec(status),
{
    Error::Object {
        kind: crate::error::classify_status(status),
        op: op.to_owned(),
        path: path.to_owned(),
        status,
        headers,
        body,
    }
}

fn ends_with_slash(s: &str) -> (r: bool)
    ensures
        r == ends_slash(s@),
{
    let cs = string_to_chars(s);
    cs.len() > 0 && cs[cs.len() - 1] == '/'
}

/// Interprets the HEAD response for `key`.  A 200 populates the record
/// from the headers; a 404 on a trailing-slash key is an implicit empty
/// directory, not a failure; anything else classifies as an error.
/// Malformed required headers violate the protocol contract and are fatal
/// for the call rather than a source of fabricated metadata.
pub fn interpret_stat_response(
    path: &str,
    key: &str,
    status: u16,
    headers: Vec<(String, String)>,
    body: Vec<u8>,
) -> (r: Result<Metadata, Error>)
    ensures
        status == 200 && stat_headers_wf(pairs_view(headers@)) ==> r is Ok && stat_metadata_ok(
            r->Ok_0,
            path@,
            key@,
            pairs_view(headers@),
        ),
        status == 200 && !stat_headers_wf(pairs_view(headers@)) ==> r is Err
            && r->Err_0.kind_spec() == ErrorKind::Unexpected,
        status == 404 && ends_slash(key@) ==> r is Ok && dir_metadata_ok(r->Ok_0, path@),
        status != 200 && !(status == 404 && ends_slash(key@)) ==> r is Err && object_error_ok(
            r->Err_0,
            classify_status_spec(status),
            "stat"@,
            path@,
            status,
            headers@,
            body@,
        ),
{
    if status == 200 {
        let mut m = Metadata::new();
        m.set_path(path);
        match find_header(&headers, "content-length") {
            Some(v) => {
                match parse_u64(v.as_str()) {
                    Some(n) => {
                        m.set_content_length(n);
                    },
                    None => {
                        return Err(
                            Error::Object {
                                kind: ErrorKind::Unexpected,
                                op: String::from_str("stat"),
                                path: path.to_owned(),
                                status,
                                headers,
                                body,
                            },
                        );
                    },
                }
            },
            None => {},
        }
        match find_header(&headers, "content-md5") {
            Some(v) => {
                m.set_content_md5(v.as_str());
            },
            None => {},
        }
        match find_header(&headers, "last-modified") {
            Some(v) => {
                match parse_rfc2822(v.as_str()) {
                    Some(t) => {
                        m.set_last_modified(t);
                    },
                    None => {
                        return Err(
                            Error::Object {
                                kind: ErrorKind::Unexpected,
                                op: String::from_str("stat"),
                                path: path.to_owned(),
                                status,
                                headers,
                                body,
                            },
                        );
                    },
                }
            },
            None => {},
        }
        if ends_with_slash(key) {
            m.set_mode(ObjectMode::DIR);
        } else {
            m.set_mode(ObjectMode::FILE);
        }
        m.set_complete();
        Ok(m)
    } else if status == 404 && ends_with_slash(key) {
        let mut m = Metadata::new();
        m.set_path(path);
        m.set_content_length(0);
        m.set_mode(ObjectMode::DIR);
        m.set_complete();
        Ok(m)
    } else {
        Err(error_from_response("stat", path, status, headers, body))
    }
}

impl Backend {
    /// The store-facing key of a caller path: the root joined with the
    /// normalized path, with leading slashes stripped.
    pub fn get_abs_path(&self, path: &str) -> (r: String)
        ensures
            r@ == abs_key_spec(self@.root, path@),
    {
        abs_key(self.root.as_str(), path)
    }

    /// The caller-visible path of a store key; the key must fall under
    /// the configured root.
    pub fn get_rel_path(&self, path: &str) -> (r: String)
        requires
            self@.root.is_prefix_of(seq!['/'] + crate::path::normalize_spec(path@)),
        ensures
            r@ == rel_path_spec(self@.root, path@),
    {
        rel_path(self.root.as_str(), path)
    }

    /// The GET request that reads a caller path, with optional offset and
    /// size bounds.
    pub fn read_request(&self, path: &str, offset: Option<u64>, size: Option<u64>) -> (r:
        RequestSpec)
        requires
            size is Some ==> size->0 > 0,
            offset is Some && size is Some ==> offset->0 + size->0 - 1 <= u64::MAX,
        ensures
            r.method == HttpMethod::Get,
            r.uri@ == object_uri_spec(self@, abs_key_spec(self@.root, path@)),
            header_pairs(r.headers@) == (if offset is Some || size is Some {
                seq![("range"@, range_header_spec(offset, size))]
            } else {
                Seq::<(Seq<char>, Seq<char>)>::empty()
            }) + sse_headers_spec(self@, false),
            r.body_length is None,
    {
        let key = self.get_abs_path(path);
        self.get_object_request(key.as_str(), offset, size)
    }

    /// Whether a read's response status means the body is the object's
    /// bytes: 200 (whole object) or 206 (the requested range).
    pub fn read_succeeded(status: u16) -> (r: bool)
        ensures
            r == (status == 200 || status == 206),
    {
        status == 200 || status == 206
    }

    /// The PUT request that writes `size` bytes to a caller path.
    pub fn write_request(&self, path: &str, size: u64) -> (r: RequestSpec)
        ensures
            r.method == HttpMethod::Put,
            r.uri@ == object_uri_spec(self@, abs_key_spec(self@.root, path@)),
            header_pairs(r.headers@) == seq![("content-length"@, dec_str(size as nat))]
                + sse_headers_spec(self@, true),
            r.body_length == Some(size),
    {
        let key = self.get_abs_path(path);
        self.put_object_request(key.as_str(), size)
    }

    /// The bytes written by a finished write: the declared size on a 200
    /// or 201 response, nothing otherwise.
    pub fn write_result(status: u16, size: u64) -> (r: Option<u64>)
        ensures
            r == (if status == 200 || status == 201 {
                Some(size)
            } else {
                None::<u64>
            }),
    {
        if status == 200 || status == 201 {
            Some(size)
        } else {
            None
        }
    }

    /// Decides `stat` for a caller path.  The virtual root is answered at
    /// once with a complete directory record and no network call; any
    /// other path needs its HEAD response interpreted.
    pub fn stat_request(&self, path: &str) -> (r: StatAction)
        ensures
            (match r {
                StatAction::Ready(m) => is_root_path(self@, path@) && dir_metadata_ok(m, path@),
                StatAction::Fetch { key, request } => {
                    &&& !is_root_path(self@, path@)
                    &&& key@ == abs_key_spec(self@.root, path@)
                    &&& request.method == HttpMethod::Head
                    &&& request.uri@ == object_uri_spec(self@, key@)
                    &&& header_pairs(request.headers@) == sse_headers_spec(self@, false)
                    &&& request.body_length is None
                },
            }),
    {
        let key = self.get_abs_path(path);
        let nk = normalize_path(key.as_str());
        let mut tc: Vec<char> = Vec::new();
        tc.push('/');
        let nkc = string_to_chars(nk.as_str());
        let mut j: usize = 0;
        while j < nkc.len()
            invariant
                j <= nkc.len(),
                tc@ == seq!['/'] + nkc@.take(j as int),
            decreases nkc.len() - j,
        {
            tc.push(nkc[j]);
            j = j + 1;
            proof {
                assert(tc@ =~= seq!['/'] + nkc@.take(j as int));
            }
        }
        proof {
            assert(nkc@.take(nkc@.len() as int) =~= nkc@);
        }
        let t = chars_to_string(&tc);
        if str_eq(t.as_str(), self.root.as_str()) {
            let mut m = Metadata::new();
            m.set_path(path);
            m.set_content_length(0);
            m.set_mode(ObjectMode::DIR);
            m.set_complete();
            StatAction::Ready(m)
        } else {
            let request = self.head_object_request(key.as_str());
            StatAction::Fetch { key, request }
        }
    }

    /// The DELETE request for a caller path.
    pub fn delete_request(&self, path: &str) -> (r: RequestSpec)
        ensures
            r.method == HttpMethod::Delete,
            r.uri@ == object_uri_spec(self@, abs_key_spec(self@.root, path@)),
            r.headers@.len() == 0,
            r.body_length is None,
    {
        let key = self.get_abs_path(path);
        self.delete_object_request(key.as_str())
    }

    /// Whether a delete's response status means the object is gone: 204.
    pub fn delete_succeeded(status: u16) -> (r: bool)
        ensures
            r == (status == 204),
    {
        status == 204
    }

    /// A fresh listing stream for the children of a caller path; the
    /// prefix listed under is the key with a trailing slash ensured.
    pub fn list_state(&self, path: &str) -> (s: ListState)
        ensures
            s@.prefix == (if !ends_slash(abs_key_spec(self@.root, path@)) && abs_key_spec(
                self@.root,
                path@,
            ).len() > 0 {
                abs_key_spec(self@.root, path@) + seq!['/']
            } else {
                abs_key_spec(self@.root, path@)
            }),
            s@.page.len() == 0,
            s@.cursor == 0,
            s@.token.len() == 0,
            !s@.exhausted,
            s@.yielded.len() == 0,
            s.wf(),
    {
        let mut key = self.get_abs_path(path);
        if !ends_with_slash(key.as_str()) && !key.as_str().is_empty() {
            let mut kc = string_to_chars(key.as_str());
            kc.push('/');
            proof {
                assert(kc@ =~= abs_key_spec(self@.root, path@) + seq!['/']);
            }
            key = chars_to_string(&kc);
        }
        ListState::new(key)
    }
}

} // verus!
