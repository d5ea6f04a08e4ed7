//! The bucket to watch, and how to reach it.

use super::object::{CompactS3Object, S3Object};
use super::secret::Secret;
use aws_config::Region;
use aws_credential_types::Credentials;
use std::time::SystemTime;
use vstd::prelude::*;

verus! {

/// `aws_credential_types::Credentials`, carried through as it is.
#[verifier::external_type_specification]
#[verifier::external_body]
pub struct ExCredentials(aws_credential_types::Credentials);

/// `aws_config::Region`, carried through as it is.
#[verifier::external_type_specification]
#[verifier::external_body]
pub struct ExRegion(aws_config::Region);

/// `std::time::SystemTime`, carried through as it is.
#[verifier::external_type_specification]
#[verifier::external_body]
pub struct ExSystemTime(std::time::SystemTime);

/// The name that the credentials of this library go by in the SDK.
pub const PROVIDER_NAME: &'static str = "resy";

/// The credentials that `Credentials::new` makes of an access key id, a secret access key, a
/// session token, a time of expiry and a provider's name.
pub uninterp spec fn credentials_of(
    access_key_id: Seq<char>,
    secret_access_key: Seq<char>,
    session_token: Option<Seq<char>>,
    expires_after: Option<SystemTime>,
    provider_name: Seq<char>,
) -> Credentials;

/// The region that `Region::new` makes of a name.
pub uninterp spec fn region_of(name: Seq<char>) -> Region;

/// Calls `aws_credential_types::Credentials::new`. Claims that the credentials depend on the five
/// arguments alone.
#[verifier::external_body]
fn new_credentials(
    access_key_id: &str,
    secret_access_key: &str,
    session_token: Option<String>,
    expires_after: Option<SystemTime>,
    provider_name: &'static str,
) -> (credentials: Credentials)
    ensures
        credentials == credentials_of(
            access_key_id@,
            secret_access_key@,
            super::listing::text(session_token),
            expires_after,
            provider_name@,
        ),
{
    Credentials::new(
        access_key_id,
        secret_access_key,
        session_token,
        expires_after,
        provider_name,
    )
}

/// Calls `aws_config::Region::new`. Claims that the region depends on its name alone.
#[verifier::external_body]
fn new_region(name: String) -> (region: Region)
    ensures
        region == region_of(name@),
{
    Region::new(name)
}

/// What a client of the service is configured with.
pub struct ClientSettings {
    pub credentials: Credentials,
    pub region: Region,
    pub endpoint_url: Option<String>,
}

/// A bucket, and the credentials, the region and the endpoint to reach it with.
pub struct S3 {
    pub bucket: String,
    pub region: String,
    pub access_key_id: Secret,
    pub secret_access_key: Secret,
    pub endpoint_url: Option<String>,
}

impl S3 {
    /// A bucket at the endpoint that the service has for the region.
    pub fn new(
        bucket: String,
        access_key_id: String,
        secret_access_key: String,
        region: String,
    ) -> (s3: S3)
        ensures
            s3.bucket == bucket,
            s3.region == region,
            s3.access_key_id@ == access_key_id@,
            s3.secret_access_key@ == secret_access_key@,
            s3.endpoint_url is None,
    {
        S3 {
            bucket,
            access_key_id: Secret::new(access_key_id),
            secret_access_key: Secret::new(secret_access_key),
            region,
            endpoint_url: None,
        }
    }

    /// A bucket at an endpoint of its own.
    pub fn new_with_endpoint(
        bucket: String,
        access_key_id: String,
        secret_access_key: String,
        region: String,
        endpoint_url: String,
    ) -> (s3: S3)
        ensures
            s3.bucket == bucket,
            s3.region == region,
            s3.access_key_id@ == access_key_id@,
            s3.secret_access_key@ == secret_access_key@,
            s3.endpoint_url == Some(endpoint_url),
    {
        S3 {
            bucket,
            access_key_id: Secret::new(access_key_id),
            secret_access_key: Secret::new(secret_access_key),
            region,
            endpoint_url: Some(endpoint_url),
        }
    }

    /// The access key id, in the clear.
    pub fn get_access_key_id(&self) -> (text: &str)
        ensures
            text@ == self.access_key_id@,
    {
        self.access_key_id.expose_secret()
    }

    /// The secret access key, in the clear.
    pub fn get_secret_access_key(&self) -> (text: &str)
        ensures
            text@ == self.secret_access_key@,
    {
        self.secret_access_key.expose_secret()
    }

    /// Wipes the credentials from memory and leaves the rest as it is.
    pub fn zeroize(&mut self)
        ensures
            final(self).access_key_id@ == super::secret::wiped(old(self).access_key_id@),
            final(self).secret_access_key@ == super::secret::wiped(old(self).secret_access_key@),
            final(self).access_key_id@.len() == vstd::utf8::encode_utf8(
                old(self).access_key_id@,
            ).len(),
            final(self).secret_access_key@.len() == vstd::utf8::encode_utf8(
                old(self).secret_access_key@,
            ).len(),
            forall|i: int|
                0 <= i < final(self).access_key_id@.len()
                    ==> #[trigger] final(self).access_key_id@[i] == '\0',
            forall|i: int|
                0 <= i < final(self).secret_access_key@.len()
                    ==> #[trigger] final(self).secret_access_key@[i] == '\0',
            final(self).bucket == old(self).bucket,
            final(self).region == old(self).region,
            final(self).endpoint_url == old(self).endpoint_url,
    {
        self.access_key_id.zeroize();
        self.secret_access_key.zeroize();
    }

    /// What a client for this bucket is configured with: lasting credentials without a session
    /// token, the region, and the endpoint where there is one of its own.
    pub fn client_settings(&self) -> (settings: ClientSettings)
        ensures
            settings.credentials == credentials_of(
                self.access_key_id@,
                self.secret_access_key@,
                None,
                None,
                PROVIDER_NAME@,
            ),
            settings.credentials == credentials_of(
                self.access_key_id@,
                self.secret_access_key@,
                None,
                None,
                "resy"@,
            ),
            settings.region == region_of(self.region@),
            settings.endpoint_url == self.endpoint_url,
    {
        ClientSettings {
            credentials: new_credentials(
                self.get_access_key_id(),
                self.get_secret_access_key(),
                None,
                None,
                PROVIDER_NAME,
            ),
            region: new_region(self.region.clone()),
            endpoint_url: match &self.endpoint_url {
                Some(endpoint_url) => Some(endpoint_url.clone()),
                None => None,
            },
        }
    }

    /// The object of the given key that the remembered state describes.
    pub fn compact_to_s3_object(&self, key: &str, compact: &CompactS3Object) -> (object: S3Object)
        ensures
            object@ == compact@.object(key@),
            object.key@ == key@,
            object.etag@ == compact.etag@,
            compact.size <= i64::MAX ==> object.size == compact.size,
            compact.size > i64::MAX ==> object.size == compact.size - 0x1_0000_0000_0000_0000,
            object.last_modified@ == super::timestamp::moment_at(compact.last_modified as int, 0),
    {
        compact.clone().into_object(key.to_string())
    }
}

} // verus!
