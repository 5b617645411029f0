//! The object store as the service uses it: buckets in a region, objects under keys, and
//! the public address of an object.

use vstd::prelude::*;
use vstd::string::StringExecFns;
use crate::errors::{internal_message, AppError, AppErrorType, AppErrorView};

verus! {

/// Whether `rusoto_core::Region::from_str` takes `name` for a region.
pub uninterp spec fn aws_region_known(name: Seq<char>) -> bool;

/// The region in which a bucket needs no location constraint.
pub open spec fn home_region() -> Seq<char> {
    "us-east-1"@
}

/// The region of the bucket that holds the avatars of users.
pub open spec fn application_region() -> Seq<char> {
    "eu-west-3"@
}

/// The bucket that holds the avatars of users.
pub open spec fn application_bucket() -> Seq<char> {
    "user-avatar-stampa"@
}

/// The public address of the object under `key` in a bucket of a region.
pub open spec fn object_url(bucket: Seq<char>, region: Seq<char>, key: Seq<char>) -> Seq<char> {
    "https://"@ + bucket + ".s3."@ + region + ".amazonaws.com/"@ + key
}

/// The failure that reports a call to the object store that did not go through.
pub open spec fn s3_failure(cause: Seq<char>) -> AppErrorView {
    AppErrorView {
        message: Some(internal_message()),
        cause: Some(cause),
        error_type: AppErrorType::S3Error,
    }
}

/// Why a region that is not known is refused.
pub open spec fn region_refused_cause() -> Seq<char> {
    "Can not load region."@
}

/// Why a bucket is not made under a name in use.
pub open spec fn bucket_exists_cause() -> Seq<char> {
    "The bucket exists already."@
}

/// Why nothing is put into a bucket that was never made.
pub open spec fn no_bucket_cause() -> Seq<char> {
    "The bucket does not exist."@
}

/// Why nothing is got from under a key that was never written.
pub open spec fn no_object_cause() -> Seq<char> {
    "Can not get object."@
}

/// Why a bucket is not made, if it is not: its region is not known, or a bucket goes by
/// its name already.
pub open spec fn bucket_refusal(store: ObjectStoreView, name: Seq<char>, region_known: bool) -> Option<
    AppErrorView,
> {
    if !region_known {
        Some(s3_failure(region_refused_cause()))
    } else if store.has_bucket(name) {
        Some(s3_failure(bucket_exists_cause()))
    } else {
        None
    }
}

/// Asks `rusoto_core::Region::from_str` whether it takes `region` for a region. It goes
/// by a fixed table of names, read without regard to case; `eu-west-3` is in that table.
#[verifier::external_body]
fn region_parses(region: &str) -> (known: bool)
    ensures
        known == aws_region_known(region@),
        region@ == "eu-west-3"@ ==> known,
{
    <rusoto_core::Region as std::str::FromStr>::from_str(region).is_ok()
}

/// A handle on one bucket of the object store.
#[derive(Debug)]
pub struct CloudClient {
    pub bucket_name: String,
    pub region: String,
}

/// The mathematical value of a [`CloudClient`].
pub struct CloudClientView {
    pub bucket_name: Seq<char>,
    pub region: Seq<char>,
}

impl View for CloudClient {
    type V = CloudClientView;

    open spec fn view(&self) -> CloudClientView {
        CloudClientView { bucket_name: self.bucket_name@, region: self.region@ }
    }
}

/// A bucket: its name and the region it was made in.
#[derive(Debug)]
pub struct Bucket {
    pub name: String,
    pub region: String,
}

/// The mathematical value of a [`Bucket`].
pub struct BucketView {
    pub name: Seq<char>,
    pub region: Seq<char>,
}

impl View for Bucket {
    type V = BucketView;

    open spec fn view(&self) -> BucketView {
        BucketView { name: self.name@, region: self.region@ }
    }
}

/// One write to the object store: the bytes put under a key of a bucket.
#[derive(Debug)]
pub struct StoredObject {
    pub bucket: String,
    pub key: String,
    pub body: Vec<u8>,
}

/// The mathematical value of a [`StoredObject`].
pub struct StoredObjectView {
    pub bucket: Seq<char>,
    pub key: Seq<char>,
    pub body: Seq<u8>,
}

impl View for StoredObject {
    type V = StoredObjectView;

    open spec fn view(&self) -> StoredObjectView {
        StoredObjectView { bucket: self.bucket@, key: self.key@, body: self.body@ }
    }
}

/// The object store, held in memory: the buckets made, and every write in the order in
/// which it was made.
pub struct ObjectStore {
    buckets: Vec<Bucket>,
    objects: Vec<StoredObject>,
}

/// The mathematical value of an [`ObjectStore`].
pub struct ObjectStoreView {
    pub buckets: Seq<BucketView>,
    pub objects: Seq<StoredObjectView>,
}

impl ObjectStoreView {
    /// Whether a bucket goes by `name`.
    pub open spec fn has_bucket(self, name: Seq<char>) -> bool {
        exists|i: int| 0 <= i < self.buckets.len() && (#[trigger] self.buckets[i]).name == name
    }

    /// Whether the write at place `at` is the last one under `key` of `bucket`.
    pub open spec fn is_latest(self, bucket: Seq<char>, key: Seq<char>, at: int) -> bool {
        &&& 0 <= at < self.objects.len()
        &&& self.objects[at].bucket == bucket
        &&& self.objects[at].key == key
        &&& forall|j: int|
            at < j < self.objects.len() ==> !((#[trigger] self.objects[j]).bucket == bucket
                && self.objects[j].key == key)
    }

    /// Whether anything was written under `key` of `bucket`.
    pub open spec fn holds(self, bucket: Seq<char>, key: Seq<char>) -> bool {
        exists|at: int| self.is_latest(bucket, key, at)
    }

    /// The bytes last written under `key` of `bucket`.
    pub open spec fn latest(self, bucket: Seq<char>, key: Seq<char>) -> Seq<u8> {
        self.objects[choose|at: int| self.is_latest(bucket, key, at)].body
    }
}

impl View for ObjectStore {
    type V = ObjectStoreView;

    closed spec fn view(&self) -> ObjectStoreView {
        ObjectStoreView {
            buckets: Seq::new(self.buckets@.len(), |i: int| self.buckets@[i]@),
            objects: Seq::new(self.objects@.len(), |i: int| self.objects@[i]@),
        }
    }
}

impl ObjectStore {
    /// A store without buckets.
    pub fn new() -> (store: ObjectStore)
        ensures
            store@.buckets == Seq::<BucketView>::empty(),
            store@.objects == Seq::<StoredObjectView>::empty(),
    {
        let store = ObjectStore { buckets: Vec::new(), objects: Vec::new() };
        assert(store@.buckets =~= Seq::<BucketView>::empty());
        assert(store@.objects =~= Seq::<StoredObjectView>::empty());
        store
    }

    /// The number of writes made so far.
    pub fn writes(&self) -> (count: usize)
        ensures
            count == self@.objects.len(),
    {
        self.objects.len()
    }

    fn find_bucket(&self, name: &String) -> (found: bool)
        ensures
            found == self@.has_bucket(name@),
    {
        let mut i: usize = 0;
        while i < self.buckets.len()
            invariant
                i <= self.buckets.len(),
                forall|k: int| 0 <= k < i ==> self.buckets@[k].name@ != name@,
            decreases self.buckets.len() - i,
        {
            if self.buckets[i].name == *name {
                assert(self@.buckets[i as int].name == name@);
                return true;
            }
            i = i + 1;
        }
        assert forall|k: int| 0 <= k < self@.buckets.len() implies (#[trigger] self@.buckets[k]).name
            != name@ by {
            assert(self.buckets@[k].name@ != name@);
        }
        false
    }
}

impl CloudClient {
    /// A handle on a bucket of a region, given whether the region is known.
    pub fn checked(bucket_name: String, region: String, region_known: bool) -> (made: Result<
        CloudClient,
        AppError,
    >)
        ensures
            match made {
                Ok(client) => region_known && client@ == (CloudClientView {
                    bucket_name: bucket_name@,
                    region: region@,
                }),
                Err(e) => !region_known && e@ == s3_failure(region_refused_cause()),
            },
    {
        if region_known {
            Ok(CloudClient { bucket_name, region })
        } else {
            Err(AppError::s3_error("Can not load region."))
        }
    }

    /// A handle on a bucket of a region. A region that is not known is refused.
    pub fn new(bucket_name: String, region: String) -> (made: Result<CloudClient, AppError>)
        ensures
            match made {
                Ok(client) => aws_region_known(region@) && client@ == (CloudClientView {
                    bucket_name: bucket_name@,
                    region: region@,
                }),
                Err(e) => !aws_region_known(region@) && e@ == s3_failure(region_refused_cause()),
            },
    {
        let known = region_parses(region.as_str());
        CloudClient::checked(bucket_name, region, known)
    }

    /// A handle on the bucket that holds the avatars of users.
    pub fn new_application_client() -> (made: Result<CloudClient, AppError>)
        ensures
            made matches Ok(client) && client@ == (CloudClientView {
                bucket_name: application_bucket(),
                region: application_region(),
            }),
    {
        let known = region_parses("eu-west-3");
        CloudClient::checked(
            String::from_str("user-avatar-stampa"),
            String::from_str("eu-west-3"),
            known,
        )
    }

    /// The public address of the object under `key`.
    pub fn url(&self, key: &str) -> (address: String)
        ensures
            address@ == object_url(self.bucket_name@, self.region@, key@),
    {
        let mut address = String::from_str("https://");
        address.append(self.bucket_name.as_str());
        address.append(".s3.");
        address.append(self.region.as_str());
        address.append(".amazonaws.com/");
        address.append(key);
        address
    }

    /// The location constraint under which a bucket is made in `region`: none in the home
    /// region, and the region itself anywhere else.
    pub fn bucket_location(region: &str) -> (location: Option<String>)
        ensures
            match location {
                Some(name) => region@ != home_region() && name@ == region@,
                None => region@ == home_region(),
            },
    {
        let name = region.to_owned();
        if name == String::from_str("us-east-1") {
            None
        } else {
            Some(name)
        }
    }

    /// Makes a bucket, given whether the region is known. A region that is not known is
    /// refused, and so is a name that a bucket goes by already.
    pub fn create_bucket_checked(
        store: &mut ObjectStore,
        bucket_name: String,
        region: String,
        region_known: bool,
    ) -> (made: Result<String, AppError>)
        ensures
            final(store)@.objects == old(store)@.objects,
            match bucket_refusal(old(store)@, bucket_name@, region_known) {
                Some(why) => made matches Err(e) && e@ == why && final(store)@ == old(store)@,
                None => made matches Ok(name) && name@ == bucket_name@ && final(store)@.buckets
                    == old(store)@.buckets.push(BucketView { name: bucket_name@, region: region@ }),
            },
    {
        if !region_known {
            return Err(AppError::s3_error("Can not load region."));
        }
        if store.find_bucket(&bucket_name) {
            return Err(AppError::s3_error("The bucket exists already."));
        }
        let name = bucket_name.clone();
        store.buckets.push(Bucket { name: bucket_name, region });
        assert(store@.buckets =~= old(store)@.buckets.push(
            BucketView { name: bucket_name@, region: region@ },
        ));
        assert(store@.objects =~= old(store)@.objects);
        Ok(name)
    }

    /// Makes a bucket in a region and hands back its name.
    pub fn create_bucket(store: &mut ObjectStore, bucket_name: String, region: String) -> (made:
        Result<String, AppError>)
        ensures
            final(store)@.objects == old(store)@.objects,
            match bucket_refusal(old(store)@, bucket_name@, aws_region_known(region@)) {
                Some(why) => made matches Err(e) && e@ == why && final(store)@ == old(store)@,
                None => made matches Ok(name) && name@ == bucket_name@ && final(store)@.buckets
                    == old(store)@.buckets.push(BucketView { name: bucket_name@, region: region@ }),
            },
    {
        let known = region_parses(region.as_str());
        CloudClient::create_bucket_checked(store, bucket_name, region, known)
    }

    /// Writes `body` under `key` of the bucket and hands back the public address of the
    /// object. Nothing is written where the bucket does not exist.
    pub fn put_object(&self, store: &mut ObjectStore, body: Vec<u8>, key: &str) -> (put: Result<
        String,
        AppError,
    >)
        ensures
            final(store)@.buckets == old(store)@.buckets,
            match put {
                Ok(address) => old(store)@.has_bucket(self.bucket_name@) && address@ == object_url(
                    self.bucket_name@,
                    self.region@,
                    key@,
                ) && final(store)@.objects == old(store)@.objects.push(
                    StoredObjectView { bucket: self.bucket_name@, key: key@, body: body@ },
                ),
                Err(e) => !old(store)@.has_bucket(self.bucket_name@) && e@ == s3_failure(
                    no_bucket_cause(),
                ) && final(store)@ == old(store)@,
            },
    {
        if !store.find_bucket(&self.bucket_name) {
            return Err(AppError::s3_error("The bucket does not exist."));
        }
        store.objects.push(
            StoredObject { bucket: self.bucket_name.clone(), key: key.to_owned(), body },
        );
        assert(store@.objects =~= old(store)@.objects.push(
            StoredObjectView { bucket: self.bucket_name@, key: key@, body: body@ },
        ));
        assert(store@.buckets =~= old(store)@.buckets);
        Ok(self.url(key))
    }

    /// The bytes last written under `key` of the bucket.
    pub fn get_object(&self, store: &ObjectStore, key: &str) -> (got: Result<Vec<u8>, AppError>)
        ensures
            got is Ok <==> store@.holds(self.bucket_name@, key@),
            got matches Ok(body) ==> body@ == store@.latest(self.bucket_name@, key@),
            got matches Err(e) ==> e@ == s3_failure(no_object_cause()),
    {
        let wanted = key.to_owned();
        let mut i: usize = store.objects.len();
        while i > 0
            invariant
                wanted@ == key@,
                i <= store.objects.len(),
                forall|j: int|
                    i <= j < store.objects.len() ==> !(store.objects@[j].bucket@
                        == self.bucket_name@ && store.objects@[j].key@ == key@),
            decreases i,
        {
            i = i - 1;
            if store.objects[i].bucket == self.bucket_name && store.objects[i].key == wanted {
                proof {
                    let bucket = self.bucket_name@;
                    assert(store@.is_latest(bucket, key@, i as int));
                    let at = choose|at: int| store@.is_latest(bucket, key@, at);
                    assert(store@.is_latest(bucket, key@, at));
                    if at < i {
                        assert(!(store@.objects[i as int].bucket == bucket
                            && store@.objects[i as int].key == key@));
                    } else if i < at {
                        assert(!(store@.objects[at].bucket == bucket && store@.objects[at].key
                            == key@));
                    }
                }
                return Ok(copy_bytes(&store.objects[i].body));
            }
        }
        proof {
            if store@.holds(self.bucket_name@, key@) {
                let at = choose|at: int| store@.is_latest(self.bucket_name@, key@, at);
                assert(store.objects@[at].bucket@ == self.bucket_name@);
            }
        }
        Err(AppError::s3_error("Can not get object."))
    }
}

/// A copy of a run of bytes.
pub fn copy_bytes(bytes: &Vec<u8>) -> (copy: Vec<u8>)
    ensures
        copy@ == bytes@,
{
    let mut copy: Vec<u8> = Vec::new();
    let mut i: usize = 0;
    while i < bytes.len()
        invariant
            i <= bytes.len(),
            copy@ == bytes@.subrange(0, i as int),
        decreases bytes.len() - i,
    {
        copy.push(bytes[i]);
        i = i + 1;
    }
    copy
}

} // verus!
