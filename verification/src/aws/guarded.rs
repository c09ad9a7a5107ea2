//! Guarded writes, step by step.
//!
//! Every write goes through the same steps: the version to write and the guard to write it under
//! are settled, the payload is serialized at that version, the request is sent, and the reply
//! becomes a result. An unconditional write has to read the version it is to move past first,
//! which opens a window another writer can land in; it starts over when that happens, a limited
//! number of times.
//!
//! Each step is a value that its successor consumes, so the steps can only be taken in order.

use crate::aws::item::{Item, Scalar};
use crate::aws::reply;
use crate::aws::reply::{put_reply, PutFailure};
use crate::aws::request;
use crate::aws::request::{
    build_item, guard, primary_key, project_version, Expression, WriteCondition,
};
use crate::error::{Error, ErrorView};
use crate::schema::{PrimaryIndex, INITIAL_DATA_VERSION};
use crate::text;
use vstd::prelude::*;
use vstd::string::*;

verus! {

/// How many times an unconditional write will re-read and retry before giving up.
///
/// Each retry closes on a fresher read, so exhausting this budget means sustained contention
/// rather than an unlucky interleaving.
pub const UNCONDITIONAL_WRITE_ATTEMPTS: u64 = 8;

/// The item that a write is about.
#[derive(Debug)]
struct Target<'a> {
    schema: &'a PrimaryIndex,
    pk: String,
    sk: Option<String>,
}

/// What an unconditional write says before an attempt.
#[verifier::ext_equal]
pub struct AttemptView {
    pub schema: PrimaryIndex,
    pub pk: Seq<char>,
    pub sk: Option<Seq<char>>,
    /// How many attempts there may be from here on, counting the one at hand.
    pub attempts: u64,
}

/// What a write says once its version and its guard are settled.
#[verifier::ext_equal]
pub struct WriteView {
    pub schema: PrimaryIndex,
    pub pk: Seq<char>,
    pub sk: Option<Seq<char>>,
    pub new_version: u64,
    pub condition: WriteCondition,
    /// How many more attempts a lost race leaves; `None` for a write that reports it instead.
    pub retries: Option<u64>,
}

/// The version to write and the guard to write it under, for a write that replaces an item
/// stored at `current`, or creates an absent one.
pub open spec fn plan_for(current: Option<u64>) -> (u64, WriteCondition) {
    match current {
        None => (INITIAL_DATA_VERSION, WriteCondition::MustNotExist),
        Some(version) => ((version + 1) as u64, WriteCondition::VersionIs(version)),
    }
}

/// The version that a guard was settled on; zero for an absent item.
pub open spec fn last_seen(condition: WriteCondition) -> u64 {
    match condition {
        WriteCondition::MustNotExist => 0,
        WriteCondition::VersionIs(version) => version,
    }
}

/// The write that an attempt comes to, once the stored version is known.
pub open spec fn planned(attempt: AttemptView, current: Option<u64>) -> WriteView {
    WriteView {
        schema: attempt.schema,
        pk: attempt.pk,
        sk: attempt.sk,
        new_version: plan_for(current).0,
        condition: plan_for(current).1,
        retries: Some((attempt.attempts - 1) as u64),
    }
}

/// A write that is to create the item under `(pk, sk)`, or the rejection of `sk`.
pub open spec fn begun_create(schema: PrimaryIndex, pk: Seq<char>, sk: Option<Seq<char>>) -> Result<
    WriteView,
    ErrorView,
> {
    if schema.accepts(sk) {
        Ok(
            WriteView {
                schema,
                pk,
                sk,
                new_version: plan_for(None).0,
                condition: plan_for(None).1,
                retries: None,
            },
        )
    } else {
        Err(schema.sk_error())
    }
}

/// A write that is to replace the item under `(pk, sk)`, or why it is not sent: `sk` is rejected,
/// or no write lands past `expected_version`.
pub open spec fn begun_put(
    schema: PrimaryIndex,
    pk: Seq<char>,
    sk: Option<Seq<char>>,
    expected_version: u64,
) -> Result<WriteView, ErrorView> {
    if !schema.accepts(sk) {
        Err(schema.sk_error())
    } else if expected_version == u64::MAX {
        Err(ErrorView::Conflict { pk, sk, expected_version })
    } else {
        Ok(
            WriteView {
                schema,
                pk,
                sk,
                new_version: plan_for(Some(expected_version)).0,
                condition: plan_for(Some(expected_version)).1,
                retries: None,
            },
        )
    }
}

/// A write that is to replace whatever is stored under `(pk, sk)`, or the rejection of `sk`.
pub open spec fn begun_overwrite(
    schema: PrimaryIndex,
    pk: Seq<char>,
    sk: Option<Seq<char>>,
) -> Result<AttemptView, ErrorView> {
    if schema.accepts(sk) {
        Ok(AttemptView { schema, pk, sk, attempts: UNCONDITIONAL_WRITE_ATTEMPTS })
    } else {
        Err(schema.sk_error())
    }
}

/// What a [`WriteOutcome`] says.
#[verifier::ext_equal]
pub enum OutcomeView {
    Written(u64),
    Retry(AttemptView),
    Failed(ErrorView),
}

/// What becomes of a write, now that the service has replied.
///
/// A guard that does not hold is reported, except by an unconditional write: that starts over
/// while it has attempts left, and reports a conflict with the version it saw last when it has
/// none.
pub open spec fn settled(write: WriteView, reply: Result<(), PutFailure>) -> OutcomeView {
    match reply {
        Ok(()) => OutcomeView::Written(write.new_version),
        Err(failure) => if failure is ConditionalCheckFailed && write.retries is Some {
            if write.retries->Some_0 > 0 {
                OutcomeView::Retry(
                    AttemptView {
                        schema: write.schema,
                        pk: write.pk,
                        sk: write.sk,
                        attempts: write.retries->Some_0,
                    },
                )
            } else {
                OutcomeView::Failed(
                    ErrorView::Conflict {
                        pk: write.pk,
                        sk: write.sk,
                        expected_version: last_seen(write.condition),
                    },
                )
            }
        } else {
            OutcomeView::Failed(
                reply::failed_write(write.pk, write.sk, write.condition, failure),
            )
        },
    }
}

/// An unconditional write that is to read the stored version.
#[derive(Debug)]
pub struct ReadStep<'a> {
    target: Target<'a>,
    attempts: u64,
}

/// A write that is to be serialized.
#[derive(Debug)]
pub struct EncodeStep<'a> {
    target: Target<'a>,
    new_version: u64,
    condition: WriteCondition,
    retries: Option<u64>,
}

/// A write that has been sent.
#[derive(Debug)]
pub struct SentStep<'a> {
    target: Target<'a>,
    new_version: u64,
    condition: WriteCondition,
    retries: Option<u64>,
}

/// A read that is after the stored version alone.
#[derive(Debug)]
pub struct VersionRequest {
    pub key: Vec<(String, Scalar)>,
    pub projection: Expression,
    /// Always set, so that the write which the read feeds isn't racing a replica lag it could
    /// have avoided.
    pub consistent_read: bool,
}

/// A guarded write.
#[derive(Debug)]
pub struct PutRequest<V> {
    pub item: Item<V>,
    pub condition: Expression,
}

/// How a write goes on behind the reply to it.
#[derive(Debug)]
pub enum WriteOutcome<'a> {
    /// The item is stored at this version.
    Written(u64),
    /// Someone wrote between the read and the write: start over.
    Retry(ReadStep<'a>),
    /// The write failed.
    Failed(Error),
}

impl<'a> View for ReadStep<'a> {
    type V = AttemptView;

    closed spec fn view(&self) -> AttemptView {
        AttemptView {
            schema: *self.target.schema,
            pk: self.target.pk@,
            sk: text::chars_of(self.target.sk),
            attempts: self.attempts,
        }
    }
}

impl<'a> View for EncodeStep<'a> {
    type V = WriteView;

    closed spec fn view(&self) -> WriteView {
        WriteView {
            schema: *self.target.schema,
            pk: self.target.pk@,
            sk: text::chars_of(self.target.sk),
            new_version: self.new_version,
            condition: self.condition,
            retries: self.retries,
        }
    }
}

impl<'a> View for SentStep<'a> {
    type V = WriteView;

    closed spec fn view(&self) -> WriteView {
        WriteView {
            schema: *self.target.schema,
            pk: self.target.pk@,
            sk: text::chars_of(self.target.sk),
            new_version: self.new_version,
            condition: self.condition,
            retries: self.retries,
        }
    }
}

impl<'a> View for WriteOutcome<'a> {
    type V = OutcomeView;

    open spec fn view(&self) -> OutcomeView {
        match *self {
            WriteOutcome::Written(version) => OutcomeView::Written(version),
            WriteOutcome::Retry(step) => OutcomeView::Retry(step@),
            WriteOutcome::Failed(error) => OutcomeView::Failed(error@),
        }
    }
}

impl<'a> Target<'a> {
    /// The sort key attribute of the target, whose `sk` the schema has accepted.
    fn sk_attr(&self) -> (sk_attr: Option<(&'a str, String)>)
        ensures
            crate::schema::attribute_of(sk_attr) == self.schema.sk_attribute(
                text::chars_of(self.sk),
            ),
    {
        match (&self.schema.keys.sk_identifier, &self.sk) {
            (Some(name), Some(value)) => Some((name.as_str(), value.clone())),
            _ => None,
        }
    }
}

fn target<'a>(schema: &'a PrimaryIndex, pk: String, sk: Option<String>) -> (target: Result<
    Target<'a>,
    Error,
>)
    ensures
        match target {
            Ok(target) => schema.accepts(text::chars_of(sk)) && target == (Target { schema, pk, sk }),
            Err(error) => !schema.accepts(text::chars_of(sk)) && error@ == schema.sk_error(),
        },
{
    match schema.resolve_sk(&sk) {
        Ok(_) => Ok(Target { schema, pk, sk }),
        Err(error) => Err(error),
    }
}

/// Begins a write that is to create the item under `(pk, sk)`: it lands at the initial version,
/// if nothing is stored there.
pub fn begin_create<'a>(schema: &'a PrimaryIndex, pk: String, sk: Option<String>) -> (step: Result<
    EncodeStep<'a>,
    Error,
>)
    ensures
        match step {
            Ok(step) => begun_create(*schema, pk@, text::chars_of(sk))
                == Ok::<WriteView, ErrorView>(step@),
            Err(error) => begun_create(*schema, pk@, text::chars_of(sk))
                == Err::<WriteView, ErrorView>(error@),
        },
{
    match target(schema, pk, sk) {
        Ok(target) => Ok(
            EncodeStep {
                target,
                new_version: INITIAL_DATA_VERSION,
                condition: WriteCondition::MustNotExist,
                retries: None,
            },
        ),
        Err(error) => Err(error),
    }
}

/// Begins a write that is to replace the item under `(pk, sk)`: it lands one past
/// `expected_version`, if that is what the item is stored at. An expected version of zero stands
/// for an item that exists but carries no version, which the write upgrades.
///
/// No write lands past the largest version, so one that expects it cannot succeed, and is answered
/// with [`Error::Conflict`] without being sent.
pub fn begin_put<'a>(
    schema: &'a PrimaryIndex,
    pk: String,
    sk: Option<String>,
    expected_version: u64,
) -> (step: Result<EncodeStep<'a>, Error>)
    ensures
        match step {
            Ok(step) => begun_put(*schema, pk@, text::chars_of(sk), expected_version)
                == Ok::<WriteView, ErrorView>(step@),
            Err(error) => begun_put(*schema, pk@, text::chars_of(sk), expected_version)
                == Err::<WriteView, ErrorView>(error@),
        },
{
    match target(schema, pk, sk) {
        Ok(target) => {
            if expected_version == u64::MAX {
                return Err(
                    Error::Conflict { pk: target.pk, sk: target.sk, expected_version },
                );
            }
            Ok(
                EncodeStep {
                    target,
                    new_version: expected_version + 1,
                    condition: WriteCondition::VersionIs(expected_version),
                    retries: None,
                },
            )
        },
        Err(error) => Err(error),
    }
}

/// Begins a write that is to replace whatever is stored under `(pk, sk)`, if anything is.
pub fn begin_overwrite<'a>(schema: &'a PrimaryIndex, pk: String, sk: Option<String>) -> (step:
    Result<ReadStep<'a>, Error>)
    ensures
        match step {
            Ok(step) => begun_overwrite(*schema, pk@, text::chars_of(sk))
                == Ok::<AttemptView, ErrorView>(step@),
            Err(error) => begun_overwrite(*schema, pk@, text::chars_of(sk))
                == Err::<AttemptView, ErrorView>(error@),
        },
{
    match target(schema, pk, sk) {
        Ok(target) => Ok(ReadStep { target, attempts: UNCONDITIONAL_WRITE_ATTEMPTS }),
        Err(error) => Err(error),
    }
}

impl<'a> ReadStep<'a> {
    /// An attempt is at hand.
    #[verifier::type_invariant]
    closed spec fn has_an_attempt(self) -> bool {
        self.attempts > 0
    }

    /// The request that reads the stored version.
    pub fn request(&self) -> (request: VersionRequest)
        ensures
            request::values_view(request.key@) == request::key_attributes(
                self@.schema,
                self@.pk,
                self@.schema.sk_attribute(self@.sk),
            ),
            request.projection@ == request::version_projection(self@.schema),
            request.consistent_read,
    {
        let sk_attr = self.target.sk_attr();
        VersionRequest {
            key: primary_key(self.target.schema, self.target.pk.as_str(), &sk_attr),
            projection: project_version(self.target.schema),
            consistent_read: true,
        }
    }

    /// Settles the version and the guard, now that the stored version is known.
    pub fn plan(self, current: Option<u64>) -> (step: EncodeStep<'a>)
        requires
            current != Some(u64::MAX),
        ensures
            self@.attempts > 0,
            step@ == planned(self@, current),
    {
        proof {
            use_type_invariant(&self);
        }
        let retries: Option<u64> = Some(self.attempts - 1);
        match current {
            None => EncodeStep {
                target: self.target,
                new_version: INITIAL_DATA_VERSION,
                condition: WriteCondition::MustNotExist,
                retries,
            },
            Some(version) => EncodeStep {
                target: self.target,
                new_version: version + 1,
                condition: WriteCondition::VersionIs(version),
                retries,
            },
        }
    }
}

impl<'a> EncodeStep<'a> {
    /// The version to serialize the payload at.
    pub fn new_version(&self) -> (new_version: u64)
        ensures
            new_version == self@.new_version,
    {
        self.new_version
    }

    /// The request to send, out of what serializing the payload at the new version came to. The
    /// item carries the new version, whatever the payload holds under that name.
    pub fn request<V>(self, contents: Result<Item<V>, String>) -> (request: Result<
        (PutRequest<V>, SentStep<'a>),
        Error,
    >)
        ensures
            match (contents, request) {
                (Ok(before), Ok((request, step))) => {
                    &&& request.item@ == request::built_item(
                        self@.schema,
                        self@.pk,
                        self@.schema.sk_attribute(self@.sk),
                        self@.new_version,
                        before@,
                    )
                    &&& request.condition@ == request::guard_expression(
                        self@.schema,
                        self@.condition,
                    )
                    &&& step@ == self@
                },
                (Err(reason), Err(error)) => error@ == request::unserializable_item(
                    self@.pk,
                    reason@,
                ),
                _ => false,
            },
    {
        let sk_attr = self.target.sk_attr();
        match build_item(
            self.target.schema,
            self.target.pk.as_str(),
            &sk_attr,
            self.new_version,
            contents,
        ) {
            Ok(item) => {
                let condition = guard(self.target.schema, self.condition);
                Ok(
                    (
                        PutRequest { item, condition },
                        SentStep {
                            target: self.target,
                            new_version: self.new_version,
                            condition: self.condition,
                            retries: self.retries,
                        },
                    ),
                )
            },
            Err(error) => Err(error),
        }
    }
}

impl<'a> SentStep<'a> {
    /// What becomes of the write, now that the service has replied.
    pub fn settle(self, reply: Result<(), PutFailure>) -> (outcome: WriteOutcome<'a>)
        ensures
            outcome@ == settled(self@, reply),
    {
        match put_reply(self.target.pk.as_str(), &self.target.sk, self.condition, reply) {
            Ok(()) => WriteOutcome::Written(self.new_version),
            Err(error) => match self.retries {
                Some(retries) => if !error.is_lost_race() {
                    WriteOutcome::Failed(error)
                } else if retries > 0 {
                    WriteOutcome::Retry(ReadStep { target: self.target, attempts: retries })
                } else {
                    let expected_version: u64 = match self.condition {
                        WriteCondition::MustNotExist => 0,
                        WriteCondition::VersionIs(version) => version,
                    };
                    WriteOutcome::Failed(
                        Error::Conflict {
                            pk: self.target.pk,
                            sk: self.target.sk,
                            expected_version,
                        },
                    )
                },
                None => WriteOutcome::Failed(error),
            },
        }
    }
}

} // verus!
