//! The deploy, invoke, and startup-recovery decisions, as driven by the two
//! front-ends. The listeners perform the outside work — compiling and
//! instantiating the module, persisting the artifact, sending on the
//! worker's inbox — and hand the outcomes to these functions, which decide
//! what the registry holds and what the caller is told.

use vstd::prelude::*;
use crate::artifact::{artifact_hash_hex, key_of_blob_name, module_hash_hex};
use crate::registry::Registry;
use crate::status::{DeployError, InvokeError};

verus! {

/// Largest deploy body accepted by the admin front-end: 256 MiB.
pub const MAX_DEPLOY_BODY_BYTES: u64 = 268435456;

/// Whether a deploy body of this size is admitted. A body of exactly the
/// limit passes; one byte more is rejected.
pub fn deploy_body_admitted(len: u64) -> (r: bool)
    ensures
        r == (len <= MAX_DEPLOY_BODY_BYTES),
{
    len <= MAX_DEPLOY_BODY_BYTES
}

/// What a successful deploy hands back: the artifact's hash text for the
/// client, and the worker the deploy replaced, if any, whose inbox sender
/// must now be dropped to terminate it.
#[derive(Debug)]
pub struct Deployed {
    pub hash: Vec<u8>,
    pub replaced: Option<u64>,
}

/// The deploy decision, taken under the registry writer lock.
///
/// `spawned` is the worker the admission path managed to compile and
/// instantiate for the artifact, if it did; `persisted` says whether the
/// artifact's bytes were then durably written to the object store. Either
/// failure surfaces as an error and leaves the registry untouched; only
/// when both succeeded is the worker registered — replacing any prior
/// worker under the key, which is handed back to be dropped — and the
/// artifact's hash text returned.
pub fn deploy_module(
    registry: &mut Registry,
    key: Vec<u8>,
    bytes: &Vec<u8>,
    spawned: Option<u64>,
    persisted: bool,
) -> (r: Result<Deployed, DeployError>)
    requires
        old(registry).wf(),
    ensures
        final(registry).wf(),
        match spawned {
            None => {
                &&& r matches Err(e) && e == DeployError::CompileFailed
                &&& final(registry)@ == old(registry)@
            },
            Some(worker) => {
                if persisted {
                    &&& r matches Ok(d) && d.hash@ == artifact_hash_hex(bytes@)
                        && d.replaced == (if old(registry)@.contains_key(key@) {
                        Some(old(registry)@[key@])
                    } else {
                        None
                    })
                    &&& final(registry)@ == old(registry)@.insert(key@, worker)
                } else {
                    &&& r matches Err(e) && e == DeployError::StoreFailed
                    &&& final(registry)@ == old(registry)@
                }
            },
        },
{
    let hash = module_hash_hex(bytes);
    match spawned {
        None => Err(DeployError::CompileFailed),
        Some(worker) => {
            if persisted {
                let replaced = registry.register(key, worker);
                Ok(Deployed { hash, replaced })
            } else {
                Err(DeployError::StoreFailed)
            }
        },
    }
}

/// The invoke lookup, taken under the registry reader lock: the worker
/// registered under the key, or the miss the proxy reports as 404.
pub fn invoke_module(registry: &Registry, key: &Vec<u8>) -> (r: Result<u64, InvokeError>)
    requires
        registry.wf(),
    ensures
        registry@.contains_key(key@) ==> r == Ok::<u64, InvokeError>(registry@[key@]),
        !registry@.contains_key(key@) ==> r == Err::<u64, InvokeError>(InvokeError::UnknownKey),
{
    match registry.lookup(key) {
        Some(worker) => Ok(worker),
        None => Err(InvokeError::UnknownKey),
    }
}

/// What awaiting the worker's answer produced, once the request was handed
/// to the inbox.
#[derive(Clone, Copy, PartialEq, Eq, Structural, Debug)]
pub enum AwaitedAnswer {
    /// The worker delivered a guest response to forward.
    Response,
    /// The worker reported a structured error.
    GuestError,
    /// The worker dropped the channel without answering.
    Dropped,
}

/// How the proxy concludes an invocation whose worker was found: `sent`
/// says whether the inbox accepted the request, `answer` what came back on
/// the response channel.
pub fn invoke_outcome(sent: bool, answer: &AwaitedAnswer) -> (r: Result<(), InvokeError>)
    ensures
        !sent ==> r == Err::<(), InvokeError>(InvokeError::WorkerGone),
        sent && *answer == AwaitedAnswer::Response ==> r is Ok,
        sent && *answer == AwaitedAnswer::GuestError ==> r == Err::<(), InvokeError>(
            InvokeError::GuestFailure,
        ),
        sent && *answer == AwaitedAnswer::Dropped ==> r == Err::<(), InvokeError>(
            InvokeError::WorkerAborted,
        ),
{
    if !sent {
        return Err(InvokeError::WorkerGone);
    }
    match answer {
        AwaitedAnswer::Response => Ok(()),
        AwaitedAnswer::GuestError => Err(InvokeError::GuestFailure),
        AwaitedAnswer::Dropped => Err(InvokeError::WorkerAborted),
    }
}

/// The per-entry decision of startup recovery: an object-store entry of
/// file kind yields the module key recovered from its blob name; any other
/// entry is passed over.
pub fn recover_entry(name: &Vec<u8>, is_file: bool) -> (r: Option<Vec<u8>>)
    ensures
        is_file ==> (r matches Some(key) && key@ == key_of_blob_name(name@)),
        !is_file ==> r is None,
{
    if is_file {
        Some(crate::artifact::key_of_blob(name))
    } else {
        None
    }
}

} // verus!
